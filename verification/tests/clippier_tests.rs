use moosicbox::clippier::{
    create_map, dependency_commands, fetch_features, package_entries, process_features,
    target_oses, ClippierConf, ClippierDependency, FeaturesList, OutputType,
};
use moosicbox::split::split;

fn strings(items: &[&str]) -> Vec<String> {
    items.iter().map(|x| x.to_string()).collect()
}

fn lens<T>(pieces: &[&[T]]) -> Vec<usize> {
    pieces.iter().map(|p| p.len()).collect()
}

#[test]
fn split_spreads_items_evenly_over_few_pieces() {
    let items: Vec<u32> = (1..=10).collect();
    let pieces = split(&items, 3);
    assert_eq!(lens(&pieces), vec![3, 3, 2, 2]);
    let back: Vec<u32> = pieces.concat();
    assert_eq!(back, items);
}

#[test]
fn split_puts_longer_pieces_first() {
    let items = [1, 2, 3, 4, 5];
    let pieces = split(&items, 2);
    assert_eq!(lens(&pieces), vec![2, 2, 1]);
    assert_eq!(pieces[0], &[1, 2]);
    assert_eq!(pieces[2], &[5]);
}

#[test]
fn split_keeps_short_input_whole() {
    let items = ["a"];
    let pieces = split(&items, 5);
    assert_eq!(pieces.len(), 1);
    assert_eq!(pieces[0], &["a"]);
}

#[test]
fn split_divides_exactly_when_it_can() {
    let items = [0u8; 12];
    assert_eq!(lens(&split(&items, 4)), vec![4, 4, 4]);
    assert_eq!(lens(&split(&items, 5)), vec![4, 4, 4]);
    assert_eq!(lens(&split(&items, 1)), vec![1; 12]);
}

#[test]
fn process_features_without_chunk_size_keeps_the_list() {
    let features = strings(&["a", "b", "c"]);
    match process_features(features.clone(), None, false) {
        FeaturesList::NotChunked(x) => assert_eq!(x, features),
        FeaturesList::Chunked(_) => panic!("expected an unchunked list"),
    }
}

#[test]
fn process_features_keeps_fitting_list_in_one_chunk() {
    let features = strings(&["a", "b", "c"]);
    match process_features(features.clone(), Some(3), true) {
        FeaturesList::Chunked(x) => assert_eq!(x, vec![features]),
        FeaturesList::NotChunked(_) => panic!("expected chunks"),
    }
}

#[test]
fn process_features_spreads_or_cuts() {
    let features: Vec<String> = (0..10).map(|i| format!("f{i}")).collect();
    let spread = match process_features(features.clone(), Some(4), true) {
        FeaturesList::Chunked(x) => x,
        FeaturesList::NotChunked(_) => panic!("expected chunks"),
    };
    assert_eq!(spread.iter().map(Vec::len).collect::<Vec<_>>(), vec![4, 3, 3]);
    assert_eq!(spread.concat(), features);

    let cut = match process_features(features.clone(), Some(4), false) {
        FeaturesList::Chunked(x) => x,
        FeaturesList::NotChunked(_) => panic!("expected chunks"),
    };
    assert_eq!(cut.iter().map(Vec::len).collect::<Vec<_>>(), vec![4, 4, 2]);
    assert_eq!(cut[2], strings(&["f8", "f9"]));
    assert_eq!(cut.concat(), features);
}

#[test]
fn process_features_single_feature_with_spread_is_cut() {
    let features = strings(&["a", "b"]);
    match process_features(features, Some(1), true) {
        FeaturesList::Chunked(x) => assert_eq!(x, vec![strings(&["a"]), strings(&["b"])]),
        FeaturesList::NotChunked(_) => panic!("expected chunks"),
    }
}

#[test]
fn process_features_zero_chunk_size_with_no_features() {
    match process_features(vec![], Some(0), false) {
        FeaturesList::Chunked(x) => assert_eq!(x, vec![Vec::<String>::new()]),
        FeaturesList::NotChunked(_) => panic!("expected chunks"),
    }
}

#[test]
fn fetch_features_takes_window() {
    let keys = strings(&["a", "b", "c", "d"]);
    assert_eq!(fetch_features(Some(keys.clone()), Some(1), Some(2)), strings(&["b", "c"]));
    assert_eq!(fetch_features(Some(keys.clone()), None, None), keys);
    assert_eq!(fetch_features(Some(keys.clone()), Some(2), Some(10)), strings(&["c", "d"]));
    assert_eq!(fetch_features(Some(keys.clone()), Some(4), None), Vec::<String>::new());
    assert_eq!(fetch_features(None, Some(1), Some(2)), Vec::<String>::new());
}

fn conf() -> ClippierConf {
    ClippierConf {
        os: Some(strings(&["ubuntu-latest", "macos-latest"])),
        dependencies: vec![
            (
                "alsa".to_string(),
                ClippierDependency {
                    command: "sudo apt install libasound2-dev".to_string(),
                    features: Some(strings(&["cpal", "alsa"])),
                    os: Some("ubuntu-latest".to_string()),
                },
            ),
            (
                "always".to_string(),
                ClippierDependency {
                    command: "echo hi".to_string(),
                    features: None,
                    os: None,
                },
            ),
            (
                "mac".to_string(),
                ClippierDependency {
                    command: "brew install x".to_string(),
                    features: None,
                    os: Some("macos-latest".to_string()),
                },
            ),
        ],
    }
}

#[test]
fn dependency_commands_filter_by_os_and_features() {
    let conf = conf();
    assert_eq!(
        dependency_commands(&conf, "ubuntu-latest", &strings(&["cpal"])),
        Some("sudo apt install libasound2-dev\necho hi".to_string())
    );
    assert_eq!(
        dependency_commands(&conf, "ubuntu-latest", &strings(&["other"])),
        Some("echo hi".to_string())
    );
    assert_eq!(
        dependency_commands(&conf, "macos-latest", &strings(&["cpal"])),
        Some("echo hi\nbrew install x".to_string())
    );
    let empty = ClippierConf { os: None, dependencies: vec![] };
    assert_eq!(dependency_commands(&empty, "ubuntu-latest", &strings(&["cpal"])), None);
}

#[test]
fn create_map_fills_entry() {
    let conf = conf();
    let entry = create_map("macos-latest", "packages/a", "a", &strings(&["x"]), Some(&conf));
    assert_eq!(entry.os, "macos-latest");
    assert_eq!(entry.path, "packages/a");
    assert_eq!(entry.name, "a");
    assert_eq!(entry.features, strings(&["x"]));
    assert_eq!(entry.dependencies.as_deref(), Some("echo hi\nbrew install x"));
    let bare = create_map("macos-latest", "packages/a", "a", &strings(&["x"]), None);
    assert_eq!(bare.dependencies, None);
}

#[test]
fn target_oses_default_to_ubuntu() {
    assert_eq!(target_oses(None), strings(&["ubuntu-latest"]));
    assert_eq!(target_oses(Some(&conf())), strings(&["ubuntu-latest", "macos-latest"]));
    let no_os = ClippierConf { os: None, dependencies: vec![] };
    assert_eq!(target_oses(Some(&no_os)), strings(&["ubuntu-latest"]));
}

#[test]
fn package_entries_cross_oses_and_chunks() {
    let oses = strings(&["linux", "windows"]);
    let list = FeaturesList::Chunked(vec![strings(&["a"]), strings(&["b", "c"])]);
    let entries = package_entries(&oses, "p", "n", &list, None);
    let got: Vec<(String, Vec<String>)> =
        entries.into_iter().map(|e| (e.os, e.features)).collect();
    assert_eq!(
        got,
        vec![
            ("linux".to_string(), strings(&["a"])),
            ("linux".to_string(), strings(&["b", "c"])),
            ("windows".to_string(), strings(&["a"])),
            ("windows".to_string(), strings(&["b", "c"])),
        ]
    );
    let whole = FeaturesList::NotChunked(strings(&["a", "b"]));
    let entries = package_entries(&oses, "p", "n", &whole, None);
    assert_eq!(entries.len(), 2);
    assert_eq!(entries[1].os, "windows");
    assert_eq!(entries[1].features, strings(&["a", "b"]));
}

#[test]
fn output_type_compares() {
    assert_eq!(OutputType::Json, OutputType::Json);
    assert_ne!(OutputType::Json, OutputType::Raw);
}
