use moosicbox::download::{
    format_class_name, format_size, get_os_header, release_sections, FileAsset, Os, OsAsset,
    OsRelease,
};
use moosicbox::image::Encoding;
use moosicbox::menu::{
    album_artwork_path, album_cache_key, album_found, album_from_row, album_tracks_cache_key,
    albums_from_rows, artist_albums_cache_key, artist_cache_key, artist_found, AlbumRow,
    GetAlbumError, GetArtistError,
};
use moosicbox::text::parse_usize;
use moosicbox::tunnel::{TunnelPacket, TunnelTarget, TunnelWebsocketSender};
use moosicbox::upnp::{scan_device, DeviceTree};

#[test]
fn os_header_names_known_systems() {
    assert_eq!(get_os_header("windows"), "Windows");
    assert_eq!(get_os_header("mac_intel"), "macOS");
    assert_eq!(get_os_header("linux"), "Linux");
    assert_eq!(get_os_header("android"), "Android");
    assert_eq!(get_os_header("plan9"), "plan9");
}

#[test]
fn format_size_prints_tenths_of_the_unit() {
    assert_eq!(format_size(5 * 1024 * 1024), "5.0 MiB");
    assert_eq!(format_size(3 * 1024 * 1024 * 1024 / 2), "1.5 GiB");
    assert_eq!(format_size(1024 + 102), "1.1 kiB");
    assert_eq!(format_size(10 * 1024 + 1000), "11.0 kiB");
    assert_eq!(format_size(u64::MAX), "16.0 EiB");
}

#[test]
fn format_size_uses_binary_units() {
    assert_eq!(format_size(500), "500 B");
    assert_eq!(format_size(1024), "1.0 kiB");
    assert_eq!(format_size(1536), "1.5 kiB");
    assert_eq!(format_size(1023), "1023 B");
    assert_eq!(format_size(0), "0 B");
    assert!(format_size(5 * 1024 * 1024).ends_with(" MiB"));
}

#[test]
fn format_class_name_makes_ids() {
    assert_eq!(format_class_name("v0.1.0"), "v0_1_0");
    assert_eq!(format_class_name("  Version 1.2 (Beta)  "), "version-1_2-_beta_");
    assert_eq!(format_class_name("a\t\nb"), "a-b");
    assert_eq!(format_class_name(""), "");
}

fn file<'a>(url: &'a str, name: &'a str, size: u64) -> FileAsset<'a> {
    FileAsset { browser_download_url: url, name, size }
}

#[test]
fn release_sections_keep_assets_with_a_download() {
    let releases = vec![OsRelease {
        version: "v1.0 rc",
        published_at: "2024-01-01",
        url: "https://example.com/r",
        assets: vec![
            OsAsset {
                name: "windows",
                asset: Some(file("https://example.com/w.msi", "w.msi", 2048)),
                other_formats: vec![file("https://example.com/w.exe", "w.exe", 10)],
            },
            OsAsset { name: "linux", asset: None, other_formats: vec![] },
            OsAsset {
                name: "mac_intel",
                asset: Some(file("https://example.com/m.dmg", "m.dmg", 1)),
                other_formats: vec![],
            },
        ],
    }];
    let os = Os { lower_name: "windows", name: "Windows", header: "Windows 11" };
    let sections = release_sections(&releases, &os);
    assert_eq!(sections.len(), 1);
    let s = &sections[0];
    assert_eq!(s.id, "v1_0-rc");
    assert_eq!(s.version, "v1.0 rc");
    assert_eq!(s.assets.len(), 2);
    assert_eq!(s.assets[0].running_hint, Some("Windows 11"));
    assert_eq!(s.assets[0].heading, "Windows");
    assert_eq!(s.assets[0].download.size, "2.0 kiB");
    assert_eq!(s.assets[0].other_formats.len(), 1);
    assert_eq!(s.assets[0].other_formats[0].name, "w.exe");
    assert_eq!(s.assets[0].other_formats[0].size, "10 B");
    assert_eq!(s.assets[1].running_hint, None);
    assert_eq!(s.assets[1].heading, "macOS");
}

#[test]
fn encoding_names_round_trip() {
    assert_eq!(Encoding::Jpeg.as_str(), "JPEG");
    assert_eq!(Encoding::Webp.as_str(), "WEBP");
    assert_eq!(Encoding::from_name("JPEG"), Some(Encoding::Jpeg));
    assert_eq!(Encoding::from_name(Encoding::Webp.as_str()), Some(Encoding::Webp));
    assert_eq!(Encoding::from_name("jpeg"), None);
    assert_eq!(Encoding::from_name("PNG"), None);
}

fn sender() -> TunnelWebsocketSender {
    TunnelWebsocketSender { id: 1, propagate_id: 7, request_id: 3, packet_id: 9 }
}

#[test]
fn tunnel_send_routes_own_connection_through_tunnel() {
    let plan = sender().send("1", "{ \"b\": 2, \"a\": [1, true] }").expect("plan");
    let p = plan.tunnel.expect("tunnel packet");
    assert!(!p.target.broadcast);
    assert_eq!(p.target.only_id, Some(7));
    assert_eq!(p.target.except_id, None);
    assert_eq!((p.target.request_id, p.target.packet_id), (3, 9));
    assert_eq!(p.message, "{\"body\":{\"a\":[1,true],\"b\":2},\"request_id\":3}");
    assert!(!plan.to_root);
    let plan = sender().send("2", "not json").expect("plan");
    assert!(plan.tunnel.is_none());
    assert!(plan.to_root);
}

#[test]
fn tunnel_send_refuses_bad_input() {
    assert!(sender().send("x1", "{}").is_none());
    assert!(sender().send("1", "not json").is_none());
    assert!(sender().send_all("{").is_none());
    assert!(sender().send_all_except("-7", "1").is_none());
}

#[test]
fn tunnel_send_all_broadcasts_everywhere() {
    let plan = sender().send_all("\"hi\"").expect("plan");
    let TunnelPacket { target, message } = plan.tunnel.expect("tunnel packet");
    let TunnelTarget { request_id, packet_id, broadcast, except_id, only_id } = target;
    assert_eq!((request_id, packet_id), (3, 9));
    assert!(broadcast);
    assert_eq!((except_id, only_id), (None, None));
    assert_eq!(message, "{\"body\":\"hi\",\"request_id\":3}");
    assert!(plan.to_root);
}

#[test]
fn tunnel_send_all_except_skips_propagated_connection() {
    let plan = sender().send_all_except("+2", "12").expect("plan");
    let p = plan.tunnel.expect("tunnel packet");
    assert!(p.target.broadcast);
    assert_eq!(p.target.except_id, Some(7));
    assert_eq!(p.message, "{\"body\":12,\"request_id\":3}");
    assert!(plan.to_root);
    let plan = sender().send_all_except("7", "not json").expect("plan");
    assert!(plan.tunnel.is_none());
    assert!(plan.to_root);
}

#[test]
fn tunnel_packet_stamps_large_request_ids() {
    let s = TunnelWebsocketSender { id: 0, propagate_id: 0, request_id: 1234567890, packet_id: 0 };
    let target = TunnelTarget {
        request_id: 1234567890,
        packet_id: 0,
        broadcast: true,
        except_id: None,
        only_id: None,
    };
    let p = s.tunnel_packet("null", target).expect("packet");
    assert_eq!(p.message, "{\"body\":null,\"request_id\":1234567890}");
}

#[test]
fn parse_usize_reads_like_from_str() {
    assert_eq!(parse_usize("42"), Some(42));
    assert_eq!(parse_usize("+0"), Some(0));
    assert_eq!(parse_usize("007"), Some(7));
    assert_eq!(parse_usize(""), None);
    assert_eq!(parse_usize("+"), None);
    assert_eq!(parse_usize("-1"), None);
    assert_eq!(parse_usize(" 1"), None);
    assert_eq!(parse_usize("18446744073709551615"), Some(usize::MAX));
    assert_eq!(parse_usize("18446744073709551616"), None);
}

#[test]
fn album_artwork_path_embeds_the_id() {
    assert_eq!(album_artwork_path(42), "/albums/42/300x300");
    assert_eq!(album_artwork_path(0), "/albums/0/300x300");
    assert_eq!(album_artwork_path(-5), "/albums/-5/300x300");
    assert_eq!(album_artwork_path(i32::MIN), "/albums/-2147483648/300x300");
}

fn leaf(name: &str) -> DeviceTree<String> {
    DeviceTree { device: name.to_string(), children: vec![] }
}

#[test]
fn scan_device_lists_devices_in_pre_order() {
    let tree = DeviceTree {
        device: "root".to_string(),
        children: vec![
            DeviceTree { device: "a".to_string(), children: vec![leaf("a1"), leaf("a2")] },
            leaf("b"),
        ],
    };
    assert_eq!(scan_device(tree), vec!["root", "a", "a1", "a2", "b"]);
    assert_eq!(scan_device(leaf("solo")), vec!["solo"]);
}

#[test]
fn menu_cache_keys_embed_the_id() {
    assert_eq!(artist_cache_key(7), "artist|7");
    assert_eq!(album_cache_key(-3), "album|-3");
    assert_eq!(album_tracks_cache_key(12), "sqlite|local_album_tracks|12");
    assert_eq!(artist_albums_cache_key(0), "sqlite|local_artist_albums|0");
}

#[test]
fn artist_found_decides_each_lookup() {
    assert!(matches!(artist_found::<&str, ()>(4, Ok(Some("a"))), Ok("a")));
    assert!(matches!(
        artist_found::<&str, ()>(4, Ok(None)),
        Err(GetArtistError::ArtistNotFound { artist_id: 4 })
    ));
    assert!(matches!(artist_found::<&str, u8>(4, Err(9)), Err(GetArtistError::DbError(9))));
}

#[test]
fn album_found_decides_each_lookup() {
    assert!(matches!(album_found::<u32, ()>(2, Ok(Some(5))), Ok(5)));
    assert!(matches!(
        album_found::<u32, ()>(2, Ok(None)),
        Err(GetAlbumError::AlbumNotFound { album_id: 2 })
    ));
    assert!(matches!(album_found::<u32, u8>(2, Err(1)), Err(GetAlbumError::DbError(1))));
}

fn row(id: i64, artwork: Option<&str>) -> AlbumRow {
    AlbumRow {
        id,
        artist: 9,
        title: format!("t{id}"),
        date_released: Some("2020".to_string()),
        artwork: artwork.map(str::to_string),
        directory: None,
    }
}

#[test]
fn album_from_row_links_artwork_only_when_present() {
    let with = album_from_row(row(3, Some("cover.jpg")));
    assert_eq!(with.id, 3);
    assert_eq!(with.artist_id, 9);
    assert_eq!(with.title, "t3");
    assert_eq!(with.date_released.as_deref(), Some("2020"));
    assert_eq!(with.artwork.as_deref(), Some("/albums/3/300x300"));
    assert_eq!(with.directory, None);
    assert_eq!(album_from_row(row(4, None)).artwork, None);
    // Ids are cut to 32 bits as `as i32` does.
    assert_eq!(album_from_row(row(1 << 32 | 5, None)).id, 5);
}

#[test]
fn albums_from_rows_skips_unreadable_rows() {
    let albums = albums_from_rows(vec![Some(row(1, None)), None, Some(row(2, Some("a")))]);
    assert_eq!(albums.len(), 2);
    assert_eq!(albums[0].id, 1);
    assert_eq!(albums[1].id, 2);
    assert_eq!(albums[1].artwork.as_deref(), Some("/albums/2/300x300"));
}
