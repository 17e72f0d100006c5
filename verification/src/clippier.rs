use vstd::prelude::*;
use itertools::Itertools;
use crate::split::{split, split_pieces, lemma_split_laws};
use crate::text::{seq_join, join, str_eq, contains_str};

verus! {

/// How the feature list is printed.
#[derive(Clone, Copy, Debug, PartialEq, Eq, Structural)]
pub enum OutputType {
    Json,
    Raw,
}

/// The features of a package, whole or cut into chunks.
pub enum FeaturesList {
    Chunked(Vec<Vec<String>>),
    NotChunked(Vec<String>),
}

/// The items of each vector of `v`.
pub open spec fn vecs_view(v: Seq<Vec<String>>) -> Seq<Seq<String>> {
    v.map_values(|x: Vec<String>| x@)
}

/// Number of chunks of at most `size` items that `len` items fill when every
/// chunk but the last is full.
pub open spec fn fixed_chunk_count(len: int, size: int) -> int {
    if len % size != 0 {
        len / size + 1
    } else {
        len / size
    }
}

/// `s` cut into runs of `size` items, the last one shorter if `size` does
/// not divide the length.
pub open spec fn fixed_chunks<T>(s: Seq<T>, size: int) -> Seq<Seq<T>> {
    Seq::new(
        fixed_chunk_count(s.len() as int, size) as nat,
        |i: int|
            s.subrange(
                i * size,
                if (i + 1) * size <= s.len() {
                    (i + 1) * size
                } else {
                    s.len() as int
                },
            ),
    )
}

/// Runs `itertools::Itertools::chunks` over the items and collects each chunk.
/// The contract states what the itertools documentation of `chunks` states:
/// chunks of exactly `size` items in order, the last one shorter when the
/// items run out; `size` must not be 0 (the call panics on it).
#[verifier::external_body]
fn chunk_by_size(items: Vec<String>, size: usize) -> (chunks: Vec<Vec<String>>)
    requires
        size > 0,
    ensures
        vecs_view(chunks@) == fixed_chunks(items@, size as int),
{
    items.into_iter().chunks(size).into_iter().map(|chunk| chunk.collect::<Vec<_>>()).collect()
}

/// The first `k` fixed chunks, put back together, are the first `k * size`
/// items (all of them once those run out).
proof fn lemma_fixed_chunks_prefix<T>(s: Seq<T>, size: int, k: int)
    requires
        size > 0,
        0 <= k <= fixed_chunk_count(s.len() as int, size),
    ensures
        k * size <= s.len() ==> fixed_chunks(s, size).take(k).flatten() == s.subrange(0, k * size),
        k * size > s.len() ==> fixed_chunks(s, size).take(k).flatten() == s,
    decreases k,
{
    let len = s.len() as int;
    let chunks = fixed_chunks(s, size);
    let q = len / size;
    let r = len % size;
    assert(len == q * size + r && 0 <= r < size) by (nonlinear_arith)
        requires
            size > 0,
            q == len / size,
            r == len % size,
    ;
    if k == 0 {
        assert(chunks.take(0) =~= Seq::<Seq<T>>::empty());
        assert(s.subrange(0, 0) =~= Seq::<T>::empty());
    } else {
        lemma_fixed_chunks_prefix(s, size, k - 1);
        assert((k - 1) * size == k * size - size) by (nonlinear_arith);
        assert((k - 1) * size < len) by (nonlinear_arith)
            requires
                k <= fixed_chunk_count(len, size),
                len == q * size + r,
                0 <= r < size,
                size > 0,
                fixed_chunk_count(len, size) == (if r != 0 { q + 1 } else { q }),
        ;
        assert(chunks.take(k) =~= chunks.take(k - 1).push(chunks[k - 1]));
        chunks.take(k - 1).lemma_flatten_push(chunks[k - 1]);
        if k * size <= len {
            assert(s.subrange(0, k * size) =~= s.subrange(0, (k - 1) * size) + s.subrange(
                (k - 1) * size,
                k * size,
            ));
        } else {
            assert(s =~= s.subrange(0, (k - 1) * size) + s.subrange((k - 1) * size, len));
        }
    }
}

/// However the features are chunked, the chunks put back together in order
/// are the features, and no chunk holds more than the chunk size.
pub proof fn lemma_chunk_features_laws(features: Seq<String>, chunked: int, spread: bool)
    requires
        chunked >= 0,
        chunked == 0 ==> features.len() == 0,
    ensures
        chunk_features(features, chunked, spread).flatten() == features,
        forall|i: int|
            0 <= i < chunk_features(features, chunked, spread).len() ==> #[trigger] chunk_features(
                features,
                chunked,
                spread,
            )[i].len() <= chunked,
{
    let len = features.len() as int;
    if len <= chunked {
        seq![features].lemma_flatten_one_element();
    } else if spread && len > 1 {
        lemma_split_laws(features, chunked);
    } else {
        let c = fixed_chunk_count(len, chunked);
        let q = len / chunked;
        let r = len % chunked;
        assert(len == q * chunked + r && 0 <= r < chunked) by (nonlinear_arith)
            requires
                chunked > 0,
                q == len / chunked,
                r == len % chunked,
        ;
        assert(c * chunked >= len) by (nonlinear_arith)
            requires
                chunked > 0,
                len == q * chunked + r,
                0 <= r < chunked,
                c == (if r != 0 { q + 1 } else { q }),
        ;
        lemma_fixed_chunks_prefix(features, chunked, c);
        assert(fixed_chunks(features, chunked).take(c) =~= fixed_chunks(features, chunked));
        if c * chunked <= len {
            assert(features.subrange(0, c * chunked) =~= features);
        }
        assert forall|i: int| 0 <= i < c implies #[trigger] fixed_chunks(features, chunked)[i].len()
            <= chunked by {
            assert((i + 1) * chunked == i * chunked + chunked) by (nonlinear_arith);
            assert(i * chunked <= len) by (nonlinear_arith)
                requires
                    0 <= i < c,
                    len == q * chunked + r,
                    0 <= r < chunked,
                    chunked > 0,
                    c == (if r != 0 { q + 1 } else { q }),
            ;
        }
    }
}

/// With `spread` set and more features than the chunk size, the chunks are
/// spread evenly: as few as the size allows (the ceiling of the count over
/// the size), none empty or over the size, none longer than an earlier one,
/// and no two differing by more than one; put back together they are the
/// features.
pub proof fn lemma_spread_chunks_balanced(features: Seq<String>, chunked: int)
    requires
        chunked > 0,
        features.len() > chunked,
    ensures
        chunk_features(features, chunked, true).flatten() == features,
        chunk_features(features, chunked, true).len() == (features.len() + chunked - 1) / chunked,
        forall|i: int|
            0 <= i < chunk_features(features, chunked, true).len() ==> 1 <= #[trigger] chunk_features(
                features,
                chunked,
                true,
            )[i].len() <= chunked,
        forall|i: int, j: int|
            0 <= i <= j < chunk_features(features, chunked, true).len() ==> chunk_features(
                features,
                chunked,
                true,
            )[j].len() <= #[trigger] chunk_features(features, chunked, true)[i].len()
                <= #[trigger] chunk_features(features, chunked, true)[j].len() + 1,
{
    let len = features.len() as int;
    lemma_split_laws(features, chunked);
    let q = len / chunked;
    let r = len % chunked;
    assert(len == q * chunked + r && 0 <= r < chunked) by (nonlinear_arith)
        requires
            chunked > 0,
            q == len / chunked,
            r == len % chunked,
    ;
    assert((len + chunked - 1) / chunked == if r != 0 { q + 1 } else { q }) by (nonlinear_arith)
        requires
            chunked > 0,
            len == q * chunked + r,
            0 <= r < chunked,
    {
        if r != 0 {
            assert(len + chunked - 1 == (q + 1) * chunked + (r - 1));
        } else {
            assert(len + chunked - 1 == q * chunked + (chunked - 1));
        }
    }
}

/// Features that fit in one chunk stay together in a single chunk. Without
/// `spread`, more features than the chunk size are cut into full chunks of
/// the size in order, only the last one possibly shorter (and never empty).
pub proof fn lemma_cut_chunks_full(features: Seq<String>, chunked: int, spread: bool)
    requires
        chunked > 0,
    ensures
        features.len() <= chunked ==> chunk_features(features, chunked, spread) == seq![features],
        features.len() > chunked && !spread ==> {
            let p = chunk_features(features, chunked, spread);
            &&& p.flatten() == features
            &&& p.len() == (features.len() + chunked - 1) / chunked
            &&& forall|i: int| 0 <= i < p.len() - 1 ==> #[trigger] p[i].len() == chunked
            &&& 1 <= p[p.len() - 1].len() <= chunked
            &&& forall|i: int| 0 <= i < p.len() ==> #[trigger] p[i] == features.subrange(
                i * chunked,
                if (i + 1) * chunked <= features.len() { (i + 1) * chunked } else { features.len() as int },
            )
        },
{
    if features.len() > chunked && !spread {
        let len = features.len() as int;
        let p = chunk_features(features, chunked, spread);
        lemma_chunk_features_laws(features, chunked, spread);
        let q = len / chunked;
        let r = len % chunked;
        assert(len == q * chunked + r && 0 <= r < chunked) by (nonlinear_arith)
            requires
                chunked > 0,
                q == len / chunked,
                r == len % chunked,
        ;
        let c = fixed_chunk_count(len, chunked);
        assert((len + chunked - 1) / chunked == c) by (nonlinear_arith)
            requires
                chunked > 0,
                len == q * chunked + r,
                0 <= r < chunked,
                c == (if r != 0 { q + 1 } else { q }),
        {
            if r != 0 {
                assert(len + chunked - 1 == (q + 1) * chunked + (r - 1));
            } else {
                assert(len + chunked - 1 == q * chunked + (chunked - 1));
            }
        }
        assert forall|i: int| 0 <= i < p.len() - 1 implies #[trigger] p[i].len() == chunked by {
            assert((i + 1) * chunked <= len) by (nonlinear_arith)
                requires
                    0 <= i < c - 1,
                    len == q * chunked + r,
                    0 <= r < chunked,
                    chunked > 0,
                    c == (if r != 0 { q + 1 } else { q }),
            ;
            assert((i + 1) * chunked == i * chunked + chunked) by (nonlinear_arith);
        }
        assert((c - 1) * chunked < len) by (nonlinear_arith)
            requires
                len == q * chunked + r,
                0 <= r < chunked,
                chunked > 0,
                q >= 1,
                c == (if r != 0 { q + 1 } else { q }),
        ;
        assert(q >= 1) by (nonlinear_arith)
            requires
                len > chunked,
                len == q * chunked + r,
                0 <= r < chunked,
                chunked > 0,
        ;
        assert(p.len() == c);
        assert(c * chunked == (c - 1) * chunked + chunked) by (nonlinear_arith);
        assert(1 <= p[c - 1].len() <= chunked);
    }
}

/// A dependency whose OS, if it names one, is the build's OS, and one of
/// whose features (any of them, if it names some) is among the build's
/// features applies; one naming another OS, or naming features none of which
/// is built, does not.
pub proof fn lemma_dependency_applies_any_feature(
    dep: ClippierDependency,
    os: Seq<char>,
    features: Seq<String>,
)
    ensures
        dep.os matches Some(o) && o@ != os ==> !dependency_applies(dep, os, features),
        dep.features is None && !(dep.os matches Some(o) && o@ != os) ==> dependency_applies(
            dep,
            os,
            features,
        ),
        forall|i: int, j: int|
            #![trigger dep.features->0@[i], features[j]]
            !(dep.os matches Some(o) && o@ != os) && dep.features is Some && 0 <= i
                < dep.features->0@.len() && 0 <= j < features.len()
                && dep.features->0@[i]@ == features[j]@ ==> dependency_applies(dep, os, features),
        dep.features matches Some(req) && (forall|i: int, j: int|
            #![trigger req@[i], features[j]]
            0 <= i < req@.len() && 0 <= j < features.len() ==> req@[i]@ != features[j]@)
            ==> !dependency_applies(dep, os, features),
{
}

/// The chunks that `process_features` makes of `features` for a chunk size.
pub open spec fn chunk_features(features: Seq<String>, chunked: int, spread: bool) -> Seq<
    Seq<String>,
> {
    if features.len() <= chunked {
        seq![features]
    } else if spread && features.len() > 1 {
        split_pieces(features, chunked)
    } else {
        fixed_chunks(features, chunked)
    }
}

/// Copies of the strings of `items`.
fn clone_strings(items: &[String]) -> (copy: Vec<String>)
    ensures
        copy@ == items@,
{
    let mut copy: Vec<String> = Vec::new();
    let mut i: usize = 0;
    while i < items.len()
        invariant
            i <= items@.len(),
            copy@ == items@.take(i as int),
        decreases items@.len() - i,
    {
        copy.push(items[i].clone());
        assert(items@.take(i + 1) =~= items@.take(i as int).push(items@[i as int]));
        i = i + 1;
    }
    assert(items@.take(items@.len() as int) =~= items@);
    copy
}

/// Groups the features: left whole without a chunk size; otherwise one
/// chunk when they fit in one, spread evenly over as few chunks as the size
/// allows when `spread` is set, and cut into full chunks of the size
/// otherwise.
pub fn process_features(features: Vec<String>, chunked: Option<u16>, spread: bool) -> (list:
    FeaturesList)
    requires
        chunked == Some(0u16) ==> features@.len() == 0,
    ensures
        chunked is None ==> (list matches FeaturesList::NotChunked(v) && v@ == features@),
        chunked matches Some(c) ==> (list matches FeaturesList::Chunked(v) && vecs_view(v@)
            == chunk_features(features@, c as int, spread)),
{
    match chunked {
        None => FeaturesList::NotChunked(features),
        Some(chunked) => {
            let count = features.len();
            let size = chunked as usize;
            if count <= size {
                let ghost f = features@;
                let mut chunks: Vec<Vec<String>> = Vec::new();
                chunks.push(features);
                assert(vecs_view(chunks@) =~= seq![f]);
                FeaturesList::Chunked(chunks)
            } else if spread && count > 1 {
                let pieces = split(features.as_slice(), size);
                let mut chunks: Vec<Vec<String>> = Vec::new();
                let mut i: usize = 0;
                while i < pieces.len()
                    invariant
                        i <= pieces@.len(),
                        pieces@.len() == split_pieces(features@, size as int).len(),
                        forall|j: int|
                            0 <= j < pieces@.len() ==> #[trigger] pieces@[j]@ == split_pieces(
                                features@,
                                size as int,
                            )[j],
                        vecs_view(chunks@) == split_pieces(features@, size as int).take(i as int),
                    decreases pieces@.len() - i,
                {
                    let copy = clone_strings(pieces[i]);
                    assert(copy@ == split_pieces(features@, size as int)[i as int]);
                    let ghost before = chunks@;
                    chunks.push(copy);
                    assert(chunks@ == before.push(copy));
                    assert(vecs_view(chunks@) =~= vecs_view(before).push(copy@));
                    assert(vecs_view(chunks@) =~= split_pieces(features@, size as int).take(
                        i + 1,
                    ));
                    i = i + 1;
                }
                assert(split_pieces(features@, size as int).take(pieces@.len() as int)
                    =~= split_pieces(features@, size as int));
                FeaturesList::Chunked(chunks)
            } else {
                FeaturesList::Chunked(chunk_by_size(features, size))
            }
        },
    }
}

/// The feature names that `fetch_features` keeps of a feature table with
/// the names `keys`: `max` of them at most, from index `offset` on.
pub open spec fn fetched_features<T>(keys: Seq<T>, offset: int, max: Option<u16>) -> Seq<T> {
    let count = keys.len() - offset;
    let take = match max {
        Some(m) => if count <= m {
            count
        } else {
            m as int
        },
        None => count,
    };
    keys.subrange(offset, offset + take)
}

/// Picks the feature names from the manifest's feature table, whose names
/// are `keys` (`None` where the manifest has no feature table): none without
/// a table, else those from `offset` on, at most `max` of them.
pub fn fetch_features(keys: Option<Vec<String>>, offset: Option<u16>, max: Option<u16>) -> (features: Vec<String>)
    requires
        keys matches Some(k) ==> (match offset {
            Some(o) => o as int,
            None => 0int,
        }) <= k@.len(),
    ensures
        keys is None ==> features@.len() == 0,
        keys matches Some(k) ==> features@ == fetched_features(
            k@,
            match offset {
                Some(o) => o as int,
                None => 0int,
            },
            max,
        ),
{
    match keys {
        None => Vec::new(),
        Some(keys) => {
            let offset: usize = match offset {
                Some(o) => o as usize,
                None => 0,
            };
            let feature_count = keys.len() - offset;
            let take: usize = match max {
                Some(m) => if feature_count <= m as usize {
                    feature_count
                } else {
                    m as usize
                },
                None => feature_count,
            };
            let mut keys = keys;
            let mut rest = keys.split_off(offset);
            rest.truncate(take);
            rest
        },
    }
}

/// What a Cargo manifest says that the tool reads: the workspace members
/// (when `workspace.members` is an array of strings), the package name, and
/// the names of the `[features]` table, in the table's (sorted) order.
pub struct Manifest {
    pub workspace_members: Option<Vec<String>>,
    pub package_name: Option<String>,
    pub feature_keys: Option<Vec<String>>,
}

/// The characters of the fields of a `Manifest`.
pub struct ManifestView {
    pub workspace_members: Option<Seq<Seq<char>>>,
    pub package_name: Option<Seq<char>>,
    pub feature_keys: Option<Seq<Seq<char>>>,
}

/// The characters of each string.
pub open spec fn strings_view(v: Seq<String>) -> Seq<Seq<char>> {
    v.map_values(|s: String| s@)
}

impl View for Manifest {
    type V = ManifestView;

    open spec fn view(&self) -> ManifestView {
        ManifestView {
            workspace_members: match self.workspace_members {
                Some(m) => Some(strings_view(m@)),
                None => None,
            },
            package_name: match self.package_name {
                Some(n) => Some(n@),
                None => None,
            },
            feature_keys: match self.feature_keys {
                Some(k) => Some(strings_view(k@)),
                None => None,
            },
        }
    }
}

/// What `toml::from_str` parses from `source` into a `toml::Value`, read
/// as a manifest: `None` when the text is not TOML.
pub uninterp spec fn manifest_parsed(source: Seq<char>) -> Option<ManifestView>;

#[verifier::external_type_specification]
#[verifier::external_body]
pub struct ExTomlError(toml::de::Error);

/// Parses `source` with `toml::from_str` into a `toml::Value` and reads
/// `workspace.members` (with `as_array` and `as_str`), `package.name` and
/// the keys of the `[features]` table (with `as_table` and `keys`) out of
/// it. toml's tables are ordered maps, so the result depends on the text
/// alone; the contract names it and states nothing of TOML syntax.
#[verifier::external_body]
fn parse_manifest(source: &str) -> (m: Result<Manifest, toml::de::Error>)
    ensures
        m is Ok <==> manifest_parsed(source@) is Some,
        m matches Ok(x) ==> manifest_parsed(source@) == Some(x@),
{
    let value: toml::Value = toml::from_str(source)?;
    let get = |a: &str, b: &str| value.get(a).and_then(|x| x.get(b));
    Ok(Manifest {
        workspace_members: get("workspace", "members").and_then(|x| x.as_array()).and_then(
            |x| x.iter().map(|x| x.as_str().map(String::from)).collect::<Option<Vec<_>>>(),
        ),
        package_name: get("package", "name").and_then(|x| x.as_str()).map(String::from),
        feature_keys: value.get("features").and_then(|x| x.as_table()).map(
            |x| x.keys().cloned().collect(),
        ),
    })
}

/// Reads a Cargo manifest from its text; the error of `toml` when the text
/// is not TOML.
pub fn read_manifest(source: &str) -> (m: Result<Manifest, toml::de::Error>)
    ensures
        m is Ok <==> manifest_parsed(source@) is Some,
        m matches Ok(x) ==> manifest_parsed(source@) == Some(x@),
{
    parse_manifest(source)
}

/// The offset as a number, 0 when none is given.
pub open spec fn offset_value(offset: Option<u16>) -> int {
    match offset {
        Some(o) => o as int,
        None => 0int,
    }
}

/// The feature names that the tool picks from a manifest: `Some` of none
/// without a feature table, else of those from `offset` on, at most `max`
/// of them; `None` when `offset` lies past the end of the table (where the
/// tool fails).
pub fn manifest_features(manifest: &Manifest, offset: Option<u16>, max: Option<u16>) -> (r: Option<
    Vec<String>,
>)
    ensures
        manifest@.feature_keys is None ==> (r matches Some(v) && v@.len() == 0),
        manifest@.feature_keys matches Some(k) ==> (r is None <==> offset_value(offset) > k.len()),
        manifest@.feature_keys matches Some(k) ==> (r matches Some(v) ==> strings_view(v@)
            == fetched_features(k, offset_value(offset), max)),
{
    match &manifest.feature_keys {
        None => Some(Vec::new()),
        Some(keys) => {
            let o: usize = match offset {
                Some(o) => o as usize,
                None => 0,
            };
            if o > keys.len() {
                return None;
            }
            let mut copy: Vec<String> = Vec::new();
            let mut i: usize = 0;
            while i < keys.len()
                invariant
                    i <= keys@.len(),
                    copy@ == keys@.take(i as int),
                decreases keys@.len() - i,
            {
                copy.push(keys[i].clone());
                assert(keys@.take(i + 1) =~= keys@.take(i as int).push(keys@[i as int]));
                i = i + 1;
            }
            assert(keys@.take(keys@.len() as int) =~= keys@);
            let picked = fetch_features(Some(copy), offset, max);
            assert(strings_view(picked@) =~= fetched_features(
                strings_view(keys@),
                offset_value(offset),
                max,
            ));
            Some(picked)
        },
    }
}

/// A shell command that a package needs installed before it is built,
/// limited to an OS and to builds with one of some features.
pub struct ClippierDependency {
    pub command: String,
    pub features: Option<Vec<String>>,
    pub os: Option<String>,
}

/// The `clippier.toml` of a package: the OSes to build on and the
/// dependencies by name, each name once (`wf`), as in the table it is read
/// from. The table is held as a list of (name, dependency) pairs: vstd
/// models `HashMap` lookups only for keys whose hashing it specifies
/// (integers and `bool`), and `String` is not among them.
pub struct ClippierConf {
    pub os: Option<Vec<String>>,
    pub dependencies: Vec<(String, ClippierDependency)>,
}

impl ClippierConf {
    /// No dependency name occurs twice, as in the table it was read from.
    pub open spec fn wf(&self) -> bool {
        forall|i: int, j: int|
            0 <= i < j < self.dependencies@.len() ==> self.dependencies@[i].0@
                != self.dependencies@[j].0@
    }
}

/// Whether a dependency applies to a build on `os` with `features`: its OS,
/// if it names one, is `os`, and one of its features, if it names some, is
/// among `features`.
pub open spec fn dependency_applies(
    dep: ClippierDependency,
    os: Seq<char>,
    features: Seq<String>,
) -> bool {
    &&& !(dep.os matches Some(o) && o@ != os)
    &&& !(dep.features matches Some(req) && !(exists|i: int, j: int|
        0 <= i < req@.len() && 0 <= j < features.len() && req@[i]@ == features[j]@))
}

/// The commands of the dependencies that apply, in their order.
pub open spec fn applicable_commands(
    deps: Seq<(String, ClippierDependency)>,
    os: Seq<char>,
    features: Seq<String>,
) -> Seq<Seq<char>>
    decreases deps.len(),
{
    if deps.len() == 0 {
        Seq::empty()
    } else {
        let rest = applicable_commands(deps.drop_last(), os, features);
        if dependency_applies(deps.last().1, os, features) {
            rest.push(deps.last().1.command@)
        } else {
            rest
        }
    }
}

/// Whether some string of `required` is among `features`.
fn any_feature_among(required: &Vec<String>, features: &Vec<String>) -> (found: bool)
    ensures
        found == exists|i: int, j: int|
            0 <= i < required@.len() && 0 <= j < features@.len() && required@[i]@
                == features@[j]@,
{
    let mut i: usize = 0;
    while i < required.len()
        invariant
            i <= required@.len(),
            forall|a: int, j: int|
                0 <= a < i && 0 <= j < features@.len() ==> #[trigger] required@[a]@
                    != #[trigger] features@[j]@,
        decreases required@.len() - i,
    {
        if contains_str(features, required[i].as_str()) {
            return true;
        }
        i = i + 1;
    }
    false
}

/// Whether the dependency applies to a build on `os` with `features`.
pub fn applies(dep: &ClippierDependency, os: &str, features: &Vec<String>) -> (a: bool)
    ensures
        a == dependency_applies(*dep, os@, features@),
{
    if let Some(dep_os) = &dep.os {
        if !str_eq(dep_os.as_str(), os) {
            return false;
        }
    }
    if let Some(required) = &dep.features {
        if !any_feature_among(required, features) {
            return false;
        }
    }
    true
}

/// The install commands, one per line, of the dependencies of `config` that
/// apply to a build on `os` with `features`; `None` when none applies.
pub fn dependency_commands(config: &ClippierConf, os: &str, features: &Vec<String>) -> (commands:
    Option<String>)
    requires
        config.wf(),
    ensures
        applicable_commands(config.dependencies@, os@, features@).len() == 0 ==> commands is None,
        applicable_commands(config.dependencies@, os@, features@).len() > 0 ==> (commands matches Some(c)
            && c@ == seq_join(applicable_commands(config.dependencies@, os@, features@), "\n"@)),
{
    let deps = &config.dependencies;
    let mut picked: Vec<String> = Vec::new();
    let mut i: usize = 0;
    while i < deps.len()
        invariant
            i <= deps@.len(),
            picked@.map_values(|p: String| p@) == applicable_commands(
                deps@.take(i as int),
                os@,
                features@,
            ),
        decreases deps@.len() - i,
    {
        assert(deps@.take(i + 1).drop_last() =~= deps@.take(i as int));
        if applies(&deps[i].1, os, features) {
            picked.push(deps[i].1.command.clone());
            assert(picked@.map_values(|p: String| p@) =~= applicable_commands(
                deps@.take(i as int),
                os@,
                features@,
            ).push(deps@[i as int].1.command@));
        }
        i = i + 1;
    }
    assert(deps@.take(deps@.len() as int) =~= deps@);
    if picked.len() == 0 {
        None
    } else {
        Some(join(&picked, "\n"))
    }
}

/// One build of the CI matrix: a package on an OS with a set of features,
/// and the install commands it needs first.
pub struct PackageEntry {
    pub os: String,
    pub path: String,
    pub name: String,
    pub features: Vec<String>,
    pub dependencies: Option<String>,
}

/// The characters of each field of a `PackageEntry`.
pub struct PackageEntryView {
    pub os: Seq<char>,
    pub path: Seq<char>,
    pub name: Seq<char>,
    pub features: Seq<String>,
    pub dependencies: Option<Seq<char>>,
}

impl View for PackageEntry {
    type V = PackageEntryView;

    open spec fn view(&self) -> PackageEntryView {
        PackageEntryView {
            os: self.os@,
            path: self.path@,
            name: self.name@,
            features: self.features@,
            dependencies: match self.dependencies {
                Some(d) => Some(d@),
                None => None,
            },
        }
    }
}

/// The install commands of a build, one per line, or `None` when no
/// dependency applies or there is no configuration.
pub open spec fn entry_dependencies(
    config: Option<ClippierConf>,
    os: Seq<char>,
    features: Seq<String>,
) -> Option<Seq<char>> {
    match config {
        Some(c) => if applicable_commands(c.dependencies@, os, features).len() == 0 {
            None
        } else {
            Some(seq_join(applicable_commands(c.dependencies@, os, features), "\n"@))
        },
        None => None,
    }
}

/// The matrix entry for one build.
pub open spec fn package_entry(
    os: Seq<char>,
    file: Seq<char>,
    name: Seq<char>,
    features: Seq<String>,
    config: Option<ClippierConf>,
) -> PackageEntryView {
    PackageEntryView {
        os,
        path: file,
        name,
        features,
        dependencies: entry_dependencies(config, os, features),
    }
}

/// Builds the matrix entry of package `name` at `file` for a build on `os`
/// with `features`, with the commands of the dependencies of `config` that
/// apply to it.
pub fn create_map(
    os: &str,
    file: &str,
    name: &str,
    features: &Vec<String>,
    config: Option<&ClippierConf>,
) -> (entry: PackageEntry)
    requires
        config matches Some(c) ==> c.wf(),
    ensures
        entry@ == package_entry(
            os@,
            file@,
            name@,
            features@,
            match config {
                Some(c) => Some(*c),
                None => None,
            },
        ),
{
    let dependencies = match config {
        Some(c) => dependency_commands(c, os, features),
        None => None,
    };
    PackageEntry {
        os: os.to_owned(),
        path: file.to_owned(),
        name: name.to_owned(),
        features: clone_strings(features.as_slice()),
        dependencies,
    }
}

/// The OSes to build on: those of the configuration, `ubuntu-latest` alone
/// when it names none.
pub open spec fn target_oses_spec(config: Option<ClippierConf>) -> Seq<Seq<char>> {
    match config {
        Some(c) => match c.os {
            Some(oses) => oses@.map_values(|o: String| o@),
            None => seq!["ubuntu-latest"@],
        },
        None => seq!["ubuntu-latest"@],
    }
}

/// The OSes to build a package on.
pub fn target_oses(config: Option<&ClippierConf>) -> (oses: Vec<String>)
    ensures
        oses@.map_values(|o: String| o@) == target_oses_spec(
            match config {
                Some(c) => Some(*c),
                None => None,
            },
        ),
{
    if let Some(c) = config {
        if let Some(oses) = &c.os {
            return clone_strings(oses.as_slice());
        }
    }
    let mut oses: Vec<String> = Vec::new();
    oses.push("ubuntu-latest".to_owned());
    assert(oses@.map_values(|o: String| o@) =~= seq!["ubuntu-latest"@]);
    oses
}

/// The feature sets of a features list: its chunks, or the whole list.
pub open spec fn feature_sets(features: FeaturesList) -> Seq<Seq<String>> {
    match features {
        FeaturesList::Chunked(x) => vecs_view(x@),
        FeaturesList::NotChunked(x) => seq![x@],
    }
}

/// The entries of a package: for each OS in order, one per feature set.
pub open spec fn package_entries_spec(
    oses: Seq<Seq<char>>,
    file: Seq<char>,
    name: Seq<char>,
    sets: Seq<Seq<String>>,
    config: Option<ClippierConf>,
) -> Seq<PackageEntryView> {
    Seq::new(
        oses.len(),
        |a: int| Seq::new(sets.len(), |b: int| package_entry(oses[a], file, name, sets[b], config)),
    ).flatten()
}

/// The matrix entries of package `name` at `file`: for each OS, one entry
/// per feature set of `features`.
pub fn package_entries(
    oses: &Vec<String>,
    file: &str,
    name: &str,
    features: &FeaturesList,
    config: Option<&ClippierConf>,
) -> (entries: Vec<PackageEntry>)
    requires
        config matches Some(c) ==> c.wf(),
    ensures
        entries@.map_values(|e: PackageEntry| e@) == package_entries_spec(
            oses@.map_values(|o: String| o@),
            file@,
            name@,
            feature_sets(*features),
            match config {
                Some(c) => Some(*c),
                None => None,
            },
        ),
{
    let ghost cfg = match config {
        Some(c) => Some(*c),
        None => None,
    };
    let ghost os_views = oses@.map_values(|o: String| o@);
    let ghost sets = feature_sets(*features);
    let ghost rows = Seq::new(
        os_views.len(),
        |a: int|
            Seq::new(sets.len(), |b: int| package_entry(os_views[a], file@, name@, sets[b], cfg)),
    );
    let mut entries: Vec<PackageEntry> = Vec::new();
    let mut a: usize = 0;
    while a < oses.len()
        invariant
            a <= oses@.len(),
            os_views == oses@.map_values(|o: String| o@),
            sets == feature_sets(*features),
            rows.len() == oses@.len(),
            rows == Seq::new(
                os_views.len(),
                |a: int|
                    Seq::new(
                        sets.len(),
                        |b: int| package_entry(os_views[a], file@, name@, sets[b], cfg),
                    ),
            ),
            cfg == match config {
                Some(c) => Some(*c),
                None => None,
            },
            entries@.map_values(|e: PackageEntry| e@) == rows.take(a as int).flatten(),
            config matches Some(c) ==> c.wf(),
        decreases oses@.len() - a,
    {
        let os = oses[a].as_str();
        let ghost start = entries@.map_values(|e: PackageEntry| e@);
        match features {
            FeaturesList::Chunked(x) => {
                let mut b: usize = 0;
                while b < x.len()
                    invariant
                        b <= x@.len(),
                        a < oses@.len(),
                        os@ == os_views[a as int],
                        sets == vecs_view(x@),
                        config matches Some(c) ==> c.wf(),
                        rows.len() == oses@.len(),
                        rows[a as int] == Seq::new(
                            sets.len(),
                            |b: int| package_entry(os_views[a as int], file@, name@, sets[b], cfg),
                        ),
                        cfg == match config {
                            Some(c) => Some(*c),
                            None => None,
                        },
                        entries@.map_values(|e: PackageEntry| e@) == start + rows[a as int].take(
                            b as int,
                        ),
                    decreases x@.len() - b,
                {
                    let entry = create_map(os, file, name, &x[b], config);
                    let ghost before = entries@;
                    entries.push(entry);
                    assert(entries@ == before.push(entry));
                    assert(rows[a as int].take(b + 1) =~= rows[a as int].take(b as int).push(
                        rows[a as int][b as int],
                    ));
                    assert(entries@.map_values(|e: PackageEntry| e@) =~= before.map_values(
                        |e: PackageEntry| e@,
                    ).push(entry@));
                    b = b + 1;
                }
                assert(rows[a as int].take(x@.len() as int) =~= rows[a as int]);
            },
            FeaturesList::NotChunked(x) => {
                let entry = create_map(os, file, name, x, config);
                let ghost before = entries@;
                entries.push(entry);
                assert(entries@ == before.push(entry));
                assert(rows[a as int] =~= seq![entry@]);
                assert(entries@.map_values(|e: PackageEntry| e@) =~= before.map_values(
                    |e: PackageEntry| e@,
                ).push(entry@));
            },
        }
        proof {
            assert(rows.take(a + 1) =~= rows.take(a as int).push(rows[a as int]));
            rows.take(a as int).lemma_flatten_push(rows[a as int]);
        }
        a = a + 1;
    }
    assert(rows.take(oses@.len() as int) =~= rows);
    entries
}

} // verus!
