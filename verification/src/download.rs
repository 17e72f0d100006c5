use vstd::prelude::*;
use crate::text::{seq_join, str_eq, push_char, decimal, digit_char, push_decimal};

verus! {

/// The visitor's operating system, as the download page names it.
#[derive(Default, Clone, Debug)]
pub struct Os<'a> {
    pub lower_name: &'a str,
    pub name: &'a str,
    pub header: &'a str,
}

/// A published release and its assets per operating system.
#[derive(Default, Clone, Debug)]
pub struct OsRelease<'a> {
    pub version: &'a str,
    pub published_at: &'a str,
    pub url: &'a str,
    pub assets: Vec<OsAsset<'a>>,
}

/// The downloads of a release for one operating system.
#[derive(Default, Clone, Debug)]
pub struct OsAsset<'a> {
    pub name: &'a str,
    pub asset: Option<FileAsset<'a>>,
    pub other_formats: Vec<FileAsset<'a>>,
}

/// One downloadable file.
#[derive(Default, Clone, Debug)]
pub struct FileAsset<'a> {
    pub browser_download_url: &'a str,
    pub name: &'a str,
    pub size: u64,
}

/// The heading of an asset group: the display name of a known operating
/// system, the asset name itself otherwise.
pub open spec fn os_header(asset: Seq<char>) -> Seq<char> {
    if asset == "windows"@ {
        "Windows"@
    } else if asset == "mac_intel"@ {
        "macOS"@
    } else if asset == "linux"@ {
        "Linux"@
    } else if asset == "android"@ {
        "Android"@
    } else {
        asset
    }
}

/// The heading of an asset group.
pub fn get_os_header<'a>(asset: &'a str) -> (header: &'a str)
    ensures
        header@ == os_header(asset@),
{
    if str_eq(asset, "windows") {
        "Windows"
    } else if str_eq(asset, "mac_intel") {
        "macOS"
    } else if str_eq(asset, "linux") {
        "Linux"
    } else if str_eq(asset, "android") {
        "Android"
    } else {
        asset
    }
}

/// `base` to the power `e`.
pub open spec fn power(base: nat, e: nat) -> nat
    decreases e,
{
    if e == 0 { 1 } else { base * power(base, (e - 1) as nat) }
}

/// Whether `text` prints `bytes` in the unit `base` to the power `e` for
/// some `e` in 1..=6: a decimal number with one digit after the point, a
/// space, the `e`-th of the unit letters `letters`, and `suffix`; the
/// number is within a tenth of `bytes / base^e`.
pub open spec fn printed_in_units(
    text: Seq<char>,
    bytes: nat,
    base: nat,
    letters: Seq<char>,
    suffix: Seq<char>,
) -> bool {
    exists|whole: nat, tenth: nat, e: nat|
        #![trigger decimal(whole), digit_char(tenth), power(base, e)]
        {
            &&& tenth < 10
            &&& 1 <= e <= 6
            &&& text == decimal(whole) + seq!['.', digit_char(tenth), ' ', letters[e - 1]]
                + suffix
            &&& -(power(base, e) as int) <= (10 * whole + tenth) * power(base, e) - 10 * bytes
                <= power(base, e)
        }
}

/// Calls `bytesize::to_string`. Below one unit (1024 bytes with the binary
/// prefixes, 1000 without) it prints the count and ` B`. From one unit on
/// it divides by the unit to the power `e` and prints the quotient with
/// `{:.1}` (rounded to the nearest tenth), a space, the `e`-th unit letter
/// and `iB` (or `B`). Which `e` it takes comes from `f64::ln`, whose
/// precision std leaves unspecified, so the contract says only that it is
/// one of the six letters and that the number matches it.
#[verifier::external_body]
fn bytesize_to_string(bytes: u64, si_prefix: bool) -> (text: String)
    ensures
        si_prefix && bytes < 1024 ==> text@ == decimal(bytes as nat) + " B"@,
        !si_prefix && bytes < 1000 ==> text@ == decimal(bytes as nat) + " B"@,
        si_prefix && bytes >= 1024 ==> printed_in_units(text@, bytes as nat, 1024, "kMGTPE"@, "iB"@),
        !si_prefix && bytes >= 1000 ==> printed_in_units(text@, bytes as nat, 1000, "KMGTPE"@, "B"@),
{
    bytesize::to_string(bytes, si_prefix)
}

/// Whether `text` is how the download page prints a size of `bytes`: the
/// exact count and ` B` below 1024 bytes, else the size in kiB, MiB, GiB,
/// TiB, PiB or EiB, to a tenth.
pub open spec fn printed_size(bytes: u64, text: Seq<char>) -> bool {
    &&& bytes < 1024 ==> text == decimal(bytes as nat) + " B"@
    &&& bytes >= 1024 ==> printed_in_units(text, bytes as nat, 1024, "kMGTPE"@, "iB"@)
}

/// A file size as the download page prints it.
pub fn format_size(size: u64) -> (text: String)
    ensures
        printed_size(size, text@),
{
    bytesize_to_string(size, true)
}

/// Whether a character has the Unicode `White_Space` property, which is
/// what `char::is_whitespace` tests: tab to carriage return, space, next
/// line, no-break space, ogham space mark, en quad to hair space, line and
/// paragraph separator, narrow no-break space, medium mathematical space and
/// ideographic space.
pub open spec fn unicode_whitespace(c: char) -> bool {
    let u = c as u32;
    ||| 0x09 <= u <= 0x0D
    ||| u == 0x20
    ||| u == 0x85
    ||| u == 0xA0
    ||| u == 0x1680
    ||| 0x2000 <= u <= 0x200A
    ||| u == 0x2028
    ||| u == 0x2029
    ||| u == 0x202F
    ||| u == 0x205F
    ||| u == 0x3000
}

/// Whether `c` is a whitespace character, as `char::is_whitespace` has it.
pub fn is_whitespace(c: char) -> (w: bool)
    ensures
        w == unicode_whitespace(c),
{
    let u = c as u32;
    (0x09 <= u && u <= 0x0D) || u == 0x20 || u == 0x85 || u == 0xA0 || u == 0x1680 || (0x2000 <= u
        && u <= 0x200A) || u == 0x2028 || u == 0x2029 || u == 0x202F || u == 0x205F || u == 0x3000
}

/// The maximal runs of non-whitespace characters of `s`, in order.
pub open spec fn words(s: Seq<char>) -> Seq<Seq<char>>
    decreases s.len(),
{
    if s.len() == 0 {
        Seq::empty()
    } else {
        let w = words(s.drop_last());
        let c = s.last();
        if unicode_whitespace(c) {
            w
        } else if s.len() >= 2 && !unicode_whitespace(s[s.len() - 2]) {
            w.drop_last().push(w.last().push(c))
        } else {
            w.push(seq![c])
        }
    }
}

/// A string that ends in a non-whitespace character has a last word.
proof fn lemma_words_open(s: Seq<char>)
    requires
        s.len() > 0,
        !unicode_whitespace(s.last()),
    ensures
        words(s).len() > 0,
    decreases s.len(),
{
}

/// Joining after growing the last word by `c` adds `c` at the end.
proof fn lemma_join_extend_last(w: Seq<Seq<char>>, c: char, sep: Seq<char>)
    requires
        w.len() > 0,
    ensures
        seq_join(w.drop_last().push(w.last().push(c)), sep) == seq_join(w, sep).push(c),
{
    let v = w.drop_last().push(w.last().push(c));
    assert(v.drop_last() =~= w.drop_last());
    if w.len() == 1 {
        assert(v.len() == 1);
    } else {
        assert(seq_join(v, sep) == seq_join(w.drop_last(), sep) + sep + w.last().push(c));
        assert(seq_join(w.drop_last(), sep) + sep + w.last().push(c) =~= (seq_join(
            w.drop_last(),
            sep,
        ) + sep + w.last()).push(c));
    }
}

/// Joining after adding a word appends the separator and the word, or is
/// the word alone when it is the first.
proof fn lemma_join_push(w: Seq<Seq<char>>, x: Seq<char>, sep: Seq<char>)
    ensures
        w.len() == 0 ==> seq_join(w.push(x), sep) == x,
        w.len() > 0 ==> seq_join(w.push(x), sep) == seq_join(w, sep) + sep + x,
{
    assert(w.push(x).drop_last() =~= w);
}

/// The whitespace-separated words of `value`, joined by dashes.
pub fn dash_joined_words(value: &str) -> (joined: String)
    ensures
        joined@ == seq_join(words(value@), "-"@),
{
    let n = value.unicode_len();
    let mut out = String::new();
    let mut prev_word = false;
    let mut i: usize = 0;
    while i < n
        invariant
            n == value@.len(),
            i <= n,
            out@ == seq_join(words(value@.take(i as int)), "-"@),
            prev_word == (i > 0 && !unicode_whitespace(value@[i - 1])),
        decreases n - i,
    {
        let c = value.get_char(i);
        let ghost t = value@.take(i as int);
        let ghost t1 = value@.take(i + 1);
        assert(t1.drop_last() =~= t);
        assert(t1.last() == c);
        if is_whitespace(c) {
            prev_word = false;
        } else {
            if prev_word {
                proof {
                    assert(t1[t1.len() - 2] == value@[i - 1]);
                    lemma_words_open(t);
                    lemma_join_extend_last(words(t), c, "-"@);
                }
                push_char(&mut out, c);
            } else {
                proof {
                    if i > 0 {
                        assert(t1[t1.len() - 2] == value@[i - 1]);
                    }
                    lemma_join_push(words(t), seq![c], "-"@);
                }
                if i > 0 && out.unicode_len() > 0 {
                    out.append("-");
                } else {
                    assert(words(t).len() > 0 ==> out@.len() > 0) by {
                        if words(t).len() > 0 {
                            lemma_words_nonempty(t);
                            lemma_join_nonempty(words(t), "-"@);
                        }
                    }
                }
                push_char(&mut out, c);
                assert(out@ =~= seq_join(words(t1), "-"@));
            }
            prev_word = true;
        }
        i = i + 1;
    }
    assert(value@.take(n as int) =~= value@);
    out
}

/// Every word is non-empty.
proof fn lemma_words_nonempty(s: Seq<char>)
    ensures
        forall|k: int| 0 <= k < words(s).len() ==> #[trigger] words(s)[k].len() > 0,
    decreases s.len(),
{
    if s.len() > 0 {
        lemma_words_nonempty(s.drop_last());
        let w = words(s.drop_last());
        if !unicode_whitespace(s.last()) && s.len() >= 2 && !unicode_whitespace(s[s.len() - 2]) {
            lemma_words_open(s.drop_last());
            let v = w.drop_last().push(w.last().push(s.last()));
            assert forall|k: int| 0 <= k < v.len() implies #[trigger] v[k].len() > 0 by {
                if k < v.len() - 1 {
                    assert(v[k] == w[k]);
                }
            }
        }
    }
}

/// Joining non-empty words, at least one, gives a non-empty string.
proof fn lemma_join_nonempty(w: Seq<Seq<char>>, sep: Seq<char>)
    requires
        w.len() > 0,
        forall|k: int| 0 <= k < w.len() ==> #[trigger] w[k].len() > 0,
    ensures
        seq_join(w, sep).len() > 0,
    decreases w.len(),
{
    if w.len() > 1 {
        assert(w.last() == w[w.len() - 1]);
    } else {
        assert(w[0].len() > 0);
    }
}

/// What `regex::Regex::new(pattern)` followed by `replace_all(text,
/// replacement)` gives: `None` when the pattern does not compile, else the
/// text with every match replaced.
pub uninterp spec fn regex_replaced(
    pattern: Seq<char>,
    text: Seq<char>,
    replacement: Seq<char>,
) -> Option<Seq<char>>;

/// Compiles `pattern` with `regex::Regex::new` and replaces every match in
/// `text` by `replacement` with `Regex::replace_all`. The result depends on
/// the arguments alone; the contract names it and states nothing of which
/// characters match.
#[verifier::external_body]
fn regex_replace_all(pattern: &str, text: &str, replacement: &str) -> (replaced: Option<String>)
    ensures
        replaced is Some <==> regex_replaced(pattern@, text@, replacement@) is Some,
        replaced matches Some(r) ==> regex_replaced(pattern@, text@, replacement@) == Some(r@),
{
    match regex::Regex::new(pattern) {
        Ok(re) => Some(re.replace_all(text, replacement).into_owned()),
        Err(_) => None,
    }
}

/// What `str::to_lowercase` returns: the Unicode lowercase mapping of each
/// character.
pub uninterp spec fn lowercase(s: Seq<char>) -> Seq<char>;

/// Calls `str::to_lowercase`. The result depends on the string alone; the
/// contract names it.
#[verifier::external_body]
fn to_lowercase(s: &str) -> (lower: String)
    ensures
        lower@ == lowercase(s@),
{
    s.to_lowercase()
}

/// Characters that a class name may not hold: all but word characters and
/// the dash.
pub const CLASS_NAME_DISALLOWED: &'static str = "[^\\w-]";

/// A version turned into an element id: its words joined by dashes, every
/// character that is neither a word character nor a dash replaced by an
/// underscore, then lowercased.
pub open spec fn class_name(value: Seq<char>) -> Seq<char> {
    let joined = seq_join(words(value), "-"@);
    match regex_replaced(CLASS_NAME_DISALLOWED@, joined, "_"@) {
        Some(r) => lowercase(r),
        None => lowercase(joined),
    }
}

/// Turns a version into an element id.
pub fn format_class_name(value: &str) -> (name: String)
    ensures
        name@ == class_name(value@),
{
    let joined = dash_joined_words(value);
    match regex_replace_all(CLASS_NAME_DISALLOWED, joined.as_str(), "_") {
        Some(replaced) => to_lowercase(replaced.as_str()),
        None => to_lowercase(joined.as_str()),
    }
}

/// A download link as the page shows it: target, file name, printed size.
pub struct FileLink<'a> {
    pub url: &'a str,
    pub name: &'a str,
    pub size: String,
}

/// What the page shows of the downloads of a release for one OS: a hint
/// with the visitor's OS header when it is that OS, the group heading, the
/// main download and the other formats.
pub struct AssetSection<'a> {
    pub running_hint: Option<&'a str>,
    pub heading: &'a str,
    pub download: FileLink<'a>,
    pub other_formats: Vec<FileLink<'a>>,
}

/// What the page shows of a release: its element id, version, date, link
/// and the asset groups that have a main download.
pub struct ReleaseSection<'a> {
    pub id: String,
    pub version: &'a str,
    pub published_at: &'a str,
    pub url: &'a str,
    pub assets: Vec<AssetSection<'a>>,
}

/// The characters of a `FileLink`.
pub struct FileLinkView {
    pub url: Seq<char>,
    pub name: Seq<char>,
    pub size: Seq<char>,
}

/// The characters of an `AssetSection`.
pub struct AssetSectionView {
    pub running_hint: Option<Seq<char>>,
    pub heading: Seq<char>,
    pub download: FileLinkView,
    pub other_formats: Seq<FileLinkView>,
}

/// The characters of a `ReleaseSection`.
pub struct ReleaseSectionView {
    pub id: Seq<char>,
    pub version: Seq<char>,
    pub published_at: Seq<char>,
    pub url: Seq<char>,
    pub assets: Seq<AssetSectionView>,
}

impl<'a> View for FileLink<'a> {
    type V = FileLinkView;

    open spec fn view(&self) -> FileLinkView {
        FileLinkView { url: self.url@, name: self.name@, size: self.size@ }
    }
}

impl<'a> View for AssetSection<'a> {
    type V = AssetSectionView;

    open spec fn view(&self) -> AssetSectionView {
        AssetSectionView {
            running_hint: match self.running_hint {
                Some(h) => Some(h@),
                None => None,
            },
            heading: self.heading@,
            download: self.download@,
            other_formats: self.other_formats@.map_values(|l: FileLink<'a>| l@),
        }
    }
}

impl<'a> View for ReleaseSection<'a> {
    type V = ReleaseSectionView;

    open spec fn view(&self) -> ReleaseSectionView {
        ReleaseSectionView {
            id: self.id@,
            version: self.version@,
            published_at: self.published_at@,
            url: self.url@,
            assets: self.assets@.map_values(|a: AssetSection<'a>| a@),
        }
    }
}

/// Whether `link` is what the page shows for file `f`.
pub open spec fn shows_file(link: FileLinkView, f: FileAsset) -> bool {
    &&& link.url == f.browser_download_url@
    &&& link.name == f.name@
    &&& printed_size(f.size, link.size)
}

/// Whether `v` is the group the page shows for the assets `a` of one OS
/// with main download `f`.
pub open spec fn shows_asset(v: AssetSectionView, a: OsAsset, f: FileAsset, os: Os) -> bool {
    &&& v.running_hint == if os.lower_name@ == a.name@ {
        Some(os.header@)
    } else {
        None
    }
    &&& v.heading == os_header(a.name@)
    &&& shows_file(v.download, f)
    &&& v.other_formats.len() == a.other_formats@.len()
    &&& forall|k: int|
        0 <= k < v.other_formats.len() ==> shows_file(
            #[trigger] v.other_formats[k],
            a.other_formats@[k],
        )
}

/// Whether `vs` are the groups the page shows for `assets`: one per asset
/// with a main download, in order.
pub open spec fn shows_assets(vs: Seq<AssetSectionView>, assets: Seq<OsAsset>, os: Os) -> bool
    decreases assets.len(),
{
    if assets.len() == 0 {
        vs.len() == 0
    } else {
        match assets.last().asset {
            Some(f) => vs.len() > 0 && shows_asset(vs.last(), assets.last(), f, os)
                && shows_assets(vs.drop_last(), assets.drop_last(), os),
            None => shows_assets(vs, assets.drop_last(), os),
        }
    }
}

/// Whether `v` is the section the page shows for release `r`.
pub open spec fn shows_release(v: ReleaseSectionView, r: OsRelease, os: Os) -> bool {
    &&& v.id == class_name(r.version@)
    &&& v.version == r.version@
    &&& v.published_at == r.published_at@
    &&& v.url == r.url@
    &&& shows_assets(v.assets, r.assets@, os)
}

fn make_link<'a>(f: &FileAsset<'a>) -> (link: FileLink<'a>)
    ensures
        shows_file(link@, *f),
{
    FileLink { url: f.browser_download_url, name: f.name, size: format_size(f.size) }
}

fn make_asset_section<'a>(a: &OsAsset<'a>, f: &FileAsset<'a>, os: &Os<'a>) -> (section:
    AssetSection<'a>)
    ensures
        shows_asset(section@, *a, *f, *os),
{
    let running_hint = if str_eq(os.lower_name, a.name) {
        Some(os.header)
    } else {
        None
    };
    let mut other_formats: Vec<FileLink<'a>> = Vec::new();
    let mut i: usize = 0;
    while i < a.other_formats.len()
        invariant
            i <= a.other_formats@.len(),
            other_formats@.len() == i,
            forall|k: int|
                0 <= k < i ==> shows_file(#[trigger] other_formats@[k]@, a.other_formats@[k]),
        decreases a.other_formats@.len() - i,
    {
        let link = make_link(&a.other_formats[i]);
        other_formats.push(link);
        i = i + 1;
    }
    let section = AssetSection {
        running_hint,
        heading: get_os_header(a.name),
        download: make_link(f),
        other_formats,
    };
    assert forall|k: int| 0 <= k < section@.other_formats.len() implies shows_file(
        #[trigger] section@.other_formats[k],
        a.other_formats@[k],
    ) by {
        assert(section@.other_formats[k] == section.other_formats@[k]@);
    }
    section
}

/// What the download page shows of the releases for a visitor on `os`: per
/// release its id, version, date, link and the asset groups that have a main
/// download, each with its heading, links with printed sizes, and a hint
/// when the group is for the visitor's OS.
pub fn release_sections<'a>(releases: &[OsRelease<'a>], os: &Os<'a>) -> (sections: Vec<
    ReleaseSection<'a>,
>)
    ensures
        sections@.len() == releases@.len(),
        forall|i: int|
            0 <= i < sections@.len() ==> shows_release(#[trigger] sections@[i]@, releases@[i], *os),
{
    let mut sections: Vec<ReleaseSection<'a>> = Vec::new();
    let mut i: usize = 0;
    while i < releases.len()
        invariant
            i <= releases@.len(),
            sections@.len() == i,
            forall|k: int|
                0 <= k < i ==> shows_release(#[trigger] sections@[k]@, releases@[k], *os),
        decreases releases@.len() - i,
    {
        let release = &releases[i];
        let mut assets: Vec<AssetSection<'a>> = Vec::new();
        let mut j: usize = 0;
        while j < release.assets.len()
            invariant
                j <= release.assets@.len(),
                shows_assets(
                    assets@.map_values(|a: AssetSection<'a>| a@),
                    release.assets@.take(j as int),
                    *os,
                ),
            decreases release.assets@.len() - j,
        {
            let a = &release.assets[j];
            assert(release.assets@.take(j + 1).drop_last() =~= release.assets@.take(j as int));
            assert(release.assets@.take(j + 1).last() == *a);
            if let Some(f) = &a.asset {
                let section = make_asset_section(a, f, os);
                let ghost before = assets@;
                assets.push(section);
                assert(assets@ == before.push(section));
                assert(assets@.map_values(|a: AssetSection<'a>| a@).drop_last() =~= before.map_values(
                    |a: AssetSection<'a>| a@,
                ));
                assert(assets@.map_values(|a: AssetSection<'a>| a@).last() == section@);
            }
            j = j + 1;
        }
        assert(release.assets@.take(release.assets@.len() as int) =~= release.assets@);
        let section = ReleaseSection {
            id: format_class_name(release.version),
            version: release.version,
            published_at: release.published_at,
            url: release.url,
            assets,
        };
        assert(shows_release(section@, *release, *os));
        sections.push(section);
        i = i + 1;
    }
    sections
}

} // verus!
