//! Version bookkeeping for the self-update check: parsing release tags,
//! comparing versions and rendering them, plus the choice of a release
//! asset to download. The network, file replacement and window drawing
//! around these decisions live in the host glue.

use vstd::prelude::*;

verus! {

/// Version represented as `[major, minor, patch, build]`.
pub type Version = [u16; 4];

/// Lifecycle of the self-update routine, as the update window shows it.
#[derive(Clone, Copy, Debug, PartialEq, Eq, Structural)]
pub enum UpdateStatus {
    /// Initial state, checking for updates.
    Unknown,
    /// Update is available.
    UpdateAvailable,
    /// User dismissed the update window.
    Dismissed,
    /// Update download in progress.
    UpdateInProgress,
    /// Update completed successfully.
    UpdateSuccessful,
    /// Update failed.
    UpdateError,
}

/// `repo` is strictly newer than `current` on the `major.minor.patch`
/// triple; the build component is ignored.
pub open spec fn spec_is_newer(repo: Seq<u16>, current: Seq<u16>) -> bool {
    ||| current[0] < repo[0]
    ||| (current[0] == repo[0] && current[1] < repo[1])
    ||| (current[0] == repo[0] && current[1] == repo[1] && current[2] < repo[2])
}

/// Compare versions: true exactly when `repo_version` is newer than
/// `current_version` on major, minor and patch.
pub fn is_newer(repo_version: &Version, current_version: &Version) -> (newer: bool)
    ensures
        newer == spec_is_newer(repo_version@, current_version@),
{
    if current_version[0] != repo_version[0] {
        current_version[0] < repo_version[0]
    } else if current_version[1] != repo_version[1] {
        current_version[1] < repo_version[1]
    } else {
        current_version[2] < repo_version[2]
    }
}

/// The decimal digit character for a value below ten.
pub open spec fn digit_char(d: nat) -> char {
    if d == 0 {
        '0'
    } else if d == 1 {
        '1'
    } else if d == 2 {
        '2'
    } else if d == 3 {
        '3'
    } else if d == 4 {
        '4'
    } else if d == 5 {
        '5'
    } else if d == 6 {
        '6'
    } else if d == 7 {
        '7'
    } else if d == 8 {
        '8'
    } else {
        '9'
    }
}

/// The decimal digit characters of a number, most significant first.
pub open spec fn dec_digits(n: nat) -> Seq<char>
    decreases n,
{
    if n < 10 {
        seq![digit_char(n)]
    } else {
        dec_digits(n / 10).push(digit_char(n % 10))
    }
}

/// The one-character string for a decimal digit.
fn digit_str(d: u8) -> (s: &'static str)
    requires
        d < 10,
    ensures
        s@ == seq![digit_char(d as nat)],
{
    let s: &'static str = match d {
        0 => "0",
        1 => "1",
        2 => "2",
        3 => "3",
        4 => "4",
        5 => "5",
        6 => "6",
        7 => "7",
        8 => "8",
        _ => "9",
    };
    proof {
        reveal_strlit("0");
        reveal_strlit("1");
        reveal_strlit("2");
        reveal_strlit("3");
        reveal_strlit("4");
        reveal_strlit("5");
        reveal_strlit("6");
        reveal_strlit("7");
        reveal_strlit("8");
        reveal_strlit("9");
        assert(s@ =~= seq![digit_char(d as nat)]);
    }
    s
}

/// Render a number in decimal, without leading zeros.
fn u16_to_string(value: u16) -> (s: String)
    ensures
        s@ == dec_digits(value as nat),
    decreases value,
{
    if value < 10 {
        digit_str(value as u8).to_owned()
    } else {
        let mut s = u16_to_string(value / 10);
        let digit = digit_str((value % 10) as u8);
        s.append(digit);
        proof {
            assert(dec_digits((value / 10) as nat) + seq![digit_char((value % 10) as nat)]
                =~= dec_digits((value / 10) as nat).push(digit_char((value % 10) as nat)));
        }
        s
    }
}

/// The characters of a version rendered as `major.minor.patch`.
pub open spec fn spec_version_string(version: Seq<u16>) -> Seq<char> {
    dec_digits(version[0] as nat) + "."@ + dec_digits(version[1] as nat) + "."@ + dec_digits(
        version[2] as nat,
    )
}

/// Format a version as `major.minor.patch`; the build component is not
/// shown.
pub fn version_to_string(version: &Version) -> (s: String)
    ensures
        s@ == spec_version_string(version@),
{
    let mut s = u16_to_string(version[0]);
    s.append(".");
    let minor = u16_to_string(version[1]);
    s.append(minor.as_str());
    s.append(".");
    let patch = u16_to_string(version[2]);
    s.append(patch.as_str());
    s
}

/// The version this crate itself carries, mirroring the package version.
pub fn get_current_version() -> (version: Version)
    ensures
        version@ == seq![0u16, 1u16, 0u16, 0u16],
{
    let version: Version = [0, 1, 0, 0];
    proof {
        assert(version@ =~= seq![0u16, 1u16, 0u16, 0u16]);
    }
    version
}

/// Whether a character is a decimal digit.
pub open spec fn is_digit_char(c: char) -> bool {
    48 <= c as u32 <= 57
}

/// The value of a decimal digit character.
pub open spec fn digit_val(c: char) -> nat {
    (c as u32 - 48) as nat
}

/// The longest run of decimal digits at the front of a string.
pub open spec fn digits_prefix(s: Seq<char>) -> Seq<char>
    decreases s.len(),
{
    if s.len() == 0 || !is_digit_char(s[0]) {
        Seq::empty()
    } else {
        seq![s[0]] + digits_prefix(s.skip(1))
    }
}

/// The number a digit run denotes, most significant digit first.
pub open spec fn digits_to_nat(digits: Seq<char>) -> nat
    decreases digits.len(),
{
    if digits.len() == 0 {
        0
    } else {
        digits_to_nat(digits.drop_last()) * 10 + digit_val(digits.last())
    }
}

/// When the first `k` characters are digits and the next one is not (or
/// the string ends there), the digit prefix is exactly those characters.
proof fn lemma_digits_prefix_is_take(s: Seq<char>, k: int)
    requires
        0 <= k <= s.len(),
        forall|j: int| 0 <= j < k ==> is_digit_char(#[trigger] s[j]),
        k == s.len() || !is_digit_char(s[k]),
    ensures
        digits_prefix(s) == s.take(k),
    decreases k,
{
    if k == 0 {
        assert(digits_prefix(s) =~= s.take(0));
    } else {
        lemma_digits_prefix_is_take(s.skip(1), k - 1);
        assert(seq![s[0]] + s.skip(1).take(k - 1) =~= s.take(k));
    }
}

/// Extending a digit run can only grow the number it denotes.
proof fn lemma_digits_to_nat_take_le(digits: Seq<char>, m: int)
    requires
        0 <= m <= digits.len(),
    ensures
        digits_to_nat(digits.take(m)) <= digits_to_nat(digits),
    decreases digits.len() - m,
{
    if m == digits.len() {
        assert(digits.take(m) =~= digits);
    } else {
        lemma_digits_to_nat_take_le(digits, m + 1);
        assert(digits.take(m + 1).drop_last() =~= digits.take(m));
        assert(digits_to_nat(digits.take(m + 1)) == digits_to_nat(digits.take(m)) * 10
            + digit_val(digits.take(m + 1).last()));
    }
}

/// The number denoted by the digit prefix of a version part, if the part
/// starts with a digit at all and the number fits a `u16` — mirroring how
/// a part such as `3-beta` reads as `3` and `x3` or an empty part fails.
pub open spec fn spec_parse_part(s: Seq<char>) -> Option<u16> {
    let digits = digits_prefix(s);
    if digits.len() == 0 {
        None
    } else if digits_to_nat(digits) > u16::MAX {
        None
    } else {
        Some(digits_to_nat(digits) as u16)
    }
}

/// Whether a character is a decimal digit.
fn is_ascii_digit(c: char) -> (r: bool)
    ensures
        r == is_digit_char(c),
{
    let code = c as u32;
    48 <= code && code <= 57
}

/// Parse the digit prefix of one version part.
fn parse_part(part: &str) -> (value: Option<u16>)
    ensures
        value == spec_parse_part(part@),
{
    let len = part.unicode_len();
    let mut k: usize = 0;
    while k < len && is_ascii_digit(part.get_char(k))
        invariant
            0 <= k <= len,
            len == part@.len(),
            forall|j: int| 0 <= j < k ==> is_digit_char(#[trigger] part@[j]),
        decreases len - k,
    {
        k += 1;
    }
    proof {
        lemma_digits_prefix_is_take(part@, k as int);
    }
    if k == 0 {
        return None;
    }
    let ghost digits = digits_prefix(part@);
    let mut value: u32 = 0;
    let mut j: usize = 0;
    while j < k
        invariant
            0 <= j <= k <= len,
            len == part@.len(),
            digits == digits_prefix(part@),
            digits == part@.take(k as int),
            digits.len() == k,
            forall|i: int| 0 <= i < k ==> is_digit_char(#[trigger] part@[i]),
            value == digits_to_nat(digits.take(j as int)),
            value <= u16::MAX,
        decreases k - j,
    {
        let code = part.get_char(j) as u32;
        proof {
            assert(is_digit_char(part@[j as int]));
            assert(digits.take(j + 1).drop_last() =~= digits.take(j as int));
            assert(digits.take(j + 1).last() == part@[j as int]);
        }
        let next: u32 = value * 10 + (code - 48);
        proof {
            assert(next == digits_to_nat(digits.take(j + 1)));
        }
        if next > 65535 {
            proof {
                lemma_digits_to_nat_take_le(digits, j + 1);
            }
            return None;
        }
        value = next;
        j += 1;
    }
    proof {
        assert(digits.take(k as int) =~= digits);
    }
    Some(value as u16)
}

/// A version tag with a single leading `v` removed, if one is present.
pub open spec fn spec_strip_v(tag: Seq<char>) -> Seq<char> {
    if tag.len() > 0 && tag[0] == 'v' {
        tag.skip(1)
    } else {
        tag
    }
}

/// The `major.minor.patch` triple a release tag denotes: the tag may
/// carry a leading `v`, must have at least three dot-separated parts, and
/// each of the first three parts must start with digits that fit a
/// `u16`; trailing non-digits of a part (as in `3-beta`) are ignored.
pub open spec fn spec_parse_version(tag: Seq<char>) -> Option<(u16, u16, u16)> {
    let t = spec_strip_v(tag);
    match t.index_of_first('.') {
        Some(d1) => {
            let rest = t.skip(d1 + 1);
            match rest.index_of_first('.') {
                Some(d2) => {
                    let part0 = spec_parse_part(t.take(d1));
                    let part1 = spec_parse_part(rest.take(d2));
                    let part2 = spec_parse_part(rest.skip(d2 + 1));
                    if part0 is Some && part1 is Some && part2 is Some {
                        Some((part0->0, part1->0, part2->0))
                    } else {
                        None
                    }
                },
                None => None,
            }
        },
        None => None,
    }
}

/// Parse a version from a release tag name such as `v1.2.3` or `1.2.3`.
pub fn parse_version(tag: &str) -> (version: Option<Version>)
    ensures
        version is Some <==> spec_parse_version(tag@) is Some,
        version is Some ==> version->0@ == seq![
            (spec_parse_version(tag@)->0).0,
            (spec_parse_version(tag@)->0).1,
            (spec_parse_version(tag@)->0).2,
            0u16,
        ],
{
    let len = tag.unicode_len();
    // Remove a leading 'v' if present.
    let stripped: &str = if len > 0 && tag.get_char(0) == 'v' {
        tag.substring_char(1, len)
    } else {
        tag
    };
    proof {
        assert(stripped@ =~= spec_strip_v(tag@));
    }
    let ghost t = spec_strip_v(tag@);
    let s_len = stripped.unicode_len();
    let d1 = match crate::text::find_char_from(stripped, '.', 0) {
        Some(i) => i,
        None => {
            proof {
                t.index_of_first_ensures('.');
                if t.index_of_first('.') is Some {
                    let idx = t.index_of_first('.')->0;
                    assert(t[idx] != '.');
                }
            }
            return None;
        },
    };
    proof {
        t.index_of_first_ensures('.');
        assert(t.contains('.')) by {
            assert(0 <= d1 < t.len() && t[d1 as int] == '.');
        }
        let idx = t.index_of_first('.')->0;
        if idx < d1 {
            assert(t[idx] != '.');
        }
        if idx > d1 {
            assert(t[d1 as int] != '.');
        }
        assert(t.index_of_first('.') == Some(d1 as int));
    }
    let ghost rest = t.skip(d1 + 1);
    let d2 = match crate::text::find_char_from(stripped, '.', d1 + 1) {
        Some(i) => i,
        None => {
            proof {
                rest.index_of_first_ensures('.');
                if rest.index_of_first('.') is Some {
                    let idx = rest.index_of_first('.')->0;
                    assert(t[idx + d1 + 1] != '.');
                    assert(rest[idx] == t[idx + d1 + 1]);
                }
            }
            return None;
        },
    };
    let ghost d2rel = d2 - d1 - 1;
    proof {
        rest.index_of_first_ensures('.');
        assert(rest.contains('.')) by {
            assert(rest[d2rel] == t[d2 as int]);
            assert(0 <= d2rel < rest.len() && rest[d2rel] == '.');
        }
        let idx = rest.index_of_first('.')->0;
        if idx < d2rel {
            assert(t[idx + d1 + 1] == rest[idx]);
            assert(t[idx + d1 + 1] != '.');
        }
        if idx > d2rel {
            assert(rest[d2rel] != '.');
        }
        assert(rest.index_of_first('.') == Some(d2rel));
    }
    let part0 = parse_part(stripped.substring_char(0, d1));
    let part1 = parse_part(stripped.substring_char(d1 + 1, d2));
    let part2 = parse_part(stripped.substring_char(d2 + 1, s_len));
    proof {
        assert(t.subrange(0, d1 as int) =~= t.take(d1 as int));
        assert(t.subrange(d1 + 1, d2 as int) =~= rest.take(d2rel));
        assert(t.subrange(d2 + 1, t.len() as int) =~= rest.skip(d2rel + 1));
    }
    match (part0, part1, part2) {
        (Some(major), Some(minor), Some(patch)) => {
            let version: Version = [major, minor, patch, 0];
            proof {
                assert(version@ =~= seq![major, minor, patch, 0u16]);
            }
            Some(version)
        },
        _ => None,
    }
}

/// One downloadable file attached to a release.
#[derive(Clone, Debug)]
pub struct ReleaseAsset {
    pub name: String,
    pub browser_download_url: String,
}

/// One published release, as the release feed reports it.
#[derive(Clone, Debug)]
pub struct ReleaseInfo {
    pub tag_name: String,
    pub assets: Vec<ReleaseAsset>,
}

/// Whether an asset name marks a plugin binary: it ends in `.dll`.
pub open spec fn is_dll_name(name: Seq<char>) -> bool {
    name.len() >= ".dll"@.len() && name.skip(name.len() - ".dll"@.len()) == ".dll"@
}

/// Index of the first asset whose name ends in `.dll`.
pub open spec fn first_dll_index(assets: Seq<ReleaseAsset>) -> Option<int>
    decreases assets.len(),
{
    if assets.len() == 0 {
        None
    } else if is_dll_name(assets[0].name@) {
        Some(0)
    } else {
        match first_dll_index(assets.skip(1)) {
            Some(i) => Some(i + 1),
            None => None,
        }
    }
}

/// What `first_dll_index` returns: the first matching index, if any.
pub proof fn lemma_first_dll_index_ensures(assets: Seq<ReleaseAsset>)
    ensures
        match first_dll_index(assets) {
            Some(i) => 0 <= i < assets.len() && is_dll_name(assets[i].name@) && forall|j: int|
                0 <= j < i ==> !is_dll_name(#[trigger] assets[j].name@),
            None => forall|j: int|
                0 <= j < assets.len() ==> !is_dll_name(#[trigger] assets[j].name@),
        },
    decreases assets.len(),
{
    if assets.len() > 0 && !is_dll_name(assets[0].name@) {
        lemma_first_dll_index_ensures(assets.skip(1));
        assert forall|j: int| 1 <= j < assets.len() implies assets.skip(1)[j - 1] == assets[j] by {}
    }
}

/// Find the first asset whose name ends in `.dll`.
pub fn find_dll_asset(assets: &Vec<ReleaseAsset>) -> (position: Option<usize>)
    ensures
        match position {
            Some(i) => first_dll_index(assets@) == Some(i as int),
            None => first_dll_index(assets@) is None,
        },
{
    let mut i: usize = 0;
    let n = assets.len();
    while i < n
        invariant
            i <= n,
            n == assets@.len(),
            forall|j: int| 0 <= j < i ==> !is_dll_name(#[trigger] assets@[j].name@),
        decreases n - i,
    {
        if crate::text::str_ends_with(assets[i].name.as_str(), ".dll") {
            proof {
                lemma_first_dll_index_ensures(assets@);
                match first_dll_index(assets@) {
                    Some(k) => {
                        if k < i {
                            assert(!is_dll_name(assets@[k].name@));
                        }
                        if k > i {
                            assert(!is_dll_name(assets@[i as int].name@));
                        }
                    },
                    None => {
                        assert(!is_dll_name(assets@[i as int].name@));
                    },
                }
            }
            return Some(i);
        }
        i += 1;
    }
    proof {
        lemma_first_dll_index_ensures(assets@);
        if first_dll_index(assets@) is Some {
            let k = first_dll_index(assets@)->0;
            assert(!is_dll_name(assets@[k].name@));
        }
    }
    None
}

/// Whether a release carries a plugin binary among its assets.
pub open spec fn has_dll_asset(release: ReleaseInfo) -> bool {
    first_dll_index(release.assets@) is Some
}

/// Pick the release to consider from the prerelease feed: the first one
/// that carries a plugin binary.
pub fn select_release(releases: &Vec<ReleaseInfo>) -> (position: Option<usize>)
    ensures
        match position {
            Some(i) => i < releases@.len() && has_dll_asset(releases@[i as int]) && forall|j: int|
                0 <= j < i ==> !has_dll_asset(#[trigger] releases@[j]),
            None => forall|j: int| 0 <= j < releases@.len() ==> !has_dll_asset(
                #[trigger] releases@[j],
            ),
        },
{
    let mut i: usize = 0;
    let n = releases.len();
    while i < n
        invariant
            i <= n,
            n == releases@.len(),
            forall|j: int| 0 <= j < i ==> !has_dll_asset(#[trigger] releases@[j]),
        decreases n - i,
    {
        if find_dll_asset(&releases[i].assets).is_some() {
            return Some(i);
        }
        i += 1;
    }
    None
}

/// An update worth offering: the release's version and where to download
/// its plugin binary.
#[derive(Clone, Debug)]
pub struct AvailableUpdate {
    pub version: Version,
    pub download_url: String,
}

/// Hold one release against the installed version: an update is offered
/// exactly when the tag parses, the release is strictly newer than the
/// installed version (when one is known), and the release carries a
/// plugin binary — whose first occurrence supplies the download URL.
pub fn evaluate_release(
    tag_name: &str,
    assets: &Vec<ReleaseAsset>,
    current_version: Option<Version>,
) -> (update: Option<AvailableUpdate>)
    ensures
        ({
            let parsed = spec_parse_version(tag_name@);
            match parsed {
                None => update is None,
                Some(triple) => {
                    let v = seq![triple.0, triple.1, triple.2, 0u16];
                    if current_version is Some && !spec_is_newer(v, current_version->0@) {
                        update is None
                    } else {
                        match first_dll_index(assets@) {
                            None => update is None,
                            Some(i) => update is Some && (update->0).version@ == v && (
                            update->0).download_url@ == assets@[i].browser_download_url@,
                        }
                    }
                },
            }
        }),
{
    let release_version = match parse_version(tag_name) {
        Some(v) => v,
        None => {
            return None;
        },
    };
    if let Some(current) = current_version {
        if !is_newer(&release_version, &current) {
            return None;
        }
    }
    match find_dll_asset(assets) {
        Some(i) => {
            proof {
                lemma_first_dll_index_ensures(assets@);
            }
            Some(
                AvailableUpdate {
                    version: release_version,
                    download_url: assets[i].browser_download_url.clone(),
                },
            )
        },
        None => None,
    }
}

} // verus!
