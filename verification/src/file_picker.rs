//! State behind the sound-file picker window: the cached directory
//! listing — filtered, formatted and sorted — and the picker's open/close
//! and filter state. Reading the file system and drawing the window are
//! the host glue's business: it hands the raw directory listing in and
//! renders the filtered entries out.

use vstd::multiset::Multiset;
use vstd::prelude::*;

use crate::text::str_eq;

verus! {

/// One directory entry as the picker displays it.
#[derive(Clone, Debug)]
pub struct CachedEntry {
    pub path: String,
    pub name: String,
    /// Pre-formatted display name, to avoid building it every frame.
    pub display_name: String,
    pub is_dir: bool,
}

/// The characters of an entry, for statements that do not care which
/// `String` allocation carries them.
pub struct EntryView {
    pub path: Seq<char>,
    pub name: Seq<char>,
    pub display_name: Seq<char>,
    pub is_dir: bool,
}

/// The view of one entry.
pub open spec fn entry_view(entry: CachedEntry) -> EntryView {
    EntryView {
        path: entry.path@,
        name: entry.name@,
        display_name: entry.display_name@,
        is_dir: entry.is_dir,
    }
}

/// The views of a whole listing.
pub open spec fn entry_views(entries: Seq<CachedEntry>) -> Seq<EntryView> {
    entries.map_values(|entry: CachedEntry| entry_view(entry))
}

/// Code-point order on character sequences. Since UTF-8 byte order and
/// code-point order coincide, this is the order `String` comparison uses.
pub open spec fn spec_chars_le(a: Seq<char>, b: Seq<char>) -> bool
    decreases a.len(),
{
    if a.len() == 0 {
        true
    } else if b.len() == 0 {
        false
    } else if (a[0] as u32) < (b[0] as u32) {
        true
    } else if (a[0] as u32) > (b[0] as u32) {
        false
    } else {
        spec_chars_le(a.skip(1), b.skip(1))
    }
}

/// Any two character sequences are comparable.
pub proof fn lemma_chars_le_total(a: Seq<char>, b: Seq<char>)
    ensures
        spec_chars_le(a, b) || spec_chars_le(b, a),
    decreases a.len(),
{
    if a.len() > 0 && b.len() > 0 && (a[0] as u32) == (b[0] as u32) {
        lemma_chars_le_total(a.skip(1), b.skip(1));
    }
}

/// The character order is transitive.
pub proof fn lemma_chars_le_trans(a: Seq<char>, b: Seq<char>, c: Seq<char>)
    requires
        spec_chars_le(a, b),
        spec_chars_le(b, c),
    ensures
        spec_chars_le(a, c),
    decreases a.len(),
{
    if a.len() > 0 && b.len() > 0 && c.len() > 0 && (a[0] as u32) == (b[0] as u32) && (
    b[0] as u32) == (c[0] as u32) {
        lemma_chars_le_trans(a.skip(1), b.skip(1), c.skip(1));
    }
}

/// Display order of the picker: directories first, then by name.
pub open spec fn entry_le(a: CachedEntry, b: CachedEntry) -> bool {
    if a.is_dir != b.is_dir {
        a.is_dir
    } else {
        spec_chars_le(a.name@, b.name@)
    }
}

/// A listing in display order.
pub open spec fn sorted_entries(entries: Seq<CachedEntry>) -> bool {
    forall|i: int, j: int|
        #![trigger entries[i], entries[j]]
        0 <= i < j < entries.len() ==> entry_le(entries[i], entries[j])
}

/// Compare two strings in code-point order.
fn chars_le(a: &str, b: &str) -> (le: bool)
    ensures
        le == spec_chars_le(a@, b@),
{
    let a_len = a.unicode_len();
    let b_len = b.unicode_len();
    let mut i: usize = 0;
    proof {
        assert(a@.skip(0) =~= a@);
        assert(b@.skip(0) =~= b@);
    }
    while i < a_len && i < b_len
        invariant
            i <= a_len,
            i <= b_len,
            a_len == a@.len(),
            b_len == b@.len(),
            spec_chars_le(a@, b@) == spec_chars_le(a@.skip(i as int), b@.skip(i as int)),
            spec_chars_le(b@, a@) == spec_chars_le(b@.skip(i as int), a@.skip(i as int)),
        decreases a_len - i,
    {
        let ca = a.get_char(i);
        let cb = b.get_char(i);
        if (ca as u32) < (cb as u32) {
            return true;
        }
        if (ca as u32) > (cb as u32) {
            return false;
        }
        proof {
            assert(a@.skip(i as int).skip(1) =~= a@.skip(i + 1));
            assert(b@.skip(i as int).skip(1) =~= b@.skip(i + 1));
        }
        i += 1;
    }
    a_len <= b_len
}

/// Compare two entries in display order.
fn entry_le_exec(a: &CachedEntry, b: &CachedEntry) -> (le: bool)
    ensures
        le == entry_le(*a, *b),
{
    if a.is_dir != b.is_dir {
        a.is_dir
    } else {
        chars_le(a.name.as_str(), b.name.as_str())
    }
}

/// Moving the element at `i` back to position `p` keeps the views of a
/// listing the same multiset.
proof fn lemma_move_back_keeps_views(v0: Seq<CachedEntry>, i: int, p: int)
    requires
        0 <= p <= i < v0.len(),
    ensures
        entry_views(v0.remove(i).insert(p, v0[i])).to_multiset() == entry_views(v0).to_multiset(),
{
    broadcast use vstd::seq_lib::group_to_multiset_ensures;
    broadcast use vstd::multiset::group_multiset_axioms;

    let e = v0[i];
    let ev = entry_view(e);
    let v1 = v0.remove(i);
    let v2 = v1.insert(p, e);
    v0.remove_ensures(i);
    v1.insert_ensures(p, e);
    let m0 = entry_views(v0).to_multiset();
    let m1 = entry_views(v1).to_multiset();
    let m2 = entry_views(v2).to_multiset();
    assert(entry_views(v0)[i] == ev);
    assert(entry_views(v1) =~= entry_views(v0).remove(i));
    assert(entry_views(v2).remove(p) =~= entry_views(v1));
    assert(entry_views(v2)[p] == ev);
    assert(m2.remove(ev) =~= m1);
    assert(m1 =~= m0.remove(ev));
    assert(m2.contains(ev)) by {
        assert(entry_views(v2).contains(ev));
    }
    assert(m0.contains(ev)) by {
        assert(entry_views(v0).contains(ev));
    }
    assert forall|x: EntryView| #[trigger] m2.count(x) == m0.count(x) by {
        assert(m2.remove(ev).count(x) == m0.remove(ev).count(x));
        assert(m2.remove(ev).count(x) == (m2.count(x) - Multiset::singleton(ev).count(x)) as nat);
        assert(m0.remove(ev).count(x) == (m0.count(x) - Multiset::singleton(ev).count(x)) as nat);
        if x == ev {
            assert(m2.count(ev) > 0);
            assert(m0.count(ev) > 0);
            assert(Multiset::singleton(ev).count(ev) == 1);
        } else {
            assert(Multiset::singleton(ev).count(x) == 0);
        }
    }
    assert(m2 =~= m0);
}

/// Moving the element at `i` back to the position the insertion scan
/// found leaves the first `i + 1` entries in display order.
#[verifier::rlimit(50)]
proof fn lemma_move_back_sorts_prefix(v0: Seq<CachedEntry>, i: int, p: int)
    requires
        0 <= p <= i < v0.len(),
        sorted_entries(v0.take(i)),
        p > 0 ==> entry_le(v0[p - 1], v0[i]),
        forall|q: int| p <= q < i ==> !entry_le(#[trigger] v0[q], v0[i]),
    ensures
        sorted_entries(v0.remove(i).insert(p, v0[i]).take(i + 1)),
{
    let e = v0[i];
    let v2 = v0.remove(i).insert(p, e);
    v0.remove_ensures(i);
    v0.remove(i).insert_ensures(p, e);
    assert forall|k1: int, k2: int| 0 <= k1 < k2 < i implies entry_le(
        #[trigger] v0[k1],
        #[trigger] v0[k2],
    ) by {
        assert(v0.take(i)[k1] == v0[k1]);
        assert(v0.take(i)[k2] == v0[k2]);
    }
    assert forall|k1: int, k2: int|
        #![trigger v2[k1], v2[k2]]
        0 <= k1 < k2 < i + 1 implies entry_le(v2[k1], v2[k2]) by {
        if k1 < p && k2 == p {
            assert(v2[k1] == v0[k1]);
            assert(entry_le(v0[p - 1], e));
            if k1 < p - 1 {
                assert(entry_le(v0[k1], v0[p - 1]));
                if v0[k1].is_dir == v0[p - 1].is_dir && v0[p - 1].is_dir == e.is_dir {
                    lemma_chars_le_trans(v0[k1].name@, v0[p - 1].name@, e.name@);
                }
            }
        } else if k1 == p && k2 > p {
            assert(v2[k2] == v0[k2 - 1]);
            assert(p <= k2 - 1 < i);
            assert(!entry_le(v0[k2 - 1], e));
            lemma_chars_le_total(e.name@, v0[k2 - 1].name@);
        } else if k1 < p && k2 > p {
            assert(v2[k1] == v0[k1]);
            assert(v2[k2] == v0[k2 - 1]);
        } else if k1 < p && k2 < p {
            assert(v2[k1] == v0[k1]);
            assert(v2[k2] == v0[k2]);
        } else {
            assert(k1 > p && k2 > p);
            assert(v2[k1] == v0[k1 - 1]);
            assert(v2[k2] == v0[k2 - 1]);
        }
    }
    assert forall|k1: int, k2: int|
        #![trigger v2.take(i + 1)[k1], v2.take(i + 1)[k2]]
        0 <= k1 < k2 < v2.take(i + 1).len() implies entry_le(
        v2.take(i + 1)[k1],
        v2.take(i + 1)[k2],
    ) by {
        assert(v2.take(i + 1)[k1] == v2[k1]);
        assert(v2.take(i + 1)[k2] == v2[k2]);
    }
}

/// Sort a listing into display order: directories first, then by name.
/// The entries are rearranged, none added or dropped.
pub fn sort_entries(entries: &mut Vec<CachedEntry>)
    ensures
        sorted_entries(final(entries)@),
        entry_views(final(entries)@).to_multiset() == entry_views(old(entries)@).to_multiset(),
{
    let n = entries.len();
    let mut i: usize = 1;
    if n == 0 {
        return ;
    }
    while i < n
        invariant
            1 <= i <= n,
            n == entries@.len(),
            sorted_entries(entries@.take(i as int)),
            entry_views(entries@).to_multiset() == entry_views(old(entries)@).to_multiset(),
        decreases n - i,
    {
        // Scan left from i for the insertion position.
        let mut p: usize = i;
        while p > 0 && !entry_le_exec(&entries[p - 1], &entries[i])
            invariant
                0 <= p <= i < n,
                n == entries@.len(),
                forall|q: int|
                    p <= q < i ==> !entry_le(#[trigger] entries@[q], entries@[i as int]),
            decreases p,
        {
            p -= 1;
        }
        let ghost v0 = entries@;
        let ghost e_spec = v0[i as int];
        let element = entries.remove(i);
        entries.insert(p, element);
        proof {
            assert(entries@ == v0.remove(i as int).insert(p as int, e_spec));
            lemma_move_back_keeps_views(v0, i as int, p as int);
            lemma_move_back_sorts_prefix(v0, i as int, p as int);
        }
        i += 1;
    }
    proof {
        assert(entries@.take(n as int) =~= entries@);
    }
}

/// The characters of a string lowercased by Unicode's mapping; the
/// result depends on the characters alone.
pub uninterp spec fn lower_of(s: Seq<char>) -> Seq<char>;

/// Relies on str::to_lowercase: the result is a function of the
/// characters alone, and an empty string stays empty.
#[verifier::external_body]
fn to_lowercase(s: &str) -> (lowered: String)
    ensures
        lowered@ == lower_of(s@),
        s@.len() == 0 ==> lowered@.len() == 0,
{
    s.to_lowercase()
}

/// `haystack` has `needle` as a contiguous part.
pub open spec fn spec_contains_sub(haystack: Seq<char>, needle: Seq<char>) -> bool {
    exists|k: int|
        0 <= k <= haystack.len() - needle.len() && #[trigger] haystack.subrange(
            k,
            k + needle.len(),
        ) == needle
}

/// Substring search: whether `needle` occurs in `haystack`.
pub fn contains_sub(haystack: &str, needle: &str) -> (found: bool)
    ensures
        found == spec_contains_sub(haystack@, needle@),
{
    let h_len = haystack.unicode_len();
    let n_len = needle.unicode_len();
    if n_len > h_len {
        return false;
    }
    if n_len == 0 {
        proof {
            assert(haystack@.subrange(0, 0 + needle@.len() as int) =~= needle@);
        }
        return true;
    }
    let mut k: usize = 0;
    while k <= h_len - n_len
        invariant
            0 <= k <= h_len - n_len + 1,
            1 <= n_len <= h_len,
            h_len == haystack@.len(),
            n_len == needle@.len(),
            forall|k2: int|
                0 <= k2 < k ==> #[trigger] haystack@.subrange(k2, k2 + needle@.len())
                    != needle@,
        decreases h_len - k,
    {
        let mut j: usize = 0;
        let mut mismatch = false;
        while j < n_len && !mismatch
            invariant
                0 <= j <= n_len,
                k + n_len <= h_len,
                h_len == haystack@.len(),
                n_len == needle@.len(),
                !mismatch ==> forall|j2: int|
                    0 <= j2 < j ==> haystack@[k + j2] == needle@[j2],
                mismatch ==> haystack@.subrange(k as int, k + needle@.len()) != needle@,
            decreases n_len - j, (if mismatch { 0int } else { 1int }),
        {
            if haystack.get_char(k + j) != needle.get_char(j) {
                proof {
                    assert(haystack@.subrange(k as int, k + needle@.len())[j as int]
                        == haystack@[k + j]);
                }
                mismatch = true;
            } else {
                j += 1;
            }
        }
        if !mismatch {
            proof {
                assert(haystack@.subrange(k as int, k + needle@.len()) =~= needle@);
            }
            return true;
        }
        k += 1;
    }
    proof {
        if spec_contains_sub(haystack@, needle@) {
            let w = choose|w: int|
                0 <= w <= haystack@.len() - needle@.len() && #[trigger] haystack@.subrange(
                    w,
                    w + needle@.len(),
                ) == needle@;
            assert(haystack@.subrange(w, w + needle@.len()) != needle@);
        }
    }
    false
}

/// One raw directory entry, as the host glue reads it from the file
/// system.
#[derive(Clone, Debug)]
pub struct RawDirEntry {
    pub path: String,
    pub name: String,
    pub is_dir: bool,
}

/// An entry is shown unless it is hidden — its name starts with a dot —
/// and hidden files are off.
pub open spec fn spec_keep_entry(raw: RawDirEntry, show_hidden: bool) -> bool {
    show_hidden || !(raw.name@.len() > 0 && raw.name@[0] == '.')
}

/// The display name: the entry's name behind a directory or file marker.
pub open spec fn spec_display_name(name: Seq<char>, is_dir: bool) -> Seq<char> {
    if is_dir {
        "[dir]  "@ + name
    } else {
        "[file] "@ + name
    }
}

/// The views of the entries a raw listing turns into, in listing order:
/// hidden entries dropped (unless shown) and display names attached.
pub open spec fn spec_built_views(raw: Seq<RawDirEntry>, show_hidden: bool) -> Seq<EntryView>
    decreases raw.len(),
{
    if raw.len() == 0 {
        Seq::empty()
    } else {
        let rest = spec_built_views(raw.drop_last(), show_hidden);
        let last = raw.last();
        if spec_keep_entry(last, show_hidden) {
            rest.push(
                EntryView {
                    path: last.path@,
                    name: last.name@,
                    display_name: spec_display_name(last.name@, last.is_dir),
                    is_dir: last.is_dir,
                },
            )
        } else {
            rest
        }
    }
}

/// Turn a raw listing into display entries: drop hidden names unless
/// shown, and attach the pre-formatted display name.
pub fn build_entries(raw: &Vec<RawDirEntry>, show_hidden: bool) -> (entries: Vec<CachedEntry>)
    ensures
        entry_views(entries@) == spec_built_views(raw@, show_hidden),
{
    let mut entries: Vec<CachedEntry> = Vec::new();
    let mut i: usize = 0;
    let n = raw.len();
    proof {
        assert(raw@.take(0) =~= Seq::<RawDirEntry>::empty());
        assert(entry_views(entries@) =~= spec_built_views(raw@.take(0), show_hidden));
    }
    while i < n
        invariant
            i <= n,
            n == raw@.len(),
            entry_views(entries@) == spec_built_views(raw@.take(i as int), show_hidden),
        decreases n - i,
    {
        proof {
            assert(raw@.take(i + 1).drop_last() =~= raw@.take(i as int));
            assert(raw@.take(i + 1).last() == raw@[i as int]);
        }
        let name = &raw[i].name;
        let hidden = name.as_str().unicode_len() > 0 && name.as_str().get_char(0) == '.';
        if show_hidden || !hidden {
            let mut display_name = if raw[i].is_dir {
                "[dir]  ".to_owned()
            } else {
                "[file] ".to_owned()
            };
            display_name.append(name.as_str());
            let entry = CachedEntry {
                path: raw[i].path.clone(),
                name: name.clone(),
                display_name,
                is_dir: raw[i].is_dir,
            };
            entries.push(entry);
            proof {
                assert(entry_views(entries@) =~= spec_built_views(
                    raw@.take(i + 1),
                    show_hidden,
                ));
            }
        } else {
            proof {
                assert(entry_views(entries@) =~= spec_built_views(
                    raw@.take(i + 1),
                    show_hidden,
                ));
            }
        }
        i += 1;
    }
    proof {
        assert(raw@.take(n as int) =~= raw@);
    }
    entries
}

/// An entry passes the filter when its lowercased name has the
/// lowercased filter text as a part.
pub open spec fn spec_matches_filter(entry: CachedEntry, filter_lower: Seq<char>) -> bool {
    spec_contains_sub(lower_of(entry.name@), filter_lower)
}

/// `indices` is the filter's result on `entries`: strictly increasing,
/// every listed entry passes the filter, and every passing entry is
/// listed.
pub open spec fn is_filter_result(
    indices: Seq<usize>,
    entries: Seq<CachedEntry>,
    filter_lower: Seq<char>,
) -> bool {
    &&& forall|a: int, b: int|
        #![trigger indices[a], indices[b]]
        0 <= a < b < indices.len() ==> indices[a] < indices[b]
    &&& forall|a: int|
        0 <= a < indices.len() ==> (#[trigger] indices[a] as int) < entries.len()
            && spec_matches_filter(entries[indices[a] as int], filter_lower)
    &&& forall|j: int|
        0 <= j < entries.len() && spec_matches_filter(#[trigger] entries[j], filter_lower)
            ==> indices.contains(j as usize)
}

/// `indices` lists every position below `n`, in order: the unfiltered
/// view of a listing of length `n`.
pub open spec fn is_identity_indices(indices: Seq<usize>, n: int) -> bool {
    indices.len() == n && forall|j: int|
        0 <= j < indices.len() ==> (#[trigger] indices[j] as int) == j
}

/// Cache of one directory's listing, so the file system is not re-read
/// and the filter not re-run every frame.
pub struct DirCache {
    pub path: String,
    pub entries: Vec<CachedEntry>,
    /// Filtered entries cache — indices into `entries`.
    pub filtered_indices: Vec<usize>,
    /// The filter text used to compute `filtered_indices`.
    pub filter_text: String,
    pub show_hidden: bool,
    pub error: Option<String>,
}

impl DirCache {
    /// Every cached index points into the entry list.
    pub open spec fn wf(&self) -> bool {
        forall|j: int|
            0 <= j < self.filtered_indices@.len() ==> (#[trigger] self.filtered_indices@[j] as int)
                < self.entries@.len()
    }

    /// An empty cache, valid for no directory.
    pub fn new() -> (cache: DirCache)
        ensures
            cache.wf(),
            cache.path@ == Seq::<char>::empty(),
            cache.entries@ == Seq::<CachedEntry>::empty(),
            cache.filtered_indices@ == Seq::<usize>::empty(),
            cache.filter_text@ == Seq::<char>::empty(),
            !cache.show_hidden,
            cache.error is None,
    {
        DirCache {
            path: String::new(),
            entries: Vec::new(),
            filtered_indices: Vec::new(),
            filter_text: String::new(),
            show_hidden: false,
            error: None,
        }
    }

    /// Whether the cache is stale for the given directory and
    /// hidden-files setting.
    pub fn needs_refresh(&self, current_dir: &str, show_hidden: bool) -> (stale: bool)
        ensures
            stale == !(self.path@ == current_dir@ && self.show_hidden == show_hidden),
    {
        !(str_eq(self.path.as_str(), current_dir) && self.show_hidden == show_hidden)
    }

    /// Force a refresh on the next check by forgetting which directory
    /// the cache was read from.
    pub fn invalidate(&mut self)
        ensures
            final(self).path@ == Seq::<char>::empty(),
            final(self).entries == old(self).entries,
            final(self).filtered_indices == old(self).filtered_indices,
            final(self).filter_text == old(self).filter_text,
            final(self).show_hidden == old(self).show_hidden,
            final(self).error == old(self).error,
    {
        self.path = String::new();
    }

    /// Adopt a fresh raw listing for a directory: build the display
    /// entries, sort them into display order, show all of them, and
    /// clear the filter and any earlier error.
    pub fn apply_listing(
        &mut self,
        current_dir: &str,
        show_hidden: bool,
        raw: &Vec<RawDirEntry>,
    )
        ensures
            final(self).wf(),
            final(self).path@ == current_dir@,
            final(self).show_hidden == show_hidden,
            final(self).filter_text@ == Seq::<char>::empty(),
            final(self).error is None,
            sorted_entries(final(self).entries@),
            entry_views(final(self).entries@).to_multiset() == spec_built_views(
                raw@,
                show_hidden,
            ).to_multiset(),
            is_identity_indices(final(self).filtered_indices@, final(self).entries@.len() as int),
    {
        self.path = current_dir.to_owned();
        self.show_hidden = show_hidden;
        self.filter_text = String::new();
        self.error = None;
        let mut entries = build_entries(raw, show_hidden);
        sort_entries(&mut entries);
        self.entries = entries;
        let mut filtered_indices: Vec<usize> = Vec::new();
        let mut j: usize = 0;
        let n = self.entries.len();
        while j < n
            invariant
                j <= n,
                filtered_indices@.len() == j,
                forall|a: int| 0 <= a < j ==> (#[trigger] filtered_indices@[a] as int) == a,
            decreases n - j,
        {
            filtered_indices.push(j);
            j += 1;
        }
        self.filtered_indices = filtered_indices;
    }

    /// Record that a directory could not be read: the listing empties
    /// and the message is kept for display.
    pub fn apply_error(&mut self, current_dir: &str, show_hidden: bool, message: String)
        ensures
            final(self).wf(),
            final(self).path@ == current_dir@,
            final(self).show_hidden == show_hidden,
            final(self).filter_text@ == Seq::<char>::empty(),
            final(self).error == Some(message),
            final(self).entries@ == Seq::<CachedEntry>::empty(),
            final(self).filtered_indices@ == Seq::<usize>::empty(),
    {
        self.path = current_dir.to_owned();
        self.show_hidden = show_hidden;
        self.filter_text = String::new();
        self.entries = Vec::new();
        self.filtered_indices = Vec::new();
        self.error = Some(message);
    }

    /// Re-run the filter when its text changed: entries whose lowercased
    /// name has the lowercased filter text as a part stay visible. With
    /// an unchanged text nothing happens; with an empty filter all
    /// entries show.
    pub fn update_filter(&mut self, filter_text: &str)
        requires
            old(self).wf(),
        ensures
            final(self).wf(),
            final(self).path == old(self).path,
            final(self).entries == old(self).entries,
            final(self).show_hidden == old(self).show_hidden,
            final(self).error == old(self).error,
            old(self).filter_text@ == filter_text@ ==> *final(self) == *old(self),
            old(self).filter_text@ != filter_text@ ==> {
                &&& final(self).filter_text@ == filter_text@
                &&& if lower_of(filter_text@).len() == 0 {
                    is_identity_indices(
                        final(self).filtered_indices@,
                        final(self).entries@.len() as int,
                    )
                } else {
                    is_filter_result(
                        final(self).filtered_indices@,
                        final(self).entries@,
                        lower_of(filter_text@),
                    )
                }
            },
    {
        if str_eq(self.filter_text.as_str(), filter_text) {
            return ;
        }
        self.filter_text = filter_text.to_owned();
        let filter_lower = to_lowercase(filter_text);
        if filter_lower.as_str().is_empty() {
            // No filter — show all entries.
            let mut filtered_indices: Vec<usize> = Vec::new();
            let mut j: usize = 0;
            let n = self.entries.len();
            while j < n
                invariant
                    j <= n,
                    filtered_indices@.len() == j,
                    forall|a: int| 0 <= a < j ==> (#[trigger] filtered_indices@[a] as int) == a,
                decreases n - j,
            {
                filtered_indices.push(j);
                j += 1;
            }
            self.filtered_indices = filtered_indices;
        } else {
            // Filter entries by name.
            let mut filtered_indices: Vec<usize> = Vec::new();
            let mut j: usize = 0;
            let n = self.entries.len();
            while j < n
                invariant
                    j <= n,
                    n == self.entries@.len(),
                    filter_lower@ == lower_of(filter_text@),
                    forall|a: int, b: int|
                        #![trigger filtered_indices@[a], filtered_indices@[b]]
                        0 <= a < b < filtered_indices@.len() ==> filtered_indices@[a]
                            < filtered_indices@[b],
                    forall|a: int|
                        0 <= a < filtered_indices@.len() ==> (#[trigger] filtered_indices@[a] as int)
                            < j && spec_matches_filter(
                            self.entries@[filtered_indices@[a] as int],
                            lower_of(filter_text@),
                        ),
                    forall|j2: int|
                        0 <= j2 < j && spec_matches_filter(
                            #[trigger] self.entries@[j2],
                            lower_of(filter_text@),
                        ) ==> filtered_indices@.contains(j2 as usize),
                decreases n - j,
            {
                let lowered_name = to_lowercase(self.entries[j].name.as_str());
                if contains_sub(lowered_name.as_str(), filter_lower.as_str()) {
                    let ghost before = filtered_indices@;
                    filtered_indices.push(j);
                    proof {
                        assert(filtered_indices@.drop_last() =~= before);
                        assert forall|j2: int|
                            0 <= j2 < j + 1 && spec_matches_filter(
                                #[trigger] self.entries@[j2],
                                lower_of(filter_text@),
                            ) implies filtered_indices@.contains(j2 as usize) by {
                            if j2 < j {
                                let a = choose|a: int|
                                    0 <= a < before.len() && before[a] == j2 as usize;
                                assert(filtered_indices@[a] == j2 as usize);
                            } else {
                                assert(filtered_indices@[filtered_indices@.len() - 1]
                                    == j as usize);
                            }
                        }
                    }
                }
                j += 1;
            }
            self.filtered_indices = filtered_indices;
        }
    }

    /// The entry behind the `i`-th filtered index.
    pub fn filtered_entry_at(&self, i: usize) -> (entry: &CachedEntry)
        requires
            self.wf(),
            i < self.filtered_indices@.len(),
        ensures
            *entry == self.entries@[self.filtered_indices@[i as int] as int],
    {
        &self.entries[self.filtered_indices[i]]
    }

    /// How many entries pass the current filter.
    pub fn filtered_len(&self) -> (n: usize)
        ensures
            n == self.filtered_indices@.len(),
    {
        self.filtered_indices.len()
    }
}

/// State of the sound-file picker window. The host glue resolves the
/// starting directory, reads listings and draws the window; this state
/// decides what the window shows.
pub struct FilePicker {
    pub title: String,
    pub current_dir: String,
    pub is_open: bool,
    pub show_hidden_files: bool,
    pub filter_text: String,
    pub cache: DirCache,
}

impl FilePicker {
    /// A picker for the given window title, starting in `initial_dir`.
    pub fn new(title: String, initial_dir: String) -> (picker: FilePicker)
        ensures
            picker.title == title,
            picker.current_dir == initial_dir,
            !picker.is_open,
            !picker.show_hidden_files,
            picker.filter_text@ == Seq::<char>::empty(),
            picker.cache.wf(),
            picker.cache.path@ == Seq::<char>::empty(),
    {
        FilePicker {
            title,
            current_dir: initial_dir,
            is_open: false,
            show_hidden_files: false,
            filter_text: String::new(),
            cache: DirCache::new(),
        }
    }

    /// Open the picker window, invalidating the cache and clearing the
    /// filter so the listing is re-read.
    pub fn open(&mut self)
        ensures
            final(self).is_open,
            final(self).cache.path@ == Seq::<char>::empty(),
            final(self).filter_text@ == Seq::<char>::empty(),
            final(self).title == old(self).title,
            final(self).current_dir == old(self).current_dir,
            final(self).show_hidden_files == old(self).show_hidden_files,
            final(self).cache.entries == old(self).cache.entries,
            final(self).cache.filtered_indices == old(self).cache.filtered_indices,
            final(self).cache.filter_text == old(self).cache.filter_text,
            final(self).cache.show_hidden == old(self).cache.show_hidden,
            final(self).cache.error == old(self).cache.error,
    {
        self.is_open = true;
        // Invalidate the cache and clear the filter when opening.
        self.cache.invalidate();
        self.filter_text = String::new();
    }
}

} // verus!
