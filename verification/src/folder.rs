//! Sort modes and the order in which a folder's images are shown.

use vstd::prelude::*;
use vstd::multiset::Multiset;
use crate::formats::{is_supported, spec_detect_format};
use crate::text::{ascii_lower, chars_of, eq_ignore_ascii_case};

verus! {

broadcast use {vstd::seq_lib::group_to_multiset_ensures, vstd::multiset::group_multiset_properties};

#[derive(Debug, Clone, Copy, PartialEq, Eq, Structural)]
pub enum SortMode {
    Date,
    Name,
}

pub open spec fn spec_sort_next(m: SortMode) -> SortMode {
    match m {
        SortMode::Date => SortMode::Name,
        SortMode::Name => SortMode::Date,
    }
}

pub open spec fn spec_sort_as_str(m: SortMode) -> Seq<char> {
    match m {
        SortMode::Date => "date"@,
        SortMode::Name => "name"@,
    }
}

/// `"name"` in any ASCII case reads as `Name`; everything else as `Date`.
pub open spec fn spec_sort_parse(s: Seq<char>) -> SortMode {
    if ascii_lower(s) == ascii_lower("name"@) {
        SortMode::Name
    } else {
        SortMode::Date
    }
}

impl SortMode {
    pub fn next(self) -> (r: Self)
        ensures
            r == spec_sort_next(self),
    {
        match self {
            Self::Date => Self::Name,
            Self::Name => Self::Date,
        }
    }

    pub fn as_str(self) -> (r: &'static str)
        ensures
            r@ == spec_sort_as_str(self),
    {
        match self {
            Self::Date => "date",
            Self::Name => "name",
        }
    }

    pub fn parse(s: &str) -> (r: Self)
        ensures
            r == spec_sort_parse(s@),
    {
        let v = chars_of(s);
        if eq_ignore_ascii_case(&v, "name") {
            Self::Name
        } else {
            Self::Date
        }
    }

    pub fn label(self) -> (r: &'static str)
        ensures
            r@ == match self {
                SortMode::Date => "Date"@,
                SortMode::Name => "Name"@,
            },
    {
        match self {
            Self::Date => "Date",
            Self::Name => "Name",
        }
    }

    pub fn tooltip(self) -> (r: &'static str)
        ensures
            r@ == match self {
                SortMode::Date => "Sorted by date — click for name"@,
                SortMode::Name => "Sorted by name — click for date"@,
            },
    {
        match self {
            Self::Date => "Sorted by date — click for name",
            Self::Name => "Sorted by name — click for date",
        }
    }
}

/// Switching the sort mode twice gives back the mode.
pub proof fn law_sort_next_involution(m: SortMode)
    ensures
        spec_sort_next(spec_sort_next(m)) == m,
{
}

/// The text a mode is saved as reads back as the same mode.
pub proof fn law_sort_text_round_trip(m: SortMode)
    ensures
        spec_sort_parse(spec_sort_as_str(m)) == m,
{
    reveal_strlit("date");
    reveal_strlit("name");
    if m == SortMode::Date {
        assert(ascii_lower("date"@)[0] == 'd');
        assert(ascii_lower("name"@)[0] == 'n');
    } else {
        assert(ascii_lower("name"@) =~= ascii_lower("name"@));
    }
}

/// One image file of a folder: its path, its file name, and its modification
/// time in nanoseconds since the Unix epoch (negative before it).
pub struct FolderEntry {
    pub path: String,
    pub name: String,
    pub modified: i128,
}

/// Natural ("human") order of two texts, as `natord::compare` gives it:
/// negative, zero or positive.
pub uninterp spec fn natord_order(a: Seq<char>, b: Seq<char>) -> int;

/// Unicode lower case of a text, as `str::to_lowercase` gives it.
pub uninterp spec fn lowercase_of(s: Seq<char>) -> Seq<char>;

/// `natord::compare`. Its result is mapped to -1, 0 or 1; the function
/// treats its two arguments alike (every step of `compare_iter` is mirrored
/// when they are swapped), so swapping them negates the result.
#[verifier::external_body]
fn natural_order(a: &str, b: &str) -> (r: i8)
    ensures
        r == natord_order(a@, b@),
        natord_order(b@, a@) == -r,
        -1 <= r <= 1,
{
    match natord::compare(a, b) {
        std::cmp::Ordering::Less => -1,
        std::cmp::Ordering::Equal => 0,
        std::cmp::Ordering::Greater => 1,
    }
}

/// `str::to_lowercase`.
#[verifier::external_body]
fn lowercase(s: &str) -> (r: String)
    ensures
        r@ == lowercase_of(s@),
{
    s.to_lowercase()
}

/// How two entries are ordered: newest first by date with ties broken by
/// name, or by name alone. Names compare in natural order, case-folded.
pub open spec fn entry_order(a: FolderEntry, b: FolderEntry, sort: SortMode) -> int {
    let by_name = natord_order(lowercase_of(a.name@), lowercase_of(b.name@));
    match sort {
        SortMode::Date => if a.modified > b.modified {
            -1
        } else if a.modified < b.modified {
            1
        } else {
            by_name
        },
        SortMode::Name => by_name,
    }
}

pub open spec fn entries_sorted(s: Seq<FolderEntry>, sort: SortMode) -> bool {
    forall|i: int| 0 <= i < s.len() - 1 ==> #[trigger] entry_order(s[i], s[i + 1], sort) <= 0
}

pub open spec fn is_image_entry(e: FolderEntry) -> bool {
    spec_detect_format(e.name@) is Some
}

pub open spec fn image_entries(s: Seq<FolderEntry>) -> Seq<FolderEntry> {
    s.filter(|e: FolderEntry| is_image_entry(e))
}

fn compare_entries(a: &FolderEntry, b: &FolderEntry, sort: SortMode) -> (r: i8)
    ensures
        r == entry_order(*a, *b, sort),
        entry_order(*b, *a, sort) == -r,
{
    if sort == SortMode::Date {
        if a.modified > b.modified {
            return -1;
        } else if a.modified < b.modified {
            return 1;
        }
    }
    let la = lowercase(a.name.as_str());
    let lb = lowercase(b.name.as_str());
    natural_order(la.as_str(), lb.as_str())
}

/// Reverse a vector by moving its items.
fn reversed(v: Vec<FolderEntry>) -> (r: Vec<FolderEntry>)
    ensures
        r@ == v@.reverse(),
{
    let ghost orig = v@;
    let mut v = v;
    let mut r: Vec<FolderEntry> = Vec::new();
    while v.len() > 0
        invariant
            v.len() <= orig.len(),
            v@ == orig.subrange(0, v.len() as int),
            r@ == orig.subrange(v.len() as int, orig.len() as int).reverse(),
        decreases v.len(),
    {
        let ghost before = v@;
        let x = v.pop().unwrap();
        assert(x == orig[v.len() as int]);
        assert(v@ =~= orig.subrange(0, v.len() as int));
        r.push(x);
        assert(orig.subrange(v.len() as int, orig.len() as int).reverse() =~= orig.subrange(
            v.len() + 1,
            orig.len() as int,
        ).reverse().push(x));
    }
    assert(orig.subrange(0, orig.len() as int).reverse() =~= orig.reverse());
    r
}

/// Merge two sorted runs, taking from the first run on ties.
fn merge(a: Vec<FolderEntry>, b: Vec<FolderEntry>, sort: SortMode) -> (r: Vec<FolderEntry>)
    requires
        entries_sorted(a@, sort),
        entries_sorted(b@, sort),
    ensures
        r@.to_multiset() == a@.to_multiset().add(b@.to_multiset()),
        entries_sorted(r@, sort),
{
    let ghost ga = a@;
    let ghost gb = b@;
    let mut ra = reversed(a);
    let mut rb = reversed(b);
    let mut res: Vec<FolderEntry> = Vec::new();
    proof {
        ga.lemma_reverse_to_multiset();
        gb.lemma_reverse_to_multiset();
        assert forall|i: int| 0 <= i < ra.len() - 1 implies #[trigger] entry_order(ra@[i + 1], ra@[i], sort) <= 0 by {
            let j = ga.len() - 2 - i;
            assert(ra@[i + 1] == ga[j] && ra@[i] == ga[j + 1]);
        }
        assert forall|i: int| 0 <= i < rb.len() - 1 implies #[trigger] entry_order(rb@[i + 1], rb@[i], sort) <= 0 by {
            let j = gb.len() - 2 - i;
            assert(rb@[i + 1] == gb[j] && rb@[i] == gb[j + 1]);
        }
    }
    while ra.len() > 0 || rb.len() > 0
        invariant
            entries_sorted(res@, sort),
            forall|i: int| 0 <= i < ra.len() - 1 ==> #[trigger] entry_order(ra@[i + 1], ra@[i], sort) <= 0,
            forall|i: int| 0 <= i < rb.len() - 1 ==> #[trigger] entry_order(rb@[i + 1], rb@[i], sort) <= 0,
            res.len() > 0 && ra.len() > 0 ==> entry_order(res@.last(), ra@.last(), sort) <= 0,
            res.len() > 0 && rb.len() > 0 ==> entry_order(res@.last(), rb@.last(), sort) <= 0,
            res@.to_multiset().add(ra@.to_multiset()).add(rb@.to_multiset())
                == ga.to_multiset().add(gb.to_multiset()),
        decreases ra.len() + rb.len(),
    {
        let take_a = if ra.len() == 0 {
            false
        } else if rb.len() == 0 {
            true
        } else {
            compare_entries(&ra[ra.len() - 1], &rb[rb.len() - 1], sort) <= 0
        };
        let ghost old_res = res@;
        let ghost old_ra = ra@;
        let ghost old_rb = rb@;
        if take_a {
            let x = ra.pop().unwrap();
            assert(old_ra =~= ra@.push(x));
            res.push(x);
            assert(res@ =~= old_res.push(x));
            assert(entries_sorted(res@, sort)) by {
                assert forall|i: int| 0 <= i < res@.len() - 1 implies #[trigger] entry_order(
                    res@[i],
                    res@[i + 1],
                    sort,
                ) <= 0 by {
                    if i < old_res.len() - 1 {
                        assert(res@[i] == old_res[i] && res@[i + 1] == old_res[i + 1]);
                    }
                }
            }
            if ra.len() > 0 {
                let ghost k: int = old_ra.len() - 2;
                assert(entry_order(old_ra[k + 1], old_ra[k], sort) <= 0);
            }
        } else {
            let y = rb.pop().unwrap();
            assert(old_rb =~= rb@.push(y));
            res.push(y);
            assert(res@ =~= old_res.push(y));
            assert(entries_sorted(res@, sort)) by {
                assert forall|i: int| 0 <= i < res@.len() - 1 implies #[trigger] entry_order(
                    res@[i],
                    res@[i + 1],
                    sort,
                ) <= 0 by {
                    if i < old_res.len() - 1 {
                        assert(res@[i] == old_res[i] && res@[i + 1] == old_res[i + 1]);
                    }
                }
            }
            if rb.len() > 0 {
                let ghost k: int = old_rb.len() - 2;
                assert(entry_order(old_rb[k + 1], old_rb[k], sort) <= 0);
            }
        }
    }
    assert(ra@.to_multiset() =~= Multiset::empty());
    assert(rb@.to_multiset() =~= Multiset::empty());
    res
}

fn merge_sort(v: Vec<FolderEntry>, sort: SortMode) -> (r: Vec<FolderEntry>)
    ensures
        r@.to_multiset() == v@.to_multiset(),
        entries_sorted(r@, sort),
    decreases v.len(),
{
    if v.len() <= 1 {
        return v;
    }
    let ghost whole = v@;
    let mid = v.len() / 2;
    let mut left = v;
    let right = left.split_off(mid);
    proof {
        assert(whole =~= left@ + right@);
        vstd::seq_lib::lemma_multiset_commutative(left@, right@);
    }
    let sorted_left = merge_sort(left, sort);
    let sorted_right = merge_sort(right, sort);
    merge(sorted_left, sorted_right, sort)
}

/// Keep the entries whose file name has a supported image extension, in order.
fn keep_images(entries: Vec<FolderEntry>) -> (r: Vec<FolderEntry>)
    ensures
        r@ == image_entries(entries@),
{
    let ghost orig = entries@;
    let mut rest = reversed(entries);
    let mut r: Vec<FolderEntry> = Vec::new();
    assert(orig.take(0) =~= Seq::<FolderEntry>::empty());
    while rest.len() > 0
        invariant
            rest.len() <= orig.len(),
            rest@ == orig.skip(orig.len() - rest.len()).reverse(),
            r@ == image_entries(orig.take(orig.len() - rest.len())),
        decreases rest.len(),
    {
        let ghost k: int = orig.len() - rest.len();
        let e = rest.pop().unwrap();
        assert(e == orig[k]);
        assert(rest@ =~= orig.skip(k + 1).reverse());
        assert(orig.take(k + 1) =~= orig.take(k).push(e));
        proof {
            orig.take(k).lemma_filter_push(e, |e: FolderEntry| is_image_entry(e));
        }
        if is_supported(e.name.as_str()) {
            r.push(e);
        }
    }
    assert(orig.take(orig.len() as int) =~= orig);
    r
}

/// The supported images among `entries`, in the order the folder is shown in:
/// newest first (ties by name) for `Date`, by name for `Name`. Names compare
/// in natural order after Unicode lower-casing.
pub fn sort_folder_entries(entries: Vec<FolderEntry>, sort: SortMode) -> (r: Vec<FolderEntry>)
    ensures
        r@.to_multiset() == image_entries(entries@).to_multiset(),
        entries_sorted(r@, sort),
{
    let images = keep_images(entries);
    merge_sort(images, sort)
}

/// A change the folder watch reports.
#[derive(Debug, Clone, Copy, PartialEq, Eq, Structural)]
pub enum FolderEvent {
    Created,
    Deleted,
    MovedIn,
    MovedOut,
    /// Any other change (contents, attributes, ...).
    Other,
}

/// Whether a change to the file named `name` calls for a rescan: an image
/// appeared or went away.
pub fn folder_change_matters(name: &str, event: FolderEvent) -> (r: bool)
    ensures
        r == (spec_detect_format(name@) is Some && event != FolderEvent::Other),
{
    if !is_supported(name) {
        return false;
    }
    match event {
        FolderEvent::Other => false,
        _ => true,
    }
}

/// The paths of `entries`, in order.
pub fn entry_paths(entries: Vec<FolderEntry>) -> (r: Vec<String>)
    ensures
        r@ == entries@.map_values(|e: FolderEntry| e.path),
{
    let ghost orig = entries@;
    let mut rest = reversed(entries);
    let mut r: Vec<String> = Vec::new();
    while rest.len() > 0
        invariant
            rest.len() <= orig.len(),
            rest@ == orig.skip(orig.len() - rest.len()).reverse(),
            r@ == orig.take(orig.len() - rest.len()).map_values(|e: FolderEntry| e.path),
        decreases rest.len(),
    {
        let ghost k: int = orig.len() - rest.len();
        let e = rest.pop().unwrap();
        assert(e == orig[k]);
        assert(rest@ =~= orig.skip(k + 1).reverse());
        r.push(e.path);
        assert(r@ =~= orig.take(k + 1).map_values(|e: FolderEntry| e.path));
    }
    assert(orig.take(orig.len() as int) =~= orig);
    r
}

} // verus!
