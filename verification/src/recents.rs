//! Recently opened files and favourites: a file opened goes to the top and
//! keeps its pin; every pinned entry stays, and at most 40 unpinned ones do.
use crate::lists::{
    lemma_select_complete, lemma_select_members, lemma_select_map, select, split_by_flags,
};
use vstd::prelude::*;
use vstd::string::*;

verus! {

#[derive(Clone, Debug)]
pub struct RecentEntry {
    pub path: String,
    pub ts: u64,
    pub pinned: bool,
}

/// What a recent entry says: its path, when it was opened, and its pin.
pub struct RecentView {
    pub path: Seq<char>,
    pub ts: u64,
    pub pinned: bool,
}

impl View for RecentEntry {
    type V = RecentView;

    open spec fn view(&self) -> RecentView {
        RecentView { path: self.path@, ts: self.ts, pinned: self.pinned }
    }
}

pub open spec fn recents_view(s: Seq<RecentEntry>) -> Seq<RecentView> {
    s.map_values(|e: RecentEntry| e@)
}

/// How many unpinned entries the list may keep.
pub const MAX_UNPINNED: u64 = 40;

/// Flags the entries whose path is `file`.
pub open spec fn path_flags(s: Seq<RecentView>, file: Seq<char>) -> Seq<bool> {
    Seq::new(s.len(), |i: int| s[i].path == file)
}

/// The entries whose path is not `file`, in order.
pub open spec fn without_path(s: Seq<RecentView>, file: Seq<char>) -> Seq<RecentView> {
    select(s, path_flags(s, file), false)
}

/// The number of unpinned entries.
pub open spec fn unpinned_count(s: Seq<RecentView>) -> nat
    decreases s.len(),
{
    if s.len() == 0 {
        0
    } else {
        unpinned_count(s.drop_last()) + (if s.last().pinned {
            0nat
        } else {
            1nat
        })
    }
}

/// Flags the entries beyond the cap: unpinned, with `k` unpinned ones
/// before them already.
pub open spec fn over_cap_flags(s: Seq<RecentView>, k: nat) -> Seq<bool> {
    Seq::new(s.len(), |i: int| !s[i].pinned && unpinned_count(s.take(i)) >= k)
}

/// Every pinned entry and the first `k` unpinned ones, in order.
pub open spec fn cap_unpinned(s: Seq<RecentView>, k: nat) -> Seq<RecentView> {
    select(s, over_cap_flags(s, k), false)
}

/// The pin of the first entry for `file`; false when there is none.
pub open spec fn was_pinned(s: Seq<RecentView>, file: Seq<char>) -> bool
    decreases s.len(),
{
    if s.len() == 0 {
        false
    } else if s[0].path == file {
        s[0].pinned
    } else {
        was_pinned(s.drop_first(), file)
    }
}

/// The list after opening `file` at time `now`: the file on top with its
/// old pin, its older entries gone, then the cap on unpinned entries.
pub open spec fn recorded(s: Seq<RecentView>, file: Seq<char>, now: u64) -> Seq<RecentView> {
    let top = RecentView { path: file, ts: now, pinned: was_pinned(s, file) };
    cap_unpinned(seq![top] + without_path(s, file), MAX_UNPINNED as nat)
}

proof fn lemma_view_select(s: Seq<RecentEntry>, flags: Seq<bool>, want: bool)
    requires
        flags.len() == s.len(),
    ensures
        recents_view(select(s, flags, want)) == select(recents_view(s), flags, want),
{
    let f = |e: RecentEntry| e@;
    lemma_select_map(s, flags, want, f);
    assert(recents_view(s) =~= s.map_values(f));
    assert(recents_view(select(s, flags, want)) =~= select(s, flags, want).map_values(f));
}

fn first_pin(items: &Vec<RecentEntry>, file: &String) -> (b: bool)
    ensures
        b == was_pinned(recents_view(items@), file@),
{
    let ghost v = recents_view(items@);
    let mut i: usize = 0;
    assert(v.skip(0) == v);
    while i < items.len()
        invariant
            i <= items.len(),
            v == recents_view(items@),
            was_pinned(v, file@) == was_pinned(v.skip(i as int), file@),
        decreases items.len() - i,
    {
        assert(v.skip(i as int)[0] == items@[i as int]@);
        if items[i].path == *file {
            return items[i].pinned;
        }
        assert(v.skip(i as int).drop_first() == v.skip(i + 1));
        i += 1;
    }
    false
}

/// Records that `file` was opened at `now`.
pub fn record_recent(items: Vec<RecentEntry>, file: &str, now: u64) -> (r: Vec<RecentEntry>)
    ensures
        recents_view(r@) == recorded(recents_view(items@), file@, now),
{
    let ghost v = recents_view(items@);
    let f = String::from_str(file);
    let pinned = first_pin(&items, &f);
    let mut flags: Vec<bool> = Vec::new();
    let mut i: usize = 0;
    while i < items.len()
        invariant
            i <= items.len(),
            v == recents_view(items@),
            flags@.len() == i,
            forall|j: int| 0 <= j < i ==> flags@[j] == (v[j].path == f@),
        decreases items.len() - i,
    {
        flags.push(items[i].path == f);
        i += 1;
    }
    assert(flags@ =~= path_flags(v, file@));
    let ghost orig = items@;
    let (others, _) = split_by_flags(items, &flags);
    proof {
        lemma_view_select(orig, flags@, false);
    }
    let mut list = others;
    list.insert(0, RecentEntry { path: f, ts: now, pinned });
    let ghost lv = recents_view(list@);
    assert(lv =~= seq![RecentView { path: file@, ts: now, pinned: was_pinned(v, file@) }]
        + without_path(v, file@));
    let mut over: Vec<bool> = Vec::new();
    let mut count: u64 = 0;
    let mut k: usize = 0;
    assert(lv.take(0) =~= Seq::<RecentView>::empty());
    while k < list.len()
        invariant
            k <= list.len(),
            lv == recents_view(list@),
            over@.len() == k,
            count == unpinned_count(lv.take(k as int)),
            count <= k,
            forall|j: int| 0 <= j < k ==> over@[j] == over_cap_flags(lv, MAX_UNPINNED as nat)[j],
        decreases list.len() - k,
    {
        assert(lv.take(k + 1).drop_last() == lv.take(k as int));
        assert(lv[k as int] == list@[k as int]@);
        if list[k].pinned {
            over.push(false);
        } else {
            over.push(count >= MAX_UNPINNED);
            count += 1;
        }
        k += 1;
    }
    assert(over@ =~= over_cap_flags(lv, MAX_UNPINNED as nat));
    let ghost lst = list@;
    let (kept, _) = split_by_flags(list, &over);
    proof {
        lemma_view_select(lst, over@, false);
    }
    kept
}

/// Every entry for `path` takes the pin `pinned`; the rest is unchanged.
pub open spec fn repinned(s: Seq<RecentView>, path: Seq<char>, pinned: bool) -> Seq<RecentView> {
    s.map_values(
        |e: RecentView|
            if e.path == path {
                RecentView { path: e.path, ts: e.ts, pinned }
            } else {
                e
            },
    )
}

pub fn pin_recent(items: Vec<RecentEntry>, path: &str, pinned: bool) -> (r: Vec<RecentEntry>)
    ensures
        recents_view(r@) == repinned(recents_view(items@), path@, pinned),
{
    let ghost orig = recents_view(items@);
    assert(orig.len() == items.len());
    let p = String::from_str(path);
    let mut rest = items;
    let mut out: Vec<RecentEntry> = Vec::new();
    let mut i: usize = 0;
    assert(orig.skip(0) == orig);
    while rest.len() > 0
        invariant
            i <= orig.len() <= usize::MAX,
            recents_view(rest@) == orig.skip(i as int),
            recents_view(out@) == repinned(orig.take(i as int), path@, pinned),
            p@ == path@,
        decreases rest.len(),
    {
        let ghost old_rest = rest@;
        assert(recents_view(old_rest).len() == old_rest.len());
        assert(i < orig.len());
        let mut e = rest.remove(0);
        let ghost was = e@;
        assert(recents_view(old_rest)[0] == was);
        assert(orig.skip(i as int)[0] == orig[i as int]);
        assert(was == orig[i as int]);
        if e.path == p {
            e.pinned = pinned;
        }
        assert(e@ == (if was.path == path@ {
            RecentView { path: was.path, ts: was.ts, pinned }
        } else {
            was
        }));
        let ghost before = recents_view(out@);
        out.push(e);
        assert(recents_view(out@) =~= before.push(e@));
        assert(repinned(orig.take(i + 1), path@, pinned) =~= repinned(orig.take(i as int), path@, pinned).push(e@));
        assert forall|j: int| 0 <= j < rest@.len() implies #[trigger] recents_view(rest@)[j] == orig.skip(i + 1)[j] by {
            assert(rest@[j] == old_rest[j + 1]);
            assert(recents_view(old_rest)[j + 1] == orig.skip(i as int)[j + 1]);
        }
        assert(recents_view(rest@) =~= orig.skip(i + 1));
        i += 1;
    }
    assert(orig.take(i as int) == orig);
    out
}

/// Removes every entry for `path`.
pub fn drop_recent(items: Vec<RecentEntry>, path: &str) -> (r: Vec<RecentEntry>)
    ensures
        recents_view(r@) == without_path(recents_view(items@), path@),
{
    let ghost v = recents_view(items@);
    let p = String::from_str(path);
    let mut flags: Vec<bool> = Vec::new();
    let mut i: usize = 0;
    while i < items.len()
        invariant
            i <= items.len(),
            v == recents_view(items@),
            flags@.len() == i,
            forall|j: int| 0 <= j < i ==> flags@[j] == (v[j].path == p@),
        decreases items.len() - i,
    {
        flags.push(items[i].path == p);
        i += 1;
    }
    assert(flags@ =~= path_flags(v, path@));
    let ghost orig = items@;
    let (kept, _) = split_by_flags(items, &flags);
    proof {
        lemma_view_select(orig, flags@, false);
    }
    kept
}

/// Flags the unpinned entries.
pub open spec fn unpinned_flags(s: Seq<RecentView>) -> Seq<bool> {
    Seq::new(s.len(), |i: int| !s[i].pinned)
}

/// Drops the unpinned entries; the pinned ones stay, in order.
pub fn keep_pinned(items: Vec<RecentEntry>) -> (r: Vec<RecentEntry>)
    ensures
        recents_view(r@) == select(recents_view(items@), unpinned_flags(recents_view(items@)), false),
{
    let ghost v = recents_view(items@);
    let mut flags: Vec<bool> = Vec::new();
    let mut i: usize = 0;
    while i < items.len()
        invariant
            i <= items.len(),
            v == recents_view(items@),
            flags@.len() == i,
            forall|j: int| 0 <= j < i ==> flags@[j] == !v[j].pinned,
        decreases items.len() - i,
    {
        flags.push(!items[i].pinned);
        i += 1;
    }
    assert(flags@ =~= unpinned_flags(v));
    let ghost orig = items@;
    let (kept, _) = split_by_flags(items, &flags);
    proof {
        lemma_view_select(orig, flags@, false);
    }
    kept
}

/// The number of entries for `file`.
pub open spec fn path_count(s: Seq<RecentView>, file: Seq<char>) -> nat
    decreases s.len(),
{
    if s.len() == 0 {
        0
    } else {
        path_count(s.drop_last(), file) + (if s.last().path == file {
            1nat
        } else {
            0nat
        })
    }
}

proof fn lemma_count_split(s: Seq<RecentView>, flags: Seq<bool>, file: Seq<char>)
    requires
        flags.len() == s.len(),
    ensures
        path_count(select(s, flags, false), file) + path_count(select(s, flags, true), file)
            == path_count(s, file),
    decreases s.len(),
{
    if s.len() > 0 {
        let d = s.drop_last();
        let fd = flags.drop_last();
        lemma_count_split(d, fd, file);
        let a = select(d, fd, false);
        let b = select(d, fd, true);
        assert(a.push(s.last()).drop_last() =~= a);
        assert(b.push(s.last()).drop_last() =~= b);
        if flags.last() {
            assert(select(s, flags, true) == b.push(s.last()));
            assert(select(s, flags, false) == a);
        } else {
            assert(select(s, flags, false) == a.push(s.last()));
            assert(select(s, flags, true) == b);
        }
    }
}

proof fn lemma_count_zero(s: Seq<RecentView>, file: Seq<char>)
    requires
        forall|j: int| 0 <= j < s.len() ==> (#[trigger] s[j]).path != file,
    ensures
        path_count(s, file) == 0,
    decreases s.len(),
{
    if s.len() > 0 {
        assert forall|j: int| 0 <= j < s.drop_last().len() implies (#[trigger] s.drop_last()[j]).path
            != file by {
            assert(s.drop_last()[j] == s[j]);
        }
        lemma_count_zero(s.drop_last(), file);
    }
}

proof fn lemma_count_prepend(x: RecentView, t: Seq<RecentView>, file: Seq<char>)
    ensures
        path_count(seq![x] + t, file) == path_count(t, file) + (if x.path == file {
            1nat
        } else {
            0nat
        }),
    decreases t.len(),
{
    if t.len() > 0 {
        lemma_count_prepend(x, t.drop_last(), file);
        assert((seq![x] + t).drop_last() =~= seq![x] + t.drop_last());
        assert((seq![x] + t).last() == t.last());
        assert((seq![x] + t).len() > 0);
        assert(path_count(seq![x] + t, file) == path_count(seq![x] + t.drop_last(), file) + (if t.last().path == file { 1nat } else { 0nat }));
        assert(path_count(t, file) == path_count(t.drop_last(), file) + (if t.last().path == file { 1nat } else { 0nat }));
    } else {
        assert(seq![x] + t =~= seq![x]);
        assert(seq![x].drop_last() =~= Seq::<RecentView>::empty());
        assert(path_count(Seq::<RecentView>::empty(), file) == 0);
        assert(path_count(t, file) == 0);
        assert(path_count(seq![x], file) == path_count(seq![x].drop_last(), file) + (if x.path == file { 1nat } else { 0nat }));
    }
}

proof fn lemma_count_pos(s: Seq<RecentView>, file: Seq<char>, i: int)
    requires
        0 <= i < s.len(),
        s[i].path == file,
    ensures
        path_count(s, file) >= 1,
    decreases s.len(),
{
    if i < s.len() - 1 {
        assert(s.drop_last()[i] == s[i]);
        lemma_count_pos(s.drop_last(), file, i);
    }
}

proof fn lemma_select_first<T>(s: Seq<T>, flags: Seq<bool>, want: bool)
    requires
        s.len() > 0,
        flags.len() == s.len(),
        flags[0] == want,
    ensures
        select(s, flags, want).len() > 0,
        select(s, flags, want)[0] == s[0],
    decreases s.len(),
{
    let d = s.drop_last();
    let fd = flags.drop_last();
    if s.len() > 1 {
        lemma_select_first(d, fd, want);
        let a = select(d, fd, want);
        assert(a.push(s.last())[0] == a[0]);
    } else {
        assert(select(d, fd, want) =~= Seq::<T>::empty());
        assert(s.last() == s[0]);
        assert(flags.last() == flags[0]);
    }
}

proof fn lemma_cap_count(s: Seq<RecentView>, k: nat)
    ensures
        unpinned_count(cap_unpinned(s, k)) == if unpinned_count(s) < k {
            unpinned_count(s)
        } else {
            k
        },
    decreases s.len(),
{
    if s.len() > 0 {
        let d = s.drop_last();
        lemma_cap_count(d, k);
        assert(over_cap_flags(s, k).drop_last() =~= over_cap_flags(d, k)) by {
            assert forall|i: int| 0 <= i < d.len() implies s.take(i) == d.take(i) by {
                assert(s.take(i) =~= d.take(i));
            }
        }
        assert(s.take(s.len() - 1) =~= d);
        let fl = over_cap_flags(s, k);
        let a = select(d, over_cap_flags(d, k), false);
        assert(a.push(s.last()).drop_last() =~= a);
        assert(fl.last() == (!s.last().pinned && unpinned_count(d) >= k));
        if fl.last() {
            assert(cap_unpinned(s, k) == a);
        } else {
            assert(cap_unpinned(s, k) == a.push(s.last()));
        }
    } else {
        assert(cap_unpinned(s, k) =~= Seq::<RecentView>::empty());
    }
}

/// Law: after a file is opened, it is the first entry, stamped with the
/// time it was opened and carrying the pin it had.
pub proof fn law_recorded_on_top(s: Seq<RecentView>, file: Seq<char>, now: u64)
    ensures
        recorded(s, file, now).len() > 0,
        recorded(s, file, now)[0] == (RecentView { path: file, ts: now, pinned: was_pinned(s, file) }),
{
    let top = RecentView { path: file, ts: now, pinned: was_pinned(s, file) };
    let list = seq![top] + without_path(s, file);
    assert(list[0] == top);
    assert(list.take(0) =~= Seq::<RecentView>::empty());
    lemma_select_first(list, over_cap_flags(list, MAX_UNPINNED as nat), false);
}

/// Law: after a file is opened, the list holds exactly one entry for it.
pub proof fn law_recorded_once(s: Seq<RecentView>, file: Seq<char>, now: u64)
    ensures
        path_count(recorded(s, file, now), file) == 1,
{
    let top = RecentView { path: file, ts: now, pinned: was_pinned(s, file) };
    let w = without_path(s, file);
    let list = seq![top] + w;
    let fl = over_cap_flags(list, MAX_UNPINNED as nat);
    lemma_select_members(s, path_flags(s, file), false);
    assert forall|j: int| 0 <= j < w.len() implies (#[trigger] w[j]).path != file by {
        let i = choose|i: int|
            #![trigger s[i]]
            0 <= i < s.len() && path_flags(s, file)[i] == false && w[j] == s[i];
    }
    lemma_count_zero(w, file);
    lemma_count_prepend(top, w, file);
    lemma_count_split(list, fl, file);
    law_recorded_on_top(s, file, now);
    lemma_count_pos(recorded(s, file, now), file, 0);
}

/// Law: opening a file never drops a pinned entry of another file.
pub proof fn law_recorded_keeps_pinned(s: Seq<RecentView>, file: Seq<char>, now: u64, i: int)
    requires
        0 <= i < s.len(),
        s[i].pinned,
        s[i].path != file,
    ensures
        recorded(s, file, now).contains(s[i]),
{
    let top = RecentView { path: file, ts: now, pinned: was_pinned(s, file) };
    let w = without_path(s, file);
    let list = seq![top] + w;
    let fl = over_cap_flags(list, MAX_UNPINNED as nat);
    lemma_select_complete(s, path_flags(s, file), false);
    assert(w.contains(s[i]));
    let j = choose|j: int| 0 <= j < w.len() && w[j] == s[i];
    assert(list[j + 1] == s[i]);
    assert(!fl[j + 1]);
    lemma_select_complete(list, fl, false);
}

/// Law: after a file is opened, at most 40 unpinned entries remain.
pub proof fn law_recorded_caps_unpinned(s: Seq<RecentView>, file: Seq<char>, now: u64)
    ensures
        unpinned_count(recorded(s, file, now)) <= MAX_UNPINNED,
{
    let top = RecentView { path: file, ts: now, pinned: was_pinned(s, file) };
    lemma_cap_count(seq![top] + without_path(s, file), MAX_UNPINNED as nat);
}

/// Law: setting the pin of a path gives every entry for that path exactly
/// that pin (so unpinning leaves it unpinned), and leaves every other entry,
/// the order and the length as they were.
pub proof fn law_pin_sets_only_that_path(s: Seq<RecentView>, path: Seq<char>, pinned: bool)
    ensures
        repinned(s, path, pinned).len() == s.len(),
        forall|i: int|
            0 <= i < s.len() ==> {
                let e = #[trigger] repinned(s, path, pinned)[i];
                &&& e.path == s[i].path
                &&& e.ts == s[i].ts
                &&& e.pinned == (if s[i].path == path { pinned } else { s[i].pinned })
            },
{
}

} // verus!
