//! Splitting an owned list in two by a flag per item, keeping the order.
use vstd::prelude::*;

verus! {

/// The items of `s` whose flag equals `want`, in order.
pub open spec fn select<T>(s: Seq<T>, flags: Seq<bool>, want: bool) -> Seq<T>
    decreases s.len(),
{
    if s.len() == 0 || flags.len() != s.len() {
        Seq::empty()
    } else {
        let rest = select(s.drop_last(), flags.drop_last(), want);
        if flags.last() == want {
            rest.push(s.last())
        } else {
            rest
        }
    }
}

pub proof fn lemma_select_len<T>(s: Seq<T>, flags: Seq<bool>, want: bool)
    requires
        flags.len() == s.len(),
    ensures
        select(s, flags, want).len() <= s.len(),
        select(s, flags, want).len() + select(s, flags, !want).len() == s.len(),
    decreases s.len(),
{
    if s.len() > 0 {
        lemma_select_len(s.drop_last(), flags.drop_last(), want);
    }
}

/// Every item that `select` keeps is an item of `s` whose flag is `want`.
pub proof fn lemma_select_members<T>(s: Seq<T>, flags: Seq<bool>, want: bool)
    requires
        flags.len() == s.len(),
    ensures
        forall|j: int|
            #![trigger select(s, flags, want)[j]]
            0 <= j < select(s, flags, want).len() ==> exists|i: int|
                #![trigger s[i]]
                0 <= i < s.len() && flags[i] == want && select(s, flags, want)[j] == s[i],
    decreases s.len(),
{
    if s.len() > 0 {
        let init = s.drop_last();
        let fi = flags.drop_last();
        lemma_select_members(init, fi, want);
        lemma_select_len(init, fi, want);
        let r = select(s, flags, want);
        let rr = select(init, fi, want);
        assert forall|j: int| #![trigger r[j]] 0 <= j < r.len() implies exists|i: int|
            #![trigger s[i]]
            0 <= i < s.len() && flags[i] == want && r[j] == s[i] by {
            if j < rr.len() {
                let i = choose|i: int|
                    #![trigger init[i]]
                    0 <= i < init.len() && fi[i] == want && rr[j] == init[i];
                assert(r[j] == rr[j]);
                assert(s[i] == init[i] && flags[i] == fi[i]);
            } else {
                let i = s.len() - 1;
                assert(r[j] == s[i]);
            }
        }
    }
}

/// Every item of `s` whose flag is `want` is kept by `select`.
pub proof fn lemma_select_complete<T>(s: Seq<T>, flags: Seq<bool>, want: bool)
    requires
        flags.len() == s.len(),
    ensures
        forall|i: int|
            0 <= i < s.len() && flags[i] == want ==> select(s, flags, want).contains(#[trigger] s[i]),
    decreases s.len(),
{
    if s.len() > 0 {
        let init = s.drop_last();
        let fi = flags.drop_last();
        lemma_select_complete(init, fi, want);
        let r = select(s, flags, want);
        let rr = select(init, fi, want);
        assert forall|i: int| 0 <= i < s.len() && flags[i] == want implies r.contains(
            #[trigger] s[i],
        ) by {
            if i < init.len() {
                assert(init[i] == s[i] && fi[i] == flags[i]);
                assert(rr.contains(init[i]));
                let j = choose|j: int| 0 <= j < rr.len() && rr[j] == init[i];
                assert(r[j] == rr[j]);
            } else {
                assert(r[r.len() - 1] == s[i]);
            }
        }
    }
}

/// Selecting commutes with mapping every item.
pub proof fn lemma_select_map<T, U>(s: Seq<T>, flags: Seq<bool>, want: bool, f: spec_fn(T) -> U)
    requires
        flags.len() == s.len(),
    ensures
        select(s.map_values(f), flags, want) == select(s, flags, want).map_values(f),
    decreases s.len(),
{
    if s.len() > 0 {
        lemma_select_map(s.drop_last(), flags.drop_last(), want, f);
        assert(s.map_values(f).drop_last() =~= s.drop_last().map_values(f));
        let r = select(s, flags, want);
        assert(r.map_values(f) =~= (if flags.last() == want {
            select(s.drop_last(), flags.drop_last(), want).map_values(f).push(f(s.last()))
        } else {
            select(s.drop_last(), flags.drop_last(), want).map_values(f)
        }));
    } else {
        assert(select(s.map_values(f), flags, want) =~= select(s, flags, want).map_values(f));
    }
}

/// Splits `v` by `flags` into the items flagged `false` and those flagged
/// `true`, each in their original order.
pub fn split_by_flags<T>(v: Vec<T>, flags: &Vec<bool>) -> (r: (Vec<T>, Vec<T>))
    requires
        flags.len() == v.len(),
    ensures
        r.0@ == select(v@, flags@, false),
        r.1@ == select(v@, flags@, true),
{
    let ghost orig = v@;
    let mut rest = v;
    let mut off: Vec<T> = Vec::new();
    let mut on: Vec<T> = Vec::new();
    let mut i: usize = 0;
    assert(orig.take(0) =~= Seq::<T>::empty());
    assert(orig.skip(0) == orig);
    while rest.len() > 0
        invariant
            i <= orig.len(),
            flags.len() == orig.len(),
            rest@ == orig.skip(i as int),
            off@ == select(orig.take(i as int), flags@.take(i as int), false),
            on@ == select(orig.take(i as int), flags@.take(i as int), true),
        decreases rest.len(),
    {
        let x = rest.remove(0);
        assert(x == orig[i as int]);
        assert(orig.take(i + 1).drop_last() == orig.take(i as int));
        assert(flags@.take(i + 1).drop_last() == flags@.take(i as int));
        assert(orig.take(i + 1).last() == orig[i as int]);
        if flags[i] {
            on.push(x);
        } else {
            off.push(x);
        }
        assert(orig.skip(i as int).drop_first() == orig.skip(i + 1));
        i += 1;
    }
    assert(orig.take(i as int) == orig);
    assert(flags@.take(i as int) == flags@);
    (off, on)
}

} // verus!
