//! The controller's list of connected clients.
use vstd::prelude::*;

verus! {

/// The elements of `s` whose entry in `failed` is `false`, in their order.
pub open spec fn survivors<T>(s: Seq<T>, failed: Seq<bool>) -> Seq<T>
    decreases s.len(),
{
    if s.len() == 0 {
        Seq::empty()
    } else {
        let rest = survivors(s.drop_first(), failed.drop_first());
        if failed[0] {
            rest
        } else {
            seq![s[0]].add(rest)
        }
    }
}

/// Number of `false` entries of `failed`.
pub open spec fn count_ok(failed: Seq<bool>) -> nat
    decreases failed.len(),
{
    if failed.len() == 0 {
        0
    } else {
        count_ok(failed.drop_first()) + if failed[0] { 0nat } else { 1nat }
    }
}

/// Removes from `clients` each client whose last write failed
/// (`failed[i]` for `clients[i]`), keeping the others in their order.
pub fn drop_failed<T>(clients: &mut Vec<T>, failed: &Vec<bool>)
    requires
        failed.len() == old(clients).len(),
    ensures
        final(clients)@ == survivors(old(clients)@, failed@),
        final(clients)@ == Seq::new(old(clients)@.len(), |i: int| (old(clients)@[i], failed@[i])).filter_map(
            |p: (T, bool)|
                if p.1 {
                    None
                } else {
                    Some(p.0)
                },
        ),
{
    let ghost orig = clients@;
    let n = clients.len();
    let mut i = n;
    assert(orig.skip(n as int) =~= Seq::<T>::empty());
    assert(orig.take(n as int) =~= orig);
    while i > 0
        invariant
            i <= n,
            n == orig.len(),
            failed.len() == n,
            clients@ == orig.take(i as int) + survivors(orig.skip(i as int), failed@.skip(i as int)),
        decreases i,
    {
        i = i - 1;
        assert(orig.skip(i as int).drop_first() =~= orig.skip(i + 1));
        assert(failed@.skip(i as int).drop_first() =~= failed@.skip(i + 1));
        assert(orig.take(i + 1) =~= orig.take(i as int).push(orig[i as int]));
        if failed[i] {
            clients.remove(i);
            assert(clients@ =~= orig.take(i as int) + survivors(
                orig.skip(i as int),
                failed@.skip(i as int),
            ));
        } else {
            assert(clients@ =~= orig.take(i as int) + survivors(
                orig.skip(i as int),
                failed@.skip(i as int),
            ));
        }
    }
    assert(orig.skip(0) =~= orig);
    assert(failed@.skip(0) =~= failed@);
    assert(orig.take(0) =~= Seq::<T>::empty());
    assert(clients@ =~= survivors(orig, failed@));
    proof {
        lemma_survivors_are_kept_pairs(orig, failed@);
    }
}

/// Filtering a sequence with one more element in front filters that
/// element, then the rest.
proof fn lemma_filter_map_prepend<A, B>(x: A, s: Seq<A>, f: spec_fn(A) -> Option<B>)
    ensures
        (seq![x] + s).filter_map(f) == match f(x) {
            Some(y) => seq![y] + s.filter_map(f),
            None => s.filter_map(f),
        },
    decreases s.len(),
{
    if s.len() == 0 {
        assert(seq![x] + s =~= seq![x]);
        assert(seq![x].drop_last() =~= Seq::<A>::empty());
        assert(Seq::<A>::empty().filter_map(f) == Seq::<B>::empty());
        assert(s =~= Seq::<A>::empty());
        match f(x) {
            Some(y) => {
                assert(seq![x].filter_map(f) == seq![x].drop_last().filter_map(f) + seq![y]);
                assert(Seq::<B>::empty() + seq![y] =~= seq![y] + Seq::<B>::empty());
            },
            None => {
                assert(seq![x].filter_map(f) == seq![x].drop_last().filter_map(f));
            },
        }
    } else {
        lemma_filter_map_prepend(x, s.drop_last(), f);
        let xs = seq![x] + s;
        assert(xs.drop_last() =~= seq![x] + s.drop_last());
        assert(xs.last() == s.last());
        match f(s.last()) {
            Some(z) => {
                assert(xs.filter_map(f) == xs.drop_last().filter_map(f) + seq![z]);
                assert(s.filter_map(f) == s.drop_last().filter_map(f) + seq![z]);
                match f(x) {
                    Some(y) => {
                        assert(seq![y] + s.drop_last().filter_map(f) + seq![z] =~= seq![y] + (
                        s.drop_last().filter_map(f) + seq![z]));
                    },
                    None => {},
                }
            },
            None => {
                assert(xs.filter_map(f) == xs.drop_last().filter_map(f));
                assert(s.filter_map(f) == s.drop_last().filter_map(f));
            },
        }
    }
}

/// The clients kept are, in order, exactly those paired with a write that
/// did not fail.
pub proof fn lemma_survivors_are_kept_pairs<T>(s: Seq<T>, failed: Seq<bool>)
    requires
        failed.len() == s.len(),
    ensures
        survivors(s, failed) == Seq::new(s.len(), |i: int| (s[i], failed[i])).filter_map(
            |p: (T, bool)|
                if p.1 {
                    None
                } else {
                    Some(p.0)
                },
        ),
    decreases s.len(),
{
    let f = |p: (T, bool)|
        if p.1 {
            None
        } else {
            Some(p.0)
        };
    let pairs = Seq::new(s.len(), |i: int| (s[i], failed[i]));
    if s.len() == 0 {
        assert(pairs =~= Seq::<(T, bool)>::empty());
    } else {
        lemma_survivors_are_kept_pairs(s.drop_first(), failed.drop_first());
        let rest = Seq::new(
            s.drop_first().len(),
            |i: int| (s.drop_first()[i], failed.drop_first()[i]),
        );
        assert(pairs =~= seq![(s[0], failed[0])] + rest);
        lemma_filter_map_prepend((s[0], failed[0]), rest, f);
    }
}

/// The clients left after dropping the failed ones are as many as the
/// writes that succeeded, and every one of them is a client whose write
/// succeeded.
pub proof fn lemma_survivors_are_successes<T>(s: Seq<T>, failed: Seq<bool>)
    requires
        failed.len() == s.len(),
    ensures
        survivors(s, failed).len() == count_ok(failed),
        forall|k: int|
            0 <= k < survivors(s, failed).len() ==> exists|i: int|
                0 <= i < s.len() && !failed[i] && s[i] == #[trigger] survivors(s, failed)[k],
    decreases s.len(),
{
    if s.len() > 0 {
        let rest = survivors(s.drop_first(), failed.drop_first());
        lemma_survivors_are_successes(s.drop_first(), failed.drop_first());
        assert forall|k: int| 0 <= k < survivors(s, failed).len() implies exists|i: int|
            0 <= i < s.len() && !failed[i] && s[i] == #[trigger] survivors(s, failed)[k] by {
            if failed[0] {
                let j = choose|j: int|
                    0 <= j < s.drop_first().len() && !failed.drop_first()[j]
                        && s.drop_first()[j] == #[trigger] rest[k];
                assert(s[j + 1] == s.drop_first()[j]);
            } else if k == 0 {
                assert(s[0] == survivors(s, failed)[0]);
            } else {
                let j = choose|j: int|
                    0 <= j < s.drop_first().len() && !failed.drop_first()[j]
                        && s.drop_first()[j] == #[trigger] rest[k - 1];
                assert(s[j + 1] == s.drop_first()[j]);
                assert(survivors(s, failed)[k] == rest[k - 1]);
            }
        }
    }
}

} // verus!
