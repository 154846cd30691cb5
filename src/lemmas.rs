use vstd::prelude::*;
use crate::data_structs::{
    after_ops, after_pop, after_pops, after_pushes, front, pops_all_found, push_count,
};

verus! {

/// After pushing the values of `vs` in order onto a list holding `s`, the front holds
/// the pushed values in reverse, followed by `s`.
pub proof fn lemma_after_pushes_shape<T>(s: Seq<T>, vs: Seq<T>)
    ensures
        after_pushes(s, vs).len() == vs.len() + s.len(),
        forall|i: int|
            0 <= i < vs.len() ==> #[trigger] after_pushes(s, vs)[i] == vs[vs.len() - 1 - i],
        forall|i: int|
            vs.len() <= i < vs.len() + s.len() ==> #[trigger] after_pushes(s, vs)[i] == s[i
                - vs.len()],
    decreases vs.len(),
{
    if vs.len() > 0 {
        lemma_after_pushes_shape(s, vs.drop_last());
        let p = after_pushes(s, vs.drop_last());
        assert(after_pushes(s, vs) == seq![vs.last()].add(p));
        assert forall|i: int| 1 <= i < vs.len() + s.len() implies #[trigger] after_pushes(
            s,
            vs,
        )[i] == p[i - 1] by {}
    }
}

/// Popping `j` times from a list holding `s` leaves all but its first `j` values.
pub proof fn lemma_after_pops_skip<T>(s: Seq<T>, j: nat)
    requires
        j <= s.len(),
    ensures
        after_pops(s, j) == s.subrange(j as int, s.len() as int),
    decreases j,
{
    if j == 0 {
        assert(s.subrange(0, s.len() as int) =~= s);
    } else {
        lemma_after_pops_skip(s, (j - 1) as nat);
        assert(s.subrange(j - 1, s.len() as int).drop_first() =~= s.subrange(
            j as int,
            s.len() as int,
        ));
    }
}

/// Pops from a list built by pushing the values of `vs` in order onto an empty list
/// hand them back last pushed first, and one more pop finds nothing.
pub proof fn lemma_pops_reverse_pushes<T>(vs: Seq<T>)
    ensures
        forall|i: nat|
            i < vs.len() ==> #[trigger] front(after_pops(after_pushes(Seq::empty(), vs), i))
                == Some(vs[vs.len() - 1 - i]),
        front(after_pops(after_pushes(Seq::empty(), vs), vs.len())).is_none(),
{
    let t = after_pushes(Seq::<T>::empty(), vs);
    lemma_after_pushes_shape(Seq::<T>::empty(), vs);
    assert forall|i: nat| i < vs.len() implies #[trigger] front(after_pops(t, i)) == Some(
        vs[vs.len() - 1 - i],
    ) by {
        lemma_after_pops_skip(t, i);
    }
    lemma_after_pops_skip(t, vs.len());
}

/// After `k` pushes onto an empty list and then `j <= k` pops, the list holds `k - j`
/// values; in particular it is empty exactly when `j == k`.
pub proof fn lemma_length_after_pushes_and_pops<T>(vs: Seq<T>, j: nat)
    requires
        j <= vs.len(),
    ensures
        after_pops(after_pushes(Seq::empty(), vs), j).len() == vs.len() - j,
        (after_pops(after_pushes(Seq::empty(), vs), j).len() == 0) == (j == vs.len()),
{
    lemma_after_pushes_shape(Seq::<T>::empty(), vs);
    lemma_after_pops_skip(after_pushes(Seq::<T>::empty(), vs), j);
}

/// A value written in place at the front of a non-empty list is what the next peek or
/// pop returns, and the pop leaves the rest of the list as it was.
pub proof fn lemma_front_write_observed<T>(s: Seq<T>, v: T)
    requires
        s.len() > 0,
    ensures
        front(s.update(0, v)) == Some(v),
        after_pop(s.update(0, v)) == after_pop(s),
{
    assert(s.update(0, v).drop_first() =~= s.drop_first());
}

/// A cleared list has no value to pop or peek, and popping it leaves it empty.
pub proof fn lemma_cleared_list_yields_nothing<T>(s: Seq<T>)
    requires
        s.len() == 0,
    ensures
        front(s).is_none(),
        after_pop(s).len() == 0,
{
}

/// Popping a list and a clone of it step by step gives values that are clones of one
/// another, and both run out after the same number of pops.
pub proof fn lemma_clone_pops_alike<T: Clone>(s: Seq<T>, c: Seq<T>)
    requires
        c.len() == s.len(),
        forall|i: int| 0 <= i < s.len() ==> cloned(#[trigger] s[i], c[i]),
    ensures
        forall|j: nat|
            j < s.len() ==> cloned(
                #[trigger] front(after_pops(s, j)).unwrap(),
                front(after_pops(c, j)).unwrap(),
            ) && front(after_pops(c, j)).is_some(),
        front(after_pops(s, s.len())).is_none(),
        front(after_pops(c, s.len())).is_none(),
{
    assert forall|j: nat| j < s.len() implies cloned(
        #[trigger] front(after_pops(s, j)).unwrap(),
        front(after_pops(c, j)).unwrap(),
    ) && front(after_pops(c, j)).is_some() by {
        lemma_after_pops_skip(s, j);
        lemma_after_pops_skip(c, j);
        assert(cloned(s[j as int], c[j as int]));
    }
    lemma_after_pops_skip(s, s.len());
    lemma_after_pops_skip(c, s.len());
}

/// A pop right after a push returns the pushed value and gives back the list as it was.
pub proof fn lemma_pop_undoes_push<T>(s: Seq<T>, v: T)
    ensures
        front(seq![v].add(s)) == Some(v),
        after_pop(seq![v].add(s)) == s,
{
    assert(seq![v].add(s).drop_first() =~= s);
}

/// Starting from an empty list, any interleaving of `k` pushes and `j` pops in which
/// every pop finds a value leaves `k - j` values.
pub proof fn lemma_length_after_interleaving<T>(ops: Seq<Option<T>>)
    requires
        pops_all_found(Seq::empty(), ops),
    ensures
        push_count(ops) >= ops.len() - push_count(ops),
        after_ops(Seq::empty(), ops).len() == push_count(ops) - (ops.len() - push_count(ops)),
    decreases ops.len(),
{
    if ops.len() > 0 {
        let prev = ops.drop_last();
        assert forall|i: int| 0 <= i < prev.len() && (#[trigger] prev[i]).is_none() implies after_ops(
            Seq::empty(),
            prev.take(i),
        ).len() > 0 by {
            assert(prev.take(i) =~= ops.take(i));
            assert(ops[i].is_none());
        }
        lemma_length_after_interleaving(prev);
        if ops.last().is_none() {
            let i = ops.len() - 1;
            assert(ops.take(i) =~= prev);
            assert(ops[i].is_none());
        }
    }
}

} // verus!
