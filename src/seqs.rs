//! Repetition of a reader a counted number of times, and concatenation of
//! per-element encodings.

use vstd::prelude::*;
use crate::wire::Parsed;

verus! {

/// Runs the reader `f` `n` times from `p`, each time where the last stopped.
pub open spec fn spec_many<T>(f: spec_fn(int) -> Parsed<T>, p: int, n: nat) -> Parsed<Seq<T>>
    decreases n,
{
    if n == 0 {
        Ok((Seq::empty(), p))
    } else {
        match f(p) {
            Err(e) => Err(e),
            Ok((x, q)) => match spec_many(f, q, (n - 1) as nat) {
                Err(e) => Err(e),
                Ok((xs, r)) => Ok((seq![x] + xs, r)),
            },
        }
    }
}

/// Puts `pre` in front of a successful result.
pub open spec fn prepend<T>(pre: Seq<T>, r: Parsed<Seq<T>>) -> Parsed<Seq<T>> {
    match r {
        Ok((xs, q)) => Ok((pre + xs, q)),
        Err(e) => Err(e),
    }
}

/// One step of a counted read: the first element moves into the prefix.
pub proof fn lemma_many_step<T>(f: spec_fn(int) -> Parsed<T>, p: int, n: nat, pre: Seq<T>)
    requires
        n > 0,
    ensures
        match f(p) {
            Ok((x, q)) => prepend(pre, spec_many(f, p, n)) == prepend(
                pre.push(x),
                spec_many(f, q, (n - 1) as nat),
            ),
            Err(e) => prepend(pre, spec_many(f, p, n)) == Err::<(Seq<T>, int), _>(e),
        },
{
    match f(p) {
        Ok((x, q)) => {
            match spec_many(f, q, (n - 1) as nat) {
                Ok((xs, r)) => {
                    assert(pre + (seq![x] + xs) =~= pre.push(x) + xs);
                },
                Err(e) => {},
            }
        },
        Err(e) => {},
    }
}

/// The start of a counted read.
pub proof fn lemma_many_start<T>(f: spec_fn(int) -> Parsed<T>, p: int, n: nat)
    ensures
        prepend(Seq::<T>::empty(), spec_many(f, p, n)) == spec_many(f, p, n),
{
    match spec_many(f, p, n) {
        Ok((xs, q)) => {
            assert(Seq::<T>::empty() + xs =~= xs);
        },
        Err(e) => {},
    }
}

/// The encodings of the elements of `xs`, one after another.
pub open spec fn concat_map<T>(xs: Seq<T>, f: spec_fn(T) -> Seq<u8>) -> Seq<u8>
    decreases xs.len(),
{
    if xs.len() == 0 {
        Seq::empty()
    } else {
        concat_map(xs.drop_last(), f) + f(xs.last())
    }
}

/// Encoding one more element appends its bytes.
pub proof fn lemma_concat_map_push<T>(xs: Seq<T>, f: spec_fn(T) -> Seq<u8>, i: int)
    requires
        0 <= i < xs.len(),
    ensures
        concat_map(xs.subrange(0, i + 1), f) == concat_map(xs.subrange(0, i), f) + f(xs[i]),
{
    assert(xs.subrange(0, i + 1).drop_last() =~= xs.subrange(0, i));
}

/// The encodings of a non-empty sequence start with that of its first element.
pub proof fn lemma_concat_map_front<T>(xs: Seq<T>, f: spec_fn(T) -> Seq<u8>)
    requires
        xs.len() > 0,
    ensures
        concat_map(xs, f) == f(xs[0]) + concat_map(xs.drop_first(), f),
    decreases xs.len(),
{
    if xs.len() == 1 {
        assert(xs.drop_last() =~= Seq::<T>::empty());
        assert(xs.drop_first() =~= Seq::<T>::empty());
        assert(concat_map(xs, f) =~= f(xs[0]) + concat_map(xs.drop_first(), f));
    } else {
        lemma_concat_map_front(xs.drop_last(), f);
        assert(xs.drop_last().drop_first() =~= xs.drop_first().drop_last());
        assert(xs.drop_first().last() == xs.last());
        assert(concat_map(xs, f) =~= f(xs[0]) + concat_map(xs.drop_first(), f));
    }
}

} // verus!
