//! Ordered validation: the first failing check decides the error.
use vstd::prelude::*;

verus! {

/// `a`, or `b` when `a` passed.
pub open spec fn then_check(a: Result<(), Seq<char>>, b: Result<(), Seq<char>>) -> Result<
    (),
    Seq<char>,
> {
    if a is Err {
        a
    } else {
        b
    }
}

/// The first error that `f` reports over the items of `s`, in order.
pub open spec fn first_error<T>(s: Seq<T>, f: spec_fn(T) -> Result<(), Seq<char>>) -> Result<
    (),
    Seq<char>,
>
    decreases s.len(),
{
    if s.len() == 0 {
        Ok(())
    } else {
        then_check(first_error(s.drop_last(), f), f(s.last()))
    }
}

pub proof fn lemma_first_error_step<T>(s: Seq<T>, f: spec_fn(T) -> Result<(), Seq<char>>, i: int)
    requires
        0 <= i < s.len(),
    ensures
        first_error(s.take(i + 1), f) == then_check(first_error(s.take(i), f), f(s[i])),
{
    assert(s.take(i + 1).drop_last() =~= s.take(i));
}

/// Once a prefix fails, the whole sequence fails with the same error.
pub proof fn lemma_first_error_prefix<T>(
    s: Seq<T>,
    f: spec_fn(T) -> Result<(), Seq<char>>,
    k: int,
)
    requires
        0 <= k <= s.len(),
        first_error(s.take(k), f) is Err,
    ensures
        first_error(s, f) == first_error(s.take(k), f),
    decreases s.len() - k,
{
    if k == s.len() {
        assert(s.take(k) =~= s);
    } else {
        lemma_first_error_step(s, f, k);
        lemma_first_error_prefix(s, f, k + 1);
    }
}

/// A sequence passes exactly when every item passes.
pub proof fn lemma_first_error_ok<T>(s: Seq<T>, f: spec_fn(T) -> Result<(), Seq<char>>)
    ensures
        (first_error(s, f) is Ok) == (forall|i: int| 0 <= i < s.len() ==> f(s[i]) is Ok),
    decreases s.len(),
{
    if s.len() > 0 {
        lemma_first_error_ok(s.drop_last(), f);
        if first_error(s, f) is Ok {
            assert forall|i: int| 0 <= i < s.len() implies f(s[i]) is Ok by {
                if i < s.len() - 1 {
                    assert(s.drop_last()[i] == s[i]);
                }
            }
        } else {
            if first_error(s.drop_last(), f) is Err {
                let j = choose|j: int| 0 <= j < s.len() - 1 && f(s.drop_last()[j]) is Err;
                assert(s.drop_last()[j] == s[j]);
            } else {
                assert(f(s[s.len() - 1]) is Err);
            }
        }
    }
}

} // verus!
