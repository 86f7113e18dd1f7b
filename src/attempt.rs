use vstd::prelude::*;

verus! {

/// The failures among `outs`, in order.
pub open spec fn failed<T, E>(outs: Seq<Result<T, E>>) -> Seq<E>
    decreases outs.len(),
{
    if outs.len() == 0 {
        Seq::empty()
    } else {
        let before = failed(outs.drop_last());
        match outs.last() {
            Ok(_) => before,
            Err(e) => before.push(e),
        }
    }
}

/// The successes among `outs`, in order.
pub open spec fn succeeded<T, E>(outs: Seq<Result<T, E>>) -> Seq<T>
    decreases outs.len(),
{
    if outs.len() == 0 {
        Seq::empty()
    } else {
        let before = succeeded(outs.drop_last());
        match outs.last() {
            Ok(t) => before.push(t),
            Err(_) => before,
        }
    }
}

/// `r` is what the outcomes `outs` gather into: every success when nothing
/// failed, and otherwise every failure and no success.
pub open spec fn gathered<T, E>(outs: Seq<Result<T, E>>, r: Result<Vec<T>, Vec<E>>) -> bool {
    match r {
        Ok(v) => failed(outs).len() == 0 && v@ == succeeded(outs),
        Err(v) => failed(outs).len() > 0 && v@ == failed(outs),
    }
}

/// When nothing failed, the successes are the outcomes themselves, one for one.
pub proof fn lemma_no_failure_keeps_all<T, E>(outs: Seq<Result<T, E>>)
    requires
        failed(outs).len() == 0,
    ensures
        succeeded(outs).len() == outs.len(),
        forall|i: int| 0 <= i < outs.len() ==> (#[trigger] outs[i]) is Ok,
        forall|i: int| 0 <= i < outs.len() ==> succeeded(outs)[i] == (#[trigger] outs[i])->Ok_0,
    decreases outs.len(),
{
    if outs.len() > 0 {
        let rest = outs.drop_last();
        if outs.last() is Err {
            assert(failed(outs).len() == failed(rest).len() + 1);
        } else {
            lemma_no_failure_keeps_all(rest);
            assert forall|i: int| 0 <= i < outs.len() implies (#[trigger] outs[i]) is Ok by {
                if i < rest.len() {
                    assert(outs[i] == rest[i]);
                }
            }
            assert forall|i: int| 0 <= i < outs.len() implies succeeded(outs)[i] == (
            #[trigger] outs[i])->Ok_0 by {
                if i < rest.len() {
                    assert(outs[i] == rest[i]);
                }
            }
        }
    }
}

/// A failure is found among the outcomes exactly when one of them failed.
pub proof fn lemma_failed_iff_some_err<T, E>(outs: Seq<Result<T, E>>)
    ensures
        failed(outs).len() > 0 <==> exists|i: int| 0 <= i < outs.len() && (#[trigger] outs[i]) is Err,
    decreases outs.len(),
{
    if outs.len() > 0 {
        let rest = outs.drop_last();
        lemma_failed_iff_some_err(rest);
        if failed(rest).len() > 0 {
            let i = choose|i: int| 0 <= i < rest.len() && (#[trigger] rest[i]) is Err;
            assert(outs[i] == rest[i]);
        }
        if exists|i: int| 0 <= i < outs.len() && (#[trigger] outs[i]) is Err {
            let i = choose|i: int| 0 <= i < outs.len() && (#[trigger] outs[i]) is Err;
            if i < rest.len() {
                assert(outs[i] == rest[i]);
            }
        }
    }
}

/// Applies `mapper` to every item, in order, exactly once each, without
/// stopping at the first failure. Gives back all the successes when every
/// call succeeded, and otherwise all the failures, in the order of the items.
pub fn attempt_map<A, T, E, F: Fn(&A) -> Result<T, E>>(items: &Vec<A>, mapper: F) -> (r: Result<
    Vec<T>,
    Vec<E>,
>)
    requires
        forall|i: int| 0 <= i < items.len() ==> mapper.requires((&items[i],)),
    ensures
        exists|outs: Seq<Result<T, E>>|
            {
                &&& outs.len() == items.len()
                &&& forall|i: int|
                    0 <= i < items.len() ==> mapper.ensures((&items[i],), #[trigger] outs[i])
                &&& gathered(outs, r)
            },
{
    let mut any_failure = false;
    let mut successes: Vec<T> = Vec::new();
    let mut failures: Vec<E> = Vec::new();
    let ghost mut outs: Seq<Result<T, E>> = Seq::empty();
    let mut i: usize = 0;
    while i < items.len()
        invariant
            i <= items.len(),
            outs.len() == i,
            forall|j: int| 0 <= j < items.len() ==> mapper.requires((&items[j],)),
            forall|j: int| 0 <= j < i ==> mapper.ensures((&items[j],), #[trigger] outs[j]),
            any_failure == (failed(outs).len() > 0),
            failures@ == failed(outs),
            !any_failure ==> successes@ == succeeded(outs),
        decreases items.len() - i,
    {
        let out = mapper(&items[i]);
        let ghost before = outs;
        proof {
            outs = outs.push(out);
            assert(outs.drop_last() =~= before);
        }
        match out {
            Ok(output) => {
                if !any_failure {
                    successes.push(output);
                }
            },
            Err(err) => {
                any_failure = true;
                failures.push(err);
            },
        }
        i += 1;
    }
    if any_failure {
        Err(failures)
    } else {
        Ok(successes)
    }
}

} // verus!
