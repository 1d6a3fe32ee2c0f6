//! The resource discipline of the codec adapter's multi-step protocols,
//! stated abstractly. Every encode/decode path drives the native codec
//! through a sequence of fallible stages (build a configuration, import a
//! picture, add a frame, assemble, remux), some of which acquire a native
//! handle that has its own teardown call. A failure at any stage stops the
//! run, and exactly the handles acquired by the completed stages are torn
//! down, newest first — ownership ties each teardown to one handle's end of
//! scope. The theorem at the bottom states the safety property this
//! discipline guarantees: wherever a failure is injected, each acquired
//! handle is torn down exactly once, and nothing else is.

use vstd::prelude::*;

verus! {

/// The handles acquired by the stages that complete before the failure
/// point `cut` (with `cut` equal to the stage count when every stage
/// succeeds): each stage either acquires one handle or none.
pub open spec fn acquired_before(stages: Seq<Option<int>>, cut: int) -> Seq<int>
    decreases cut,
{
    if cut <= 0 {
        Seq::empty()
    } else {
        let rest = acquired_before(stages, cut - 1);
        match stages[cut - 1] {
            Option::Some(id) => rest.push(id),
            Option::None => rest,
        }
    }
}

/// The teardown order of a list of acquired handles: newest first.
pub open spec fn teardown_of(acquired: Seq<int>) -> Seq<int>
    decreases acquired.len(),
{
    if acquired.len() == 0 {
        Seq::empty()
    } else {
        seq![acquired.last()].add(teardown_of(acquired.drop_last()))
    }
}

/// How many times `x` occurs in `s`.
pub open spec fn count_of(s: Seq<int>, x: int) -> int
    decreases s.len(),
{
    if s.len() == 0 {
        0
    } else {
        count_of(s.drop_last(), x) + if s.last() == x {
            1int
        } else {
            0int
        }
    }
}

/// No two stages acquire the same handle: a handle is owned by exactly one
/// wrapper for its entire lifetime.
pub open spec fn handles_distinct(stages: Seq<Option<int>>) -> bool {
    forall|i: int, j: int|
        0 <= i < j < stages.len() && (#[trigger] stages[i]) is Some && (#[trigger] stages[j])
            is Some ==> stages[i]->0 != stages[j]->0
}

proof fn lemma_count_add(a: Seq<int>, b: Seq<int>, x: int)
    ensures
        count_of(a.add(b), x) == count_of(a, x) + count_of(b, x),
    decreases b.len(),
{
    if b.len() == 0 {
        assert(a.add(b) =~= a);
    } else {
        assert(a.add(b).drop_last() =~= a.add(b.drop_last()));
        assert(a.add(b).last() == b.last());
        lemma_count_add(a, b.drop_last(), x);
    }
}

proof fn lemma_count_teardown(acquired: Seq<int>, x: int)
    ensures
        count_of(teardown_of(acquired), x) == count_of(acquired, x),
    decreases acquired.len(),
{
    if acquired.len() > 0 {
        lemma_count_teardown(acquired.drop_last(), x);
        lemma_count_add(seq![acquired.last()], teardown_of(acquired.drop_last()), x);
        assert(seq![acquired.last()].drop_last() =~= Seq::<int>::empty());
        assert(count_of(Seq::<int>::empty(), x) == 0);
        assert(count_of(seq![acquired.last()], x) == if acquired.last() == x {
            1int
        } else {
            0int
        });
    }
}

proof fn lemma_acquired_distinct(stages: Seq<Option<int>>, cut: int, x: int)
    requires
        handles_distinct(stages),
        0 <= cut <= stages.len(),
    ensures
        count_of(acquired_before(stages, cut), x) == if acquired_before(stages, cut).contains(x) {
            1int
        } else {
            0int
        },
        acquired_before(stages, cut).contains(x) ==> exists|i: int|
            0 <= i < cut && stages[i] == Some(x),
    decreases cut,
{
    if cut > 0 {
        lemma_acquired_distinct(stages, cut - 1, x);
        let rest = acquired_before(stages, cut - 1);
        match stages[cut - 1] {
            Option::Some(id) => {
                assert(acquired_before(stages, cut) == rest.push(id));
                assert(acquired_before(stages, cut).drop_last() =~= rest);
                if id == x {
                    // this stage's handle is fresh: no earlier stage acquired it
                    if rest.contains(x) {
                        let i = choose|i: int| 0 <= i < cut - 1 && stages[i] == Some(x);
                        assert(stages[i] is Some && stages[cut - 1] is Some);
                        assert(false);
                    }
                    assert(acquired_before(stages, cut).last() == x);
                } else {
                    if acquired_before(stages, cut).contains(x) {
                        let k = choose|k: int|
                            0 <= k < acquired_before(stages, cut).len() && acquired_before(
                                stages,
                                cut,
                            )[k] == x;
                        assert(rest[k] == x);
                        assert(rest.contains(x));
                    }
                    if rest.contains(x) {
                        let k = choose|k: int| 0 <= k < rest.len() && rest[k] == x;
                        assert(acquired_before(stages, cut)[k] == x);
                    }
                }
            },
            Option::None => {},
        }
    }
}

/// Resource safety of the adapter protocols: run the stages with a failure
/// injected at any point `cut` (or no failure, with `cut` at the end), and
/// the teardown calls issued are exactly one per handle that was acquired,
/// whatever the failure point — a handle acquired before the failure is
/// torn down exactly once, and a handle its stage never reached is not
/// touched.
pub proof fn lemma_teardown_exactly_once(stages: Seq<Option<int>>, cut: int, id: int)
    requires
        handles_distinct(stages),
        0 <= cut <= stages.len(),
    ensures
        acquired_before(stages, cut).contains(id) ==> count_of(
            teardown_of(acquired_before(stages, cut)),
            id,
        ) == 1,
        !acquired_before(stages, cut).contains(id) ==> count_of(
            teardown_of(acquired_before(stages, cut)),
            id,
        ) == 0,
{
    lemma_count_teardown(acquired_before(stages, cut), id);
    lemma_acquired_distinct(stages, cut, id);
}

} // verus!
