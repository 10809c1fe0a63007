use vstd::prelude::*;

verus! {

/// What happened to a ray cast into the scene at one bounce.
#[derive(Clone, Copy, Debug, PartialEq, Eq, Structural)]
pub enum Outcome {
    /// Nothing was hit: the ray sees the sky.
    Miss,
    /// The surface hit absorbed the ray.
    Absorbed,
    /// The surface hit scattered the ray onward, with an attenuation.
    Scattered,
}

/// How a light path ends.
#[derive(Clone, Copy, Debug, PartialEq, Eq, Structural)]
pub enum PathEnd {
    /// No light: the bounce budget ran out or the ray was absorbed.
    Black,
    /// The background gradient, attenuated by every scatter on the way.
    Sky,
}

/// The state of a path between bounces.
#[derive(Clone, Copy, Debug, PartialEq, Eq, Structural)]
pub enum Step {
    Done(PathEnd),
    /// Cast the next ray, with `depth` bounces (this one included) left.
    Trace { depth: u32 },
}

/// The state of a path that has `depth` bounces left when it meets
/// `outs[k]`, and then meets the rest in turn, stopping at the first
/// terminal event.
pub open spec fn path_from(depth: nat, outs: Seq<Outcome>, k: int) -> Step
    decreases outs.len() - k,
{
    if depth == 0 {
        Step::Done(PathEnd::Black)
    } else if k < 0 || k >= outs.len() {
        Step::Trace { depth: depth as u32 }
    } else {
        match outs[k] {
            Outcome::Miss => Step::Done(PathEnd::Sky),
            Outcome::Absorbed => Step::Done(PathEnd::Black),
            Outcome::Scattered => path_from((depth - 1) as nat, outs, k + 1),
        }
    }
}

/// How many scatters that path takes before it ends: the number of
/// attenuations its color multiplies.
pub open spec fn scatters_from(depth: nat, outs: Seq<Outcome>, k: int) -> nat
    decreases outs.len() - k,
{
    if depth == 0 || k < 0 || k >= outs.len() {
        0
    } else {
        match outs[k] {
            Outcome::Scattered => 1 + scatters_from((depth - 1) as nat, outs, k + 1),
            _ => 0,
        }
    }
}

/// The state of a path that starts with `depth` bounces left and meets
/// `outs` in turn.
pub open spec fn path_spec(depth: nat, outs: Seq<Outcome>) -> Step {
    path_from(depth, outs, 0)
}

/// How many scatters a path starting with `depth` bounces left takes from `outs`.
pub open spec fn scatters_spec(depth: nat, outs: Seq<Outcome>) -> nat {
    scatters_from(depth, outs, 0)
}

/// The state before the first ray of a path with a budget of `max_depth`
/// bounces: a path with no budget is black at once.
pub open spec fn begin_spec(max_depth: u32) -> Step {
    if max_depth == 0 {
        Step::Done(PathEnd::Black)
    } else {
        Step::Trace { depth: max_depth }
    }
}

pub fn begin(max_depth: u32) -> (r: Step)
    ensures
        r == begin_spec(max_depth),
        r == path_spec(max_depth as nat, seq![]),
        max_depth == 0 ==> r == Step::Done(PathEnd::Black),
        max_depth > 0 ==> r == (Step::Trace { depth: max_depth }),
{
    if max_depth == 0 {
        Step::Done(PathEnd::Black)
    } else {
        Step::Trace { depth: max_depth }
    }
}

/// The state after a ray cast with `depth` bounces left met `outcome`.
pub fn advance(depth: u32, outcome: Outcome) -> (r: Step)
    requires
        depth > 0,
    ensures
        r == path_spec(depth as nat, seq![outcome]),
        outcome == Outcome::Miss ==> r == Step::Done(PathEnd::Sky),
        outcome == Outcome::Absorbed ==> r == Step::Done(PathEnd::Black),
        outcome == Outcome::Scattered ==> r == begin_spec((depth - 1) as u32),
{
    assert(seq![outcome][0] == outcome);
    assert(seq![outcome].len() == 1);
    assert(path_from(depth as nat, seq![outcome], 0) == match outcome {
        Outcome::Miss => Step::Done(PathEnd::Sky),
        Outcome::Absorbed => Step::Done(PathEnd::Black),
        Outcome::Scattered => path_from((depth - 1) as nat, seq![outcome], 1),
    });
    match outcome {
        Outcome::Miss => Step::Done(PathEnd::Sky),
        Outcome::Absorbed => Step::Done(PathEnd::Black),
        Outcome::Scattered => begin(depth - 1),
    }
}

/// Runs a path with a budget of `max_depth` bounces over the recorded
/// outcomes `outcomes`, one per cast ray, and returns where it stands and how
/// many scatters it took.
pub fn trace(max_depth: u32, outcomes: &Vec<Outcome>) -> (r: (Step, usize))
    ensures
        r.0 == path_spec(max_depth as nat, outcomes@),
        r.1 == scatters_spec(max_depth as nat, outcomes@),
{
    let mut step = begin(max_depth);
    let mut k: usize = 0;
    while k < outcomes.len()
        invariant
            k <= outcomes@.len(),
            k <= max_depth,
            step == begin_spec((max_depth - k) as u32),
            path_spec(max_depth as nat, outcomes@) == path_from(
                (max_depth - k) as nat,
                outcomes@,
                k as int,
            ),
            scatters_spec(max_depth as nat, outcomes@) == k + scatters_from(
                (max_depth - k) as nat,
                outcomes@,
                k as int,
            ),
        ensures
            step is Done || k == outcomes@.len(),
        decreases outcomes@.len() - k,
    {
        let depth = match step {
            Step::Done(_) => {
                break ;
            },
            Step::Trace { depth } => depth,
        };
        assert(depth == max_depth - k);
        assert(path_from(depth as nat, outcomes@, k as int) == match outcomes@[k as int] {
            Outcome::Miss => Step::Done(PathEnd::Sky),
            Outcome::Absorbed => Step::Done(PathEnd::Black),
            Outcome::Scattered => path_from((depth - 1) as nat, outcomes@, k + 1),
        });
        assert(scatters_from(depth as nat, outcomes@, k as int) == match outcomes@[k as int] {
            Outcome::Scattered => 1 + scatters_from((depth - 1) as nat, outcomes@, k + 1),
            _ => 0,
        });
        let next = advance(depth, outcomes[k]);
        if outcomes[k] != Outcome::Scattered {
            return (next, k);
        }
        step = next;
        k = k + 1;
    }
    assert(path_from((max_depth - k) as nat, outcomes@, k as int) == begin_spec(
        (max_depth - k) as u32,
    ));
    assert(scatters_from((max_depth - k) as nat, outcomes@, k as int) == 0);
    (step, k)
}

/// A path with no bounce budget is black, whatever the scene would do.
pub proof fn lemma_no_budget_is_black(outs: Seq<Outcome>)
    ensures
        path_spec(0, outs) == Step::Done(PathEnd::Black),
        scatters_spec(0, outs) == 0,
{
}

/// A path never scatters more often than its budget allows, and one that
/// reaches its budget by scattering is black.
pub proof fn lemma_budget_bounds_scatters(depth: nat, outs: Seq<Outcome>)
    ensures
        scatters_spec(depth, outs) <= depth,
        scatters_spec(depth, outs) == depth ==> path_spec(depth, outs) == Step::Done(
            PathEnd::Black,
        ),
{
    lemma_budget_from(depth, outs, 0);
}

proof fn lemma_budget_from(depth: nat, outs: Seq<Outcome>, k: int)
    ensures
        scatters_from(depth, outs, k) <= depth,
        scatters_from(depth, outs, k) == depth ==> path_from(depth, outs, k) == Step::Done(
            PathEnd::Black,
        ),
    decreases outs.len() - k,
{
    if depth > 0 && 0 <= k < outs.len() && outs[k] == Outcome::Scattered {
        lemma_budget_from((depth - 1) as nat, outs, k + 1);
    }
}

} // verus!
