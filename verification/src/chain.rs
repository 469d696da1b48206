use vstd::prelude::*;
use crate::message::MoveStep;

verus! {

/// Whether a step of the chain can be processed now.
#[derive(Clone, Copy, Debug, PartialEq, Eq, Structural)]
pub enum StartProcResult {
    /// The first step needs the initial image, and none is loaded.
    NoInitialImg,
    /// A later step needs the result of the step before it, and there is none.
    NoPrevStepImg,
    CanStart,
}

/// Whether the results of the chain can be saved now.
#[derive(Clone, Copy, Debug, PartialEq, Eq, Structural)]
pub enum StartResultsSavingResult {
    NoSteps,
    NotAllStepsHaveResult,
    CanStart,
}

/// A sequence with the elements at `a` and `b` traded.
pub open spec fn swapped<S>(s: Seq<S>, a: int, b: int) -> Seq<S> {
    s.update(a, s[b]).update(b, s[a])
}

/// The chain of processing steps of the processing line: the steps in their order,
/// whether an initial image is loaded, and for each step whether it holds a result.
pub struct StepsChain<S> {
    has_initial_img: bool,
    steps: Vec<S>,
    results: Vec<bool>,
}

impl<S> StepsChain<S> {
    pub closed spec fn initial(&self) -> bool {
        self.has_initial_img
    }

    /// The steps, in their order.
    pub closed spec fn steps(&self) -> Seq<S> {
        self.steps@
    }

    /// For each step, whether it holds a result.
    pub closed spec fn results(&self) -> Seq<bool> {
        self.results@
    }

    /// There is one result flag per step.
    pub open spec fn wf(&self) -> bool {
        self.steps().len() == self.results().len()
    }

    /// A chain without steps and without an initial image.
    pub fn new() -> (r: Self)
        ensures
            r.wf(),
            !r.initial(),
            r.steps() == Seq::<S>::empty(),
            r.results() == Seq::<bool>::empty(),
    {
        StepsChain { has_initial_img: false, steps: Vec::new(), results: Vec::new() }
    }

    pub fn has_initial_img(&self) -> (r: bool)
        ensures
            r == self.initial(),
    {
        self.has_initial_img
    }

    pub fn get_steps_count(&self) -> (r: usize)
        requires
            self.wf(),
        ensures
            r == self.steps().len(),
    {
        self.steps.len()
    }

    /// The step at `step_num`.
    pub fn step(&self, step_num: usize) -> (r: &S)
        requires
            step_num < self.steps().len(),
        ensures
            *r == self.steps()[step_num as int],
    {
        &self.steps[step_num]
    }

    /// Whether the step holds a result.
    pub fn has_result(&self, step_num: usize) -> (r: bool)
        requires
            self.wf(),
            step_num < self.steps().len(),
        ensures
            r == self.results()[step_num as int],
    {
        self.results[step_num]
    }

    /// A new initial image is loaded: no step holds a result any more.
    pub fn set_initial_img(&mut self)
        ensures
            final(self).initial(),
            final(self).steps() == old(self).steps(),
            final(self).results() == Seq::new(old(self).results().len(), |i: int| false),
    {
        self.has_initial_img = true;
        self.clear_results_from(0);
    }

    /// A step is added at the end, without a result.
    pub fn add_step(&mut self, step: S)
        ensures
            final(self).initial() == old(self).initial(),
            final(self).steps() == old(self).steps().push(step),
            final(self).results() == old(self).results().push(false),
    {
        self.steps.push(step);
        self.results.push(false);
    }

    /// A step is removed; the steps after it move up with their results.
    pub fn remove_step(&mut self, step_num: usize)
        requires
            old(self).wf(),
            step_num < old(self).steps().len(),
        ensures
            final(self).initial() == old(self).initial(),
            final(self).steps() == old(self).steps().remove(step_num as int),
            final(self).results() == old(self).results().remove(step_num as int),
    {
        self.steps.remove(step_num);
        self.results.remove(step_num);
    }

    /// A step is replaced by its edited version; neither it nor any step after it
    /// keeps its result.
    pub fn set_step(&mut self, step_num: usize, step: S)
        requires
            step_num < old(self).steps().len(),
        ensures
            final(self).initial() == old(self).initial(),
            final(self).steps() == old(self).steps().update(step_num as int, step),
            final(self).results().len() == old(self).results().len(),
            forall|i: int|
                0 <= i < final(self).results().len() ==> #[trigger] final(self).results()[i] == (i
                    < step_num && old(self).results()[i]),
    {
        self.steps.set(step_num, step);
        self.clear_results_from(step_num);
    }

    /// The results from `step_num` on are dropped.
    pub fn clear_results_from(&mut self, step_num: usize)
        ensures
            final(self).initial() == old(self).initial(),
            final(self).steps() == old(self).steps(),
            final(self).results().len() == old(self).results().len(),
            forall|i: int|
                0 <= i < final(self).results().len() ==> #[trigger] final(self).results()[i] == (i
                    < step_num && old(self).results()[i]),
    {
        let n = self.results.len();
        if step_num >= n {
            return;
        }
        let mut i: usize = step_num;
        while i < n
            invariant
                step_num <= i <= n,
                n == self.results@.len(),
                n == old(self).results@.len(),
                self.has_initial_img == old(self).has_initial_img,
                self.steps@ == old(self).steps@,
                forall|k: int|
                    0 <= k < n ==> #[trigger] self.results@[k] == if step_num <= k < i {
                        false
                    } else {
                        old(self).results@[k]
                    },
            decreases n - i,
        {
            self.results.set(i, false);
            i = i + 1;
        }
    }

    /// The two steps trade places; neither of them, nor any step after them, keeps
    /// its result.
    pub fn swap_steps(&mut self, upper_num: usize, lower_num: usize)
        requires
            old(self).wf(),
            upper_num < lower_num < old(self).steps().len(),
        ensures
            final(self).initial() == old(self).initial(),
            final(self).steps() == swapped(old(self).steps(), upper_num as int, lower_num as int),
            final(self).results().len() == old(self).results().len(),
            forall|i: int|
                0 <= i < final(self).results().len() ==> #[trigger] final(self).results()[i] == (i
                    < upper_num && old(self).results()[i]),
    {
        let ghost before = self.steps@;
        let lower = self.steps.remove(lower_num);
        let upper = self.steps.remove(upper_num);
        self.steps.insert(upper_num, lower);
        self.steps.insert(lower_num, upper);
        proof {
            assert(self.steps@ =~= swapped(before, upper_num as int, lower_num as int));
        }
        self.clear_results_from(upper_num);
    }

    /// A step was processed: it holds a result where processing was not halted.
    pub fn set_result(&mut self, step_num: usize, has_result: bool)
        requires
            old(self).wf(),
            step_num < old(self).steps().len(),
        ensures
            final(self).initial() == old(self).initial(),
            final(self).steps() == old(self).steps(),
            final(self).results() == old(self).results().update(step_num as int, has_result),
    {
        self.results.set(step_num, has_result);
    }

    /// Whether the step can be processed: the first step needs the initial image, a
    /// later one the result of the step before it.
    pub fn check_if_can_start_processing(&self, step_num: usize) -> (r: StartProcResult)
        requires
            self.wf(),
            step_num < self.steps().len(),
        ensures
            step_num == 0 ==> r == if self.initial() {
                StartProcResult::CanStart
            } else {
                StartProcResult::NoInitialImg
            },
            step_num > 0 ==> r == if self.results()[step_num - 1] {
                StartProcResult::CanStart
            } else {
                StartProcResult::NoPrevStepImg
            },
    {
        if step_num == 0 {
            if self.has_initial_img {
                StartProcResult::CanStart
            } else {
                StartProcResult::NoInitialImg
            }
        } else if self.results[step_num - 1] {
            StartProcResult::CanStart
        } else {
            StartProcResult::NoPrevStepImg
        }
    }

    /// Whether the results can be saved: there must be steps, and every one of them
    /// must hold a result.
    pub fn check_if_can_export(&self) -> (r: StartResultsSavingResult)
        requires
            self.wf(),
        ensures
            self.steps().len() == 0 ==> r == StartResultsSavingResult::NoSteps,
            self.steps().len() > 0 ==> r == if forall|i: int|
                0 <= i < self.results().len() ==> #[trigger] self.results()[i] {
                StartResultsSavingResult::CanStart
            } else {
                StartResultsSavingResult::NotAllStepsHaveResult
            },
    {
        let n = self.results.len();
        if n == 0 {
            return StartResultsSavingResult::NoSteps;
        }
        proof {
            assert(self.steps().len() == n);
        }
        let mut i: usize = 0;
        while i < n
            invariant
                n == self.results@.len(),
                n == self.steps@.len(),
                i <= n,
                forall|k: int| 0 <= k < i ==> #[trigger] self.results@[k],
            decreases n - i,
        {
            if !self.results[i] {
                proof {
                    assert(!self.results()[i as int]);
                }
                return StartResultsSavingResult::NotAllStepsHaveResult;
            }
            i = i + 1;
        }
        proof {
            assert(forall|k: int| 0 <= k < self.results().len() ==> #[trigger] self.results()[k]);
        }
        StartResultsSavingResult::CanStart
    }
}

/// Moving a step down and then moving it up again gives the steps back in their
/// order: the two moves trade the same two places.
pub proof fn lemma_down_then_up<S>(steps: Seq<S>, step_num: int)
    requires
        0 <= step_num,
        step_num + 1 < steps.len(),
    ensures
        swapped(swapped(steps, step_num, step_num + 1), step_num, step_num + 1) == steps,
{
    assert(swapped(swapped(steps, step_num, step_num + 1), step_num, step_num + 1) =~= steps);
}

/// The two steps that trade places when a step moves: the step and the one above
/// it, or the step and the one below it; nothing where the step is the first one
/// moving up or the last one moving down.
pub fn reorder_pair(step_num: usize, direction: MoveStep, steps_count: usize) -> (r: Option<(usize, usize)>)
    requires
        step_num < steps_count,
    ensures
        match direction {
            MoveStep::Up => if step_num > 0 {
                r == Some(((step_num - 1) as usize, step_num))
            } else {
                r is None
            },
            MoveStep::Down => if step_num < steps_count - 1 {
                r == Some((step_num, (step_num + 1) as usize))
            } else {
                r is None
            },
        },
{
    match direction {
        MoveStep::Up => if step_num > 0 {
            Some((step_num - 1, step_num))
        } else {
            None
        },
        MoveStep::Down => if step_num < steps_count - 1 {
            Some((step_num, step_num + 1))
        } else {
            None
        },
    }
}

/// The progress of the whole chain while one of its steps runs: the steps before it
/// count in full, the running one by its own percents.
pub fn total_percents(step_num: usize, percents: usize, steps_count: usize) -> (r: usize)
    requires
        step_num < steps_count,
        percents <= 100,
        steps_count * 100 <= usize::MAX,
    ensures
        r == (step_num * 100 + percents) / (steps_count as int),
        r <= 100,
{
    proof {
        assert(step_num * 100 + percents <= steps_count * 100) by (nonlinear_arith)
            requires
                step_num < steps_count,
                percents <= 100,
        ;
        assert((step_num * 100 + percents) / (steps_count as int) <= 100) by (nonlinear_arith)
            requires
                step_num * 100 + percents <= steps_count * 100,
                steps_count > 0,
        ;
    }
    (step_num * 100 + percents) / steps_count
}

/// Whether processing goes on with the next step once a step is finished: only when
/// the chain was started to run to its end, the step was not the last one, and
/// processing was not halted.
pub fn processing_continues(process_until_end: bool, step_num: usize, steps_count: usize, halted: bool) -> (r: bool)
    requires
        steps_count >= 1,
    ensures
        r == (process_until_end && step_num < steps_count - 1 && !halted),
{
    let it_is_the_last_step = step_num >= steps_count - 1;
    process_until_end && !it_is_the_last_step && !halted
}

} // verus!
