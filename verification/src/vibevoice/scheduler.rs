//! The diffusion schedule: which steps are taken, and in which order.
use vstd::prelude::*;
use vstd::string::*;
use crate::text::same;
use crate::vibevoice::config::DiffusionHeadConfig;

verus! {

/// Step `index` of `inference_steps` equal parts of the training steps, to the
/// nearest whole step; halves go up.
pub open spec fn spaced(training_steps: int, inference_steps: int, index: int) -> int {
    (2 * ((training_steps - 1) * index) + inference_steps) / (2 * inference_steps)
}

/// The steps that are taken: equally spaced, from the last down.
pub open spec fn schedule(training_steps: int, inference_steps: int) -> Seq<usize> {
    Seq::new(
        inference_steps as nat,
        |i: int| spaced(training_steps, inference_steps, inference_steps - i) as usize,
    )
}

proof fn lemma_spaced(t: int, n: int, a: int, b: int)
    requires
        t >= 1,
        n >= 1,
        0 <= a <= b <= n,
    ensures
        0 <= spaced(t, n, a) <= spaced(t, n, b) <= t - 1,
        spaced(t, n, n) == t - 1,
{
    let x = (t - 1) * a;
    let y = (t - 1) * b;
    let z = (t - 1) * n;
    assert(0 <= x <= y <= z) by (nonlinear_arith)
        requires
            t >= 1,
            0 <= a <= b <= n,
            x == (t - 1) * a,
            y == (t - 1) * b,
            z == (t - 1) * n,
    ;
    vstd::arithmetic::div_mod::lemma_div_is_ordered(2 * x + n, 2 * y + n, 2 * n);
    vstd::arithmetic::div_mod::lemma_div_is_ordered(2 * y + n, 2 * z + n, 2 * n);
    vstd::arithmetic::div_mod::lemma_div_is_ordered(0, 2 * x + n, 2 * n);
    vstd::arithmetic::div_mod::lemma_basic_div(0, 2 * n);
    assert(2 * z + n == (2 * n) * (t - 1) + n) by (nonlinear_arith)
        requires
            z == (t - 1) * n,
    ;
    vstd::arithmetic::div_mod::lemma_fundamental_div_mod_converse(
        2 * z + n,
        2 * n,
        t - 1,
        n,
    );
}

/// The schedule starts at the last training step, never goes up, and names
/// training steps only.
pub proof fn law_schedule_descends(training_steps: int, inference_steps: int, i: int, j: int)
    requires
        1 <= training_steps <= usize::MAX,
        1 <= inference_steps,
        0 <= i <= j < inference_steps,
    ensures
        schedule(training_steps, inference_steps)[0] == training_steps - 1,
        schedule(training_steps, inference_steps)[j] <= schedule(
            training_steps,
            inference_steps,
        )[i] < training_steps,
{
    lemma_spaced(
        training_steps,
        inference_steps,
        inference_steps - j,
        inference_steps - i,
    );
}

/// Equally spaced steps can be counted in double precision without rounding.
pub open spec fn countable(training_steps: usize, inference_steps: usize) -> bool {
    2 * ((training_steps - 1) * inference_steps) + inference_steps < 0x20_0000_0000_0000
        && inference_steps < 0x10_0000_0000_0000 && inference_steps < usize::MAX
}

/// The steps that are taken.
pub fn linspace_timesteps(training_steps: usize, inference_steps: usize) -> (steps: Vec<usize>)
    requires
        training_steps >= 1,
        inference_steps >= 1,
        countable(training_steps, inference_steps),
    ensures
        steps@ == schedule(training_steps as int, inference_steps as int),
{
    let mut steps: Vec<usize> = Vec::new();
    let n: u64 = inference_steps as u64;
    let t: u64 = training_steps as u64;
    for i in 0..inference_steps
        invariant
            training_steps >= 1,
            inference_steps >= 1,
            countable(training_steps, inference_steps),
            n == inference_steps,
            t == training_steps,
            steps@.len() == i,
            forall|j: int|
                0 <= j < i ==> #[trigger] steps@[j] == spaced(
                    training_steps as int,
                    inference_steps as int,
                    inference_steps - j,
                ) as usize,
    {
        let index: u64 = n - i as u64;
        proof {
            assert((t - 1) * index <= (t - 1) * n) by (nonlinear_arith)
                requires
                    t >= 1,
                    0 <= index <= n,
            ;
            assert(0 <= (t - 1) * index) by (nonlinear_arith)
                requires
                    t >= 1,
                    0 <= index,
            ;
            lemma_spaced(
                training_steps as int,
                inference_steps as int,
                index as int,
                inference_steps as int,
            );
        }
        steps.push(((2 * ((t - 1) * index) + n) / (2 * n)) as usize);
    }
    assert(steps@ =~= schedule(training_steps as int, inference_steps as int));
    steps
}

/// How a step is computed.
#[derive(Clone, Copy, Debug, PartialEq, Eq, Structural)]
pub enum Order {
    /// From the newest prediction.
    First,
    /// From the two newest predictions.
    Second,
}

/// A step to compute: its place in the schedule, and how.
#[derive(Clone, Copy, Debug, PartialEq, Eq, Structural)]
pub struct StepPlan {
    pub index: usize,
    pub order: Order,
}

/// The state of a solver: the schedule, how long the two newest predictions
/// are, the next step and how many steps have been taken, up to two.
#[derive(Debug)]
pub struct VibeVoiceScheduler {
    timesteps: Vec<usize>,
    previous: Option<usize>,
    current: Option<usize>,
    step_index: Option<usize>,
    lower_order_steps: usize,
}

/// The state of a solver over plain values.
pub struct SolverState {
    pub timesteps: Seq<usize>,
    pub previous: Option<usize>,
    pub current: Option<usize>,
    pub step_index: Option<usize>,
    pub taken: usize,
}

/// The first place of a step in the schedule, or the last place.
pub open spec fn place_of(timesteps: Seq<usize>, timestep: usize, i: int) -> int
    decreases timesteps.len() - i,
{
    if i >= timesteps.len() {
        timesteps.len() - 1
    } else if timesteps[i] == timestep {
        i
    } else {
        place_of(timesteps, timestep, i + 1)
    }
}

/// The step that comes next.
pub open spec fn next_index(s: SolverState, timestep: usize) -> int {
    match s.step_index {
        Some(i) => i as int,
        None => place_of(s.timesteps, timestep, 0),
    }
}

/// How the step that comes next is computed: the first and the last from one
/// prediction, all others from two.
pub open spec fn next_order(s: SolverState, timestep: usize) -> Order {
    if s.taken < 1 || next_index(s, timestep) + 1 == s.timesteps.len() {
        Order::First
    } else {
        Order::Second
    }
}

/// Why a step cannot be taken, if it cannot.
pub open spec fn step_fault(s: SolverState, model_len: usize, timestep: usize, sample_len: usize) -> Option<
    Seq<char>,
> {
    if model_len != sample_len {
        Some("scheduler model/sample size mismatch"@)
    } else if next_index(s, timestep) >= s.timesteps.len() {
        Some("scheduler is already complete"@)
    } else if next_order(s, timestep) == Order::Second && next_index(s, timestep) == 0 {
        Some("second-order scheduler needs a previous step"@)
    } else if next_order(s, timestep) == Order::Second && s.current is None {
        Some("previous scheduler output is missing"@)
    } else if next_order(s, timestep) == Order::Second && s.current != Some(sample_len) {
        Some("second-order scheduler size mismatch"@)
    } else {
        None
    }
}

/// The state after a step that cannot be taken. A prediction that arrives
/// before the schedule ends is kept all the same.
pub open spec fn refused(
    s: SolverState,
    model_len: usize,
    timestep: usize,
    sample_len: usize,
) -> SolverState {
    if model_len != sample_len || next_index(s, timestep) >= s.timesteps.len() {
        s
    } else {
        SolverState {
            timesteps: s.timesteps,
            previous: s.current,
            current: Some(model_len),
            step_index: Some(next_index(s, timestep) as usize),
            taken: s.taken,
        }
    }
}

/// Why a schedule cannot be made, if it cannot.
pub open spec fn schedule_fault(config: DiffusionHeadConfig, inference_steps: usize) -> Option<
    Seq<char>,
> {
    if config.diffusion_type@ != "ddpm"@ {
        Some("only DDPM is supported"@)
    } else if config.ddpm_beta_schedule@ != "cosine"@ {
        Some("only the cosine DDPM schedule is supported"@)
    } else if config.prediction_type@ != "v_prediction"@ {
        Some("only velocity prediction is supported"@)
    } else if config.ddpm_num_steps == 0 {
        Some("DDPM needs training steps"@)
    } else if inference_steps == 0 {
        Some("DDPM needs inference steps"@)
    } else {
        None
    }
}

impl VibeVoiceScheduler {
    /// The state over plain values.
    pub closed spec fn view(&self) -> SolverState {
        SolverState {
            timesteps: self.timesteps@,
            previous: self.previous,
            current: self.current,
            step_index: self.step_index,
            taken: self.lower_order_steps,
        }
    }

    /// The state is one that steps lead to.
    pub open spec fn wf(self) -> bool {
        let s = self.view();
        &&& s.timesteps.len() > 0
        &&& s.timesteps.len() < usize::MAX
        &&& s.taken <= 2
        &&& s.step_index matches Some(i) ==> i <= s.timesteps.len()
        &&& s.step_index is None ==> s.taken == 0 && s.current is None
        &&& s.taken > 0 ==> s.current is Some
        &&& s.taken > 0 ==> (s.step_index matches Some(i) && i > 0)
    }

    /// A solver with its schedule, before the first step.
    pub fn new(config: &DiffusionHeadConfig, inference_steps: usize) -> (outcome: Result<
        Self,
        String,
    >)
        requires
            countable(config.ddpm_num_steps, inference_steps),
        ensures
            match outcome {
                Err(message) => schedule_fault(*config, inference_steps) == Some(message@),
                Ok(solver) => {
                    &&& schedule_fault(*config, inference_steps) is None
                    &&& solver.wf()
                    &&& solver@ == (SolverState {
                        timesteps: schedule(config.ddpm_num_steps as int, inference_steps as int),
                        previous: None,
                        current: None,
                        step_index: None,
                        taken: 0,
                    })
                },
            },
    {
        if !same(config.diffusion_type.as_str(), "ddpm") {
            return Err("only DDPM is supported".to_owned());
        }
        if !same(config.ddpm_beta_schedule.as_str(), "cosine") {
            return Err("only the cosine DDPM schedule is supported".to_owned());
        }
        if !same(config.prediction_type.as_str(), "v_prediction") {
            return Err("only velocity prediction is supported".to_owned());
        }
        if config.ddpm_num_steps == 0 {
            return Err("DDPM needs training steps".to_owned());
        }
        if inference_steps == 0 {
            return Err("DDPM needs inference steps".to_owned());
        }
        let timesteps = linspace_timesteps(config.ddpm_num_steps, inference_steps);
        Ok(
            VibeVoiceScheduler {
                timesteps,
                previous: None,
                current: None,
                step_index: None,
                lower_order_steps: 0,
            },
        )
    }

    /// The steps that are taken, in order.
    pub fn timesteps(&self) -> (steps: &[usize])
        ensures
            steps@ == self@.timesteps,
    {
        self.timesteps.as_slice()
    }

    /// The training steps whose noise levels the solver needs, in order; the
    /// last level belongs to no step and is zero.
    pub fn noise_steps(&self) -> (steps: Vec<Option<usize>>)
        ensures
            steps@.len() == self@.timesteps.len() + 1,
            forall|i: int|
                0 <= i < self@.timesteps.len() ==> #[trigger] steps@[i] == Some(
                    self@.timesteps[i],
                ),
            steps@[self@.timesteps.len() as int] is None,
    {
        let mut steps: Vec<Option<usize>> = Vec::new();
        for i in 0..self.timesteps.len()
            invariant
                steps@.len() == i,
                forall|j: int| 0 <= j < i ==> #[trigger] steps@[j] == Some(self.timesteps@[j]),
        {
            steps.push(Some(self.timesteps[i]));
        }
        steps.push(None);
        steps
    }

    /// Goes back to the state before the first step.
    pub fn reset(&mut self)
        requires
            old(self).wf(),
        ensures
            final(self).wf(),
            final(self)@ == (SolverState {
                timesteps: old(self)@.timesteps,
                previous: None,
                current: None,
                step_index: None,
                taken: 0,
            }),
    {
        self.previous = None;
        self.current = None;
        self.step_index = None;
        self.lower_order_steps = 0;
    }

    /// The first place of a step in the schedule, or the last place.
    fn find(&self, timestep: usize) -> (index: usize)
        requires
            self.wf(),
        ensures
            index == place_of(self@.timesteps, timestep, 0),
            index < self@.timesteps.len(),
    {
        for i in 0..self.timesteps.len()
            invariant
                place_of(self.timesteps@, timestep, i as int) == place_of(
                    self.timesteps@,
                    timestep,
                    0,
                ),
        {
            if self.timesteps[i] == timestep {
                return i;
            }
        }
        self.timesteps.len() - 1
    }

    /// The step that comes next, given the one that is asked for.
    pub fn upcoming(&self, timestep: usize) -> (index: usize)
        requires
            self.wf(),
        ensures
            index == next_index(self@, timestep),
    {
        match self.step_index {
            Some(index) => index,
            None => self.find(timestep),
        }
    }

    /// Takes the next step: a prediction of that length arrives for the step,
    /// and becomes the newest one.
    pub fn step(&mut self, model_len: usize, timestep: usize, sample_len: usize) -> (outcome: Result<
        StepPlan,
        String,
    >)
        requires
            old(self).wf(),
        ensures
            final(self).wf(),
            final(self)@.timesteps == old(self)@.timesteps,
            match outcome {
                Err(message) => {
                    &&& step_fault(old(self)@, model_len, timestep, sample_len) == Some(message@)
                    &&& final(self)@ == refused(old(self)@, model_len, timestep, sample_len)
                },
                Ok(plan) => {
                    &&& step_fault(old(self)@, model_len, timestep, sample_len) is None
                    &&& plan.index == next_index(old(self)@, timestep)
                    &&& plan.order == next_order(old(self)@, timestep)
                    &&& final(self)@ == (SolverState {
                        timesteps: old(self)@.timesteps,
                        previous: old(self)@.current,
                        current: Some(model_len),
                        step_index: Some((next_index(old(self)@, timestep) + 1) as usize),
                        taken: (if old(self)@.taken < 2 {
                            old(self)@.taken + 1
                        } else {
                            2
                        }) as usize,
                    })
                },
            },
    {
        if model_len != sample_len {
            return Err("scheduler model/sample size mismatch".to_owned());
        }
        let index: usize = self.upcoming(timestep);
        if index >= self.timesteps.len() {
            return Err("scheduler is already complete".to_owned());
        }
        self.step_index = Some(index);
        let older: Option<usize> = self.current;
        self.previous = older;
        self.current = Some(model_len);
        let order = if self.lower_order_steps < 1 || index + 1 == self.timesteps.len() {
            Order::First
        } else {
            if index == 0 {
                return Err("second-order scheduler needs a previous step".to_owned());
            }
            match older {
                None => {
                    return Err("previous scheduler output is missing".to_owned());
                },
                Some(n) => {
                    if n != sample_len {
                        return Err("second-order scheduler size mismatch".to_owned());
                    }
                },
            }
            Order::Second
        };
        self.lower_order_steps = if self.lower_order_steps < 2 {
            self.lower_order_steps + 1
        } else {
            2
        };
        self.step_index = Some(index + 1);
        Ok(StepPlan { index, order })
    }
}

/// A fresh solver that is stepped through its schedule succeeds at every
/// step, with predictions of one length, and never lacks an older one.
pub proof fn law_a_schedule_can_be_followed(s: SolverState, n: usize, i: int)
    requires
        0 <= i < s.timesteps.len() <= usize::MAX,
        s.step_index == (if i == 0 {
            None
        } else {
            Some(i as usize)
        }),
        s.taken == (if i < 2 {
            i
        } else {
            2
        }),
        i > 0 ==> s.current == Some(n),
        i == 0 ==> s.timesteps.len() > 0,
    ensures
        step_fault(s, n, s.timesteps[i], n) is None,
        next_index(s, s.timesteps[i]) == i,
        next_order(s, s.timesteps[i]) == (if i == 0 || i + 1 == s.timesteps.len() {
            Order::First
        } else {
            Order::Second
        }),
{
}

/// A solver that has taken every step takes no more until it is reset.
pub proof fn law_a_complete_solver_stops(s: SolverState, n: usize, timestep: usize)
    requires
        s.step_index == Some(s.timesteps.len() as usize),
        s.timesteps.len() <= usize::MAX,
    ensures
        step_fault(s, n, timestep, n) == Some("scheduler is already complete"@),
{
}

} // verus!
