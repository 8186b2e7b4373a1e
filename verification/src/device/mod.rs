//! Plans: straight-line programs of kernel launches over device buffers.
//!
//! A plan is built on the host and executed elsewhere. Its meaning is the
//! sequence of values its buffers hold once every step has run; values are
//! terms over the buffers that were given to the plan.
use vstd::prelude::*;

pub mod compound;
pub mod idle;
pub mod kernels;
pub mod meaning;
pub mod rows;
pub mod value;

use crate::device::kernels::{Kernel, read_extent, write_extent};

verus! {

/// 1e-5 in single precision.
pub const EPS_1E5: u32 = 0x3727_c5ac;

/// 1e-6 in single precision.
pub const EPS_1E6: u32 = 0x3586_37bd;

/// 1e-12 in single precision.
pub const EPS_1E12: u32 = 0x2b8c_bccc;

/// 10 000 in single precision.
pub const THETA_10000: u32 = 0x461c_4000;

/// An argument of a kernel that is not a buffer.
#[derive(Clone, Copy, Debug, PartialEq, Eq, Structural)]
pub enum Scalar {
    /// An unsigned count.
    Count(u32),
    /// An element offset into a buffer.
    Size(usize),
    /// A signed displacement.
    Shift(i32),
    /// A single-precision number, by its bits.
    Single(u32),
    /// A double-precision number, by its bits; narrowed when it is used.
    Double(u64),
    /// One over the square root of a count.
    InverseSqrt(u32),
}

impl Scalar {
    /// The integer an integral scalar stands for.
    pub open spec fn count(self) -> int {
        match self {
            Scalar::Count(n) => n as int,
            Scalar::Size(n) => n as int,
            _ => 0,
        }
    }
}

/// What a buffer holds, as a term over the given buffers.
pub enum Term {
    /// A fresh buffer of that many zero elements.
    Zeros(nat),
    /// The buffer that was given as that step of the plan.
    Given(nat),
    /// Integers that were uploaded.
    Integers(Seq<i32>),
    /// An output of a kernel run on the values of its operands.
    Computed { kernel: Kernel, port: nat, args: Seq<Term>, scalars: Seq<Scalar> },
}

/// One kernel launch. Buffers are named by their index in the plan.
pub struct Op {
    pub kernel: Kernel,
    pub reads: Vec<usize>,
    pub writes: Vec<usize>,
    pub scalars: Vec<Scalar>,
}

/// One step of a plan.
pub enum Step {
    /// A buffer of that many elements is supplied from outside.
    Given(usize),
    /// A buffer of that many zero elements is allocated.
    Alloc(usize),
    /// A buffer is made of these integers.
    Upload(Vec<i32>),
    /// A kernel is launched.
    Run(Op),
}

/// The values of the buffers that `reads` names.
pub open spec fn gather(values: Seq<Term>, reads: Seq<usize>) -> Seq<Term>
    decreases reads.len(),
{
    if reads.len() == 0 {
        Seq::empty()
    } else {
        gather(values, reads.drop_last()).push(values[reads.last() as int])
    }
}

/// `values` after a kernel has written its outputs, in order.
pub open spec fn store(
    values: Seq<Term>,
    kernel: Kernel,
    args: Seq<Term>,
    writes: Seq<usize>,
    scalars: Seq<Scalar>,
) -> Seq<Term>
    decreases writes.len(),
{
    if writes.len() == 0 {
        values
    } else {
        store(values, kernel, args, writes.drop_last(), scalars).update(
            writes.last() as int,
            Term::Computed { kernel, port: (writes.len() - 1) as nat, args, scalars },
        )
    }
}

/// The values of all buffers once `steps` have run.
pub open spec fn replay(steps: Seq<Step>) -> Seq<Term>
    decreases steps.len(),
{
    if steps.len() == 0 {
        Seq::empty()
    } else {
        let before = replay(steps.drop_last());
        match steps.last() {
            Step::Given(n) => before.push(Term::Given((steps.len() - 1) as nat)),
            Step::Alloc(n) => before.push(Term::Zeros(n as nat)),
            Step::Upload(values) => before.push(Term::Integers(values@)),
            Step::Run(op) => store(
                before,
                op.kernel,
                gather(before, op.reads@),
                op.writes@,
                op.scalars@,
            ),
        }
    }
}

/// The element counts of all buffers that `steps` introduce.
pub open spec fn extents(steps: Seq<Step>) -> Seq<usize>
    decreases steps.len(),
{
    if steps.len() == 0 {
        Seq::empty()
    } else {
        let before = extents(steps.drop_last());
        match steps.last() {
            Step::Given(n) => before.push(n),
            Step::Alloc(n) => before.push(n),
            Step::Upload(values) => before.push(values@.len() as usize),
            Step::Run(op) => before,
        }
    }
}

/// Every operand of `op` names one of the buffers, and the kernel stays
/// within it.
pub open spec fn in_bounds(op: Op, sizes: Seq<usize>) -> bool {
    &&& forall|i: int|
        0 <= i < op.reads@.len() ==> (#[trigger] op.reads@[i]) < sizes.len() && read_extent(
            op.kernel,
            op.scalars@,
            i,
        ) <= sizes[op.reads@[i] as int]
    &&& forall|i: int|
        0 <= i < op.writes@.len() ==> (#[trigger] op.writes@[i]) < sizes.len() && write_extent(
            op.kernel,
            op.scalars@,
            i,
        ) <= sizes[op.writes@[i] as int]
}

/// `after` has every buffer of `before`, with the same value and size.
pub open spec fn extends(before: Plan, after: Plan) -> bool {
    &&& before.values().len() <= after.values().len()
    &&& forall|i: int|
        0 <= i < before.values().len() ==> #[trigger] after.values()[i] == before.values()[i]
    &&& forall|i: int|
        0 <= i < before.values().len() ==> #[trigger] after.sizes()[i] == before.sizes()[i]
}

/// `buffer` exists and has room for `n` elements.
pub open spec fn holds(plan: Plan, buffer: usize, n: int) -> bool {
    buffer < plan.values().len() && n <= plan.sizes()[buffer as int]
}

/// `buffer` exists and has exactly `n` elements.
pub open spec fn sized(plan: Plan, buffer: usize, n: int) -> bool {
    buffer < plan.values().len() && n == plan.sizes()[buffer as int]
}

/// In a well-formed plan, every launch names only buffers that exist when it
/// runs and touches no element beyond their ends.
pub proof fn law_launches_stay_in_bounds(plan: Plan, i: int, op: Op)
    requires
        plan.wf(),
        0 <= i < plan.steps().len(),
        plan.steps()[i] == Step::Run(op),
    ensures
        in_bounds(op, extents(plan.steps().take(i))),
{
}

/// A program under construction.
pub struct Plan {
    steps: Vec<Step>,
    lens: Vec<usize>,
}

impl Plan {
    /// The steps so far.
    pub closed spec fn steps(self) -> Seq<Step> {
        self.steps@
    }

    /// What each buffer holds after the steps so far.
    pub open spec fn values(self) -> Seq<Term> {
        replay(self.steps())
    }

    /// How many elements each buffer has.
    pub open spec fn sizes(self) -> Seq<usize> {
        extents(self.steps())
    }

    /// Every buffer has a value and a size, and every launch stays within the
    /// buffers that exist when it runs.
    pub open spec fn wf(self) -> bool {
        &&& self.values().len() == self.sizes().len()
        &&& self.sound()
    }

    /// The sizes are recorded, and every launch stays within the buffers that
    /// exist when it runs.
    pub closed spec fn sound(self) -> bool {
        &&& self.lens@ == extents(self.steps@)
        &&& forall|i: int|
            0 <= i < self.steps@.len() ==> (#[trigger] self.steps@[i] matches Step::Run(op)
                ==> in_bounds(op, extents(self.steps@.take(i))))
    }

    /// A plan with no steps.
    pub fn new() -> (plan: Plan)
        ensures
            plan.wf(),
            plan.steps() == Seq::<Step>::empty(),
            plan.values() == Seq::<Term>::empty(),
            plan.sizes() == Seq::<usize>::empty(),
    {
        let plan = Plan { steps: Vec::new(), lens: Vec::new() };
        assert(plan.steps@ =~= Seq::empty());
        assert(plan.lens@ =~= Seq::empty());
        plan
    }

    /// The steps to execute, in order.
    pub fn step_list(&self) -> (steps: &Vec<Step>)
        ensures
            steps@ == self.steps(),
    {
        &self.steps
    }

    /// Every buffer has an index.
    pub proof fn lemma_buffers_fit(self)
        requires
            self.wf(),
        ensures
            self.values().len() <= usize::MAX,
    {
        assert(self.lens.len() == self.lens@.len());
    }

    /// How many buffers there are.
    pub fn count(&self) -> (n: usize)
        requires
            self.wf(),
        ensures
            n == self.values().len(),
    {
        self.lens.len()
    }

    /// How many elements a buffer has.
    pub fn size(&self, buffer: usize) -> (n: usize)
        requires
            self.wf(),
            buffer < self.values().len(),
        ensures
            n == self.sizes()[buffer as int],
    {
        self.lens[buffer]
    }

    /// Introduces a buffer of `n` elements that is supplied from outside.
    pub fn given(&mut self, n: usize) -> (buffer: usize)
        requires
            old(self).wf(),
        ensures
            final(self).wf(),
            buffer == old(self).values().len(),
            final(self).steps() == old(self).steps().push(Step::Given(n)),
            final(self).values() == old(self).values().push(
                Term::Given(old(self).steps().len()),
            ),
            final(self).sizes() == old(self).sizes().push(n),
    {
        let buffer: usize = self.lens.len();
        self.steps.push(Step::Given(n));
        self.lens.push(n);
        proof {
            lemma_pushed(old(self).steps@, Step::Given(n));
            assert(self.steps@ == old(self).steps@.push(Step::Given(n)));
        }
        buffer
    }

    /// Allocates a buffer of `n` zero elements.
    pub fn zeros(&mut self, n: usize) -> (buffer: usize)
        requires
            old(self).wf(),
        ensures
            final(self).wf(),
            buffer == old(self).values().len(),
            final(self).steps() == old(self).steps().push(Step::Alloc(n)),
            final(self).values() == old(self).values().push(Term::Zeros(n as nat)),
            final(self).sizes() == old(self).sizes().push(n),
    {
        let buffer: usize = self.lens.len();
        self.steps.push(Step::Alloc(n));
        self.lens.push(n);
        proof {
            lemma_pushed(old(self).steps@, Step::Alloc(n));
            assert(self.steps@ == old(self).steps@.push(Step::Alloc(n)));
        }
        buffer
    }

    /// Makes a buffer of `values`.
    pub fn upload(&mut self, values: &[i32]) -> (buffer: usize)
        requires
            old(self).wf(),
        ensures
            final(self).wf(),
            buffer == old(self).values().len(),
            final(self).steps().len() == old(self).steps().len() + 1,
            final(self).values() == old(self).values().push(Term::Integers(values@)),
            final(self).sizes() == old(self).sizes().push(values@.len() as usize),
    {
        let mut copied: Vec<i32> = Vec::new();
        for i in 0..values.len()
            invariant
                copied@ == values@.take(i as int),
        {
            copied.push(values[i]);
            assert(values@.take(i + 1) =~= values@.take(i as int).push(values@[i as int]));
        }
        assert(copied@ =~= values@);
        let buffer: usize = self.lens.len();
        let ghost before = self.steps@;
        let ghost step = Step::Upload(copied);
        self.steps.push(Step::Upload(copied));
        self.lens.push(values.len());
        proof {
            lemma_pushed(before, step);
        }
        buffer
    }

    /// Launches a kernel.
    pub fn run(&mut self, op: Op)
        requires
            old(self).wf(),
            in_bounds(op, old(self).sizes()),
        ensures
            final(self).wf(),
            final(self).steps() == old(self).steps().push(Step::Run(op)),
            final(self).sizes() == old(self).sizes(),
            final(self).values() == store(
                old(self).values(),
                op.kernel,
                gather(old(self).values(), op.reads@),
                op.writes@,
                op.scalars@,
            ),
    {
        let ghost before = self.steps@;
        self.steps.push(Step::Run(op));
        proof {
            lemma_pushed(before, Step::Run(op));
            lemma_store_len(
                replay(before),
                op.kernel,
                gather(replay(before), op.reads@),
                op.writes@,
                op.scalars@,
            );
            assert(before.push(Step::Run(op)).take(before.len() as int) =~= before);
        }
    }
}

/// Pushing a step leaves every earlier prefix as it was.
proof fn lemma_pushed(steps: Seq<Step>, step: Step)
    ensures
        steps.push(step).drop_last() == steps,
        forall|i: int|
            0 <= i <= steps.len() ==> #[trigger] steps.push(step).take(i) == steps.take(i),
{
    assert(steps.push(step).drop_last() =~= steps);
    assert forall|i: int| 0 <= i <= steps.len() implies #[trigger] steps.push(step).take(i)
        == steps.take(i) by {
        assert(steps.push(step).take(i) =~= steps.take(i));
    }
}

proof fn lemma_store_len(
    values: Seq<Term>,
    kernel: Kernel,
    args: Seq<Term>,
    writes: Seq<usize>,
    scalars: Seq<Scalar>,
)
    requires
        forall|i: int| 0 <= i < writes.len() ==> (#[trigger] writes[i]) < values.len(),
    ensures
        store(values, kernel, args, writes, scalars).len() == values.len(),
    decreases writes.len(),
{
    if writes.len() > 0 {
        assert(writes[writes.len() - 1] < values.len());
        lemma_store_len(values, kernel, args, writes.drop_last(), scalars);
    }
}

} // verus!
