//! Tensors whose shapes are taken from the weight files.
use vstd::prelude::*;
use vstd::string::*;
use crate::catalog::TensorInfo;
use crate::device::{Plan, Term, extends};
use crate::text::{bracketed, same, to_bracketed};
use crate::weights::{Role, elements, same_shape};

verus! {

/// What is asked of the shape of a tensor.
#[derive(Clone, Copy, Debug, PartialEq, Eq, Structural)]
pub enum Rule {
    /// Nothing.
    Any,
    /// Three dimensions.
    Cube,
    /// Three dimensions, the last of them not empty.
    FilledCube,
    /// One dimension, as long as the first of the previous tensor.
    LikePrevious,
    /// Nothing, but the previous tensor, whose shape is looked at only now, is
    /// a matrix of that size.
    AfterMatrix(usize, usize),
}

/// A tensor to look up.
pub struct Request {
    pub name: String,
    pub rule: Rule,
    pub role: Role,
}

/// [`Request`] over plain sequences.
pub struct Wanted {
    pub name: Seq<char>,
    pub rule: Rule,
    pub role: Role,
}

impl Request {
    pub open spec fn view(&self) -> Wanted {
        Wanted { name: self.name@, rule: self.rule, role: self.role }
    }
}

/// The requests, over plain sequences.
pub open spec fn wanted(requests: Seq<Request>) -> Seq<Wanted> {
    requests.map_values(|r: Request| r@)
}

/// The shape a name is listed with, by the last tensor of that name.
pub open spec fn shape_in(tensors: Seq<TensorInfo>, name: Seq<char>) -> Option<Seq<usize>>
    decreases tensors.len(),
{
    if tensors.len() == 0 {
        None
    } else if tensors.last().name@ == name {
        Some(tensors.last().shape@)
    } else {
        shape_in(tensors.drop_last(), name)
    }
}

/// Whether a shape follows a rule; `previous` is the shape before it.
pub open spec fn follows(rule: Rule, shape: Seq<usize>, previous: Seq<usize>) -> bool {
    match rule {
        Rule::Any => true,
        Rule::Cube => shape.len() == 3,
        Rule::FilledCube => shape.len() == 3 && shape[2] > 0,
        Rule::LikePrevious => previous.len() > 0 && shape == seq![previous[0]],
        Rule::AfterMatrix(a, b) => previous == seq![a, b],
    }
}

/// What is said of a shape that breaks a rule.
pub open spec fn verdict(rule: Rule) -> Seq<char> {
    if rule == Rule::FilledCube {
        " has invalid shape "@
    } else {
        " has shape "@
    }
}

/// The shape found for request `i`, or an empty one.
pub open spec fn found(tensors: Seq<TensorInfo>, wanted: Seq<Wanted>, i: int) -> Seq<usize> {
    if 0 <= i < wanted.len() {
        match shape_in(tensors, wanted[i].name) {
            Some(shape) => shape,
            None => seq![],
        }
    } else {
        seq![]
    }
}

/// Why request `i` cannot be met, if it cannot.
pub open spec fn request_fault(tensors: Seq<TensorInfo>, wanted: Seq<Wanted>, i: int) -> Option<
    Seq<char>,
> {
    match shape_in(tensors, wanted[i].name) {
        None => Some("tensor not found: "@ + wanted[i].name),
        Some(shape) => if follows(wanted[i].rule, shape, found(tensors, wanted, i - 1)) {
            None
        } else if wanted[i].rule is AfterMatrix && i > 0 {
            Some(wanted[i - 1].name + " has shape "@ + bracketed(found(tensors, wanted, i - 1)))
        } else {
            Some(wanted[i].name + verdict(wanted[i].rule) + bracketed(shape))
        },
    }
}

/// The fault of the first of `n` requests that cannot be met.
pub open spec fn first_fault(tensors: Seq<TensorInfo>, wanted: Seq<Wanted>, n: nat) -> Option<
    Seq<char>,
>
    decreases n,
{
    if n == 0 {
        None
    } else if first_fault(tensors, wanted, (n - 1) as nat) is Some {
        first_fault(tensors, wanted, (n - 1) as nat)
    } else {
        request_fault(tensors, wanted, n - 1)
    }
}

/// Once a request has failed, its fault is the answer.
proof fn lemma_fault_stays(tensors: Seq<TensorInfo>, wanted: Seq<Wanted>, n: nat, m: nat)
    requires
        n <= m,
        first_fault(tensors, wanted, n) is Some,
    ensures
        first_fault(tensors, wanted, m) == first_fault(tensors, wanted, n),
    decreases m,
{
    if n < m {
        lemma_fault_stays(tensors, wanted, n, (m - 1) as nat);
    }
}

/// No fault means that no request has one.
pub proof fn lemma_all_met(tensors: Seq<TensorInfo>, wanted: Seq<Wanted>, n: nat, i: int)
    requires
        first_fault(tensors, wanted, n) is None,
        0 <= i < n,
    ensures
        request_fault(tensors, wanted, i) is None,
    decreases n,
{
    if i < n - 1 {
        lemma_all_met(tensors, wanted, (n - 1) as nat, i);
    }
}

/// The position of the last tensor of a name.
pub(crate) fn find_last(tensors: &[TensorInfo], name: &str) -> (at: Option<usize>)
    ensures
        match at {
            Some(i) => i < tensors@.len() && shape_in(tensors@, name@) == Some(
                tensors@[i as int].shape@,
            ),
            None => shape_in(tensors@, name@) is None,
        },
{
    let mut n: usize = tensors.len();
    assert(tensors@.take(n as int) =~= tensors@);
    while n > 0
        invariant
            n <= tensors@.len(),
            shape_in(tensors@, name@) == shape_in(tensors@.take(n as int), name@),
        decreases n,
    {
        assert(tensors@.take(n as int).drop_last() =~= tensors@.take(n - 1));
        n = n - 1;
        if same(tensors[n].name.as_str(), name) {
            return Some(n);
        }
    }
    None
}

/// Every listed tensor has a count of elements that fits.
pub open spec fn countable_elements(tensors: Seq<TensorInfo>) -> bool {
    forall|i: int|
        0 <= i < tensors.len() ==> elements((#[trigger] tensors[i]).shape@) <= usize::MAX
            && forall|k: int|
            0 <= k <= tensors[i].shape@.len() ==> elements(#[trigger] tensors[i].shape@.take(k))
                <= usize::MAX
}

/// How many elements a tensor of this shape has.
pub(crate) fn count_elements(shape: &Vec<usize>) -> (n: usize)
    requires
        forall|k: int|
            0 <= k <= shape@.len() ==> elements(#[trigger] shape@.take(k)) <= usize::MAX,
    ensures
        n == elements(shape@),
{
    let mut n: usize = 1;
    for i in 0..shape.len()
        invariant
            n == elements(shape@.take(i as int)),
            forall|k: int|
                0 <= k <= shape@.len() ==> elements(#[trigger] shape@.take(k)) <= usize::MAX,
    {
        proof {
            assert(shape@.take(i + 1).drop_last() =~= shape@.take(i as int));
            assert(elements(shape@.take(i + 1)) <= usize::MAX);
        }
        n = n * shape[i];
    }
    assert(shape@.take(shape@.len() as int) =~= shape@);
    n
}

/// A copy of a shape.
pub(crate) fn copy_shape(shape: &Vec<usize>) -> (copy: Vec<usize>)
    ensures
        copy@ == shape@,
{
    let mut copy: Vec<usize> = Vec::new();
    for i in 0..shape.len()
        invariant
            copy@ == shape@.take(i as int),
    {
        copy.push(shape[i]);
        assert(shape@.take(i + 1) =~= shape@.take(i as int).push(shape@[i as int]));
    }
    assert(copy@ =~= shape@);
    copy
}

/// Whether a shape follows a rule; `previous` is the shape before it.
fn check_rule(rule: Rule, shape: &Vec<usize>, previous: &Vec<usize>) -> (ok: bool)
    ensures
        ok == follows(rule, shape@, previous@),
{
    match rule {
        Rule::Any => true,
        Rule::Cube => shape.len() == 3,
        Rule::FilledCube => shape.len() == 3 && shape[2] > 0,
        Rule::LikePrevious => {
            if previous.len() > 0 && shape.len() == 1 && shape[0] == previous[0] {
                assert(shape@ =~= seq![previous@[0]]);
                true
            } else {
                false
            }
        },
        Rule::AfterMatrix(a, b) => {
            let expected: Vec<usize> = vec![a, b];
            assert(expected@ =~= seq![a, b]);
            same_shape(previous.as_slice(), expected.as_slice())
        },
    }
}

/// Adds a request.
pub fn ask(requests: &mut Vec<Request>, name: String, rule: Rule, role: Role)
    ensures
        wanted(final(requests)@) == wanted(old(requests)@).push(Wanted { name: name@, rule, role }),
{
    let ghost item = Request { name, rule, role };
    requests.push(Request { name, rule, role });
    assert(wanted(requests@) =~= wanted(old(requests)@).push(item@));
}

/// Looks up every request in order, giving each tensor a buffer, and returns
/// the shapes.
pub fn resolve(plan: &mut Plan, tensors: &[TensorInfo], requests: &Vec<Request>) -> (outcome: Result<
    Vec<Vec<usize>>,
    String,
>)
    requires
        old(plan).wf(),
        countable_elements(tensors@),
    ensures
        final(plan).wf(),
        extends(*old(plan), *final(plan)),
        match outcome {
            Err(message) => first_fault(tensors@, wanted(requests@), requests@.len()) == Some(
                message@,
            ),
            Ok(shapes) => {
                &&& first_fault(tensors@, wanted(requests@), requests@.len()) is None
                &&& shapes@.len() == requests@.len()
                &&& forall|i: int|
                    0 <= i < shapes@.len() ==> (#[trigger] shapes@[i])@ == found(
                        tensors@,
                        wanted(requests@),
                        i,
                    )
                &&& extends(*old(plan), *final(plan))
                &&& final(plan).values().len() == old(plan).values().len() + requests@.len()
                &&& forall|i: int|
                    0 <= i < requests@.len() ==> #[trigger] final(plan).values()[old(
                        plan,
                    ).values().len() + i] == Term::Given((old(plan).steps().len() + i) as nat)
                &&& forall|i: int|
                    0 <= i < requests@.len() ==> #[trigger] final(plan).sizes()[old(
                        plan,
                    ).values().len() + i] == elements(found(tensors@, wanted(requests@), i))
            },
        },
{
    let ghost start = *plan;
    let ghost base = plan.values().len() as int;
    let ghost asked = wanted(requests@);
    let mut shapes: Vec<Vec<usize>> = Vec::new();
    let mut previous: Vec<usize> = Vec::new();
    for i in 0..requests.len()
        invariant
            plan.wf(),
            start == *old(plan),
            base == start.values().len(),
            asked == wanted(requests@),
            countable_elements(tensors@),
            first_fault(tensors@, asked, i as nat) is None,
            previous@ == found(tensors@, asked, i - 1),
            shapes@.len() == i,
            forall|j: int| 0 <= j < i ==> (#[trigger] shapes@[j])@ == found(tensors@, asked, j),
            extends(start, *plan),
            plan.values().len() == base + i,
            plan.steps().len() == start.steps().len() + i,
            forall|j: int|
                0 <= j < i ==> #[trigger] plan.values()[base + j] == Term::Given(
                    (start.steps().len() + j) as nat,
                ),
            forall|j: int|
                0 <= j < i ==> #[trigger] plan.sizes()[base + j] == elements(
                    found(tensors@, asked, j),
                ),
    {
        let request = &requests[i];
        assert(asked[i as int] == requests@[i as int]@);
        match find_last(tensors, request.name.as_str()) {
            None => {
                proof {
                    lemma_fault_stays(tensors@, asked, (i + 1) as nat, requests@.len());
                }
                return Err("tensor not found: ".to_owned().concat(request.name.as_str()));
            },
            Some(at) => {
                let shape = copy_shape(&tensors[at].shape);
                if !check_rule(request.rule, &shape, &previous) {
                    proof {
                        lemma_fault_stays(tensors@, asked, (i + 1) as nat, requests@.len());
                    }
                    let verdict = match request.rule {
                        Rule::FilledCube => " has invalid shape ",
                        _ => " has shape ",
                    };
                    let late: bool = match request.rule {
                        Rule::AfterMatrix(_, _) => i > 0,
                        _ => false,
                    };
                    if late {
                        assert(asked[i - 1] == requests@[i - 1]@);
                        return Err(
                            requests[i - 1].name.clone().concat(" has shape ").concat(
                                &to_bracketed(previous.as_slice()),
                            ),
                        );
                    }
                    return Err(
                        request.name.clone().concat(verdict).concat(
                            &to_bracketed(shape.as_slice()),
                        ),
                    );
                }
                let ghost before = *plan;
                proof {
                    assert(elements(tensors@[at as int].shape@) <= usize::MAX);
                    assert(shape@ == tensors@[at as int].shape@);
                    assert forall|k: int| 0 <= k <= shape@.len() implies elements(
                        #[trigger] shape@.take(k),
                    ) <= usize::MAX by {
                        assert(tensors@[at as int].shape@.take(k) == shape@.take(k));
                    }
                }
                let count: usize = count_elements(&shape);
                let buffer: usize = plan.given(count);
                previous = copy_shape(&shape);
                shapes.push(shape);
            },
        }
    }
    Ok(shapes)
}

} // verus!
