//! Named tensors a model needs, in the order in which it loads them.
use vstd::prelude::*;
use vstd::string::*;
use crate::device::{Plan, Term, holds};
use crate::text::{bracketed, to_bracketed};

verus! {

/// How a tensor of the wrong shape is complained of.
pub enum Wording {
    /// The name, the shape found and the shape expected.
    Expected,
    /// A label in place of the name, the shape found and the shape expected.
    Labelled(String),
    /// The name, what was got and what was expected.
    Got,
    /// A fixed sentence.
    Fixed(String),
    /// A sentence followed by the shape found.
    Found(String),
}

/// [`Wording`] over plain sequences.
pub enum Phrase {
    Expected,
    Labelled(Seq<char>),
    Got,
    Fixed(Seq<char>),
    Found(Seq<char>),
}

/// How a tensor that is not there is complained of.
#[derive(Clone, Copy, Debug, PartialEq, Eq, Structural)]
pub enum Absence {
    /// It was not found.
    NotFound,
    /// It could not be loaded; its label stands for it, if it has one.
    Unloaded,
    /// It could not be loaded as a part of the flow.
    UnloadedFlow,
    /// It is missing; its label stands for it, if it has one.
    Missing,
    /// It is missing from a Kokoro checkpoint.
    MissingKokoro,
}

/// How a tensor is complained of.
pub struct Complaint {
    pub wording: Wording,
    pub absence: Absence,
    /// How many of the tensors behind it are looked for before its shape is
    /// looked at.
    pub ahead: usize,
}

/// [`Complaint`] over plain sequences.
pub struct Fault {
    pub phrase: Phrase,
    pub absence: Absence,
    pub ahead: usize,
}

impl Fault {
    /// The name, the shape found and the shape expected.
    pub open spec fn expected() -> Self {
        Fault { phrase: Phrase::Expected, absence: Absence::Unloaded, ahead: 0 }
    }

    /// A label in place of the name.
    pub open spec fn labelled(label: Seq<char>) -> Self {
        Fault { phrase: Phrase::Labelled(label), absence: Absence::Unloaded, ahead: 0 }
    }

    /// The name, what was got and what was expected.
    pub open spec fn got() -> Self {
        Fault { phrase: Phrase::Got, absence: Absence::NotFound, ahead: 0 }
    }

    /// A fixed sentence.
    pub open spec fn fixed(message: Seq<char>) -> Self {
        Fault { phrase: Phrase::Fixed(message), absence: Absence::NotFound, ahead: 0 }
    }

    /// A sentence followed by the shape found.
    pub open spec fn found(message: Seq<char>) -> Self {
        Fault { phrase: Phrase::Found(message), absence: Absence::NotFound, ahead: 0 }
    }

    /// The fault, but for what is said of an absent tensor.
    pub open spec fn gone(self, absence: Absence) -> Self {
        Fault { absence, ..self }
    }

    /// The fault, with the shape looked at behind `ahead` later tensors.
    pub open spec fn before(self, ahead: usize) -> Self {
        Fault { ahead, ..self }
    }
}

impl Complaint {
    pub open spec fn view(&self) -> Fault {
        Fault { phrase: self.wording@, absence: self.absence, ahead: self.ahead }
    }

    /// The name, the shape found and the shape expected.
    pub fn expected() -> (complaint: Self)
        ensures
            complaint@ == Fault::expected(),
    {
        Complaint { wording: Wording::Expected, absence: Absence::Unloaded, ahead: 0 }
    }

    /// A label in place of the name.
    pub fn labelled(label: String) -> (complaint: Self)
        ensures
            complaint@ == Fault::labelled(label@),
    {
        Complaint { wording: Wording::Labelled(label), absence: Absence::Unloaded, ahead: 0 }
    }

    /// The name, what was got and what was expected.
    pub fn got() -> (complaint: Self)
        ensures
            complaint@ == Fault::got(),
    {
        Complaint { wording: Wording::Got, absence: Absence::NotFound, ahead: 0 }
    }

    /// A fixed sentence.
    pub fn fixed(message: String) -> (complaint: Self)
        ensures
            complaint@ == Fault::fixed(message@),
    {
        Complaint { wording: Wording::Fixed(message), absence: Absence::NotFound, ahead: 0 }
    }

    /// A sentence followed by the shape found.
    pub fn found(message: String) -> (complaint: Self)
        ensures
            complaint@ == Fault::found(message@),
    {
        Complaint { wording: Wording::Found(message), absence: Absence::NotFound, ahead: 0 }
    }

    /// The complaint, but for what is said of an absent tensor.
    pub fn gone(self, absence: Absence) -> (complaint: Self)
        ensures
            complaint@ == self@.gone(absence),
    {
        Complaint { wording: self.wording, absence, ahead: self.ahead }
    }

    /// The complaint, with the shape looked at behind `ahead` later tensors.
    pub fn before(self, ahead: usize) -> (complaint: Self)
        ensures
            complaint@ == self@.before(ahead),
    {
        Complaint { wording: self.wording, absence: self.absence, ahead }
    }
}

/// What becomes of a tensor before it reaches its buffer.
#[derive(Clone, Copy, Debug, PartialEq, Eq, Structural)]
pub enum Role {
    /// It is stored as it is.
    Plain,
    /// Each row is divided by the matching element of the next tensor, or by
    /// the single-precision number with these bits where that is larger.
    RowsOverNext(u32),
    /// Each row is scaled to the length that the previous tensor gives.
    RowsScaledByPrevious,
}

/// A required tensor.
pub struct TensorSpec {
    pub name: String,
    pub shape: Vec<usize>,
    pub complaint: Complaint,
    pub role: Role,
}

/// [`TensorSpec`] over plain sequences.
pub struct Tensor {
    pub name: Seq<char>,
    pub shape: Seq<usize>,
    pub fault: Fault,
    pub role: Role,
}

impl Tensor {
    /// The tensor, but for what is said where it is absent.
    pub open spec fn gone(self, absence: Absence) -> Self {
        Tensor { fault: self.fault.gone(absence), ..self }
    }

    /// The tensor, with its shape looked at behind `ahead` later tensors.
    pub open spec fn before(self, ahead: usize) -> Self {
        Tensor { fault: self.fault.before(ahead), ..self }
    }
}

/// The tensor `name`, with its name and both shapes in the complaint.
pub open spec fn expected(name: Seq<char>, shape: Seq<usize>) -> Tensor {
    Tensor { name, shape, fault: Fault::expected(), role: Role::Plain }
}

/// The tensor `name`, with its name and both shapes in the complaint, or not
/// found.
pub open spec fn listed(name: Seq<char>, shape: Seq<usize>) -> Tensor {
    expected(name, shape).gone(Absence::NotFound)
}

/// The tensor `name`, with `label` before its name in the complaint.
pub open spec fn labelled(label: Seq<char>, name: Seq<char>, shape: Seq<usize>) -> Tensor {
    Tensor { name, shape, fault: Fault::labelled(label + name), role: Role::Plain }
}

/// The tensor `name`, with what was got and expected in the complaint.
pub open spec fn got(name: Seq<char>, shape: Seq<usize>) -> Tensor {
    Tensor { name, shape, fault: Fault::got(), role: Role::Plain }
}

/// How many elements a tensor of this shape has.
pub open spec fn elements(shape: Seq<usize>) -> nat
    decreases shape.len(),
{
    if shape.len() == 0 {
        1
    } else {
        elements(shape.drop_last()) * (shape.last() as nat)
    }
}

/// What is wrong with a tensor that was found with shape `found`.
pub open spec fn shape_fault(tensor: Tensor, found: Seq<usize>) -> Option<Seq<char>> {
    if found == tensor.shape {
        None
    } else {
        Some(
            match tensor.fault.phrase {
                Phrase::Expected => tensor.name + " has shape "@ + bracketed(found)
                    + ", expected "@ + bracketed(tensor.shape),
                Phrase::Labelled(label) => label + " has shape "@ + bracketed(found)
                    + ", expected "@ + bracketed(tensor.shape),
                Phrase::Got => tensor.name + ": got "@ + bracketed(found) + ", expected "@ + bracketed(
                    tensor.shape,
                ),
                Phrase::Fixed(message) => message,
                Phrase::Found(message) => message + bracketed(found),
            },
        )
    }
}

/// What is said of a tensor that is not there.
pub open spec fn absence_fault(tensor: Tensor) -> Seq<char> {
    let called = match tensor.fault.phrase {
        Phrase::Labelled(label) => label,
        _ => tensor.name,
    };
    match tensor.fault.absence {
        Absence::NotFound => "tensor not found: "@ + tensor.name,
        Absence::Unloaded => "could not load "@ + called,
        Absence::UnloadedFlow => "could not load Chatterbox flow "@ + tensor.name,
        Absence::Missing => called + " is missing"@,
        Absence::MissingKokoro => "Kokoro tensor "@ + tensor.name + " is missing"@,
    }
}

/// Whether two shapes are equal.
pub fn same_shape(a: &[usize], b: &[usize]) -> (same: bool)
    ensures
        same == (a@ == b@),
{
    if a.len() != b.len() {
        return false;
    }
    for i in 0..a.len()
        invariant
            a@.len() == b@.len(),
            forall|j: int| 0 <= j < i ==> a@[j] == b@[j],
    {
        if a[i] != b[i] {
            return false;
        }
    }
    assert(a@ =~= b@);
    true
}

impl Wording {
    pub open spec fn view(&self) -> Phrase {
        match self {
            Wording::Expected => Phrase::Expected,
            Wording::Labelled(label) => Phrase::Labelled(label@),
            Wording::Got => Phrase::Got,
            Wording::Fixed(message) => Phrase::Fixed(message@),
            Wording::Found(message) => Phrase::Found(message@),
        }
    }
}

impl TensorSpec {
    pub open spec fn view(&self) -> Tensor {
        Tensor { name: self.name@, shape: self.shape@, fault: self.complaint@, role: self.role }
    }

    /// What is said of the tensor where it is not there.
    pub fn absent(&self) -> (message: String)
        ensures
            message@ == absence_fault(self@),
    {
        let called: &str = match &self.complaint.wording {
            Wording::Labelled(label) => label.as_str(),
            _ => self.name.as_str(),
        };
        match self.complaint.absence {
            Absence::NotFound => "tensor not found: ".to_owned().concat(self.name.as_str()),
            Absence::Unloaded => "could not load ".to_owned().concat(called),
            Absence::UnloadedFlow => "could not load Chatterbox flow ".to_owned().concat(
                self.name.as_str(),
            ),
            Absence::Missing => called.to_owned().concat(" is missing"),
            Absence::MissingKokoro => "Kokoro tensor ".to_owned().concat(self.name.as_str()).concat(
                " is missing",
            ),
        }
    }

    /// Checks the shape with which the tensor was found.
    pub fn check(&self, found: &[usize]) -> (outcome: Result<(), String>)
        ensures
            outcome is Ok <==> shape_fault(self@, found@) is None,
            outcome matches Err(message) ==> shape_fault(self@, found@) == Some(message@),
    {
        if same_shape(self.shape.as_slice(), found) {
            return Ok(());
        }
        Err(
            match &self.complaint.wording {
                Wording::Expected => self.name.clone().concat(" has shape ").concat(
                    &to_bracketed(found),
                ).concat(", expected ").concat(&to_bracketed(self.shape.as_slice())),
                Wording::Labelled(label) => label.clone().concat(" has shape ").concat(
                    &to_bracketed(found),
                ).concat(", expected ").concat(&to_bracketed(self.shape.as_slice())),
                Wording::Got => self.name.clone().concat(": got ").concat(
                    &to_bracketed(found),
                ).concat(", expected ").concat(&to_bracketed(self.shape.as_slice())),
                Wording::Fixed(message) => message.clone(),
                Wording::Found(message) => message.clone().concat(&to_bracketed(found)),
            },
        )
    }
}

/// Collects the tensors of a model, giving each a device buffer.
pub struct Loader {
    specs: Vec<TensorSpec>,
    plan: Plan,
}

impl Loader {
    /// The tensors required so far.
    pub closed spec fn tensors(self) -> Seq<Tensor> {
        self.specs@.map_values(|s: TensorSpec| s@)
    }

    /// The plan in which each tensor is a given buffer.
    pub closed spec fn plan(self) -> Plan {
        self.plan
    }

    /// Buffer `i` of the plan is tensor `i`, at its full size.
    pub closed spec fn wf(self) -> bool {
        &&& self.plan.wf()
        &&& self.plan.values().len() == self.specs@.len()
        &&& self.plan.sizes().len() == self.specs@.len()
        &&& self.plan.steps().len() == self.specs@.len()
        &&& forall|i: int|
            0 <= i < self.specs@.len() ==> #[trigger] self.plan.values()[i] == Term::Given(
                i as nat,
            )
        &&& forall|i: int|
            0 <= i < self.specs@.len() ==> #[trigger] self.plan.sizes()[i] == elements(
                self.specs@[i].shape@,
            )
    }

    /// No tensors yet.
    pub fn new() -> (loader: Loader)
        ensures
            loader.wf(),
            loader.tensors() == Seq::<Tensor>::empty(),
    {
        let loader = Loader { specs: Vec::new(), plan: Plan::new() };
        assert(loader.tensors() =~= Seq::empty());
        loader
    }

    /// How many tensors are required so far.
    pub fn count(&self) -> (n: usize)
        ensures
            n == self.tensors().len(),
    {
        self.specs.len()
    }

    /// The requirements in order.
    pub fn requirements(&self) -> (specs: &Vec<TensorSpec>)
        ensures
            specs@.map_values(|s: TensorSpec| s@) == self.tensors(),
    {
        &self.specs
    }

    /// What every well-formed loader guarantees of its plan.
    pub proof fn lemma_plan(self)
        requires
            self.wf(),
        ensures
            self.plan().wf(),
            self.plan().values().len() == self.tensors().len(),
            self.plan().sizes().len() == self.tensors().len(),
            forall|i: int|
                0 <= i < self.tensors().len() ==> #[trigger] self.plan().values()[i]
                    == Term::Given(i as nat),
            forall|i: int|
                0 <= i < self.tensors().len() ==> #[trigger] self.plan().sizes()[i] == elements(
                    self.tensors()[i].shape,
                ),
    {
        assert forall|i: int| 0 <= i < self.tensors().len() implies #[trigger] self.plan().sizes()[i]
            == elements(self.tensors()[i].shape) by {
            assert(self.tensors()[i] == self.specs@[i]@);
        }
    }

    /// Turns the requirements into a plan that starts with their buffers.
    pub fn into_plan(self) -> (plan: Plan)
        requires
            self.wf(),
        ensures
            plan == self.plan(),
    {
        self.plan
    }

    /// Requires one more tensor.
    fn require(&mut self, spec: TensorSpec, count: usize) -> (buffer: usize)
        requires
            old(self).wf(),
            count == elements(spec.shape@),
        ensures
            final(self).wf(),
            buffer == old(self).tensors().len(),
            final(self).tensors() == old(self).tensors().push(spec@),
    {
        let buffer: usize = self.plan.given(count);
        self.specs.push(spec);
        assert(self.tensors() =~= old(self).tensors().push(spec@));
        buffer
    }

    /// Requires a single number.
    pub fn scalar(&mut self, name: String, complaint: Complaint) -> (buffer: usize)
        requires
            old(self).wf(),
        ensures
            final(self).wf(),
            buffer == old(self).tensors().len(),
            final(self).tensors() == old(self).tensors().push(
                Tensor { name: name@, shape: seq![], fault: complaint@, role: Role::Plain },
            ),
    {
        let shape: Vec<usize> = Vec::new();
        assert(shape@ =~= seq![]);
        self.require(TensorSpec { name, shape, complaint, role: Role::Plain }, 1)
    }

    /// Requires a vector of `a` elements.
    pub fn vector(&mut self, name: String, a: usize, complaint: Complaint) -> (buffer: usize)
        requires
            old(self).wf(),
        ensures
            final(self).wf(),
            buffer == old(self).tensors().len(),
            final(self).tensors() == old(self).tensors().push(
                Tensor { name: name@, shape: seq![a], fault: complaint@, role: Role::Plain },
            ),
    {
        let shape: Vec<usize> = vec![a];
        proof {
            assert(shape@ =~= seq![a]);
            reveal_with_fuel(elements, 2);
        }
        self.require(TensorSpec { name, shape, complaint, role: Role::Plain }, a)
    }

    /// Requires an `a` by `b` matrix.
    pub fn matrix(&mut self, name: String, a: usize, b: usize, complaint: Complaint) -> (buffer:
        usize)
        requires
            old(self).wf(),
            a * b <= usize::MAX,
        ensures
            final(self).wf(),
            buffer == old(self).tensors().len(),
            final(self).tensors() == old(self).tensors().push(
                Tensor { name: name@, shape: seq![a, b], fault: complaint@, role: Role::Plain },
            ),
    {
        let shape: Vec<usize> = vec![a, b];
        proof {
            assert(shape@ =~= seq![a, b]);
            lemma_elements2(a, b);
        }
        self.require(TensorSpec { name, shape, complaint, role: Role::Plain }, a * b)
    }

    /// Requires the vector `prefix` followed by `suffix`.
    pub fn named_vector(&mut self, prefix: &str, suffix: &str, a: usize) -> (buffer: usize)
        requires
            old(self).wf(),
        ensures
            final(self).wf(),
            buffer == old(self).tensors().len(),
            final(self).tensors() == old(self).tensors().push(
                listed(prefix@ + suffix@, seq![a]),
            ),
    {
        self.vector(
            prefix.to_owned().concat(suffix),
            a,
            Complaint::expected().gone(Absence::NotFound),
        )
    }

    /// Requires the matrix `prefix` followed by `suffix`.
    pub fn named_matrix(&mut self, prefix: &str, suffix: &str, a: usize, b: usize) -> (buffer: usize)
        requires
            old(self).wf(),
            a * b <= usize::MAX,
        ensures
            final(self).wf(),
            buffer == old(self).tensors().len(),
            final(self).tensors() == old(self).tensors().push(
                listed(prefix@ + suffix@, seq![a, b]),
            ),
    {
        self.matrix(
            prefix.to_owned().concat(suffix),
            a,
            b,
            Complaint::expected().gone(Absence::NotFound),
        )
    }

    /// Requires the cube `prefix` followed by `suffix`.
    pub fn named_cube(&mut self, prefix: &str, suffix: &str, a: usize, b: usize, c: usize) -> (buffer:
        usize)
        requires
            old(self).wf(),
            a * b <= usize::MAX,
            a * b * c <= usize::MAX,
        ensures
            final(self).wf(),
            buffer == old(self).tensors().len(),
            final(self).tensors() == old(self).tensors().push(
                listed(prefix@ + suffix@, seq![a, b, c]),
            ),
    {
        self.cube(
            prefix.to_owned().concat(suffix),
            a,
            b,
            c,
            Complaint::expected().gone(Absence::NotFound),
        )
    }

    /// Requires the vector `prefix` followed by `suffix`, labelled.
    pub fn labelled_vector(&mut self, label: &str, prefix: &str, suffix: &str, a: usize) -> (buffer: usize)
        requires
            old(self).wf(),
        ensures
            final(self).wf(),
            buffer == old(self).tensors().len(),
            final(self).tensors() == old(self).tensors().push(
                labelled(label@, prefix@ + suffix@, seq![a]),
            ),
    {
        let name = prefix.to_owned().concat(suffix);
        let complaint = Complaint::labelled(label.to_owned().concat(name.as_str()));
        self.vector(name, a, complaint)
    }

    /// Requires the matrix `prefix` followed by `suffix`, labelled.
    pub fn labelled_matrix(&mut self, label: &str, prefix: &str, suffix: &str, a: usize, b: usize) -> (buffer: usize)
        requires
            old(self).wf(),
            a * b <= usize::MAX,
        ensures
            final(self).wf(),
            buffer == old(self).tensors().len(),
            final(self).tensors() == old(self).tensors().push(
                labelled(label@, prefix@ + suffix@, seq![a, b]),
            ),
    {
        let name = prefix.to_owned().concat(suffix);
        let complaint = Complaint::labelled(label.to_owned().concat(name.as_str()));
        self.matrix(name, a, b, complaint)
    }

    /// Requires a vector of the flow, `prefix` followed by `suffix`.
    pub fn flow_vector(&mut self, prefix: &str, suffix: &str, a: usize) -> (buffer: usize)
        requires
            old(self).wf(),
        ensures
            final(self).wf(),
            buffer == old(self).tensors().len(),
            final(self).tensors() == old(self).tensors().push(
                got(prefix@ + suffix@, seq![a]).gone(Absence::UnloadedFlow),
            ),
    {
        self.vector(
            prefix.to_owned().concat(suffix),
            a,
            Complaint::got().gone(Absence::UnloadedFlow),
        )
    }

    /// Requires a matrix of the flow, `prefix` followed by `suffix`.
    pub fn flow_matrix(&mut self, prefix: &str, suffix: &str, a: usize, b: usize) -> (buffer: usize)
        requires
            old(self).wf(),
            a * b <= usize::MAX,
        ensures
            final(self).wf(),
            buffer == old(self).tensors().len(),
            final(self).tensors() == old(self).tensors().push(
                got(prefix@ + suffix@, seq![a, b]).gone(Absence::UnloadedFlow),
            ),
    {
        self.matrix(
            prefix.to_owned().concat(suffix),
            a,
            b,
            Complaint::got().gone(Absence::UnloadedFlow),
        )
    }

    /// Requires an `a` by `b` matrix with a role.
    pub fn matrix_as(
        &mut self,
        name: String,
        a: usize,
        b: usize,
        complaint: Complaint,
        role: Role,
    ) -> (buffer: usize)
        requires
            old(self).wf(),
            a * b <= usize::MAX,
        ensures
            final(self).wf(),
            buffer == old(self).tensors().len(),
            final(self).tensors() == old(self).tensors().push(
                Tensor { name: name@, shape: seq![a, b], fault: complaint@, role },
            ),
    {
        let shape: Vec<usize> = vec![a, b];
        proof {
            assert(shape@ =~= seq![a, b]);
            lemma_elements2(a, b);
        }
        self.require(TensorSpec { name, shape, complaint, role }, a * b)
    }

    /// Requires an `a` by `b` by `c` tensor with a role.
    pub fn cube_as(
        &mut self,
        name: String,
        a: usize,
        b: usize,
        c: usize,
        complaint: Complaint,
        role: Role,
    ) -> (buffer: usize)
        requires
            old(self).wf(),
            a * b <= usize::MAX,
            a * b * c <= usize::MAX,
        ensures
            final(self).wf(),
            buffer == old(self).tensors().len(),
            final(self).tensors() == old(self).tensors().push(
                Tensor { name: name@, shape: seq![a, b, c], fault: complaint@, role },
            ),
    {
        let shape: Vec<usize> = vec![a, b, c];
        proof {
            assert(shape@ =~= seq![a, b, c]);
            lemma_elements3(a, b, c);
        }
        self.require(TensorSpec { name, shape, complaint, role }, a * b * c)
    }

    /// Requires an `a` by `b` by `c` tensor.
    pub fn cube(&mut self, name: String, a: usize, b: usize, c: usize, complaint: Complaint) -> (
    buffer: usize)
        requires
            old(self).wf(),
            a * b <= usize::MAX,
            a * b * c <= usize::MAX,
        ensures
            final(self).wf(),
            buffer == old(self).tensors().len(),
            final(self).tensors() == old(self).tensors().push(
                Tensor { name: name@, shape: seq![a, b, c], fault: complaint@, role: Role::Plain },
            ),
    {
        let shape: Vec<usize> = vec![a, b, c];
        proof {
            assert(shape@ =~= seq![a, b, c]);
            lemma_elements3(a, b, c);
        }
        self.require(TensorSpec { name, shape, complaint, role: Role::Plain }, a * b * c)
    }
}

/// A vector has as many elements as its length.
pub proof fn lemma_elements1(a: usize)
    ensures
        elements(seq![a]) == a,
{
    reveal_with_fuel(elements, 2);
}

/// A matrix has rows times columns elements.
pub proof fn lemma_elements2(a: usize, b: usize)
    ensures
        elements(seq![a, b]) == a * b,
{
    assert(seq![a, b].drop_last() =~= seq![a]);
    lemma_elements1(a);
}

/// A cube has the product of its sides.
pub proof fn lemma_elements3(a: usize, b: usize, c: usize)
    ensures
        elements(seq![a, b, c]) == a * b * c,
{
    assert(seq![a, b, c].drop_last() =~= seq![a, b]);
    lemma_elements2(a, b);
}

/// The three tensors of a weight-normalised convolution: the row lengths, the
/// rows, and the bias. All three are looked for before any shape is looked at;
/// `absence` is what is said of absent rows or lengths.
pub open spec fn weight_normed(
    names: (Seq<char>, Seq<char>, Seq<char>),
    faults: (Seq<char>, Seq<char>, Seq<char>),
    absence: Absence,
    a: usize,
    b: usize,
    c: usize,
    bias: usize,
) -> Seq<Tensor> {
    seq![
        Tensor {
            name: names.0,
            shape: seq![a, 1, 1],
            fault: Fault::fixed(faults.0).gone(absence).before(2),
            role: Role::Plain,
        },
        Tensor {
            name: names.1,
            shape: seq![a, b, c],
            fault: Fault::fixed(faults.1).gone(absence).before(1),
            role: Role::RowsScaledByPrevious,
        },
        Tensor {
            name: names.2,
            shape: seq![bias],
            fault: Fault::fixed(faults.2),
            role: Role::Plain,
        },
    ]
}

impl Loader {
    /// Requires the three tensors of a weight-normalised convolution; the
    /// result is the first of their buffers.
    pub fn weight_normed(
        &mut self,
        names: (String, String, String),
        faults: (String, String, String),
        absence: Absence,
        a: usize,
        b: usize,
        c: usize,
        bias: usize,
    ) -> (first: usize)
        requires
            old(self).wf(),
            a * b <= usize::MAX,
            a * b * c <= usize::MAX,
        ensures
            final(self).wf(),
            first == old(self).tensors().len(),
            final(self).tensors() == old(self).tensors() + weight_normed(
                (names.0@, names.1@, names.2@),
                (faults.0@, faults.1@, faults.2@),
                absence,
                a,
                b,
                c,
                bias,
            ),
    {
        let ghost expected_tensors = weight_normed(
            (names.0@, names.1@, names.2@),
            (faults.0@, faults.1@, faults.2@),
            absence,
            a,
            b,
            c,
            bias,
        );
        let ghost before = self.tensors();
        let first: usize = self.cube(names.0, a, 1, 1, Complaint::fixed(faults.0).gone(absence).before(2));
        let rows: usize = self.cube_as(
            names.1,
            a,
            b,
            c,
            Complaint::fixed(faults.1).gone(absence).before(1),
            Role::RowsScaledByPrevious,
        );
        let shift: usize = self.vector(names.2, bias, Complaint::fixed(faults.2));
        assert(self.tensors() =~= before + expected_tensors);
        first
    }
}

/// The buffers of `plan` from `base` on have the sizes of these tensors.
#[verifier::opaque]
pub open spec fn stores(plan: Plan, base: int, tensors: Seq<Tensor>) -> bool {
    &&& 0 <= base
    &&& base + tensors.len() <= plan.values().len()
    &&& base + tensors.len() <= usize::MAX
    &&& forall|j: int|
        base <= j < base + tensors.len() ==> #[trigger] plan.sizes()[j] == elements(
            tensors[j - base].shape,
        )
}

/// Whatever a loader was asked for last has its buffers at the end.
pub proof fn law_required_tensors_are_stored(loader: Loader, before: Seq<Tensor>, tensors: Seq<Tensor>)
    requires
        loader.wf(),
        loader.tensors() == before + tensors,
    ensures
        stores(loader.plan(), before.len() as int, tensors),
{
    reveal(stores);
    loader.lemma_plan();
    loader.plan().lemma_buffers_fit();
    let all = loader.tensors();
    assert forall|j: int|
        before.len() <= j < before.len() + tensors.len() implies #[trigger] loader.plan().sizes()[j]
        == elements(tensors[j - before.len()].shape) by {
        assert(all[j] == tensors[j - before.len()]);
    }
}

/// Tensors one after another are stored one after another.
pub proof fn lemma_stores_split(plan: Plan, base: int, a: Seq<Tensor>, b: Seq<Tensor>)
    requires
        stores(plan, base, a + b),
    ensures
        stores(plan, base, a),
        stores(plan, base + a.len(), b),
{
    reveal(stores);
    let all = a + b;
    assert forall|j: int| base <= j < base + a.len() implies #[trigger] plan.sizes()[j] == elements(
        a[j - base].shape,
    ) by {
        assert(all[j - base] == a[j - base]);
    }
    assert forall|j: int|
        base + a.len() <= j < base + a.len() + b.len() implies #[trigger] plan.sizes()[j]
        == elements(b[j - base - a.len()].shape) by {
        assert(all[j - base] == b[j - base - a.len()]);
    }
}

/// A stored vector has its buffer.
pub proof fn lemma_stored1(plan: Plan, base: int, tensors: Seq<Tensor>, i: int, a: usize)
    requires
        stores(plan, base, tensors),
        0 <= i < tensors.len(),
        tensors[i].shape == seq![a],
    ensures
        (base + i) as usize == base + i,
        holds(plan, (base + i) as usize, a as int),
{
    reveal(stores);
    lemma_elements1(a);
    assert(plan.sizes()[base + i] == elements(tensors[base + i - base].shape));
}

/// A stored matrix has its buffer.
pub proof fn lemma_stored2(plan: Plan, base: int, tensors: Seq<Tensor>, i: int, a: usize, b: usize)
    requires
        stores(plan, base, tensors),
        0 <= i < tensors.len(),
        tensors[i].shape == seq![a, b],
    ensures
        (base + i) as usize == base + i,
        holds(plan, (base + i) as usize, a * b),
{
    reveal(stores);
    lemma_elements2(a, b);
    assert(plan.sizes()[base + i] == elements(tensors[base + i - base].shape));
}

/// A stored cube has its buffer.
pub proof fn lemma_stored3(
    plan: Plan,
    base: int,
    tensors: Seq<Tensor>,
    i: int,
    a: usize,
    b: usize,
    c: usize,
)
    requires
        stores(plan, base, tensors),
        0 <= i < tensors.len(),
        tensors[i].shape == seq![a, b, c],
    ensures
        (base + i) as usize == base + i,
        holds(plan, (base + i) as usize, a * b * c),
{
    reveal(stores);
    lemma_elements3(a, b, c);
    assert(plan.sizes()[base + i] == elements(tensors[base + i - base].shape));
}

} // verus!
