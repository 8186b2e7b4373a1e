//! Required tensors held against what weight files list.
use vstd::prelude::*;
use vstd::string::*;
use crate::catalog::TensorInfo;
use crate::resolve::{find_last, shape_in};
use crate::weights::{Loader, Tensor, TensorSpec, absence_fault, shape_fault};

verus! {

/// What is wrong with the shape of a tensor that is listed.
pub open spec fn listed_fault(listed: Seq<TensorInfo>, tensor: Tensor) -> Option<Seq<char>> {
    match shape_in(listed, tensor.name) {
        None => None,
        Some(shape) => shape_fault(tensor, shape),
    }
}

/// Whether the shape of tensor `j` is looked at once tensor `i` was found.
pub open spec fn due(required: Seq<Tensor>, j: int, i: int) -> bool {
    let last = j + required[j].fault.ahead;
    last == i || (last > i && i == required.len() - 1)
}

/// The first fault of the shapes among the first `n` that are looked at once
/// tensor `i` was found.
pub open spec fn due_fault(
    listed: Seq<TensorInfo>,
    required: Seq<Tensor>,
    i: int,
    n: nat,
) -> Option<Seq<char>>
    decreases n,
{
    if n == 0 {
        None
    } else if due_fault(listed, required, i, (n - 1) as nat) is Some {
        due_fault(listed, required, i, (n - 1) as nat)
    } else if due(required, n - 1, i) {
        listed_fault(listed, required[n - 1])
    } else {
        None
    }
}

/// What goes wrong at tensor `i`: it is absent, or a shape that is looked at
/// then is not the required one.
pub open spec fn tensor_fault(listed: Seq<TensorInfo>, required: Seq<Tensor>, i: int) -> Option<
    Seq<char>,
> {
    if shape_in(listed, required[i].name) is None {
        Some(absence_fault(required[i]))
    } else {
        due_fault(listed, required, i, (i + 1) as nat)
    }
}

/// The first thing that goes wrong at the first `n` required tensors.
pub open spec fn loading_fault(listed: Seq<TensorInfo>, required: Seq<Tensor>, n: nat) -> Option<
    Seq<char>,
>
    decreases n,
{
    if n == 0 {
        None
    } else if loading_fault(listed, required, (n - 1) as nat) is Some {
        loading_fault(listed, required, (n - 1) as nat)
    } else {
        tensor_fault(listed, required, n - 1)
    }
}

proof fn lemma_fault_stays(listed: Seq<TensorInfo>, required: Seq<Tensor>, n: nat, m: nat)
    requires
        n <= m,
        loading_fault(listed, required, n) is Some,
    ensures
        loading_fault(listed, required, m) == loading_fault(listed, required, n),
    decreases m,
{
    if n < m {
        lemma_fault_stays(listed, required, n, (m - 1) as nat);
    }
}

proof fn lemma_due_stays(
    listed: Seq<TensorInfo>,
    required: Seq<Tensor>,
    i: int,
    n: nat,
    m: nat,
)
    requires
        n <= m,
        due_fault(listed, required, i, n) is Some,
    ensures
        due_fault(listed, required, i, m) == due_fault(listed, required, i, n),
    decreases m,
{
    if n < m {
        lemma_due_stays(listed, required, i, n, (m - 1) as nat);
    }
}

proof fn lemma_none_due(listed: Seq<TensorInfo>, required: Seq<Tensor>, i: int, n: nat, j: int)
    requires
        due_fault(listed, required, i, n) is None,
        0 <= j < n,
        due(required, j, i),
    ensures
        listed_fault(listed, required[j]) is None,
    decreases n,
{
    if j < n - 1 {
        lemma_none_due(listed, required, i, (n - 1) as nat, j);
    }
}

proof fn lemma_no_fault(listed: Seq<TensorInfo>, required: Seq<Tensor>, n: nat, i: int)
    requires
        loading_fault(listed, required, n) is None,
        0 <= i < n,
    ensures
        tensor_fault(listed, required, i) is None,
    decreases n,
{
    if i < n - 1 {
        lemma_no_fault(listed, required, (n - 1) as nat, i);
    }
}

/// Files that are accepted list every required tensor in its shape.
pub proof fn law_accepted_files_hold_every_tensor(
    listed: Seq<TensorInfo>,
    required: Seq<Tensor>,
    i: int,
)
    requires
        loading_fault(listed, required, required.len()) is None,
        0 <= i < required.len(),
    ensures
        shape_in(listed, required[i].name) == Some(required[i].shape),
{
    let last = i + required[i].fault.ahead;
    let at = if last < required.len() {
        last
    } else {
        required.len() - 1
    };
    lemma_no_fault(listed, required, required.len(), i);
    lemma_no_fault(listed, required, required.len(), at);
    lemma_none_due(listed, required, at, (at + 1) as nat, i);
}

/// Checks the shapes that are looked at once tensor `i` was found.
fn check_due(specs: &Vec<TensorSpec>, listed: &[TensorInfo], i: usize) -> (outcome: Result<(), String>)
    requires
        i < specs@.len(),
        forall|j: int|
            0 <= j <= i ==> shape_in(listed@, (#[trigger] specs@[j]).name@) is Some,
    ensures
        ({
            let required = specs@.map_values(|s: TensorSpec| s@);
            match outcome {
                Ok(_) => due_fault(listed@, required, i as int, (i + 1) as nat) is None,
                Err(message) => due_fault(listed@, required, i as int, (i + 1) as nat) == Some(
                    message@,
                ),
            }
        }),
{
    let ghost required = specs@.map_values(|s: TensorSpec| s@);
    let count: usize = specs.len();
    for j in 0..i + 1
        invariant
            count == specs@.len(),
            i < specs@.len(),
            required == specs@.map_values(|s: TensorSpec| s@),
            forall|k: int|
                0 <= k <= i ==> shape_in(listed@, (#[trigger] specs@[k]).name@) is Some,
            due_fault(listed@, required, i as int, j as nat) is None,
    {
        let spec = &specs[j];
        assert(required[j as int] == spec@);
        assert(shape_in(listed@, specs@[j as int].name@) is Some);
        let left: usize = i - j;
        if spec.complaint.ahead == left || (spec.complaint.ahead > left && i == count - 1) {
            if let Some(at) = find_last(listed, spec.name.as_str()) {
                match spec.check(listed[at].shape.as_slice()) {
                    Ok(_) => {},
                    Err(message) => {
                        proof {
                            lemma_due_stays(
                                listed@,
                                required,
                                i as int,
                                (j + 1) as nat,
                                (i + 1) as nat,
                            );
                        }
                        return Err(message);
                    },
                }
            }
        }
    }
    Ok(())
}

impl Loader {
    /// Checks that weight files list every required tensor in its shape.
    pub fn check(&self, listed: &[TensorInfo]) -> (outcome: Result<(), String>)
        ensures
            match outcome {
                Ok(_) => loading_fault(listed@, self.tensors(), self.tensors().len()) is None,
                Err(message) => loading_fault(listed@, self.tensors(), self.tensors().len())
                    == Some(message@),
            },
    {
        let specs = self.requirements();
        let ghost required = self.tensors();
        assert(required.len() == specs@.len());
        for i in 0..specs.len()
            invariant
                required == self.tensors(),
                required == specs@.map_values(|s: TensorSpec| s@),
                required.len() == specs@.len(),
                loading_fault(listed@, required, i as nat) is None,
                forall|j: int|
                    0 <= j < i ==> shape_in(listed@, (#[trigger] specs@[j]).name@) is Some,
        {
            let spec = &specs[i];
            assert(required[i as int] == spec@);
            let checked: Result<(), String> = match find_last(listed, spec.name.as_str()) {
                None => Err(spec.absent()),
                Some(_) => check_due(specs, listed, i),
            };
            match checked {
                Ok(_) => {},
                Err(message) => {
                    proof {
                        lemma_fault_stays(listed@, required, (i + 1) as nat, required.len());
                    }
                    return Err(message);
                },
            }
        }
        Ok(())
    }
}

} // verus!
