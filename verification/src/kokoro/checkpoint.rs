//! Checkpoint groups and the tensors that models take from them.
use vstd::prelude::*;
use vstd::string::*;
use crate::catalog::{
    TensorInfo, name_ordering, sort_by_name, sum_bytes, total_bytes,
};
use crate::device::{Plan, holds};
use crate::kokoro::config::KokoroConfig;
use crate::text::{debug_shown, same, to_debug};
use crate::weights::{
    Absence, Complaint, Fault, Loader, Role, Tensor, elements, lemma_stored1, lemma_stored2, lemma_stored3,
    stores,
};

verus! {

/// The groups of a checkpoint.
pub open spec fn groups() -> Seq<Seq<char>> {
    seq!["bert"@, "bert_encoder"@, "predictor"@, "decoder"@, "text_encoder"@]
}

/// The name of group `i`.
pub fn checkpoint_group(i: usize) -> (name: &'static str)
    requires
        i < 5,
    ensures
        name@ == groups()[i as int],
{
    match i {
        0 => "bert",
        1 => "bert_encoder",
        2 => "predictor",
        3 => "decoder",
        _ => "text_encoder",
    }
}

/// A tensor of a checkpoint group, with the bytes of one element.
pub struct GroupTensor {
    pub group: String,
    pub name: String,
    pub shape: Vec<usize>,
    pub element_bytes: usize,
}

/// `info` describes `tensor` by its full name.
pub open spec fn describes(info: TensorInfo, tensor: GroupTensor) -> bool {
    &&& info.name@ == tensor.group@ + "."@ + tensor.name@
    &&& info.shape@ == tensor.shape@
    &&& info.bytes == elements(tensor.shape@) * tensor.element_bytes
}

/// How many elements a shape has; every partial product fits.
fn count_elements(shape: &Vec<usize>) -> (n: usize)
    requires
        forall|k: int|
            0 <= k <= shape@.len() ==> elements(#[trigger] shape@.take(k)) <= usize::MAX,
    ensures
        n == elements(shape@),
{
    let mut n: usize = 1;
    for i in 0..shape.len()
        invariant
            n == elements(shape@.take(i as int)),
            forall|k: int|
                0 <= k <= shape@.len() ==> elements(#[trigger] shape@.take(k)) <= usize::MAX,
    {
        proof {
            assert(shape@.take(i + 1).drop_last() =~= shape@.take(i as int));
            assert(elements(shape@.take(i + 1)) <= usize::MAX);
        }
        n = n * shape[i];
    }
    assert(shape@.take(shape@.len() as int) =~= shape@);
    n
}

/// Everything about a tensor can be counted.
pub open spec fn countable(tensor: GroupTensor) -> bool {
    &&& forall|k: int|
        0 <= k <= tensor.shape@.len() ==> elements(#[trigger] tensor.shape@.take(k)) <= usize::MAX
    &&& elements(tensor.shape@) * tensor.element_bytes <= usize::MAX
}

/// Some tensor belongs to the group.
pub open spec fn in_group(tensors: Seq<GroupTensor>, group: Seq<char>) -> bool {
    exists|i: int| 0 <= i < tensors.len() && (#[trigger] tensors[i]).group@ == group
}

/// Whether some tensor belongs to the group.
fn group_has_tensors(tensors: &Vec<GroupTensor>, group: &str) -> (found: bool)
    ensures
        found == in_group(tensors@, group@),
{
    for i in 0..tensors.len()
        invariant
            forall|j: int| 0 <= j < i ==> (#[trigger] tensors@[j]).group@ != group@,
    {
        if same(tensors[i].group.as_str(), group) {
            return true;
        }
    }
    false
}

/// The first of the groups from `i` on that has no tensors.
pub open spec fn first_empty(tensors: Seq<GroupTensor>, i: int) -> Option<int>
    decreases 5 - i,
{
    if i >= 5 {
        None
    } else if !in_group(tensors, groups()[i]) {
        Some(i)
    } else {
        first_empty(tensors, i + 1)
    }
}

/// The first tensor from `i` on with this group and name.
pub open spec fn first_named(tensors: Seq<GroupTensor>, group: Seq<char>, name: Seq<char>, i: int) -> Option<
    int,
>
    decreases tensors.len() - i,
{
    if i >= tensors.len() {
        None
    } else if tensors[i].group@ == group && tensors[i].name@ == name {
        Some(i)
    } else {
        first_named(tensors, group, name, i + 1)
    }
}

/// Why a tensor cannot be found, if it cannot.
pub open spec fn lookup_fault(tensors: Seq<GroupTensor>, group: Seq<char>, name: Seq<char>) -> Option<
    Seq<char>,
> {
    if !groups().contains(group) {
        Some("unknown Kokoro checkpoint group "@ + debug_shown(group))
    } else if first_named(tensors, group, name, 0) is None {
        Some("Kokoro tensor "@ + full_name(group, name) + " is missing"@)
    } else {
        None
    }
}

/// A checkpoint whose groups have been read.
pub struct KokoroCheckpoint {
    path: String,
    tensors: Vec<GroupTensor>,
}

impl KokoroCheckpoint {
    /// Where the checkpoint lies.
    pub closed spec fn location(self) -> Seq<char> {
        self.path@
    }

    /// The tensors of all groups.
    pub closed spec fn tensors(self) -> Seq<GroupTensor> {
        self.tensors@
    }

    /// A checkpoint of these tensors; every group must have some.
    pub fn open(path: String, tensors: Vec<GroupTensor>) -> (outcome: Result<Self, String>)
        ensures
            match outcome {
                Ok(checkpoint) => first_empty(tensors@, 0) is None && checkpoint.tensors()
                    == tensors@ && checkpoint.location() == path@,
                Err(message) => first_empty(tensors@, 0) matches Some(i) && message@
                    == "Kokoro checkpoint group "@ + debug_shown(groups()[i]) + " is empty"@,
            },
    {
        for i in 0..5usize
            invariant
                first_empty(tensors@, i as int) == first_empty(tensors@, 0),
        {
            let group = checkpoint_group(i);
            if !group_has_tensors(&tensors, group) {
                return Err(
                    "Kokoro checkpoint group ".to_owned().concat(&to_debug(group)).concat(
                        " is empty",
                    ),
                );
            }
        }
        Ok(KokoroCheckpoint { path, tensors })
    }

    /// Where the checkpoint lies.
    pub fn path(&self) -> (path: &str)
        ensures
            path@ == self.location(),
    {
        self.path.as_str()
    }

    /// The place of a tensor among those of all groups.
    pub fn find(&self, group: &str, name: &str) -> (outcome: Result<usize, String>)
        ensures
            match outcome {
                Ok(i) => lookup_fault(self.tensors(), group@, name@) is None && first_named(
                    self.tensors(),
                    group@,
                    name@,
                    0,
                ) == Some(i as int),
                Err(message) => lookup_fault(self.tensors(), group@, name@) == Some(message@),
            },
    {
        let mut known = false;
        for i in 0..5usize
            invariant
                known <==> exists|j: int| 0 <= j < i && #[trigger] groups()[j] == group@,
        {
            let ghost was = known;
            if same(checkpoint_group(i), group) {
                known = true;
                assert(groups()[i as int] == group@);
            }
            proof {
                if exists|j: int| 0 <= j < i + 1 && #[trigger] groups()[j] == group@ {
                    let j = choose|j: int| 0 <= j < i + 1 && #[trigger] groups()[j] == group@;
                    assert(j < i || known);
                }
            }
        }
        proof {
            assert(groups().len() == 5);
            if groups().contains(group@) {
                let j = choose|j: int| 0 <= j < groups().len() && groups()[j] == group@;
                assert(known);
            }
        }
        if !known {
            return Err("unknown Kokoro checkpoint group ".to_owned().concat(&to_debug(group)));
        }
        for i in 0..self.tensors.len()
            invariant
                groups().contains(group@),
                first_named(self.tensors@, group@, name@, i as int) == first_named(
                    self.tensors@,
                    group@,
                    name@,
                    0,
                ),
        {
            if same(self.tensors[i].group.as_str(), group) && same(
                self.tensors[i].name.as_str(),
                name,
            ) {
                return Ok(i);
            }
        }
        Err("Kokoro tensor ".to_owned().concat(&to_full_name(group, name)).concat(" is missing"))
    }

    /// The inventory of the checkpoint: all tensors by their full names, in
    /// order.
    pub fn tensor_infos(&self) -> (infos: Vec<TensorInfo>)
        requires
            forall|i: int| 0 <= i < self.tensors().len() ==> countable(#[trigger] self.tensors()[i]),
        ensures
            exists|listed: Seq<TensorInfo>| #[trigger]
                name_ordering(listed, infos@) && described(listed, self.tensors()),
            total_bytes(infos@) == stored_bytes(self.tensors()),
    {
        let tensors = &self.tensors;
        let mut listed: Vec<TensorInfo> = Vec::new();
        assert forall|j: int| 0 <= j < tensors@.len() implies countable(#[trigger] tensors@[j]) by {
            assert(countable(self.tensors()[j]));
        }
        for i in 0..tensors.len()
            invariant
                forall|j: int| 0 <= j < tensors@.len() ==> countable(#[trigger] tensors@[j]),
                listed@.len() == i,
                forall|j: int| 0 <= j < i ==> describes(#[trigger] listed@[j], tensors@[j]),
        {
            let tensor = &tensors[i];
            assert(countable(tensors@[i as int]));
            let count: usize = count_elements(&tensor.shape);
            let mut shape: Vec<usize> = Vec::new();
            for k in 0..tensor.shape.len()
                invariant
                    shape@ == tensor.shape@.take(k as int),
            {
                shape.push(tensor.shape[k]);
                assert(tensor.shape@.take(k + 1) =~= tensor.shape@.take(k as int).push(
                    tensor.shape@[k as int],
                ));
            }
            assert(shape@ =~= tensor.shape@);
            let name = tensor.group.clone().concat(".").concat(tensor.name.as_str());
            listed.push(TensorInfo { name, shape, bytes: count * tensor.element_bytes });
        }
        let ghost before = listed@;
        let infos = sort_by_name(listed);
        proof {
            assert(name_ordering(before, infos@));
            lemma_stored_bytes(before, self.tensors@);
        }
        infos
    }
}

/// The tensors are described one by one.
pub open spec fn described(listed: Seq<TensorInfo>, tensors: Seq<GroupTensor>) -> bool {
    &&& listed.len() == tensors.len()
    &&& forall|i: int| 0 <= i < listed.len() ==> describes(#[trigger] listed[i], tensors[i])
}

/// What is known of a model directory.
pub struct KokoroInspection {
    pub config: KokoroConfig,
    pub checkpoint: String,
    pub tensors: Vec<TensorInfo>,
    pub total_weight_bytes: usize,
}

/// The bytes of all tensors together.
pub open spec fn stored_bytes(tensors: Seq<GroupTensor>) -> nat
    decreases tensors.len(),
{
    if tensors.len() == 0 {
        0
    } else {
        stored_bytes(tensors.drop_last()) + elements(tensors.last().shape@)
            * (tensors.last().element_bytes as nat)
    }
}

proof fn lemma_stored_bytes(listed: Seq<TensorInfo>, tensors: Seq<GroupTensor>)
    requires
        described(listed, tensors),
    ensures
        total_bytes(listed) == stored_bytes(tensors),
    decreases tensors.len(),
{
    if tensors.len() > 0 {
        assert(describes(listed[listed.len() - 1], tensors[tensors.len() - 1]));
        assert forall|i: int| 0 <= i < listed.drop_last().len() implies describes(
            #[trigger] listed.drop_last()[i],
            tensors.drop_last()[i],
        ) by {
            assert(describes(listed[i], tensors[i]));
        }
        lemma_stored_bytes(listed.drop_last(), tensors.drop_last());
    }
}

/// Summarises a model whose configuration and checkpoint have been read.
pub fn inspect_model(config: KokoroConfig, checkpoint: &KokoroCheckpoint) -> (inspection: KokoroInspection)
    requires
        forall|i: int|
            0 <= i < checkpoint.tensors().len() ==> countable(#[trigger] checkpoint.tensors()[i]),
        stored_bytes(checkpoint.tensors()) <= usize::MAX,
    ensures
        inspection.config == config,
        inspection.checkpoint@ == checkpoint.location(),
        exists|listed: Seq<TensorInfo>| #[trigger]
            name_ordering(listed, inspection.tensors@) && described(listed, checkpoint.tensors()),
        inspection.total_weight_bytes == stored_bytes(checkpoint.tensors()),
{
    let tensors = checkpoint.tensor_infos();
    let ghost listed = choose|listed: Seq<TensorInfo>| #[trigger]
        name_ordering(listed, tensors@) && described(listed, checkpoint.tensors());
    let total_weight_bytes: usize = sum_bytes(tensors.as_slice()) as usize;
    let inspection = KokoroInspection {
        config,
        checkpoint: checkpoint.path().to_owned(),
        tensors,
        total_weight_bytes,
    };
    assert(name_ordering(listed, inspection.tensors@));
    inspection
}

/// The tensors that are read to see whether a checkpoint is intact.
pub open spec fn storage_samples() -> Seq<(Seq<char>, Seq<char>)> {
    seq![
        ("bert"@, "module.embeddings.LayerNorm.bias"@),
        ("bert_encoder"@, "module.bias"@),
        ("predictor"@, "module.duration_proj.linear_layer.bias"@),
        ("decoder"@, "module.generator.conv_post.bias"@),
        ("text_encoder"@, "module.embedding.weight"@),
    ]
}

/// Sample `i` of those that are read to see whether a checkpoint is intact:
/// its group and its name.
pub fn storage_sample(i: usize) -> (sample: (&'static str, &'static str))
    requires
        i < 5,
    ensures
        (sample.0@, sample.1@) == storage_samples()[i as int],
{
    match i {
        0 => ("bert", "module.embeddings.LayerNorm.bias"),
        1 => ("bert_encoder", "module.bias"),
        2 => ("predictor", "module.duration_proj.linear_layer.bias"),
        3 => ("decoder", "module.generator.conv_post.bias"),
        _ => ("text_encoder", "module.embedding.weight"),
    }
}

/// The full name of a tensor.
pub open spec fn full_name(group: Seq<char>, name: Seq<char>) -> Seq<char> {
    group + "."@ + name
}

/// The full name of a tensor.
pub fn to_full_name(group: &str, name: &str) -> (out: String)
    ensures
        out@ == full_name(group@, name@),
{
    group.to_owned().concat(".").concat(name)
}

/// A fixed complaint about a tensor of a checkpoint.
pub open spec fn kokoro_fixed(message: Seq<char>) -> Fault {
    Fault::fixed(message).gone(Absence::MissingKokoro)
}

/// A tensor with a fixed complaint.
pub open spec fn fixed(name: Seq<char>, shape: Seq<usize>, message: Seq<char>) -> Tensor {
    Tensor { name, shape, fault: kokoro_fixed(message), role: Role::Plain }
}

/// A tensor whose complaint shows the shape found.
pub open spec fn shown(group: Seq<char>, name: Seq<char>, shape: Seq<usize>) -> Tensor {
    Tensor {
        name: full_name(group, name),
        shape,
        fault: Fault::found("invalid "@ + full_name(group, name) + " shape "@).gone(
            Absence::MissingKokoro,
        ),
        role: Role::Plain,
    }
}

/// Requires a vector whose complaint shows the shape found.
pub fn shown_vector(
    loader: &mut Loader,
    group: &str,
    name: &str,
    absence: Absence,
    a: usize,
) -> (buffer: usize)
    requires
        old(loader).wf(),
    ensures
        final(loader).wf(),
        buffer == old(loader).tensors().len(),
        final(loader).tensors() == old(loader).tensors().push(
            shown(group@, name@, seq![a]).gone(absence),
        ),
{
    let full = to_full_name(group, name);
    let message = "invalid ".to_owned().concat(full.as_str()).concat(" shape ");
    loader.vector(full, a, Complaint::found(message).gone(absence))
}

/// Requires a matrix whose complaint shows the shape found.
pub fn shown_matrix(
    loader: &mut Loader,
    group: &str,
    name: &str,
    ahead: usize,
    a: usize,
    b: usize,
) -> (buffer: usize)
    requires
        old(loader).wf(),
        a * b <= usize::MAX,
    ensures
        final(loader).wf(),
        buffer == old(loader).tensors().len(),
        final(loader).tensors() == old(loader).tensors().push(
            shown(group@, name@, seq![a, b]).before(ahead),
        ),
{
    let full = to_full_name(group, name);
    let message = "invalid ".to_owned().concat(full.as_str()).concat(" shape ");
    loader.matrix(full, a, b, Complaint::found(message).gone(Absence::MissingKokoro).before(ahead))
}

/// A linear map with a bias, as buffers.
#[derive(Clone, Copy, Debug, PartialEq, Eq, Structural)]
pub struct Linear {
    pub weight: usize,
    pub bias: usize,
}

/// The tensors of a linear map.
pub open spec fn linear_tensors(group: Seq<char>, prefix: Seq<char>, input: usize, output: usize) -> Seq<
    Tensor,
> {
    seq![
        shown(group, prefix + ".weight"@, seq![output, input]).before(1),
        shown(group, prefix + ".bias"@, seq![output]),
    ]
}

impl Linear {
    /// The map whose first tensor is buffer `base`.
    pub open spec fn at(base: int) -> Self {
        Linear { weight: base as usize, bias: (base + 1) as usize }
    }

    /// The weights exist at their full size.
    pub open spec fn fits(self, plan: Plan, input: usize, output: usize) -> bool {
        &&& holds(plan, self.weight, output * input)
        &&& holds(plan, self.bias, output as int)
    }

    /// Requires the tensors of a linear map.
    pub fn load(loader: &mut Loader, group: &str, prefix: &str, input: usize, output: usize) -> (map:
        Self)
        requires
            old(loader).wf(),
            output * input <= usize::MAX,
        ensures
            final(loader).wf(),
            map == Self::at(old(loader).tensors().len() as int),
            final(loader).tensors() == old(loader).tensors() + linear_tensors(
                group@,
                prefix@,
                input,
                output,
            ),
            final(loader).tensors().len() == old(loader).tensors().len() + 2,
    {
        let ghost before = loader.tensors();
        let weight: usize = shown_matrix(
            loader,
            group,
            prefix.to_owned().concat(".weight").as_str(),
            1,
            output,
            input,
        );
        let bias: usize = shown_vector(
            loader,
            group,
            prefix.to_owned().concat(".bias").as_str(),
            Absence::MissingKokoro,
            output,
        );
        assert(loader.tensors() =~= before + linear_tensors(group@, prefix@, input, output));
        Linear { weight, bias }
    }
}

/// A convolution, as buffers: the lengths of its rows, the rows themselves
/// and the bias.
#[derive(Clone, Copy, Debug, PartialEq, Eq, Structural)]
pub struct Conv {
    pub gain: usize,
    pub weight: usize,
    pub bias: usize,
}

/// The tensors of the rows of a weight-normalised convolution.
pub open spec fn row_tensors(
    group: Seq<char>,
    prefix: Seq<char>,
    faults: (Fault, Fault),
    a: usize,
    b: usize,
    c: usize,
) -> Seq<Tensor> {
    seq![
        Tensor {
            name: full_name(group, prefix + ".weight_g"@),
            shape: seq![a, 1, 1],
            fault: faults.0,
            role: Role::Plain,
        },
        Tensor {
            name: full_name(group, prefix + ".weight_v"@),
            shape: seq![a, b, c],
            fault: faults.1,
            role: Role::RowsScaledByPrevious,
        },
    ]
}

/// The bias of a convolution.
pub open spec fn bias_tensor(group: Seq<char>, prefix: Seq<char>, fault: Fault, n: usize) -> Tensor {
    Tensor {
        name: full_name(group, prefix + ".bias"@),
        shape: seq![n],
        fault,
        role: Role::Plain,
    }
}

/// The tensors of a weight-normalised convolution.
pub open spec fn conv_tensors(
    group: Seq<char>,
    prefix: Seq<char>,
    faults: (Fault, Fault, Fault),
    a: usize,
    b: usize,
    c: usize,
    bias: usize,
) -> Seq<Tensor> {
    row_tensors(group, prefix, (faults.0, faults.1), a, b, c).push(
        bias_tensor(group, prefix, faults.2, bias),
    )
}

/// Requires the rows of a weight-normalised convolution. The result is the
/// first of two buffers.
pub fn load_rows(
    loader: &mut Loader,
    group: &str,
    prefix: &str,
    complaints: (Complaint, Complaint),
    a: usize,
    b: usize,
    c: usize,
) -> (first: usize)
    requires
        old(loader).wf(),
        a * b <= usize::MAX,
        a * b * c <= usize::MAX,
    ensures
        final(loader).wf(),
        first == old(loader).tensors().len(),
        final(loader).tensors() == old(loader).tensors() + row_tensors(
            group@,
            prefix@,
            (complaints.0@, complaints.1@),
            a,
            b,
            c,
        ),
        final(loader).tensors().len() == old(loader).tensors().len() + 2,
{
    let ghost wanted = row_tensors(group@, prefix@, (complaints.0@, complaints.1@), a, b, c);
    let ghost before = loader.tensors();
    let g = to_full_name(group, prefix.to_owned().concat(".weight_g").as_str());
    let v = to_full_name(group, prefix.to_owned().concat(".weight_v").as_str());
    let first: usize = loader.cube(g, a, 1, 1, complaints.0);
    let rows: usize = loader.cube_as(v, a, b, c, complaints.1, Role::RowsScaledByPrevious);
    assert(loader.tensors() =~= before + wanted);
    first
}

impl Conv {
    /// The convolution whose first tensor is buffer `base`.
    pub open spec fn at(base: int) -> Self {
        Conv { gain: base as usize, weight: (base + 1) as usize, bias: (base + 2) as usize }
    }

    /// Requires the tensors of a weight-normalised convolution.
    pub fn load(
        loader: &mut Loader,
        group: &str,
        prefix: &str,
        complaints: (Complaint, Complaint, Complaint),
        a: usize,
        b: usize,
        c: usize,
        bias: usize,
    ) -> (conv: Self)
        requires
            old(loader).wf(),
            a * b <= usize::MAX,
            a * b * c <= usize::MAX,
        ensures
            final(loader).wf(),
            conv == Self::at(old(loader).tensors().len() as int),
            final(loader).tensors() == old(loader).tensors() + conv_tensors(
                group@,
                prefix@,
                (complaints.0@, complaints.1@, complaints.2@),
                a,
                b,
                c,
                bias,
            ),
            final(loader).tensors().len() == old(loader).tensors().len() + 3,
    {
        let ghost wanted = conv_tensors(
            group@,
            prefix@,
            (complaints.0@, complaints.1@, complaints.2@),
            a,
            b,
            c,
            bias,
        );
        let ghost before = loader.tensors();
        let gain: usize = load_rows(loader, group, prefix, (complaints.0, complaints.1), a, b, c);
        let shift: usize = loader.vector(
            to_full_name(group, prefix.to_owned().concat(".bias").as_str()),
            bias,
            complaints.2,
        );
        assert(loader.tensors() =~= before + wanted);
        Conv { gain, weight: gain + 1, bias: shift }
    }
}

/// The same fixed complaint.
pub fn fixed_complaint(message: &str) -> (complaint: Complaint)
    ensures
        complaint@ == kokoro_fixed(message@),
{
    Complaint::fixed(message.to_owned()).gone(Absence::MissingKokoro)
}

/// The same fixed complaint three times, the shapes looked at once all three
/// tensors are found.
pub fn thrice(message: &str) -> (complaints: (Complaint, Complaint, Complaint))
    ensures
        (complaints.0@, complaints.1@, complaints.2@) == thrice_fixed(message@),
{
    (
        fixed_complaint(message).before(2),
        fixed_complaint(message).before(1),
        fixed_complaint(message),
    )
}

/// A fixed fault three times, the shapes looked at once all three tensors are
/// found.
pub open spec fn thrice_fixed(message: Seq<char>) -> (Fault, Fault, Fault) {
    (kokoro_fixed(message).before(2), kokoro_fixed(message).before(1), kokoro_fixed(message))
}

impl Linear {
    /// Loaded weights exist at their full size.
    pub proof fn law_loaded_weights_fit(plan: Plan, base: int, group: Seq<char>, prefix: Seq<char>, input: usize, output: usize)
        requires
            stores(plan, base, linear_tensors(group, prefix, input, output)),
        ensures
            Self::at(base).fits(plan, input, output),
    {
        let tensors = linear_tensors(group, prefix, input, output);
        lemma_stored2(plan, base, tensors, 0, output, input);
        lemma_stored1(plan, base, tensors, 1, output);
    }
}

impl Conv {
    /// Loaded weights exist at their full size.
    pub proof fn law_loaded_weights_fit(
        plan: Plan,
        base: int,
        group: Seq<char>,
        prefix: Seq<char>,
        faults: (Fault, Fault, Fault),
        a: usize,
        b: usize,
        c: usize,
        bias: usize,
    )
        requires
            stores(plan, base, conv_tensors(group, prefix, faults, a, b, c, bias)),
        ensures
            holds(plan, Self::at(base).weight, a * b * c),
            holds(plan, Self::at(base).bias, bias as int),
    {
        let tensors = conv_tensors(group, prefix, faults, a, b, c, bias);
        lemma_stored3(plan, base, tensors, 1, a, b, c);
        lemma_stored1(plan, base, tensors, 2, bias);
    }
}

} // verus!
