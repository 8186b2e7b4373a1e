//! The speaker encoder: a mel spectrogram to one voice embedding.
use vstd::prelude::*;
use vstd::string::*;
use crate::arith::{lemma_mul_assoc, lemma_mul_comm};
use crate::catalog::TensorInfo;
use crate::device::{Plan, Term, extends, holds, sized};
use crate::device::value::{
    add_bias_f16_inplace, add_f16, append_channel_block, append_context, channel_mean,
    channel_scale, channel_stats_mean, channel_stats_stddev, copy_from, matmul_f16, relu, sigmoid,
    softmax_channels, tanh, transpose_f16, unfold_reflect, weighted_channel_stats_mean,
    weighted_channel_stats_stddev,
};
use crate::qwen3_tts::codec_encoder::Signal;
use crate::resolve::{
    Request, Rule, Wanted, ask, countable_elements, first_fault, found, lemma_all_met, resolve,
    wanted,
};
use crate::text::{decimal, to_decimal};
use crate::weights::{Role, elements};

verus! {

/// A convolution with reflected borders, as buffers.
#[derive(Clone, Copy, Debug, PartialEq, Eq, Structural)]
pub struct Conv1d {
    pub weight: usize,
    pub bias: usize,
    pub in_channels: usize,
    pub out_channels: usize,
    pub kernel_size: usize,
    pub dilation: usize,
}

/// A squeeze-and-excitation block over eight channel groups.
pub struct SeRes2Block {
    pub res2: Vec<Conv1d>,
    pub tdnn1: Conv1d,
    pub tdnn2: Conv1d,
    pub se1: Conv1d,
    pub se2: Conv1d,
}

/// The speaker encoder, as buffers.
pub struct SpeakerEncoder {
    pub initial: Conv1d,
    pub blocks: Vec<SeRes2Block>,
    pub mfa: Conv1d,
    pub asp_tdnn: Conv1d,
    pub asp_conv: Conv1d,
    pub fc: Conv1d,
}

/// The weight and the bias of a convolution.
pub open spec fn conv_requests(prefix: Seq<char>) -> Seq<Wanted> {
    seq![
        Wanted { name: prefix + ".weight"@, rule: Rule::FilledCube, role: Role::Plain },
        Wanted { name: prefix + ".bias"@, rule: Rule::LikePrevious, role: Role::Plain },
    ]
}

/// The tensors of the first `n` group convolutions of a block.
pub open spec fn groups_requests(prefix: Seq<char>, n: nat) -> Seq<Wanted>
    decreases n,
{
    if n == 0 {
        seq![]
    } else {
        groups_requests(prefix, (n - 1) as nat) + conv_requests(
            prefix + ".res2net_block.blocks."@ + decimal((n - 1) as nat) + ".conv"@,
        )
    }
}

/// The tensors of a block.
pub open spec fn block_requests(prefix: Seq<char>) -> Seq<Wanted> {
    groups_requests(prefix, 7) + conv_requests(prefix + ".tdnn1.conv"@) + conv_requests(
        prefix + ".tdnn2.conv"@,
    ) + conv_requests(prefix + ".se_block.conv1"@) + conv_requests(prefix + ".se_block.conv2"@)
}

/// The tensors of the first `n` blocks, which are numbered from one.
pub open spec fn blocks_requests(n: nat) -> Seq<Wanted>
    decreases n,
{
    if n == 0 {
        seq![]
    } else {
        blocks_requests((n - 1) as nat) + block_requests("speaker_encoder.blocks."@ + decimal(n))
    }
}

/// The tensors of the encoder in loading order.
pub open spec fn speaker_requests() -> Seq<Wanted> {
    conv_requests("speaker_encoder.blocks.0.conv"@) + blocks_requests(3) + conv_requests(
        "speaker_encoder.mfa.conv"@,
    ) + conv_requests("speaker_encoder.asp.tdnn.conv"@) + conv_requests(
        "speaker_encoder.asp.conv"@,
    ) + conv_requests("speaker_encoder.fc"@)
}

/// Adds the requests of a convolution.
fn ask_conv(requests: &mut Vec<Request>, prefix: &str)
    ensures
        wanted(final(requests)@) == wanted(old(requests)@) + conv_requests(prefix@),
{
    ask(requests, prefix.to_owned().concat(".weight"), Rule::FilledCube, Role::Plain);
    ask(requests, prefix.to_owned().concat(".bias"), Rule::LikePrevious, Role::Plain);
    assert(wanted(requests@) =~= wanted(old(requests)@) + conv_requests(prefix@));
}

/// Adds the requests of a block.
fn ask_block(requests: &mut Vec<Request>, prefix: &str)
    ensures
        wanted(final(requests)@) == wanted(old(requests)@) + block_requests(prefix@),
{
    let ghost start = wanted(requests@);
    assert(start + groups_requests(prefix@, 0) =~= start);
    for i in 0..7usize
        invariant
            wanted(requests@) == start + groups_requests(prefix@, i as nat),
    {
        let name = prefix.to_owned().concat(".res2net_block.blocks.").concat(
            &to_decimal(i as u64),
        ).concat(".conv");
        ask_conv(requests, name.as_str());
        assert(wanted(requests@) =~= start + groups_requests(prefix@, (i + 1) as nat));
    }
    ask_conv(requests, prefix.to_owned().concat(".tdnn1.conv").as_str());
    ask_conv(requests, prefix.to_owned().concat(".tdnn2.conv").as_str());
    ask_conv(requests, prefix.to_owned().concat(".se_block.conv1").as_str());
    ask_conv(requests, prefix.to_owned().concat(".se_block.conv2").as_str());
    assert(wanted(requests@) =~= start + block_requests(prefix@));
}

/// The requests of the encoder in loading order.
pub fn list_requests() -> (requests: Vec<Request>)
    ensures
        wanted(requests@) == speaker_requests(),
        requests@.len() == speaker_requests().len(),
{
    let mut requests: Vec<Request> = Vec::new();
    assert(wanted(requests@) =~= seq![]);
    ask_conv(&mut requests, "speaker_encoder.blocks.0.conv");
    let ghost start = wanted(requests@);
    assert(start + blocks_requests(0) =~= start);
    for i in 1..4usize
        invariant
            wanted(requests@) == start + blocks_requests((i - 1) as nat),
    {
        let prefix = "speaker_encoder.blocks.".to_owned().concat(&to_decimal(i as u64));
        ask_block(&mut requests, prefix.as_str());
        assert(wanted(requests@) =~= start + blocks_requests(i as nat));
    }
    ask_conv(&mut requests, "speaker_encoder.mfa.conv");
    ask_conv(&mut requests, "speaker_encoder.asp.tdnn.conv");
    ask_conv(&mut requests, "speaker_encoder.asp.conv");
    ask_conv(&mut requests, "speaker_encoder.fc");
    assert(wanted(requests@) =~= speaker_requests());
    requests
}

/// The convolution whose weight is request `i`; its shape gives its channels.
pub open spec fn conv_found(tensors: Seq<TensorInfo>, base: int, i: int, dilation: int) -> Conv1d {
    let shape = found(tensors, speaker_requests(), i);
    Conv1d {
        weight: (base + i) as usize,
        bias: (base + i + 1) as usize,
        in_channels: shape[1],
        out_channels: shape[0],
        kernel_size: shape[2],
        dilation: dilation as usize,
    }
}

impl SeRes2Block {
    /// Block `b`, counted from zero, as the listed tensors make it.
    pub open spec fn is_found(self, tensors: Seq<TensorInfo>, base: int, b: int) -> bool {
        let first = 2 + 22 * b;
        &&& self.res2@.len() == 7
        &&& forall|i: int|
            0 <= i < 7 ==> #[trigger] self.res2@[i] == conv_found(
                tensors,
                base,
                first + 2 * i,
                b + 2,
            )
        &&& self.tdnn1 == conv_found(tensors, base, first + 14, 1)
        &&& self.tdnn2 == conv_found(tensors, base, first + 16, 1)
        &&& self.se1 == conv_found(tensors, base, first + 18, 1)
        &&& self.se2 == conv_found(tensors, base, first + 20, 1)
    }
}

impl SpeakerEncoder {
    /// The encoder that the listed tensors make, from buffer `base` on.
    pub open spec fn is_found(self, tensors: Seq<TensorInfo>, base: int) -> bool {
        &&& self.initial == conv_found(tensors, base, 0, 1)
        &&& self.blocks@.len() == 3
        &&& forall|b: int| 0 <= b < 3 ==> (#[trigger] self.blocks@[b]).is_found(tensors, base, b)
        &&& self.mfa == conv_found(tensors, base, 68, 1)
        &&& self.asp_tdnn == conv_found(tensors, base, 70, 1)
        &&& self.asp_conv == conv_found(tensors, base, 72, 1)
        &&& self.fc == conv_found(tensors, base, 74, 1)
    }
}

proof fn lemma_groups(prefix: Seq<char>, n: nat)
    ensures
        groups_requests(prefix, n).len() == 2 * n,
        forall|i: int|
            0 <= i < 2 * n && i % 2 == 0 ==> (#[trigger] groups_requests(prefix, n)[i]).rule
                == Rule::FilledCube,
    decreases n,
{
    if n > 0 {
        lemma_groups(prefix, (n - 1) as nat);
    }
}

proof fn lemma_blocks(n: nat)
    ensures
        blocks_requests(n).len() == 22 * n,
        forall|i: int|
            0 <= i < 22 * n && i % 2 == 0 ==> (#[trigger] blocks_requests(n)[i]).rule
                == Rule::FilledCube,
    decreases n,
{
    if n > 0 {
        lemma_blocks((n - 1) as nat);
        let prefix = "speaker_encoder.blocks."@ + decimal(n);
        lemma_groups(prefix, 7);
        let block = block_requests(prefix);
        let before = blocks_requests((n - 1) as nat);
        assert forall|i: int| 0 <= i < 22 * n && i % 2 == 0 implies (#[trigger] blocks_requests(
            n,
        )[i]).rule == Rule::FilledCube by {
            if i < before.len() {
                assert(blocks_requests(n)[i] == before[i]);
            } else {
                let j = i - before.len();
                assert(blocks_requests(n)[i] == block[j]);
                if j < 14 {
                    assert(block[j] == groups_requests(prefix, 7)[j]);
                }
            }
        }
    }
}

/// Every second request is the weight of a convolution.
proof fn lemma_requests()
    ensures
        speaker_requests().len() == 76,
        forall|i: int|
            0 <= i < 76 && i % 2 == 0 ==> (#[trigger] speaker_requests()[i]).rule
                == Rule::FilledCube,
{
    lemma_blocks(3);
    let all = speaker_requests();
    assert(all.len() == 76);
    assert forall|i: int| 0 <= i < 76 && i % 2 == 0 implies (#[trigger] all[i]).rule
        == Rule::FilledCube by {
        if 2 <= i < 68 {
            assert(all[i] == blocks_requests(3)[i - 2]);
        }
    }
}

/// The convolution whose weight is request `i`.
fn conv_from(
    tensors: &[TensorInfo],
    shapes: &Vec<Vec<usize>>,
    base: usize,
    i: usize,
    dilation: usize,
) -> (conv: Conv1d)
    requires
        shapes@.len() == 76,
        i < 76,
        i % 2 == 0,
        base + 76 <= usize::MAX,
        first_fault(tensors@, speaker_requests(), 76) is None,
        forall|j: int|
            0 <= j < 76 ==> (#[trigger] shapes@[j])@ == found(tensors@, speaker_requests(), j),
    ensures
        conv == conv_found(tensors@, base as int, i as int, dilation as int),
        conv.kernel_size > 0,
{
    proof {
        lemma_requests();
        lemma_all_met(tensors@, speaker_requests(), 76, i as int);
        assert(speaker_requests()[i as int].rule == Rule::FilledCube);
        assert(shapes@[i as int]@ == found(tensors@, speaker_requests(), i as int));
    }
    Conv1d {
        weight: base + i,
        bias: base + i + 1,
        in_channels: shapes[i][1],
        out_channels: shapes[i][0],
        kernel_size: shapes[i][2],
        dilation,
    }
}

impl SpeakerEncoder {
    /// Looks up the weights of the encoder, giving each a buffer.
    pub fn load(plan: &mut Plan, tensors: &[TensorInfo]) -> (outcome: Result<Self, String>)
        requires
            old(plan).wf(),
            countable_elements(tensors@),
        ensures
            final(plan).wf(),
            extends(*old(plan), *final(plan)),
            match outcome {
                Err(message) => first_fault(tensors@, speaker_requests(), 76) == Some(message@),
                Ok(model) => {
                    &&& first_fault(tensors@, speaker_requests(), 76) is None
                    &&& model.is_found(tensors@, old(plan).values().len() as int)
                    &&& extends(*old(plan), *final(plan))
                    &&& final(plan).values().len() == old(plan).values().len() + 76
                    &&& forall|i: int|
                        0 <= i < 76 ==> #[trigger] final(plan).values()[old(plan).values().len()
                            + i] == Term::Given((old(plan).steps().len() + i) as nat)
                    &&& forall|i: int|
                        0 <= i < 76 ==> #[trigger] final(plan).sizes()[old(plan).values().len()
                            + i] == elements(found(tensors@, speaker_requests(), i))
                },
            },
    {
        proof {
            lemma_requests();
        }
        let requests = list_requests();
        let ghost start = *plan;
        let shapes = match resolve(plan, tensors, &requests) {
            Err(message) => {
                return Err(message);
            },
            Ok(shapes) => shapes,
        };
        let marker: usize = plan.count();
        let base: usize = marker - 76;
        let initial = conv_from(tensors, &shapes, base, 0, 1);
        let mut blocks: Vec<SeRes2Block> = Vec::new();
        for b in 0..3usize
            invariant
                base + 76 <= usize::MAX,
                shapes@.len() == 76,
                first_fault(tensors@, speaker_requests(), 76) is None,
                forall|j: int|
                    0 <= j < 76 ==> (#[trigger] shapes@[j])@ == found(
                        tensors@,
                        speaker_requests(),
                        j,
                    ),
                blocks@.len() == b,
                forall|j: int|
                    0 <= j < b ==> (#[trigger] blocks@[j]).is_found(tensors@, base as int, j),
        {
            let first: usize = 2 + 22 * b;
            let mut res2: Vec<Conv1d> = Vec::new();
            for i in 0..7usize
                invariant
                    b < 3,
                    first == 2 + 22 * b,
                    base + 76 <= usize::MAX,
                    shapes@.len() == 76,
                    first_fault(tensors@, speaker_requests(), 76) is None,
                    forall|j: int|
                        0 <= j < 76 ==> (#[trigger] shapes@[j])@ == found(
                            tensors@,
                            speaker_requests(),
                            j,
                        ),
                    res2@.len() == i,
                    forall|j: int|
                        0 <= j < i ==> #[trigger] res2@[j] == conv_found(
                            tensors@,
                            base as int,
                            first + 2 * j,
                            b + 2,
                        ),
            {
                res2.push(conv_from(tensors, &shapes, base, first + 2 * i, b + 2));
            }
            let tdnn1 = conv_from(tensors, &shapes, base, first + 14, 1);
            let tdnn2 = conv_from(tensors, &shapes, base, first + 16, 1);
            let se1 = conv_from(tensors, &shapes, base, first + 18, 1);
            let se2 = conv_from(tensors, &shapes, base, first + 20, 1);
            blocks.push(SeRes2Block { res2, tdnn1, tdnn2, se1, se2 });
        }
        let mfa = conv_from(tensors, &shapes, base, 68, 1);
        let asp_tdnn = conv_from(tensors, &shapes, base, 70, 1);
        let asp_conv = conv_from(tensors, &shapes, base, 72, 1);
        let fc = conv_from(tensors, &shapes, base, 74, 1);
        Ok(SpeakerEncoder { initial, blocks, mfa, asp_tdnn, asp_conv, fc })
    }
}

/// A convolution with reflected borders over `frames` frames.
#[verifier::opaque]
pub open spec fn convolved(x: Term, frames: int, conv: Conv1d, plan: Plan) -> Term {
    let width = (conv.in_channels * conv.kernel_size) as u32;
    let out = conv.out_channels as u32;
    let unfolded = unfold_reflect(
        x,
        conv.in_channels as u32,
        frames as u32,
        conv.kernel_size as u32,
        conv.dilation as u32,
    );
    transpose_f16(
        add_bias_f16_inplace(
            matmul_f16(unfolded, plan.values()[conv.weight as int], frames as u32, out, width),
            plan.values()[conv.bias as int],
            frames as u32,
            out,
        ),
        frames as u32,
        out,
    )
}

/// A convolution, or the complaint that its input has the wrong length.
pub open spec fn conv_step(s: Signal, frames: int, conv: Conv1d, plan: Plan) -> Signal {
    match s {
        Signal::Failed(_) => s,
        Signal::Of { value, size } => if size != conv.in_channels * frames {
            Signal::Failed(
                "speaker conv input has "@ + decimal(size as nat) + " values, expected "@ + decimal(
                    (conv.in_channels * frames) as nat,
                ),
            )
        } else {
            Signal::Of {
                value: convolved(value, frames, conv, plan),
                size: frames * conv.out_channels,
            }
        },
    }
}

/// A convolution followed by a ReLU.
pub open spec fn conv_relu_step(s: Signal, frames: int, conv: Conv1d, plan: Plan) -> Signal {
    match conv_step(s, frames, conv, plan) {
        Signal::Failed(message) => Signal::Failed(message),
        Signal::Of { value, size } => Signal::Of { value: relu(value, size as u32), size },
    }
}

/// A convolution of `frames` frames has its weights, makes at least `out`
/// channels, and stays within 32-bit counts.
pub open spec fn conv_fits(conv: Conv1d, plan: Plan, frames: int, out: int) -> bool {
    &&& holds(plan, conv.weight, conv.out_channels * conv.in_channels * conv.kernel_size)
    &&& holds(plan, conv.bias, conv.out_channels as int)
    &&& out <= conv.out_channels <= u32::MAX
    &&& conv.dilation <= u32::MAX
    &&& conv.in_channels <= u32::MAX
    &&& conv.kernel_size <= u32::MAX
    &&& conv.in_channels * conv.kernel_size <= u32::MAX
    &&& frames <= u32::MAX
    &&& frames * conv.in_channels <= u32::MAX
    &&& frames * (conv.in_channels * conv.kernel_size) <= u32::MAX
    &&& frames * conv.out_channels <= u32::MAX
}

/// The signal in a buffer.
pub open spec fn signal(plan: Plan, buffer: usize) -> Signal {
    Signal::Of {
        value: plan.values()[buffer as int],
        size: plan.sizes()[buffer as int] as int,
    }
}

/// Runs a convolution over `frames` channel-first frames. The result names
/// the buffer of the channel-first output.
fn run_conv(
    plan: &mut Plan,
    input: usize,
    frames: usize,
    conv: &Conv1d,
    Ghost(start): Ghost<Plan>,
    Ghost(out): Ghost<int>,
) -> (outcome: Result<usize, String>)
    requires
        old(plan).wf(),
        extends(start, *old(plan)),
        input < old(plan).values().len(),
        conv_fits(*conv, start, frames as int, out),
    ensures
        final(plan).wf(),
        extends(*old(plan), *final(plan)),
        final(plan).values().len() <= old(plan).values().len() + 3,
        match outcome {
            Err(message) => conv_step(
                signal(*old(plan), input),
                frames as int,
                *conv,
                start,
            ) == Signal::Failed(message@),
            Ok(output) => {
                &&& old(plan).values().len() <= output < final(plan).values().len()
                &&& final(plan).sizes()[output as int] == frames * conv.out_channels
                &&& conv_step(signal(*old(plan), input), frames as int, *conv, start) == signal(
                    *final(plan),
                    output,
                )
            },
        },
{
    proof {
        lemma_mul_comm(frames as int, conv.in_channels as int);
    }
    if plan.size(input) != conv.in_channels * frames {
        return Err(
            "speaker conv input has ".to_owned().concat(&to_decimal(plan.size(input) as u64)).concat(
                " values, expected ",
            ).concat(&to_decimal((conv.in_channels * frames) as u64)),
        );
    }
    let width: usize = conv.in_channels * conv.kernel_size;
    proof {
        reveal(convolved);
        lemma_mul_assoc(
            conv.out_channels as int,
            conv.in_channels as int,
            conv.kernel_size as int,
        );
    }
    let unfolded: usize = plan.zeros(frames * width);
    plan.unfold_reflect(
        input,
        unfolded,
        conv.in_channels as u32,
        frames as u32,
        conv.kernel_size as u32,
        conv.dilation as u32,
    );
    let channel_last: usize = plan.zeros(frames * conv.out_channels);
    plan.matmul_f16(
        unfolded,
        conv.weight,
        channel_last,
        frames as u32,
        conv.out_channels as u32,
        width as u32,
    );
    plan.add_bias_f16_inplace(channel_last, conv.bias, frames as u32, conv.out_channels as u32);
    let channel_first: usize = plan.zeros(frames * conv.out_channels);
    plan.transpose_f16(channel_last, channel_first, frames as u32, conv.out_channels as u32);
    Ok(channel_first)
}

/// Runs a convolution followed by a ReLU.
fn run_conv_relu(
    plan: &mut Plan,
    input: usize,
    frames: usize,
    conv: &Conv1d,
    Ghost(start): Ghost<Plan>,
    Ghost(out): Ghost<int>,
) -> (outcome: Result<usize, String>)
    requires
        old(plan).wf(),
        extends(start, *old(plan)),
        input < old(plan).values().len(),
        conv_fits(*conv, start, frames as int, out),
    ensures
        final(plan).wf(),
        extends(*old(plan), *final(plan)),
        final(plan).values().len() <= old(plan).values().len() + 3,
        match outcome {
            Err(message) => conv_relu_step(
                signal(*old(plan), input),
                frames as int,
                *conv,
                start,
            ) == Signal::Failed(message@),
            Ok(output) => {
                &&& old(plan).values().len() <= output < final(plan).values().len()
                &&& final(plan).sizes()[output as int] == frames * conv.out_channels
                &&& conv_relu_step(signal(*old(plan), input), frames as int, *conv, start)
                    == signal(*final(plan), output)
            },
        },
{
    let output: usize = match run_conv(plan, input, frames, conv, Ghost(start), Ghost(out)) {
        Err(message) => {
            return Err(message);
        },
        Ok(output) => output,
    };
    let n: u32 = plan.size(output) as u32;
    plan.relu(output, n);
    Ok(output)
}

/// The merged channel groups and the last group's output, or a failure.
pub enum Groups {
    Failed(Seq<char>),
    Of { merged: Term, previous: Term },
}

/// The output of group `p`: the first passes through, each later one is
/// convolved, from the third on together with the output before it.
pub open spec fn group_output(
    hidden: Term,
    previous: Term,
    frames: int,
    res2: Seq<Conv1d>,
    plan: Plan,
    p: int,
) -> Signal {
    let len = 64 * frames;
    let current = copy_from(hidden, len as usize, (p * len) as usize);
    if p == 0 {
        Signal::Of { value: current, size: len }
    } else {
        let input = if p > 1 {
            add_f16(current, previous, len as u32)
        } else {
            current
        };
        conv_relu_step(Signal::Of { value: input, size: len }, frames, res2[p - 1], plan)
    }
}

/// The first `n` of the eight channel groups.
pub open spec fn groups(
    hidden: Term,
    frames: int,
    res2: Seq<Conv1d>,
    plan: Plan,
    n: nat,
) -> Groups
    decreases n,
{
    if n == 0 {
        Groups::Of { merged: Term::Zeros((512 * frames) as nat), previous: hidden }
    } else {
        match groups(hidden, frames, res2, plan, (n - 1) as nat) {
            Groups::Failed(message) => Groups::Failed(message),
            Groups::Of { merged, previous } => match group_output(
                hidden,
                previous,
                frames,
                res2,
                plan,
                n - 1,
            ) {
                Signal::Failed(message) => Groups::Failed(message),
                Signal::Of { value, .. } => Groups::Of {
                    merged: append_channel_block(
                        value,
                        merged,
                        64,
                        512,
                        (64 * (n - 1)) as u32,
                        frames as u32,
                    ),
                    previous: value,
                },
            },
        }
    }
}

/// A failure of one group is the failure of all that follow.
proof fn lemma_groups_failed(
    hidden: Term,
    frames: int,
    res2: Seq<Conv1d>,
    plan: Plan,
    n: nat,
    m: nat,
    message: Seq<char>,
)
    requires
        n <= m,
        groups(hidden, frames, res2, plan, n) == Groups::Failed(message),
    ensures
        groups(hidden, frames, res2, plan, m) == Groups::Failed(message),
    decreases m,
{
    if n < m {
        lemma_groups_failed(hidden, frames, res2, plan, n, (m - 1) as nat, message);
    }
}

/// Runs the eight channel groups of `hidden`. The result names the buffer of
/// the merged groups.
fn run_groups(
    plan: &mut Plan,
    hidden: usize,
    frames: usize,
    res2: &Vec<Conv1d>,
    Ghost(start): Ghost<Plan>,
) -> (outcome: Result<usize, String>)
    requires
        old(plan).wf(),
        extends(start, *old(plan)),
        holds(*old(plan), hidden, 512 * frames),
        512 * frames <= u32::MAX,
        res2@.len() == 7,
        forall|i: int| 0 <= i < 7 ==> conv_fits(#[trigger] res2@[i], start, frames as int, 64),
    ensures
        final(plan).wf(),
        extends(*old(plan), *final(plan)),
        final(plan).values().len() <= old(plan).values().len() + 41,
        match outcome {
            Err(message) => groups(
                old(plan).values()[hidden as int],
                frames as int,
                res2@,
                start,
                8,
            ) == Groups::Failed(message@),
            Ok(merged) => {
                &&& old(plan).values().len() <= merged < final(plan).values().len()
                &&& final(plan).sizes()[merged as int] == 512 * frames
                &&& groups(
                    old(plan).values()[hidden as int],
                    frames as int,
                    res2@,
                    start,
                    8,
                ) matches Groups::Of { merged: value, previous } && final(plan).values()[merged as int] == value
            },
        },
{
    let ghost entry = *plan;
    let ghost h = plan.values()[hidden as int];
    let ghost base = plan.values().len() as int;
    let part_len: usize = 64 * frames;
    let merged: usize = plan.zeros(512 * frames);
    let mut previous: usize = hidden;
    for p in 0..8usize
        invariant
            plan.wf(),
            entry == *old(plan),
            h == entry.values()[hidden as int],
            base == entry.values().len(),
            extends(start, entry),
            extends(entry, *plan),
            plan.values().len() <= base + 1 + 5 * p,
            base + 1 <= plan.values().len(),
            merged == base,
            plan.sizes()[merged as int] == 512 * frames,
            holds(entry, hidden, 512 * frames),
            512 * frames <= u32::MAX,
            part_len == 64 * frames,
            res2@.len() == 7,
            forall|i: int| 0 <= i < 7 ==> conv_fits(#[trigger] res2@[i], start, frames as int, 64),
            previous != merged,
            p > 0 ==> previous >= base,
            holds(*plan, previous, part_len as int),
            groups(h, frames as int, res2@, start, p as nat) == (Groups::Of {
                merged: plan.values()[merged as int],
                previous: plan.values()[previous as int],
            }),
    {
        let ghost before = plan.values()[previous as int];
        proof {
            assert(p * part_len + part_len <= 512 * frames) by (nonlinear_arith)
                requires
                    p < 8,
                    part_len == 64 * frames,
            ;
            assert(0 <= p * part_len) by (nonlinear_arith)
                requires
                    0 <= p,
                    0 <= part_len,
            ;
            assert((64 * p + 64) * frames <= 512 * frames) by (nonlinear_arith)
                requires
                    p < 8,
                    frames >= 0,
            ;
        }
        let current: usize = plan.zeros(part_len);
        plan.copy_from(hidden, current, part_len, p * part_len);
        let output: usize = if p == 0 {
            current
        } else {
            let input: usize = if p > 1 {
                let sum: usize = plan.zeros(part_len);
                plan.add_f16(current, previous, sum, part_len as u32);
                sum
            } else {
                current
            };
            assert(conv_fits(res2@[p - 1], start, frames as int, 64));
            let group = res2[p - 1];
            match run_conv_relu(plan, input, frames, &group, Ghost(start), Ghost(64)) {
                Err(message) => {
                    proof {
                        assert(groups(h, frames as int, res2@, start, (p + 1) as nat)
                            == Groups::Failed(message@));
                        lemma_groups_failed(
                            h,
                            frames as int,
                            res2@,
                            start,
                            (p + 1) as nat,
                            8,
                            message@,
                        );
                    }
                    return Err(message);
                },
                Ok(output) => {
                    proof {
                        assert(64 * frames <= frames * group.out_channels) by (nonlinear_arith)
                            requires
                                64 <= group.out_channels,
                                frames >= 0,
                        ;
                    }
                    output
                },
            }
        };
        plan.append_channel_block(output, merged, 64, 512, (p * 64) as u32, frames as u32);
        previous = output;
    }
    Ok(merged)
}

/// How much each channel of a block counts, from its mean.
pub open spec fn gate_step(hidden: Term, frames: int, block: SeRes2Block, plan: Plan) -> Signal {
    let mean = channel_mean(hidden, 512, frames as u32);
    match conv_step(
        conv_relu_step(Signal::Of { value: mean, size: 512 }, 1, block.se1, plan),
        1,
        block.se2,
        plan,
    ) {
        Signal::Failed(message) => Signal::Failed(message),
        Signal::Of { value, size } => Signal::Of { value: sigmoid(value, size as u32), size },
    }
}

/// A whole block: groups, gate, and the input added back.
pub open spec fn block_step(s: Signal, frames: int, block: SeRes2Block, plan: Plan) -> Signal {
    match s {
        Signal::Failed(_) => s,
        Signal::Of { value: x, .. } => match conv_relu_step(s, frames, block.tdnn1, plan) {
            Signal::Failed(message) => Signal::Failed(message),
            Signal::Of { value: hidden, .. } => match groups(hidden, frames, block.res2@, plan, 8) {
                Groups::Failed(message) => Signal::Failed(message),
                Groups::Of { merged, .. } => match conv_relu_step(
                    Signal::Of { value: merged, size: 512 * frames },
                    frames,
                    block.tdnn2,
                    plan,
                ) {
                    Signal::Failed(message) => Signal::Failed(message),
                    Signal::Of { value: hidden, .. } => match gate_step(
                        hidden,
                        frames,
                        block,
                        plan,
                    ) {
                        Signal::Failed(message) => Signal::Failed(message),
                        Signal::Of { value: gate, .. } => Signal::Of {
                            value: add_f16(
                                channel_scale(hidden, gate, 512, frames as u32),
                                x,
                                (512 * frames) as u32,
                            ),
                            size: 512 * frames,
                        },
                    },
                },
            },
        },
    }
}

/// `conv` makes at least `out` channels of `frames` frames, so its output
/// holds that many.
proof fn lemma_enough(frames: int, out: int, channels: int)
    requires
        0 <= frames,
        out <= channels,
    ensures
        out * frames <= frames * channels,
{
    assert(out * frames <= frames * channels) by (nonlinear_arith)
        requires
            0 <= frames,
            out <= channels,
    ;
}

impl SeRes2Block {
    /// The weights exist, and `frames` frames can be counted in 32 bits.
    pub open spec fn fits(self, plan: Plan, frames: int) -> bool {
        &&& conv_fits(self.tdnn1, plan, frames, 512)
        &&& conv_fits(self.tdnn2, plan, frames, 512)
        &&& conv_fits(self.se1, plan, 1, 0)
        &&& conv_fits(self.se2, plan, 1, 512)
        &&& self.res2@.len() == 7
        &&& forall|i: int| 0 <= i < 7 ==> conv_fits(#[trigger] self.res2@[i], plan, frames, 64)
    }

    /// Computes how much each channel counts. The result names its buffer.
    fn gate(&self, plan: &mut Plan, hidden: usize, frames: usize, Ghost(start): Ghost<Plan>) -> (
    outcome: Result<usize, String>)
        requires
            old(plan).wf(),
            extends(start, *old(plan)),
            holds(*old(plan), hidden, 512 * frames),
            512 * frames <= u32::MAX,
            self.fits(start, frames as int),
        ensures
            final(plan).wf(),
            extends(*old(plan), *final(plan)),
            final(plan).values().len() <= old(plan).values().len() + 7,
            match outcome {
                Err(message) => gate_step(
                    old(plan).values()[hidden as int],
                    frames as int,
                    *self,
                    start,
                ) == Signal::Failed(message@),
                Ok(gate) => {
                    &&& holds(*final(plan), gate, 512)
                    &&& gate_step(old(plan).values()[hidden as int], frames as int, *self, start)
                        == signal(*final(plan), gate)
                },
            },
    {
        let mean: usize = plan.zeros(512);
        plan.channel_mean(hidden, mean, 512, frames as u32);
        let squeezed: usize = match run_conv_relu(plan, mean, 1, &self.se1, Ghost(start), Ghost(0)) {
            Err(message) => {
                return Err(message);
            },
            Ok(squeezed) => squeezed,
        };
        let scale: usize = match run_conv(plan, squeezed, 1, &self.se2, Ghost(start), Ghost(512)) {
            Err(message) => {
                return Err(message);
            },
            Ok(scale) => scale,
        };
        let n: u32 = plan.size(scale) as u32;
        plan.sigmoid(scale, n);
        Ok(scale)
    }

    /// Runs the block over `frames` frames. The result names the buffer of
    /// its output.
    fn se_res2(&self, plan: &mut Plan, input: usize, frames: usize, Ghost(start): Ghost<Plan>) -> (
    outcome: Result<usize, String>)
        requires
            old(plan).wf(),
            extends(start, *old(plan)),
            holds(*old(plan), input, 512 * frames),
            512 * frames <= u32::MAX,
            self.fits(start, frames as int),
        ensures
            final(plan).wf(),
            extends(*old(plan), *final(plan)),
            final(plan).values().len() <= old(plan).values().len() + 56,
            match outcome {
                Err(message) => block_step(
                    signal(*old(plan), input),
                    frames as int,
                    *self,
                    start,
                ) == Signal::Failed(message@),
                Ok(output) => {
                    &&& old(plan).values().len() <= output < final(plan).values().len()
                    &&& final(plan).sizes()[output as int] == 512 * frames
                    &&& block_step(signal(*old(plan), input), frames as int, *self, start)
                        == signal(*final(plan), output)
                },
            },
    {
        let hidden: usize = match run_conv_relu(
            plan,
            input,
            frames,
            &self.tdnn1,
            Ghost(start),
            Ghost(512),
        ) {
            Err(message) => {
                return Err(message);
            },
            Ok(hidden) => hidden,
        };
        proof {
            lemma_enough(frames as int, 512, self.tdnn1.out_channels as int);
        }
        let merged: usize = match run_groups(plan, hidden, frames, &self.res2, Ghost(start)) {
            Err(message) => {
                return Err(message);
            },
            Ok(merged) => merged,
        };
        let hidden: usize = match run_conv_relu(
            plan,
            merged,
            frames,
            &self.tdnn2,
            Ghost(start),
            Ghost(512),
        ) {
            Err(message) => {
                return Err(message);
            },
            Ok(hidden) => hidden,
        };
        proof {
            lemma_enough(frames as int, 512, self.tdnn2.out_channels as int);
        }
        let gate: usize = match self.gate(plan, hidden, frames, Ghost(start)) {
            Err(message) => {
                return Err(message);
            },
            Ok(gate) => gate,
        };
        let scaled: usize = plan.zeros(512 * frames);
        plan.channel_scale(hidden, gate, scaled, 512, frames as u32);
        let output: usize = plan.zeros(512 * frames);
        plan.add_f16(scaled, input, output, (512 * frames) as u32);
        Ok(output)
    }
}

/// The last block's output and all outputs side by side, or a failure.
pub enum Aggregate {
    Failed(Seq<char>),
    Of { hidden: Signal, aggregated: Term },
}

impl SpeakerEncoder {
    /// The weights exist, and `frames` frames can be counted in 32 bits.
    pub open spec fn fits(self, plan: Plan, frames: int) -> bool {
        &&& conv_fits(self.initial, plan, frames, 512)
        &&& self.blocks@.len() == 3
        &&& forall|i: int| 0 <= i < 3 ==> (#[trigger] self.blocks@[i]).fits(plan, frames)
        &&& conv_fits(self.mfa, plan, frames, 1536)
        &&& conv_fits(self.asp_tdnn, plan, frames, 0)
        &&& conv_fits(self.asp_conv, plan, frames, 1536)
        &&& conv_fits(self.fc, plan, 1, 2048)
        &&& 4608 * frames <= u32::MAX
    }

    /// The first `n` blocks after the first convolution.
    pub open spec fn aggregate(self, plan: Plan, x: Term, frames: int, n: nat) -> Aggregate
        decreases n,
    {
        if n == 0 {
            match conv_relu_step(
                Signal::Of { value: x, size: 128 * frames },
                frames,
                self.initial,
                plan,
            ) {
                Signal::Failed(message) => Aggregate::Failed(message),
                Signal::Of { value, size } => Aggregate::Of {
                    hidden: Signal::Of { value, size },
                    aggregated: Term::Zeros((1536 * frames) as nat),
                },
            }
        } else {
            match self.aggregate(plan, x, frames, (n - 1) as nat) {
                Aggregate::Failed(message) => Aggregate::Failed(message),
                Aggregate::Of { hidden, aggregated } => match block_step(
                    hidden,
                    frames,
                    self.blocks@[n - 1],
                    plan,
                ) {
                    Signal::Failed(message) => Aggregate::Failed(message),
                    Signal::Of { value, size } => Aggregate::Of {
                        hidden: Signal::Of { value, size },
                        aggregated: append_channel_block(
                            value,
                            aggregated,
                            512,
                            1536,
                            (512 * (n - 1)) as u32,
                            frames as u32,
                        ),
                    },
                },
            }
        }
    }

    /// The weights over time of every channel.
    pub open spec fn attention(self, plan: Plan, hidden: Term, frames: int) -> Signal {
        let context = append_context(
            hidden,
            channel_stats_mean(hidden, 1536, frames as u32),
            channel_stats_stddev(hidden, 1536, frames as u32),
            1536,
            frames as u32,
        );
        match conv_relu_step(
            Signal::Of { value: context, size: 4608 * frames },
            frames,
            self.asp_tdnn,
            plan,
        ) {
            Signal::Failed(message) => Signal::Failed(message),
            Signal::Of { value, size } => match conv_step(
                Signal::Of { value: tanh(value, size as u32), size },
                frames,
                self.asp_conv,
                plan,
            ) {
                Signal::Failed(message) => Signal::Failed(message),
                Signal::Of { value, size } => Signal::Of {
                    value: softmax_channels(value, 1536, frames as u32),
                    size,
                },
            },
        }
    }

    /// Weighted mean and deviation of every channel, one after the other.
    pub open spec fn pooled(self, hidden: Term, attention: Term, frames: u32) -> Term {
        append_channel_block(
            weighted_channel_stats_stddev(hidden, attention, 1536, frames),
            append_channel_block(
                weighted_channel_stats_mean(hidden, attention, 1536, frames),
                Term::Zeros(3072),
                1536,
                3072,
                0,
                1,
            ),
            1536,
            3072,
            1536,
            1,
        )
    }

    /// The voice embedding of a spectrogram.
    pub open spec fn embedding(self, plan: Plan, x: Term, frames: int) -> Signal {
        match self.aggregate(plan, x, frames, 3) {
            Aggregate::Failed(message) => Signal::Failed(message),
            Aggregate::Of { aggregated, .. } => match conv_relu_step(
                Signal::Of { value: aggregated, size: 1536 * frames },
                frames,
                self.mfa,
                plan,
            ) {
                Signal::Failed(message) => Signal::Failed(message),
                Signal::Of { value: hidden, .. } => match self.attention(plan, hidden, frames) {
                    Signal::Failed(message) => Signal::Failed(message),
                    Signal::Of { value: attention, .. } => conv_step(
                        Signal::Of {
                            value: self.pooled(hidden, attention, frames as u32),
                            size: 3072,
                        },
                        1,
                        self.fc,
                        plan,
                    ),
                },
            },
        }
    }

    /// Runs the blocks. The result names the buffer of all outputs.
    fn run_blocks(&self, plan: &mut Plan, input: usize, frames: usize, Ghost(start): Ghost<Plan>) -> (
    outcome: Result<usize, String>)
        requires
            old(plan).wf(),
            extends(start, *old(plan)),
            input < old(plan).values().len(),
            old(plan).sizes()[input as int] == 128 * frames,
            self.fits(start, frames as int),
        ensures
            final(plan).wf(),
            extends(*old(plan), *final(plan)),
            final(plan).values().len() <= old(plan).values().len() + 172,
            match outcome {
                Err(message) => self.aggregate(
                    start,
                    old(plan).values()[input as int],
                    frames as int,
                    3,
                ) == Aggregate::Failed(message@),
                Ok(output) => {
                    &&& output < final(plan).values().len()
                    &&& final(plan).sizes()[output as int] == 1536 * frames
                    &&& self.aggregate(
                        start,
                        old(plan).values()[input as int],
                        frames as int,
                        3,
                    ) matches Aggregate::Of { hidden, aggregated }
                        && final(plan).values()[output as int] == aggregated
                },
            },
    {
        let ghost entry = *plan;
        let ghost x = plan.values()[input as int];
        let ghost base = plan.values().len() as int;
        let mut hidden: usize = match run_conv_relu(
            plan,
            input,
            frames,
            &self.initial,
            Ghost(start),
            Ghost(512),
        ) {
            Err(message) => {
                proof {
                    reveal_with_fuel(SpeakerEncoder::aggregate, 4);
                }
                return Err(message);
            },
            Ok(hidden) => hidden,
        };
        proof {
            lemma_enough(frames as int, 512, self.initial.out_channels as int);
        }
        let aggregated: usize = plan.zeros(1536 * frames);
        for i in 0..3usize
            invariant
                plan.wf(),
                entry == *old(plan),
                x == entry.values()[input as int],
                base == entry.values().len(),
                self.fits(start, frames as int),
                extends(start, entry),
                extends(entry, *plan),
                base <= hidden < plan.values().len(),
                base <= aggregated < plan.values().len(),
                hidden != aggregated,
                plan.values().len() <= base + 4 + 56 * i,
                plan.sizes()[aggregated as int] == 1536 * frames,
                holds(*plan, hidden, 512 * frames),
                self.aggregate(start, x, frames as int, i as nat) == (Aggregate::Of {
                    hidden: signal(*plan, hidden),
                    aggregated: plan.values()[aggregated as int],
                }),
        {
            assert(self.blocks@[i as int].fits(start, frames as int));
            proof {
                assert((512 * i + 512) * frames <= 1536 * frames) by (nonlinear_arith)
                    requires
                        i < 3,
                        frames >= 0,
                ;
            }
            let output: usize = match self.blocks[i].se_res2(plan, hidden, frames, Ghost(start)) {
                Err(message) => {
                    proof {
                        assert(self.aggregate(start, x, frames as int, (i + 1) as nat)
                            == Aggregate::Failed(message@));
                        self.lemma_failed(start, x, frames as int, (i + 1) as nat, message@);
                    }
                    return Err(message);
                },
                Ok(output) => output,
            };
            plan.append_channel_block(
                output,
                aggregated,
                512,
                1536,
                (i * 512) as u32,
                frames as u32,
            );
            hidden = output;
        }
        Ok(aggregated)
    }

    /// A failure of one block is the failure of all that follow.
    proof fn lemma_failed(self, plan: Plan, x: Term, frames: int, n: nat, message: Seq<char>)
        requires
            n <= 3,
            self.aggregate(plan, x, frames, n) == Aggregate::Failed(message),
        ensures
            self.aggregate(plan, x, frames, 3) == Aggregate::Failed(message),
        decreases 3 - n,
    {
        if n < 3 {
            assert(self.aggregate(plan, x, frames, (n + 1) as nat) == Aggregate::Failed(message));
            self.lemma_failed(plan, x, frames, (n + 1) as nat, message);
        }
    }

    /// Extracts the voice embedding of a spectrogram of `frames` frames of 128
    /// bins. The channel-first spectrogram becomes a given buffer; the result
    /// names the buffer of the embedding.
    pub fn encode_mel(&self, plan: &mut Plan, mel_len: usize, frames: usize) -> (outcome: Result<
        usize,
        String,
    >)
        requires
            old(plan).wf(),
            self.fits(*old(plan), frames as int),
        ensures
            final(plan).wf(),
            extends(*old(plan), *final(plan)),
            match outcome {
                Err(message) => if frames == 0 {
                    message@ == "speaker mel has no frames"@
                } else if mel_len != frames * 128 {
                    message@ == "speaker mel has "@ + decimal(mel_len as nat)
                        + " values, expected "@ + decimal((frames * 128) as nat)
                } else {
                    self.embedding(
                        *old(plan),
                        Term::Given(old(plan).steps().len()),
                        frames as int,
                    ) == Signal::Failed(message@)
                },
                Ok(output) => {
                    &&& frames > 0
                    &&& mel_len == frames * 128
                    &&& sized(*final(plan), output, self.fc.out_channels as int)
                    &&& self.embedding(
                        *old(plan),
                        Term::Given(old(plan).steps().len()),
                        frames as int,
                    ) == signal(*final(plan), output)
                },
            },
    {
        if frames == 0 {
            return Err("speaker mel has no frames".to_owned());
        }
        if mel_len != frames * 128 {
            return Err(
                "speaker mel has ".to_owned().concat(&to_decimal(mel_len as u64)).concat(
                    " values, expected ",
                ).concat(&to_decimal((frames * 128) as u64)),
            );
        }
        let ghost start = *plan;
        let n: u32 = frames as u32;
        let input: usize = plan.given(mel_len);
        let aggregated: usize = match self.run_blocks(plan, input, frames, Ghost(start)) {
            Err(message) => {
                return Err(message);
            },
            Ok(aggregated) => aggregated,
        };
        let hidden: usize = match run_conv_relu(
            plan,
            aggregated,
            frames,
            &self.mfa,
            Ghost(start),
            Ghost(1536),
        ) {
            Err(message) => {
                return Err(message);
            },
            Ok(hidden) => hidden,
        };
        proof {
            lemma_enough(frames as int, 1536, self.mfa.out_channels as int);
            lemma_enough(frames as int, 1536, self.asp_conv.out_channels as int);
        }
        let mean: usize = plan.zeros(1536);
        let stddev: usize = plan.zeros(1536);
        plan.channel_stats(hidden, mean, stddev, 1536, n);
        let context: usize = plan.zeros(4608 * frames);
        plan.append_context(hidden, mean, stddev, context, 1536, n);
        let attention: usize = match run_conv_relu(
            plan,
            context,
            frames,
            &self.asp_tdnn,
            Ghost(start),
            Ghost(0),
        ) {
            Err(message) => {
                return Err(message);
            },
            Ok(attention) => attention,
        };
        let width: u32 = plan.size(attention) as u32;
        plan.tanh(attention, width);
        let attention: usize = match run_conv(
            plan,
            attention,
            frames,
            &self.asp_conv,
            Ghost(start),
            Ghost(1536),
        ) {
            Err(message) => {
                return Err(message);
            },
            Ok(attention) => attention,
        };
        plan.softmax_channels(attention, 1536, n);
        plan.weighted_channel_stats(hidden, attention, mean, stddev, 1536, n);
        let pooled: usize = plan.zeros(3072);
        plan.append_channel_block(mean, pooled, 1536, 3072, 0, 1);
        plan.append_channel_block(stddev, pooled, 1536, 3072, 1536, 1);
        run_conv(plan, pooled, 1, &self.fc, Ghost(start), Ghost(2048))
    }
}

} // verus!
