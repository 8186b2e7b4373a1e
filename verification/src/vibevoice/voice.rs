//! Voice prompts: hidden states and caches to start from.
use vstd::prelude::*;
use vstd::string::*;
use crate::text::{bracketed, decimal, to_bracketed, to_decimal};
use crate::vibevoice::config::VibeVoiceConfig;
use crate::weights::same_shape;

verus! {

/// A tensor with its values, by the bits of half a single-precision number
/// each.
#[derive(Debug)]
pub struct PromptTensor {
    pub shape: Vec<usize>,
    pub bits: Vec<u16>,
}

/// The cached keys and values of a layer.
#[derive(Debug)]
pub struct VibeVoicePromptKv {
    pub key: Vec<u16>,
    pub value: Vec<u16>,
    pub tokens: usize,
}

/// Where one of the stacks starts from.
#[derive(Debug)]
pub struct VibeVoicePromptBranch {
    pub last_hidden_state: Vec<u16>,
    pub tokens: usize,
    pub layers: Vec<VibeVoicePromptKv>,
}

/// Where all stacks start from.
#[derive(Debug)]
pub struct VibeVoicePrompt {
    pub lm: VibeVoicePromptBranch,
    pub tts_lm: VibeVoicePromptBranch,
    pub negative_lm: VibeVoicePromptBranch,
    pub negative_tts_lm: VibeVoicePromptBranch,
}

/// The tensors of one branch as they were read.
#[derive(Debug)]
pub struct BranchTensors {
    pub hidden: PromptTensor,
    /// Keys and values of every layer.
    pub layers: Vec<(PromptTensor, PromptTensor)>,
}

/// The name of the hidden states of a branch.
pub open spec fn hidden_name(prefix: Seq<char>) -> Seq<char> {
    prefix + ".last_hidden_state"@
}

/// The name of the keys or values of a layer.
pub open spec fn cache_name(prefix: Seq<char>, part: Seq<char>, layer: int) -> Seq<char> {
    prefix + part + decimal(layer as nat)
}

/// The name of the hidden states of a branch.
pub fn to_hidden_name(prefix: &str) -> (name: String)
    ensures
        name@ == hidden_name(prefix@),
{
    prefix.to_owned().concat(".last_hidden_state")
}

/// The names of the keys and values of a layer.
pub fn to_cache_names(prefix: &str, layer: usize) -> (names: (String, String))
    ensures
        names.0@ == cache_name(prefix@, ".key."@, layer as int),
        names.1@ == cache_name(prefix@, ".value."@, layer as int),
{
    (
        prefix.to_owned().concat(".key.").concat(&to_decimal(layer as u64)),
        prefix.to_owned().concat(".value.").concat(&to_decimal(layer as u64)),
    )
}

/// What is wrong with the hidden states of a branch, if anything is.
pub open spec fn hidden_fault(prefix: Seq<char>, shape: Seq<usize>, width: usize) -> Option<Seq<char>> {
    if !(shape.len() == 3 && shape[0] == 1 && shape[2] == width) {
        Some(
            hidden_name(prefix) + " has shape "@ + bracketed(shape) + ", expected [1, tokens, "@
                + decimal(width as nat) + "]"@,
        )
    } else if shape[1] == 0 {
        Some(prefix + " prompt is empty"@)
    } else {
        None
    }
}

/// What is wrong with the keys or values of a layer, if anything is.
pub open spec fn cache_fault(name: Seq<char>, shape: Seq<usize>, wanted: Seq<usize>) -> Option<Seq<char>> {
    if shape != wanted {
        Some(name + " has shape "@ + bracketed(shape) + ", expected "@ + bracketed(wanted))
    } else {
        None
    }
}

/// The shape of the keys and values of a branch.
pub open spec fn cache_shape(config: VibeVoiceConfig, tokens: usize) -> Seq<usize> {
    seq![
        1,
        config.decoder_config.num_key_value_heads,
        tokens,
        (config.decoder_config.hidden_size as int / config.decoder_config.num_attention_heads as int)
            as usize,
    ]
}

/// What is wrong with the first `n` layers of a branch, if anything is.
pub open spec fn layers_fault(
    prefix: Seq<char>,
    layers: Seq<(PromptTensor, PromptTensor)>,
    wanted: Seq<usize>,
    n: int,
) -> Option<Seq<char>>
    decreases n,
{
    if n <= 0 {
        None
    } else if layers_fault(prefix, layers, wanted, n - 1) is Some {
        layers_fault(prefix, layers, wanted, n - 1)
    } else {
        let key = cache_fault(
            cache_name(prefix, ".key."@, n - 1),
            layers[n - 1].0.shape@,
            wanted,
        );
        if key is Some {
            key
        } else {
            cache_fault(
                cache_name(prefix, ".value."@, n - 1),
                layers[n - 1].1.shape@,
                wanted,
            )
        }
    }
}

proof fn lemma_layers_fault(
    prefix: Seq<char>,
    layers: Seq<(PromptTensor, PromptTensor)>,
    wanted: Seq<usize>,
    m: int,
    n: int,
)
    requires
        0 <= m <= n,
        layers_fault(prefix, layers, wanted, m) is Some,
    ensures
        layers_fault(prefix, layers, wanted, n) == layers_fault(prefix, layers, wanted, m),
    decreases n,
{
    if m < n {
        lemma_layers_fault(prefix, layers, wanted, m, n - 1);
    }
}

/// What is wrong with a branch, if anything is.
pub open spec fn branch_fault(prefix: Seq<char>, tensors: BranchTensors, config: VibeVoiceConfig) -> Option<
    Seq<char>,
> {
    let hidden = hidden_fault(prefix, tensors.hidden.shape@, config.decoder_config.hidden_size);
    if hidden is Some {
        hidden
    } else {
        layers_fault(
            prefix,
            tensors.layers@,
            cache_shape(config, tensors.hidden.shape@[1]),
            tensors.layers@.len() as int,
        )
    }
}

/// `branch` holds these tensors.
pub open spec fn is_branch(branch: VibeVoicePromptBranch, tensors: BranchTensors) -> bool {
    &&& branch.last_hidden_state == tensors.hidden.bits
    &&& branch.tokens == tensors.hidden.shape@[1]
    &&& branch.layers@.len() == tensors.layers@.len()
    &&& forall|i: int|
        0 <= i < branch.layers@.len() ==> {
            &&& (#[trigger] branch.layers@[i]).key == tensors.layers@[i].0.bits
            &&& branch.layers@[i].value == tensors.layers@[i].1.bits
            &&& branch.layers@[i].tokens == branch.tokens
        }
}

/// Checks the shape of the keys or values of a layer.
fn check_cache(name: String, shape: &Vec<usize>, wanted: &Vec<usize>) -> (outcome: Result<(), String>)
    ensures
        match outcome {
            Ok(_) => cache_fault(name@, shape@, wanted@) is None,
            Err(message) => cache_fault(name@, shape@, wanted@) == Some(message@),
        },
{
    if same_shape(shape.as_slice(), wanted.as_slice()) {
        Ok(())
    } else {
        Err(
            name.concat(" has shape ").concat(&to_bracketed(shape.as_slice())).concat(
                ", expected ",
            ).concat(&to_bracketed(wanted.as_slice())),
        )
    }
}

/// Checks the tensors of a branch.
fn check_branch(prefix: &str, tensors: &BranchTensors, config: &VibeVoiceConfig) -> (outcome: Result<
    usize,
    String,
>)
    requires
        config.decoder_config.num_attention_heads > 0,
    ensures
        match outcome {
            Ok(tokens) => branch_fault(prefix@, *tensors, *config) is None && tokens
                == tensors.hidden.shape@[1],
            Err(message) => branch_fault(prefix@, *tensors, *config) == Some(message@),
        },
{
    let shape = &tensors.hidden.shape;
    let width: usize = config.decoder_config.hidden_size;
    if !(shape.len() == 3 && shape[0] == 1 && shape[2] == width) {
        return Err(
            to_hidden_name(prefix).concat(" has shape ").concat(
                &to_bracketed(shape.as_slice()),
            ).concat(", expected [1, tokens, ").concat(&to_decimal(width as u64)).concat("]"),
        );
    }
    let tokens: usize = shape[1];
    if tokens == 0 {
        return Err(prefix.to_owned().concat(" prompt is empty"));
    }
    let head_dim: usize = config.head_dim();
    let wanted: Vec<usize> = vec![1, config.decoder_config.num_key_value_heads, tokens, head_dim];
    assert(wanted@ =~= cache_shape(*config, tokens));
    let ghost n = tensors.layers@.len() as int;
    for i in 0..tensors.layers.len()
        invariant
            wanted@ == cache_shape(*config, tokens),
            n == tensors.layers@.len(),
            tokens == tensors.hidden.shape@[1],
            hidden_fault(
                prefix@,
                tensors.hidden.shape@,
                config.decoder_config.hidden_size,
            ) is None,
            layers_fault(prefix@, tensors.layers@, wanted@, i as int) is None,
    {
        let (key_name, value_name) = to_cache_names(prefix, i);
        match check_cache(key_name, &tensors.layers[i].0.shape, &wanted) {
            Ok(_) => {},
            Err(message) => {
                proof {
                    lemma_layers_fault(prefix@, tensors.layers@, wanted@, i + 1, n);
                }
                return Err(message);
            },
        }
        match check_cache(value_name, &tensors.layers[i].1.shape, &wanted) {
            Ok(_) => {},
            Err(message) => {
                proof {
                    lemma_layers_fault(prefix@, tensors.layers@, wanted@, i + 1, n);
                }
                return Err(message);
            },
        }
    }
    Ok(tokens)
}

/// Takes the values of checked layers.
fn take_layers(layers: Vec<(PromptTensor, PromptTensor)>, tokens: usize) -> (out: Vec<
    VibeVoicePromptKv,
>)
    ensures
        out@.len() == layers@.len(),
        forall|i: int|
            0 <= i < out@.len() ==> {
                &&& (#[trigger] out@[i]).key == layers@[i].0.bits
                &&& out@[i].value == layers@[i].1.bits
                &&& out@[i].tokens == tokens
            },
{
    let mut rest = layers;
    let mut reversed: Vec<VibeVoicePromptKv> = Vec::new();
    let ghost all = layers@;
    while rest.len() > 0
        invariant
            rest@.len() + reversed@.len() == all.len(),
            rest@ == all.take(rest@.len() as int),
            forall|i: int|
                0 <= i < reversed@.len() ==> {
                    &&& (#[trigger] reversed@[i]).key == all[all.len() - 1 - i].0.bits
                    &&& reversed@[i].value == all[all.len() - 1 - i].1.bits
                    &&& reversed@[i].tokens == tokens
                },
        decreases rest@.len(),
    {
        let ghost before = rest@;
        match rest.pop() {
            Some((key, value)) => {
                assert(before.drop_last() =~= all.take(before.len() - 1));
                reversed.push(VibeVoicePromptKv { key: key.bits, value: value.bits, tokens });
            },
            None => {},
        }
    }
    let ghost flipped = reversed@;
    let mut out: Vec<VibeVoicePromptKv> = Vec::new();
    while reversed.len() > 0
        invariant
            flipped.len() == all.len(),
            reversed@.len() + out@.len() == all.len(),
            reversed@ == flipped.take(reversed@.len() as int),
            forall|i: int|
                0 <= i < flipped.len() ==> {
                    &&& (#[trigger] flipped[i]).key == all[all.len() - 1 - i].0.bits
                    &&& flipped[i].value == all[all.len() - 1 - i].1.bits
                    &&& flipped[i].tokens == tokens
                },
            forall|i: int|
                0 <= i < out@.len() ==> #[trigger] out@[i] == flipped[flipped.len() - 1 - i],
        decreases reversed@.len(),
    {
        let ghost before = reversed@;
        match reversed.pop() {
            Some(layer) => {
                assert(before.drop_last() =~= flipped.take(before.len() - 1));
                out.push(layer);
            },
            None => {},
        }
    }
    out
}

/// Checks a branch and takes its values.
pub fn load_branch(prefix: &str, tensors: BranchTensors, config: &VibeVoiceConfig) -> (outcome: Result<
    VibeVoicePromptBranch,
    String,
>)
    requires
        config.decoder_config.num_attention_heads > 0,
    ensures
        match outcome {
            Ok(branch) => branch_fault(prefix@, tensors, *config) is None && is_branch(
                branch,
                tensors,
            ),
            Err(message) => branch_fault(prefix@, tensors, *config) == Some(message@),
        },
{
    match check_branch(prefix, &tensors, config) {
        Err(message) => Err(message),
        Ok(tokens) => {
            let BranchTensors { hidden, layers } = tensors;
            let taken = take_layers(layers, tokens);
            Ok(VibeVoicePromptBranch { last_hidden_state: hidden.bits, tokens, layers: taken })
        },
    }
}

/// The four branches of a prompt: the text and speech stacks, and the same two
/// without the prompt's content.
pub open spec fn branch_prefix(i: int) -> Seq<char> {
    if i == 0 {
        "lm"@
    } else if i == 1 {
        "tts_lm"@
    } else if i == 2 {
        "neg_lm"@
    } else {
        "neg_tts_lm"@
    }
}

/// How many layers branch `i` has: those of the text stack or of the speech
/// stack.
pub open spec fn branch_layers(i: int, config: VibeVoiceConfig) -> int {
    if i == 0 || i == 2 {
        config.decoder_config.num_hidden_layers - config.tts_backbone_num_hidden_layers
    } else {
        config.tts_backbone_num_hidden_layers as int
    }
}

/// The name and the number of layers of branch `i`.
pub fn branch_geometry(i: usize, config: &VibeVoiceConfig) -> (geometry: (&'static str, usize))
    requires
        i < 4,
        config.tts_backbone_num_hidden_layers <= config.decoder_config.num_hidden_layers,
    ensures
        geometry.0@ == branch_prefix(i as int),
        geometry.1 == branch_layers(i as int, *config),
{
    match i {
        0 => ("lm", config.text_layers()),
        1 => ("tts_lm", config.tts_backbone_num_hidden_layers),
        2 => ("neg_lm", config.text_layers()),
        _ => ("neg_tts_lm", config.tts_backbone_num_hidden_layers),
    }
}

impl VibeVoicePrompt {
    /// Checks the four branches, in order, and takes their values.
    pub fn load(
        lm: BranchTensors,
        tts_lm: BranchTensors,
        negative_lm: BranchTensors,
        negative_tts_lm: BranchTensors,
        config: &VibeVoiceConfig,
    ) -> (outcome: Result<Self, String>)
        requires
            config.decoder_config.num_attention_heads > 0,
            lm.layers@.len() == branch_layers(0, *config),
            tts_lm.layers@.len() == branch_layers(1, *config),
            negative_lm.layers@.len() == branch_layers(2, *config),
            negative_tts_lm.layers@.len() == branch_layers(3, *config),
        ensures
            ({
                let a = branch_fault("lm"@, lm, *config);
                let b = branch_fault("tts_lm"@, tts_lm, *config);
                let c = branch_fault("neg_lm"@, negative_lm, *config);
                let d = branch_fault("neg_tts_lm"@, negative_tts_lm, *config);
                match outcome {
                    Ok(prompt) => {
                        &&& a is None && b is None && c is None && d is None
                        &&& is_branch(prompt.lm, lm)
                        &&& is_branch(prompt.tts_lm, tts_lm)
                        &&& is_branch(prompt.negative_lm, negative_lm)
                        &&& is_branch(prompt.negative_tts_lm, negative_tts_lm)
                    },
                    Err(message) => Some(message@) == (if a is Some {
                        a
                    } else if b is Some {
                        b
                    } else if c is Some {
                        c
                    } else {
                        d
                    }),
                }
            }),
    {
        let first = match load_branch("lm", lm, config) {
            Ok(branch) => branch,
            Err(message) => {
                return Err(message);
            },
        };
        let second = match load_branch("tts_lm", tts_lm, config) {
            Ok(branch) => branch,
            Err(message) => {
                return Err(message);
            },
        };
        let third = match load_branch("neg_lm", negative_lm, config) {
            Ok(branch) => branch,
            Err(message) => {
                return Err(message);
            },
        };
        let fourth = match load_branch("neg_tts_lm", negative_tts_lm, config) {
            Ok(branch) => branch,
            Err(message) => {
                return Err(message);
            },
        };
        Ok(
            VibeVoicePrompt {
                lm: first,
                tts_lm: second,
                negative_lm: third,
                negative_tts_lm: fourth,
            },
        )
    }

    /// How many tokens the prompt has, all branches together.
    pub fn total_tokens(&self) -> (n: usize)
        requires
            self.lm.tokens + self.tts_lm.tokens + self.negative_lm.tokens
                + self.negative_tts_lm.tokens <= usize::MAX,
        ensures
            n == self.lm.tokens + self.tts_lm.tokens + self.negative_lm.tokens
                + self.negative_tts_lm.tokens,
    {
        self.lm.tokens + self.tts_lm.tokens + self.negative_lm.tokens + self.negative_tts_lm.tokens
    }
}

} // verus!
