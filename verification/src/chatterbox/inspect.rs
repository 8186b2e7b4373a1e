//! Inspection of a model directory: which tensors must be there, and in which
//! shapes.
use vstd::prelude::*;
use vstd::string::*;
use crate::catalog::{TensorInfo, sum_bytes, total_bytes};
use crate::number::{all_finite, are_finite};
use crate::text::{bracketed, decimal, same, to_bracketed};
use crate::weights::{Absence, Complaint, Loader, Tensor, labelled, same_shape};

verus! {

/// A tensor that an inspection looks for.
pub struct Check {
    pub name: String,
    pub shape: Vec<usize>,
    /// Whether the complaint names the expected shape.
    pub tells: bool,
}

/// [`Check`] over plain sequences.
pub struct Expected {
    pub name: Seq<char>,
    pub shape: Seq<usize>,
    pub tells: bool,
}

impl Check {
    pub open spec fn view(&self) -> Expected {
        Expected { name: self.name@, shape: self.shape@, tells: self.tells }
    }
}

/// The shape of the first tensor of a name.
pub open spec fn first_shape(tensors: Seq<TensorInfo>, name: Seq<char>) -> Option<Seq<usize>>
    decreases tensors.len(),
{
    if tensors.len() == 0 {
        None
    } else if tensors[0].name@ == name {
        Some(tensors[0].shape@)
    } else {
        first_shape(tensors.drop_first(), name)
    }
}

/// Why a check fails, if it does.
pub open spec fn check_fault(tensors: Seq<TensorInfo>, check: Expected) -> Option<Seq<char>> {
    match first_shape(tensors, check.name) {
        None => Some("Chatterbox V3 T3 is missing "@ + check.name),
        Some(shape) => if shape == check.shape {
            None
        } else if check.tells {
            Some(
                "Chatterbox V3 "@ + check.name + " has shape "@ + bracketed(shape) + ", expected "@
                    + bracketed(check.shape),
            )
        } else {
            Some("Chatterbox V3 "@ + check.name + " has unexpected shape "@ + bracketed(shape))
        },
    }
}

/// The fault of the first of `n` checks that fails.
pub open spec fn checks_fault(tensors: Seq<TensorInfo>, checks: Seq<Expected>, n: nat) -> Option<
    Seq<char>,
>
    decreases n,
{
    if n == 0 {
        None
    } else if checks_fault(tensors, checks, (n - 1) as nat) is Some {
        checks_fault(tensors, checks, (n - 1) as nat)
    } else {
        check_fault(tensors, checks[n - 1])
    }
}

/// Once a check has failed, its fault is the answer.
proof fn lemma_fault_stays(tensors: Seq<TensorInfo>, checks: Seq<Expected>, n: nat, m: nat)
    requires
        n <= m,
        checks_fault(tensors, checks, n) is Some,
    ensures
        checks_fault(tensors, checks, m) == checks_fault(tensors, checks, n),
    decreases m,
{
    if n < m {
        lemma_fault_stays(tensors, checks, n, (m - 1) as nat);
    }
}

/// The tensors of T3 that an inspection looks for.
pub open spec fn t3_checks() -> Seq<Expected> {
    seq![
        Expected { name: "text_emb.weight"@, shape: seq![2454, 1024], tells: true },
        Expected { name: "speech_emb.weight"@, shape: seq![8194, 1024], tells: true },
        Expected { name: "text_head.weight"@, shape: seq![2454, 1024], tells: true },
        Expected { name: "speech_head.weight"@, shape: seq![8194, 1024], tells: true },
        Expected { name: "text_pos_emb.emb.weight"@, shape: seq![2050, 1024], tells: true },
        Expected { name: "speech_pos_emb.emb.weight"@, shape: seq![4100, 1024], tells: true },
        Expected { name: "cond_enc.spkr_enc.weight"@, shape: seq![1024, 256], tells: true },
        Expected {
            name: "tfmr.layers.0.self_attn.q_proj.weight"@,
            shape: seq![1024, 1024],
            tells: false,
        },
        Expected {
            name: "tfmr.layers.29.self_attn.q_proj.weight"@,
            shape: seq![1024, 1024],
            tells: false,
        },
    ]
}

/// Adds a check of a matrix.
fn matrix_check(checks: &mut Vec<Check>, name: &str, a: usize, b: usize, tells: bool)
    ensures
        final(checks)@.len() == old(checks)@.len() + 1,
        forall|i: int| 0 <= i < old(checks)@.len() ==> #[trigger] final(checks)@[i] == old(checks)@[i],
        final(checks)@.last()@ == (Expected { name: name@, shape: seq![a, b], tells }),
{
    let shape: Vec<usize> = vec![a, b];
    assert(shape@ =~= seq![a, b]);
    checks.push(Check { name: name.to_owned(), shape, tells });
}

/// The tensors of T3 that an inspection looks for.
fn list_t3_checks() -> (checks: Vec<Check>)
    ensures
        checks@.map_values(|c: Check| c@) == t3_checks(),
{
    let mut checks: Vec<Check> = Vec::new();
    matrix_check(&mut checks, "text_emb.weight", 2454, 1024, true);
    matrix_check(&mut checks, "speech_emb.weight", 8194, 1024, true);
    matrix_check(&mut checks, "text_head.weight", 2454, 1024, true);
    matrix_check(&mut checks, "speech_head.weight", 8194, 1024, true);
    matrix_check(&mut checks, "text_pos_emb.emb.weight", 2050, 1024, true);
    matrix_check(&mut checks, "speech_pos_emb.emb.weight", 4100, 1024, true);
    matrix_check(&mut checks, "cond_enc.spkr_enc.weight", 1024, 256, true);
    matrix_check(&mut checks, "tfmr.layers.0.self_attn.q_proj.weight", 1024, 1024, false);
    matrix_check(&mut checks, "tfmr.layers.29.self_attn.q_proj.weight", 1024, 1024, false);
    assert(checks@.map_values(|c: Check| c@) =~= t3_checks());
    checks
}

/// The position of the first tensor of a name.
fn find_first(tensors: &[TensorInfo], name: &str) -> (at: Option<usize>)
    ensures
        match at {
            Some(i) => i < tensors@.len() && first_shape(tensors@, name@) == Some(
                tensors@[i as int].shape@,
            ),
            None => first_shape(tensors@, name@) is None,
        },
{
    assert(tensors@.skip(0) =~= tensors@);
    for i in 0..tensors.len()
        invariant
            first_shape(tensors@, name@) == first_shape(tensors@.skip(i as int), name@),
    {
        if same(tensors[i].name.as_str(), name) {
            return Some(i);
        }
        assert(tensors@.skip(i as int).drop_first() =~= tensors@.skip(i + 1));
    }
    None
}

/// Checks that T3 has its tensors in their shapes.
pub fn validate_t3(tensors: &[TensorInfo]) -> (outcome: Result<(), String>)
    ensures
        match outcome {
            Ok(_) => checks_fault(tensors@, t3_checks(), 9) is None,
            Err(message) => checks_fault(tensors@, t3_checks(), 9) == Some(message@),
        },
{
    let checks = list_t3_checks();
    let ghost expected = checks@.map_values(|c: Check| c@);
    assert(expected == t3_checks());
    assert(expected.len() == checks@.len());
    assert(t3_checks().len() == 9);
    for i in 0..checks.len()
        invariant
            expected == checks@.map_values(|c: Check| c@),
            expected == t3_checks(),
            checks@.len() == 9,
            checks_fault(tensors@, t3_checks(), i as nat) is None,
    {
        let check = &checks[i];
        assert(expected[i as int] == check@);
        match find_first(tensors, check.name.as_str()) {
            None => {
                proof {
                    lemma_fault_stays(tensors@, t3_checks(), (i + 1) as nat, 9);
                }
                return Err("Chatterbox V3 T3 is missing ".to_owned().concat(check.name.as_str()));
            },
            Some(at) => {
                let shape = &tensors[at].shape;
                if !same_shape(shape.as_slice(), check.shape.as_slice()) {
                    proof {
                        lemma_fault_stays(tensors@, t3_checks(), (i + 1) as nat, 9);
                    }
                    let named = "Chatterbox V3 ".to_owned().concat(check.name.as_str());
                    return Err(
                        if check.tells {
                            named.concat(" has shape ").concat(
                                &to_bracketed(shape.as_slice()),
                            ).concat(", expected ").concat(&to_bracketed(check.shape.as_slice()))
                        } else {
                            named.concat(" has unexpected shape ").concat(
                                &to_bracketed(shape.as_slice()),
                            )
                        },
                    );
                }
            },
        }
    }
    Ok(())
}

/// Whether a name is in a list.
pub open spec fn names_hold(names: Seq<String>, name: Seq<char>) -> bool {
    exists|i: int| 0 <= i < names.len() && (#[trigger] names[i])@ == name
}

/// Whether a name is in a list.
fn holds_name(names: &[String], name: &str) -> (found: bool)
    ensures
        found == names_hold(names@, name@),
{
    for i in 0..names.len()
        invariant
            forall|j: int| 0 <= j < i ==> (#[trigger] names@[j])@ != name@,
    {
        if same(names[i].as_str(), name) {
            return true;
        }
    }
    false
}

/// The first tensor that the synthesiser must have and that is not listed.
pub open spec fn missing_s3gen(names: Seq<String>) -> Option<Seq<char>> {
    if !names_hold(names, "flow.input_embedding.weight"@) {
        Some("flow.input_embedding.weight"@)
    } else if !names_hold(names, "flow.decoder.estimator.down_blocks.0.0.block1.block.0.weight"@) {
        Some("flow.decoder.estimator.down_blocks.0.0.block1.block.0.weight"@)
    } else if !names_hold(names, "mel2wav.conv_pre.parametrizations.weight.original1"@) {
        Some("mel2wav.conv_pre.parametrizations.weight.original1"@)
    } else {
        None
    }
}

/// Checks that the synthesiser has its characteristic tensors.
pub fn validate_s3gen_names(names: &[String]) -> (outcome: Result<(), String>)
    ensures
        match outcome {
            Ok(_) => missing_s3gen(names@) is None,
            Err(message) => missing_s3gen(names@) matches Some(name) && message@
                == "Chatterbox S3Gen is missing "@ + name,
        },
{
    let stem = "Chatterbox S3Gen is missing ".to_owned();
    if !holds_name(names, "flow.input_embedding.weight") {
        return Err(stem.concat("flow.input_embedding.weight"));
    }
    if !holds_name(names, "flow.decoder.estimator.down_blocks.0.0.block1.block.0.weight") {
        return Err(stem.concat("flow.decoder.estimator.down_blocks.0.0.block1.block.0.weight"));
    }
    if !holds_name(names, "mel2wav.conv_pre.parametrizations.weight.original1") {
        return Err(stem.concat("mel2wav.conv_pre.parametrizations.weight.original1"));
    }
    Ok(())
}

/// The files a synthesiser can be stored in, in order of preference.
#[derive(Clone, Copy, Debug, PartialEq, Eq, Structural)]
pub enum S3GenFile {
    SafetensorsV3,
    Safetensors,
    Pickle,
}

/// Which file the synthesiser is read from, given which files are there.
pub fn choose_s3gen(v3: bool, safetensors: bool, pickle: bool) -> (outcome: Result<S3GenFile, String>)
    ensures
        match outcome {
            Ok(S3GenFile::SafetensorsV3) => v3,
            Ok(S3GenFile::Safetensors) => !v3 && safetensors,
            Ok(S3GenFile::Pickle) => !v3 && !safetensors && pickle,
            Err(message) => !v3 && !safetensors && !pickle && message@
                == "missing s3gen_v3.safetensors, s3gen.safetensors, or s3gen.pt"@,
        },
{
    if v3 {
        Ok(S3GenFile::SafetensorsV3)
    } else if safetensors {
        Ok(S3GenFile::Safetensors)
    } else if pickle {
        Ok(S3GenFile::Pickle)
    } else {
        Err("missing s3gen_v3.safetensors, s3gen.safetensors, or s3gen.pt".to_owned())
    }
}

/// Why a voice encoder is refused, if it is. `projection` is the shape of its
/// projection, where it has one.
pub open spec fn voice_encoder_fault(tensors: usize, projection: Option<Seq<usize>>) -> Option<
    Seq<char>,
> {
    if tensors != 16 {
        Some(
            "Chatterbox voice encoder has "@ + decimal(tensors as nat) + " tensors, expected 16"@,
        )
    } else {
        match projection {
            None => Some("Chatterbox voice encoder is missing proj.weight"@),
            Some(shape) => if shape == seq![256usize, 256] {
                None
            } else {
                Some(
                    "Chatterbox voice encoder projection has shape "@ + bracketed(shape)
                        + ", expected [256, 256]"@,
                )
            },
        }
    }
}

/// Checks a voice encoder.
pub fn validate_voice_encoder(tensors: usize, projection: Option<&[usize]>) -> (outcome: Result<
    (),
    String,
>)
    ensures
        ({
            let found = match projection {
                Some(shape) => Some(shape@),
                None => None,
            };
            match outcome {
                Ok(_) => voice_encoder_fault(tensors, found) is None,
                Err(message) => voice_encoder_fault(tensors, found) == Some(message@),
            }
        }),
{
    if tensors != 16 {
        return Err(
            "Chatterbox voice encoder has ".to_owned().concat(
                &crate::text::to_decimal(tensors as u64),
            ).concat(" tensors, expected 16"),
        );
    }
    match projection {
        None => Err("Chatterbox voice encoder is missing proj.weight".to_owned()),
        Some(shape) => {
            let expected: Vec<usize> = vec![256, 256];
            assert(expected@ =~= seq![256usize, 256]);
            if same_shape(shape, expected.as_slice()) {
                Ok(())
            } else {
                Err(
                    "Chatterbox voice encoder projection has shape ".to_owned().concat(
                        &to_bracketed(shape),
                    ).concat(", expected [256, 256]"),
                )
            }
        },
    }
}

/// What an inspection finds besides the paths.
pub struct ChatterboxInspection {
    pub t3_path: String,
    pub s3gen_path: String,
    pub voice_encoder_path: String,
    pub t3_tensors: Vec<TensorInfo>,
    pub s3gen_tensor_count: usize,
    pub voice_encoder_tensor_count: usize,
    pub total_weight_bytes: u64,
}

/// Why the parts of a model are refused, if they are: the language model with
/// its emotion weights, the synthesiser with its input embedding, and the voice
/// encoder. Weights are given by their bits.
pub open spec fn model_fault(
    t3_tensors: Seq<TensorInfo>,
    emotion: Seq<u32>,
    s3gen_names: Seq<String>,
    s3gen_input: Seq<u32>,
    voice_encoder_tensors: usize,
    projection: Option<Seq<usize>>,
) -> Option<Seq<char>> {
    let t3 = checks_fault(t3_tensors, t3_checks(), 9);
    let s3 = missing_s3gen(s3gen_names);
    if t3 is Some {
        t3
    } else if !all_finite(emotion) {
        Some("Chatterbox V3 emotion conditioning contains non-finite weights"@)
    } else if s3 is Some {
        Some("Chatterbox S3Gen is missing "@ + s3->0)
    } else if !all_finite(s3gen_input) {
        Some("Chatterbox S3Gen input embedding contains non-finite weights"@)
    } else {
        voice_encoder_fault(voice_encoder_tensors, projection)
    }
}

/// Checks the three parts of a model and sums up their sizes.
pub fn inspect_model(
    t3_path: String,
    s3gen_path: String,
    voice_encoder_path: String,
    t3_tensors: Vec<TensorInfo>,
    emotion: &[u32],
    s3gen_names: &[String],
    s3gen_input: &[u32],
    s3gen_bytes: u64,
    voice_encoder_tensors: usize,
    projection: Option<&[usize]>,
    voice_encoder_bytes: u64,
) -> (outcome: Result<ChatterboxInspection, String>)
    requires
        total_bytes(t3_tensors@) + s3gen_bytes + voice_encoder_bytes <= u64::MAX,
    ensures
        ({
            let found = match projection {
                Some(shape) => Some(shape@),
                None => None,
            };
            let fault = model_fault(
                t3_tensors@,
                emotion@,
                s3gen_names@,
                s3gen_input@,
                voice_encoder_tensors,
                found,
            );
            match outcome {
                Ok(inspection) => {
                    &&& fault is None
                    &&& inspection.t3_path == t3_path
                    &&& inspection.s3gen_path == s3gen_path
                    &&& inspection.voice_encoder_path == voice_encoder_path
                    &&& inspection.t3_tensors == t3_tensors
                    &&& inspection.s3gen_tensor_count == s3gen_names@.len()
                    &&& inspection.voice_encoder_tensor_count == voice_encoder_tensors
                    &&& inspection.total_weight_bytes == total_bytes(t3_tensors@) + s3gen_bytes
                        + voice_encoder_bytes
                },
                Err(message) => fault == Some(message@),
            }
        }),
{
    match validate_t3(t3_tensors.as_slice()) {
        Ok(_) => {},
        Err(message) => {
            return Err(message);
        },
    }
    if !are_finite(emotion) {
        return Err("Chatterbox V3 emotion conditioning contains non-finite weights".to_owned());
    }
    match validate_s3gen_names(s3gen_names) {
        Ok(_) => {},
        Err(message) => {
            return Err(message);
        },
    }
    if !are_finite(s3gen_input) {
        return Err("Chatterbox S3Gen input embedding contains non-finite weights".to_owned());
    }
    match validate_voice_encoder(voice_encoder_tensors, projection) {
        Ok(_) => {},
        Err(message) => {
            return Err(message);
        },
    }
    let t3_bytes: u64 = sum_bytes(t3_tensors.as_slice());
    Ok(
        ChatterboxInspection {
            t3_path,
            s3gen_path,
            voice_encoder_path,
            t3_tensors,
            s3gen_tensor_count: s3gen_names.len(),
            voice_encoder_tensor_count: voice_encoder_tensors,
            total_weight_bytes: t3_bytes + s3gen_bytes + voice_encoder_bytes,
        },
    )
}

/// A tensor of a conditioning file.
pub open spec fn condition(name: Seq<char>, shape: Seq<usize>) -> Tensor {
    labelled("conditioning tensor "@, name, shape).gone(Absence::Missing)
}

/// The complaint about a tensor of a conditioning file.
fn condition_complaint(name: &str) -> (complaint: Complaint)
    ensures
        forall|shape: Seq<usize>| complaint@ == (#[trigger] condition(name@, shape)).fault,
{
    Complaint::labelled("conditioning tensor ".to_owned().concat(name)).gone(Absence::Missing)
}

/// The tensors of a conditioning file in loading order: three of group `t3`,
/// then three of group `gen`.
pub open spec fn conditioning_tensors() -> Seq<Tensor> {
    seq![
        condition("speaker_emb"@, seq![1, 256]),
        condition("cond_prompt_speech_tokens"@, seq![1, 150]),
        condition("emotion_adv"@, seq![1, 1, 1]),
        condition("prompt_token"@, seq![1, 157]),
        condition("prompt_feat"@, seq![1, 314, 80]),
        condition("embedding"@, seq![1, 192]),
    ]
}

/// Requires a matrix of a conditioning file.
fn condition_matrix(loader: &mut Loader, name: &str, a: usize, b: usize) -> (buffer: usize)
    requires
        old(loader).wf(),
        a * b <= usize::MAX,
    ensures
        final(loader).wf(),
        final(loader).tensors() == old(loader).tensors().push(condition(name@, seq![a, b])),
{
    let complaint = condition_complaint(name);
    assert(complaint@ == condition(name@, seq![a, b]).fault);
    loader.matrix(name.to_owned(), a, b, complaint)
}

/// Requires a cube of a conditioning file.
fn condition_cube(loader: &mut Loader, name: &str, a: usize, b: usize, c: usize) -> (buffer: usize)
    requires
        old(loader).wf(),
        a * b <= usize::MAX,
        a * b * c <= usize::MAX,
    ensures
        final(loader).wf(),
        final(loader).tensors() == old(loader).tensors().push(condition(name@, seq![a, b, c])),
{
    let complaint = condition_complaint(name);
    assert(complaint@ == condition(name@, seq![a, b, c]).fault);
    loader.cube(name.to_owned(), a, b, c, complaint)
}

/// Requires the tensors of a conditioning file.
pub fn load_conditioning(loader: &mut Loader)
    requires
        old(loader).wf(),
    ensures
        final(loader).wf(),
        final(loader).tensors() == old(loader).tensors() + conditioning_tensors(),
{
    let ghost before = loader.tensors();
    let a: usize = condition_matrix(loader, "speaker_emb", 1, 256);
    let b: usize = condition_matrix(loader, "cond_prompt_speech_tokens", 1, 150);
    let c: usize = condition_cube(loader, "emotion_adv", 1, 1, 1);
    let d: usize = condition_matrix(loader, "prompt_token", 1, 157);
    let e: usize = condition_cube(loader, "prompt_feat", 1, 314, 80);
    let f: usize = condition_matrix(loader, "embedding", 1, 192);
    assert(loader.tensors() =~= before + conditioning_tensors());
}

/// Every value is a 32-bit integer.
pub open spec fn all_narrow(values: Seq<i64>) -> bool {
    forall|i: int| 0 <= i < values.len() ==> i32::MIN <= #[trigger] values[i] <= i32::MAX
}

/// Narrows token numbers to 32 bits.
pub fn narrow_tokens(values: &[i64]) -> (outcome: Result<Vec<i32>, String>)
    ensures
        match outcome {
            Ok(tokens) => {
                &&& all_narrow(values@)
                &&& tokens@.len() == values@.len()
                &&& forall|i: int|
                    0 <= i < values@.len() ==> #[trigger] tokens@[i] == values@[i]
            },
            Err(message) => !all_narrow(values@) && message@ == "conditioning token exceeds i32"@,
        },
{
    let mut tokens: Vec<i32> = Vec::new();
    for i in 0..values.len()
        invariant
            tokens@.len() == i,
            forall|j: int| 0 <= j < i ==> #[trigger] tokens@[j] == values@[j],
            forall|j: int| 0 <= j < i ==> i32::MIN <= #[trigger] values@[j] <= i32::MAX,
    {
        let value: i64 = values[i];
        if value < i32::MIN as i64 || value > i32::MAX as i64 {
            assert(!(i32::MIN <= values@[i as int] <= i32::MAX));
            return Err("conditioning token exceeds i32".to_owned());
        }
        tokens.push(value as i32);
    }
    Ok(tokens)
}

} // verus!
