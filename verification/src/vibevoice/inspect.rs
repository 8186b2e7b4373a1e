//! What a model directory must hold.
use vstd::prelude::*;
use vstd::string::*;
use crate::catalog::{TensorInfo, has_tensor, lists, sum_bytes, total_bytes};
use crate::text::{decimal, to_decimal};
use crate::vibevoice::config::{VibeVoiceConfig, config_fault, heads_counted};

verus! {

/// What can be wrong with a model directory.
#[derive(Debug)]
pub enum Error {
    /// Reading failed, for this reason.
    Io(String),
    /// The configuration is not valid JSON, for this reason.
    Json(String),
    /// The weights cannot be read, for this reason.
    Safetensors(String),
    /// The configuration cannot be run, for this reason.
    InvalidConfig(String),
    /// There is no weight file here.
    MissingWeights(String),
    /// The weights lack this tensor.
    MissingTensor(String),
}

impl Error {
    /// What is said of the error.
    pub open spec fn text(self) -> Seq<char> {
        match self {
            Error::Io(reason) => "I/O: "@ + reason@,
            Error::Json(reason) => "config JSON: "@ + reason@,
            Error::Safetensors(reason) => "Safetensors: "@ + reason@,
            Error::InvalidConfig(reason) => "invalid VibeVoice configuration: "@ + reason@,
            Error::MissingWeights(path) => "missing VibeVoice weights "@ + path@,
            Error::MissingTensor(name) => "VibeVoice checkpoint is missing tensor "@ + name@,
        }
    }

    /// What is said of the error.
    pub fn message(&self) -> (text: String)
        ensures
            text@ == self.text(),
    {
        match self {
            Error::Io(reason) => "I/O: ".to_owned().concat(reason.as_str()),
            Error::Json(reason) => "config JSON: ".to_owned().concat(reason.as_str()),
            Error::Safetensors(reason) => "Safetensors: ".to_owned().concat(reason.as_str()),
            Error::InvalidConfig(reason) => "invalid VibeVoice configuration: ".to_owned().concat(
                reason.as_str(),
            ),
            Error::MissingWeights(path) => "missing VibeVoice weights ".to_owned().concat(
                path.as_str(),
            ),
            Error::MissingTensor(name) => "VibeVoice checkpoint is missing tensor ".to_owned().concat(
                name.as_str(),
            ),
        }
    }
}

/// The query projection of a layer.
pub open spec fn query_name(stack: Seq<char>, layer: int) -> Seq<char> {
    stack + ".layers."@ + decimal(layer as nat) + ".self_attn.q_proj.weight"@
}

/// The tensors that every checkpoint has, in the order in which they are
/// looked for.
pub open spec fn required(c: VibeVoiceConfig) -> Seq<Seq<char>> {
    seq![
        "model.language_model.embed_tokens.weight"@,
        "model.tts_input_types.weight"@,
        "model.acoustic_connector.fc1.weight"@,
        "model.prediction_head.noisy_images_proj.weight"@,
        "tts_eos_classifier.fc1.weight"@,
        query_name(
            "model.language_model"@,
            c.decoder_config.num_hidden_layers - c.tts_backbone_num_hidden_layers - 1,
        ),
        query_name("model.tts_language_model"@, c.tts_backbone_num_hidden_layers - 1),
    ]
}

/// The first of the required tensors from `i` on that is missing.
pub open spec fn first_missing(names: Seq<Seq<char>>, tensors: Seq<TensorInfo>, i: int) -> Option<
    Seq<char>,
>
    decreases names.len() - i,
{
    if i >= names.len() {
        None
    } else if !lists(tensors, names[i]) {
        Some(names[i])
    } else {
        first_missing(names, tensors, i + 1)
    }
}

/// A checkpoint without a missing tensor has every required one.
pub proof fn law_nothing_required_is_missing(
    c: VibeVoiceConfig,
    tensors: Seq<TensorInfo>,
    i: int,
)
    requires
        first_missing(required(c), tensors, 0) is None,
        0 <= i < required(c).len(),
    ensures
        lists(tensors, required(c)[i]),
{
    lemma_none_missing(required(c), tensors, 0, i);
}

proof fn lemma_none_missing(names: Seq<Seq<char>>, tensors: Seq<TensorInfo>, from: int, i: int)
    requires
        first_missing(names, tensors, from) is None,
        0 <= from <= i < names.len(),
    ensures
        lists(tensors, names[i]),
    decreases i - from,
{
    if from < i {
        lemma_none_missing(names, tensors, from + 1, i);
    }
}

/// Checks one tensor.
fn require(tensors: &[TensorInfo], name: &str) -> (outcome: Result<(), Error>)
    ensures
        match outcome {
            Ok(_) => lists(tensors@, name@),
            Err(error) => !lists(tensors@, name@) && error.text()
                == "VibeVoice checkpoint is missing tensor "@ + name@,
        },
{
    if has_tensor(tensors, name) {
        Ok(())
    } else {
        Err(Error::MissingTensor(name.to_owned()))
    }
}

/// The required tensor with this index.
fn required_name(config: &VibeVoiceConfig, i: usize) -> (name: String)
    requires
        i < 7,
        1 <= config.tts_backbone_num_hidden_layers < config.decoder_config.num_hidden_layers,
    ensures
        name@ == required(*config)[i as int],
{
    match i {
        0 => "model.language_model.embed_tokens.weight".to_owned(),
        1 => "model.tts_input_types.weight".to_owned(),
        2 => "model.acoustic_connector.fc1.weight".to_owned(),
        3 => "model.prediction_head.noisy_images_proj.weight".to_owned(),
        4 => "tts_eos_classifier.fc1.weight".to_owned(),
        5 => "model.language_model".to_owned().concat(".layers.").concat(
            &to_decimal((config.text_layers() - 1) as u64),
        ).concat(".self_attn.q_proj.weight"),
        _ => "model.tts_language_model".to_owned().concat(".layers.").concat(
            &to_decimal((config.tts_backbone_num_hidden_layers - 1) as u64),
        ).concat(".self_attn.q_proj.weight"),
    }
}

/// Checks that every required tensor is there.
pub fn validate_required_tensors(config: &VibeVoiceConfig, tensors: &[TensorInfo]) -> (outcome: Result<
    (),
    Error,
>)
    requires
        1 <= config.tts_backbone_num_hidden_layers < config.decoder_config.num_hidden_layers,
    ensures
        match outcome {
            Ok(_) => first_missing(required(*config), tensors@, 0) is None,
            Err(error) => first_missing(required(*config), tensors@, 0) matches Some(name)
                && error.text() == "VibeVoice checkpoint is missing tensor "@ + name,
        },
{
    for i in 0..7usize
        invariant
            1 <= config.tts_backbone_num_hidden_layers < config.decoder_config.num_hidden_layers,
            first_missing(required(*config), tensors@, i as int) == first_missing(
                required(*config),
                tensors@,
                0,
            ),
    {
        let name = required_name(config, i);
        match require(tensors, name.as_str()) {
            Ok(_) => {},
            Err(error) => {
                return Err(error);
            },
        }
    }
    Ok(())
}

/// What is known of a model directory.
#[derive(Debug)]
pub struct VibeVoiceInspection {
    pub config: VibeVoiceConfig,
    pub weight_path: String,
    pub tensors: Vec<TensorInfo>,
    pub total_weight_bytes: u64,
}

/// What is wrong with a model whose files have been read, if anything is:
/// the configuration, the weight file, or the tensors.
pub open spec fn inspection_fault(
    config: VibeVoiceConfig,
    weight_path: Seq<char>,
    tensors: Option<Seq<TensorInfo>>,
) -> Option<Seq<char>> {
    match config_fault(config) {
        Some(reason) => Some("invalid VibeVoice configuration: "@ + reason),
        None => match tensors {
            None => Some("missing VibeVoice weights "@ + weight_path),
            Some(list) => match first_missing(required(config), list, 0) {
                Some(name) => Some("VibeVoice checkpoint is missing tensor "@ + name),
                None => None,
            },
        },
    }
}

/// Summarises a model whose configuration has been read, and whose tensors
/// have been listed where there is a weight file.
pub fn inspect_model(
    config: VibeVoiceConfig,
    weight_path: String,
    tensors: Option<Vec<TensorInfo>>,
) -> (outcome: Result<VibeVoiceInspection, Error>)
    requires
        heads_counted(config),
        config_fault(config) is None ==> config.tts_backbone_num_hidden_layers >= 1,
        tensors matches Some(list) ==> total_bytes(list@) <= u64::MAX,
    ensures
        ({
            let listed = match tensors {
                Some(list) => Some(list@),
                None => None,
            };
            let fault = inspection_fault(config, weight_path@, listed);
            match outcome {
                Ok(inspection) => {
                    &&& fault is None
                    &&& inspection.config == config
                    &&& inspection.weight_path == weight_path
                    &&& Some(inspection.tensors) == tensors
                    &&& inspection.total_weight_bytes == total_bytes(inspection.tensors@)
                },
                Err(error) => fault == Some(error.text()),
            }
        }),
{
    match config.validate() {
        Err(message) => {
            return Err(Error::InvalidConfig(message));
        },
        Ok(_) => {},
    }
    match tensors {
        None => Err(Error::MissingWeights(weight_path)),
        Some(list) => match validate_required_tensors(&config, list.as_slice()) {
            Err(error) => Err(error),
            Ok(_) => {
                let total_weight_bytes: u64 = sum_bytes(list.as_slice());
                Ok(VibeVoiceInspection { config, weight_path, tensors: list, total_weight_bytes })
            },
        },
    }
}

} // verus!
