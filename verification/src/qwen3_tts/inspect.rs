//! Inspection of a model directory's configuration and weights.
use vstd::prelude::*;
use vstd::string::*;
use crate::catalog::{TensorInfo, has_tensor, law_ordering_keeps_names, lists, name_ordering, sort_by_name, sum_bytes, total_bytes};
use crate::qwen3_tts::config::{Qwen3TtsConfig, heads_countable};
use crate::text::same;

verus! {

/// Why a model cannot be used.
#[derive(Debug)]
pub enum Error {
    InvalidConfig(String),
    MissingWeights,
    MissingTensor(String),
    TensorNotFound(String),
}

impl Error {
    /// The message shown for an error.
    pub open spec fn text(self) -> Seq<char> {
        match self {
            Error::InvalidConfig(reason) => "invalid config: "@ + reason@,
            Error::MissingWeights => "no .safetensors weight files found"@,
            Error::MissingTensor(name) => "required tensor is missing: "@ + name@,
            Error::TensorNotFound(name) => "tensor not found: "@ + name@,
        }
    }

    /// The message shown for an error.
    pub fn message(&self) -> (message: String)
        ensures
            message@ == self.text(),
    {
        match self {
            Error::InvalidConfig(reason) => "invalid config: ".to_owned().concat(reason.as_str()),
            Error::MissingWeights => "no .safetensors weight files found".to_owned(),
            Error::MissingTensor(name) => "required tensor is missing: ".to_owned().concat(
                name.as_str(),
            ),
            Error::TensorNotFound(name) => "tensor not found: ".to_owned().concat(name.as_str()),
        }
    }
}

/// The tensors of all weight files and the file each is read from.
pub struct WeightSet {
    /// Names in the order in which the files list them.
    pub names: Vec<String>,
    /// The file of each name.
    pub owners: Vec<usize>,
    /// All tensors, ordered by name.
    pub tensors: Vec<TensorInfo>,
}

/// The file a name is read from: the last one that lists it.
pub open spec fn owner_of(names: Seq<String>, owners: Seq<usize>, name: Seq<char>) -> Option<usize>
    decreases names.len(),
{
    if names.len() == 0 {
        None
    } else if names.last()@ == name {
        Some(owners[names.len() - 1])
    } else {
        owner_of(names.drop_last(), owners, name)
    }
}

/// Every name that a file lists is read from some file.
pub proof fn law_listed_names_are_found(names: Seq<String>, owners: Seq<usize>, i: int)
    requires
        0 <= i < names.len(),
    ensures
        owner_of(names, owners, names[i]@) is Some,
    decreases names.len(),
{
    if names.last()@ != names[i]@ {
        assert(names.drop_last()[i] == names[i]);
        law_listed_names_are_found(names.drop_last(), owners, i);
    }
}

/// Gathers the tensors that the weight files list, file by file. `owners` has
/// the file of each tensor, counted in the order of the sorted paths.
pub fn weight_set(files: usize, tensors: Vec<TensorInfo>, owners: Vec<usize>) -> (outcome: Result<
    WeightSet,
    Error,
>)
    requires
        owners@.len() == tensors@.len(),
    ensures
        match outcome {
            Err(error) => files == 0 && error == Error::MissingWeights,
            Ok(set) => {
                &&& files > 0
                &&& set.owners@ == owners@
                &&& set.names@.len() == tensors@.len()
                &&& forall|i: int|
                    0 <= i < tensors@.len() ==> (#[trigger] set.names@[i])@ == tensors@[i].name@
                &&& name_ordering(tensors@, set.tensors@)
                &&& set.tensors@.len() == tensors@.len()
                &&& total_bytes(set.tensors@) == total_bytes(tensors@)
            },
        },
{
    if files == 0 {
        return Err(Error::MissingWeights);
    }
    let mut names: Vec<String> = Vec::new();
    for i in 0..tensors.len()
        invariant
            names@.len() == i,
            forall|j: int| 0 <= j < i ==> (#[trigger] names@[j])@ == tensors@[j].name@,
    {
        names.push(tensors[i].name.clone());
    }
    let sorted = sort_by_name(tensors);
    Ok(WeightSet { names, owners, tensors: sorted })
}

impl WeightSet {
    /// The file a tensor is read from.
    pub fn locate(&self, name: &str) -> (outcome: Result<usize, Error>)
        requires
            self.owners@.len() == self.names@.len(),
        ensures
            match outcome {
                Ok(file) => owner_of(self.names@, self.owners@, name@) == Some(file),
                Err(error) => owner_of(self.names@, self.owners@, name@) is None && error.text()
                    == "tensor not found: "@ + name@ && error is TensorNotFound,
            },
    {
        let mut n: usize = self.names.len();
        assert(self.names@.take(n as int) =~= self.names@);
        while n > 0
            invariant
                n <= self.names@.len(),
                self.owners@.len() == self.names@.len(),
                owner_of(self.names@, self.owners@, name@) == owner_of(
                    self.names@.take(n as int),
                    self.owners@,
                    name@,
                ),
            decreases n,
        {
            proof {
                assert(self.names@.take(n as int).drop_last() =~= self.names@.take(n - 1));
            }
            n = n - 1;
            if same(self.names[n].as_str(), name) {
                return Ok(self.owners[n]);
            }
        }
        Err(Error::TensorNotFound(name.to_owned()))
    }
}

/// The first tensor every model must have that is not there.
pub open spec fn missing_tensor(tensors: Seq<TensorInfo>) -> Option<Seq<char>> {
    if !lists(tensors, "talker.model.codec_embedding.weight"@) {
        Some("talker.model.codec_embedding.weight"@)
    } else if !lists(tensors, "talker.model.text_embedding.weight"@) {
        Some("talker.model.text_embedding.weight"@)
    } else if !lists(tensors, "talker.codec_head.weight"@) {
        Some("talker.codec_head.weight"@)
    } else if !lists(tensors, "talker.code_predictor.model.norm.weight"@) {
        Some("talker.code_predictor.model.norm.weight"@)
    } else {
        None
    }
}

/// Checks that the tensors every model must have are there.
pub fn validate_required_tensors(tensors: &[TensorInfo]) -> (outcome: Result<(), Error>)
    ensures
        match outcome {
            Ok(_) => missing_tensor(tensors@) is None,
            Err(Error::MissingTensor(name)) => missing_tensor(tensors@) == Some(name@),
            Err(_) => false,
        },
{
    if !has_tensor(tensors, "talker.model.codec_embedding.weight") {
        return Err(Error::MissingTensor("talker.model.codec_embedding.weight".to_owned()));
    }
    if !has_tensor(tensors, "talker.model.text_embedding.weight") {
        return Err(Error::MissingTensor("talker.model.text_embedding.weight".to_owned()));
    }
    if !has_tensor(tensors, "talker.codec_head.weight") {
        return Err(Error::MissingTensor("talker.codec_head.weight".to_owned()));
    }
    if !has_tensor(tensors, "talker.code_predictor.model.norm.weight") {
        return Err(Error::MissingTensor("talker.code_predictor.model.norm.weight".to_owned()));
    }
    Ok(())
}

/// What an inspection finds.
pub struct ModelInspection {
    pub config: Qwen3TtsConfig,
    pub weight_files: Vec<String>,
    pub weights: WeightSet,
    pub total_weight_bytes: u64,
}

/// Checks a configuration together with the tensors its weight files list.
pub fn inspect_model(
    config: Qwen3TtsConfig,
    weight_files: Vec<String>,
    tensors: Vec<TensorInfo>,
    owners: Vec<usize>,
) -> (outcome: Result<ModelInspection, Error>)
    requires
        heads_countable(config),
        owners@.len() == tensors@.len(),
        total_bytes(tensors@) <= u64::MAX,
    ensures
        match outcome {
            Ok(found) => {
                &&& config.fault() is None
                &&& weight_files@.len() > 0
                &&& missing_tensor(tensors@) is None
                &&& found.config == config
                &&& found.weight_files == weight_files
                &&& found.weights.names@.len() == tensors@.len()
                &&& forall|i: int|
                    0 <= i < tensors@.len() ==> (#[trigger] found.weights.names@[i])@
                        == tensors@[i].name@
                &&& name_ordering(tensors@, found.weights.tensors@)
                &&& found.weights.owners@ == owners@
                &&& found.total_weight_bytes == total_bytes(tensors@)
            },
            Err(Error::InvalidConfig(reason)) => config.fault() == Some(reason@),
            Err(Error::MissingWeights) => config.fault() is None && weight_files@.len() == 0,
            Err(Error::MissingTensor(name)) => {
                &&& config.fault() is None
                &&& weight_files@.len() > 0
                &&& missing_tensor(tensors@) == Some(name@)
            },
            Err(Error::TensorNotFound(_)) => false,
        },
{
    let ghost listed = tensors@;
    match config.validate() {
        Ok(_) => {},
        Err(reason) => {
            return Err(Error::InvalidConfig(reason));
        },
    }
    let weights = match weight_set(weight_files.len(), tensors, owners) {
        Ok(weights) => weights,
        Err(error) => {
            return Err(error);
        },
    };
    proof {
        law_ordering_keeps_names(listed, weights.tensors@, "talker.model.codec_embedding.weight"@);
        law_ordering_keeps_names(listed, weights.tensors@, "talker.model.text_embedding.weight"@);
        law_ordering_keeps_names(listed, weights.tensors@, "talker.codec_head.weight"@);
        law_ordering_keeps_names(
            listed,
            weights.tensors@,
            "talker.code_predictor.model.norm.weight"@,
        );
    }
    match validate_required_tensors(weights.tensors.as_slice()) {
        Ok(_) => {},
        Err(error) => {
            return Err(error);
        },
    }
    let total_weight_bytes: u64 = sum_bytes(weights.tensors.as_slice());
    Ok(ModelInspection { config, weight_files, weights, total_weight_bytes })
}

} // verus!
