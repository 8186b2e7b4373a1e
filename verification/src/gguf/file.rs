//! GGUF headers and files.
use vstd::prelude::*;
use vstd::slice::*;
use vstd::string::*;
use crate::gguf::bytes::{Cursor, many, number_at};
use crate::gguf::metadata::{
    Meta, TensorModel, are_entries, are_tensors, entry_step, read_entries, read_tensors, tensor_step,
};
use crate::gguf::types::{
    FloatBits, GGUF_MAGIC, GGUF_VERSION_2, GGUF_VERSION_3, GgufError, GgufFault, MetadataValue,
    TensorInfo, byte_count, count_of, float_of, measurable, text_of, truth_of,
};
use crate::text::same;

verus! {

/// The header of a file.
#[derive(Debug)]
pub struct GgufHeader {
    pub version: u32,
    pub n_tensors: u64,
    /// The named values, in the order in which they stand in the file.
    pub metadata: Vec<(String, MetadataValue)>,
}

/// The value of a name: that of the last entry with it.
pub open spec fn value_of(entries: Seq<(String, MetadataValue)>, key: Seq<char>) -> Option<
    MetadataValue,
>
    decreases entries.len(),
{
    if entries.len() == 0 {
        None
    } else if entries.last().0@ == key {
        Some(entries.last().1)
    } else {
        value_of(entries.drop_last(), key)
    }
}

/// The text under a name.
pub open spec fn text_under(header: GgufHeader, key: Seq<char>) -> Option<Seq<char>> {
    match value_of(header.metadata@, key) {
        Some(value) => text_of(value),
        None => None,
    }
}

/// The count under a name.
pub open spec fn count_under(header: GgufHeader, key: Seq<char>) -> Option<u32> {
    match value_of(header.metadata@, key) {
        Some(value) => count_of(value),
        None => None,
    }
}

/// The floating-point number under a name.
pub open spec fn float_under(header: GgufHeader, key: Seq<char>) -> Option<FloatBits> {
    match value_of(header.metadata@, key) {
        Some(value) => float_of(value),
        None => None,
    }
}

/// The truth value under a name.
pub open spec fn truth_under(header: GgufHeader, key: Seq<char>) -> Option<bool> {
    match value_of(header.metadata@, key) {
        Some(value) => truth_of(value),
        None => None,
    }
}

/// The architecture of the model.
pub open spec fn architecture_of(header: GgufHeader) -> Option<Seq<char>> {
    text_under(header, "general.architecture"@)
}

/// The count under a name that starts with the architecture.
pub open spec fn model_count(header: GgufHeader, suffix: Seq<char>) -> Option<u32> {
    match architecture_of(header) {
        Some(arch) => count_under(header, arch + suffix),
        None => None,
    }
}

/// The floating-point number under a name that starts with the architecture.
pub open spec fn model_float(header: GgufHeader, suffix: Seq<char>) -> Option<FloatBits> {
    match architecture_of(header) {
        Some(arch) => float_under(header, arch + suffix),
        None => None,
    }
}

/// The counts among values, in order.
pub open spec fn counts_in(list: Seq<MetadataValue>) -> Seq<u32>
    decreases list.len(),
{
    if list.len() == 0 {
        Seq::empty()
    } else {
        match count_of(list.last()) {
            Some(n) => counts_in(list.drop_last()).push(n),
            None => counts_in(list.drop_last()),
        }
    }
}

/// Whether each value is true.
pub open spec fn truths_in(list: Seq<MetadataValue>) -> Seq<bool> {
    Seq::new(list.len(), |i: int| list[i] matches MetadataValue::Bool(true))
}

impl GgufHeader {
    /// The value under a name.
    pub fn value(&self, key: &str) -> (value: Option<&MetadataValue>)
        ensures
            match value {
                Some(v) => value_of(self.metadata@, key@) == Some(*v),
                None => value_of(self.metadata@, key@) is None,
            },
    {
        let mut i: usize = self.metadata.len();
        assert(self.metadata@.take(i as int) =~= self.metadata@);
        while i > 0
            invariant
                i <= self.metadata@.len(),
                value_of(self.metadata@.take(i as int), key@) == value_of(self.metadata@, key@),
            decreases i,
        {
            proof {
                assert(self.metadata@.take(i as int).drop_last() =~= self.metadata@.take(i - 1));
            }
            i = i - 1;
            if same(self.metadata[i].0.as_str(), key) {
                return Some(&self.metadata[i].1);
            }
        }
        None
    }

    /// The text under a name.
    fn text(&self, key: &str) -> (text: Option<&str>)
        ensures
            match text {
                Some(s) => text_under(*self, key@) == Some(s@),
                None => text_under(*self, key@) is None,
            },
    {
        match self.value(key) {
            Some(value) => value.as_str(),
            None => None,
        }
    }

    /// The truth value under a name.
    fn truth(&self, key: &str) -> (truth: Option<bool>)
        ensures
            truth == truth_under(*self, key@),
    {
        match self.value(key) {
            Some(value) => value.as_bool(),
            None => None,
        }
    }

    /// The floating-point number under a name.
    fn float(&self, key: &str) -> (number: Option<FloatBits>)
        ensures
            number == float_under(*self, key@),
    {
        match self.value(key) {
            Some(value) => value.as_f32(),
            None => None,
        }
    }

    /// The count under a name that starts with the architecture.
    fn count_for_model(&self, suffix: &str) -> (count: Option<u32>)
        ensures
            count == model_count(*self, suffix@),
    {
        match self.architecture() {
            Some(arch) => self.token_id(arch.to_owned().concat(suffix).as_str()),
            None => None,
        }
    }

    /// The floating-point number under a name that starts with the
    /// architecture.
    fn float_for_model(&self, suffix: &str) -> (number: Option<FloatBits>)
        ensures
            number == model_float(*self, suffix@),
    {
        match self.architecture() {
            Some(arch) => self.float(arch.to_owned().concat(suffix).as_str()),
            None => None,
        }
    }

    /// The count under a name.
    pub fn token_id(&self, key: &str) -> (count: Option<u32>)
        ensures
            count == count_under(*self, key@),
    {
        match self.value(key) {
            Some(value) => value.as_u32(),
            None => None,
        }
    }

    /// The architecture of the model.
    pub fn model_arch(&self) -> (text: Option<&str>)
        ensures
            match text {
                Some(s) => architecture_of(*self) == Some(s@),
                None => architecture_of(*self) is None,
            },
    {
        self.architecture()
    }

    /// The architecture of the model.
    pub fn architecture(&self) -> (text: Option<&str>)
        ensures
            match text {
                Some(s) => architecture_of(*self) == Some(s@),
                None => architecture_of(*self) is None,
            },
    {
        self.text("general.architecture")
    }

    /// The name of the model.
    pub fn model_name(&self) -> (text: Option<&str>)
        ensures
            match text {
                Some(s) => text_under(*self, "general.name"@) == Some(s@),
                None => text_under(*self, "general.name"@) is None,
            },
    {
        self.text("general.name")
    }

    /// The template of a chat.
    pub fn chat_template(&self) -> (text: Option<&str>)
        ensures
            match text {
                Some(s) => text_under(*self, "tokenizer.chat_template"@) == Some(s@),
                None => text_under(*self, "tokenizer.chat_template"@) is None,
            },
    {
        self.text("tokenizer.chat_template")
    }

    /// The token that starts a text.
    pub fn bos_token_id(&self) -> (id: Option<u32>)
        ensures
            id == count_under(*self, "tokenizer.ggml.bos_token_id"@),
    {
        self.token_id("tokenizer.ggml.bos_token_id")
    }

    /// The token that ends a text.
    pub fn eos_token_id(&self) -> (id: Option<u32>)
        ensures
            id == count_under(*self, "tokenizer.ggml.eos_token_id"@),
    {
        self.token_id("tokenizer.ggml.eos_token_id")
    }

    /// Whether a start token is put in front of a text.
    pub fn add_bos_token(&self) -> (truth: Option<bool>)
        ensures
            truth == truth_under(*self, "tokenizer.ggml.add_bos_token"@),
    {
        self.truth("tokenizer.ggml.add_bos_token")
    }

    /// Whether an end token is put behind a text.
    pub fn add_eos_token(&self) -> (truth: Option<bool>)
        ensures
            truth == truth_under(*self, "tokenizer.ggml.add_eos_token"@),
    {
        self.truth("tokenizer.ggml.add_eos_token")
    }

    /// The token that ends a turn, or else the one that ends a text.
    pub fn preferred_eos_token_id(&self) -> (id: Option<u32>)
        ensures
            id == (if count_under(*self, "tokenizer.ggml.eot_token_id"@) is Some {
                count_under(*self, "tokenizer.ggml.eot_token_id"@)
            } else {
                count_under(*self, "tokenizer.ggml.eos_token_id"@)
            }),
    {
        match self.token_id("tokenizer.ggml.eot_token_id") {
            Some(id) => Some(id),
            None => self.token_id("tokenizer.ggml.eos_token_id"),
        }
    }

    /// How many tokens the context holds.
    pub fn context_length(&self) -> (count: Option<u32>)
        ensures
            count == model_count(*self, ".context_length"@),
    {
        self.count_for_model(".context_length")
    }

    /// How many layers there are.
    pub fn block_count(&self) -> (count: Option<u32>)
        ensures
            count == model_count(*self, ".block_count"@),
    {
        self.count_for_model(".block_count")
    }

    /// How wide the hidden state is.
    pub fn embedding_length(&self) -> (count: Option<u32>)
        ensures
            count == model_count(*self, ".embedding_length"@),
    {
        self.count_for_model(".embedding_length")
    }

    /// How many query heads there are.
    pub fn head_count(&self) -> (count: Option<u32>)
        ensures
            count == model_count(*self, ".attention.head_count"@),
    {
        self.count_for_model(".attention.head_count")
    }

    /// How many key and value heads there are.
    pub fn head_count_kv(&self) -> (count: Option<u32>)
        ensures
            count == model_count(*self, ".attention.head_count_kv"@),
    {
        self.count_for_model(".attention.head_count_kv")
    }

    /// How many tokens there are.
    pub fn vocab_size(&self) -> (count: Option<u32>)
        ensures
            count == model_count(*self, ".vocab_size"@),
    {
        self.count_for_model(".vocab_size")
    }

    /// How wide the inner layer is.
    pub fn feed_forward_length(&self) -> (count: Option<u32>)
        ensures
            count == model_count(*self, ".feed_forward_length"@),
    {
        self.count_for_model(".feed_forward_length")
    }

    /// The base of the rotary frequencies.
    pub fn rope_freq_base(&self) -> (number: Option<FloatBits>)
        ensures
            number == model_float(*self, ".rope.freq_base"@),
    {
        self.float_for_model(".rope.freq_base")
    }

    /// The number that keeps normalisation from dividing by zero.
    pub fn rms_norm_eps(&self) -> (number: Option<FloatBits>)
        ensures
            number == model_float(*self, ".attention.layer_norm_rms_epsilon"@),
    {
        self.float_for_model(".attention.layer_norm_rms_epsilon")
    }

    /// The count under a name; it must be there.
    pub fn get_u32(&self, key: &str) -> (outcome: Result<u32, GgufError>)
        ensures
            match outcome {
                Ok(n) => count_under(*self, key@) == Some(n),
                Err(error) => count_under(*self, key@) is None && error@
                    == GgufFault::TensorNotFound(key@),
            },
    {
        match self.token_id(key) {
            Some(n) => Ok(n),
            None => Err(GgufError::TensorNotFound(key.to_owned())),
        }
    }

    /// The floating-point number under a name; it must be there.
    pub fn get_f32(&self, key: &str) -> (outcome: Result<FloatBits, GgufError>)
        ensures
            match outcome {
                Ok(n) => float_under(*self, key@) == Some(n),
                Err(error) => float_under(*self, key@) is None && error@
                    == GgufFault::TensorNotFound(key@),
            },
    {
        match self.float(key) {
            Some(n) => Ok(n),
            None => Err(GgufError::TensorNotFound(key.to_owned())),
        }
    }

    /// The counts in the array under a name; other elements are left out.
    pub fn get_u32_array(&self, key: &str) -> (outcome: Result<Vec<u32>, GgufError>)
        ensures
            match outcome {
                Ok(list) => value_of(self.metadata@, key@) matches Some(MetadataValue::Array(all))
                    && list@ == counts_in(all@),
                Err(error) => !(value_of(self.metadata@, key@) matches Some(
                    MetadataValue::Array(_),
                )) && error@ == GgufFault::TensorNotFound(key@),
            },
    {
        match self.value(key) {
            Some(MetadataValue::Array(all)) => {
                let mut list: Vec<u32> = Vec::new();
                for i in 0..all.len()
                    invariant
                        list@ == counts_in(all@.take(i as int)),
                {
                    proof {
                        assert(all@.take(i + 1).drop_last() =~= all@.take(i as int));
                    }
                    match all[i].as_u32() {
                        Some(n) => {
                            list.push(n);
                        },
                        None => {},
                    }
                }
                assert(all@.take(all@.len() as int) =~= all@);
                Ok(list)
            },
            _ => Err(GgufError::TensorNotFound(key.to_owned())),
        }
    }

    /// Which elements of the array under a name are true.
    pub fn get_bool_array(&self, key: &str) -> (outcome: Result<Vec<bool>, GgufError>)
        ensures
            match outcome {
                Ok(list) => value_of(self.metadata@, key@) matches Some(MetadataValue::Array(all))
                    && list@ == truths_in(all@),
                Err(error) => !(value_of(self.metadata@, key@) matches Some(
                    MetadataValue::Array(_),
                )) && error@ == GgufFault::TensorNotFound(key@),
            },
    {
        match self.value(key) {
            Some(MetadataValue::Array(all)) => {
                let mut list: Vec<bool> = Vec::new();
                for i in 0..all.len()
                    invariant
                        list@.len() == i,
                        forall|j: int|
                            0 <= j < i ==> #[trigger] list@[j] == (all@[j] matches
                                MetadataValue::Bool(true)),
                {
                    let truth = match &all[i] {
                        MetadataValue::Bool(v) => *v,
                        _ => false,
                    };
                    list.push(truth);
                }
                assert(list@ =~= truths_in(all@));
                Ok(list)
            },
            _ => Err(GgufError::TensorNotFound(key.to_owned())),
        }
    }
}

/// What a file holds in front of the data.
pub struct Layout {
    pub version: u32,
    pub n_tensors: u64,
    pub entries: Seq<(Seq<char>, Meta)>,
    pub tensors: Seq<TensorModel>,
    /// Where the data begin.
    pub data_offset: int,
}

/// The next multiple of 32.
pub open spec fn aligned(pos: int) -> int {
    (pos + 31) / 32 * 32
}

/// The start of the data is aligned and leaves less than 32 bytes unused.
pub proof fn law_data_are_aligned(pos: int)
    requires
        pos >= 0,
    ensures
        aligned(pos) % 32 == 0,
        pos <= aligned(pos) < pos + 32,
{
}

/// What follows the two counts.
pub open spec fn body_at(
    b: Seq<u8>,
    pos: int,
    version: u32,
    n_tensors: nat,
    n_entries: nat,
) -> Result<Layout, GgufFault> {
    match many(entry_step(b), pos, n_entries) {
        Err(fault) => Err(fault),
        Ok((entries, p)) => match many(tensor_step(b), p, n_tensors) {
            Err(fault) => Err(fault),
            Ok((tensors, q)) => Ok(
                Layout {
                    version,
                    n_tensors: n_tensors as u64,
                    entries,
                    tensors,
                    data_offset: aligned(q),
                },
            ),
        },
    }
}

/// What bytes hold in front of the data: magic, version, counts, named values
/// and tensors.
pub open spec fn layout_of(b: Seq<u8>) -> Result<Layout, GgufFault> {
    match number_at(b, 0, 4) {
        Err(fault) => Err(fault),
        Ok((magic, p)) => if magic != GGUF_MAGIC {
            Err(GgufFault::BadMagic(magic as u32))
        } else {
            match number_at(b, p, 4) {
                Err(fault) => Err(fault),
                Ok((version, q)) => if version != 2 && version != 3 {
                    Err(GgufFault::UnsupportedVersion(version as u32))
                } else {
                    match number_at(b, q, 8) {
                        Err(fault) => Err(fault),
                        Ok((n_tensors, r)) => match number_at(b, r, 8) {
                            Err(fault) => Err(fault),
                            Ok((n_entries, s)) => body_at(
                                b,
                                s,
                                version as u32,
                                n_tensors,
                                n_entries,
                            ),
                        },
                    }
                },
            }
        },
    }
}

/// How many bytes a tensor takes.
pub open spec fn model_bytes(t: TensorModel) -> int {
    byte_count(t.shape, t.ggml_type)
}

/// How many bytes all tensors take.
pub open spec fn data_bytes(tensors: Seq<TensorModel>) -> int
    decreases tensors.len(),
{
    if tensors.len() == 0 {
        0
    } else {
        data_bytes(tensors.drop_last()) + model_bytes(tensors.last())
    }
}

/// Where the data of the last tensor end.
pub open spec fn last_end(layout: Layout) -> int {
    layout.data_offset + layout.tensors.last().offset + model_bytes(layout.tensors.last())
}

/// What is wrong with a file, given what it holds in front of the data.
pub open spec fn layout_fault(layout: Layout, file_size: int) -> Option<GgufFault> {
    if layout.tensors.len() > 0 && last_end(layout) > file_size {
        Some(
            GgufFault::FileTooSmall {
                needed: last_end(layout) as u64,
                file_size: file_size as u64,
            },
        )
    } else {
        None
    }
}

/// The sizes of all tensors can be counted, and added up.
pub open spec fn layout_countable(layout: Layout) -> bool {
    &&& forall|i: int|
        0 <= i < layout.tensors.len() ==> measurable(
            (#[trigger] layout.tensors[i]).shape,
            layout.tensors[i].ggml_type,
        )
    &&& data_bytes(layout.tensors) <= u64::MAX
    &&& layout.tensors.len() > 0 ==> last_end(layout) <= u64::MAX
}

/// Whatever bytes hold, its sizes can be counted.
pub open spec fn countable(b: Seq<u8>) -> bool {
    layout_of(b) matches Ok(layout) ==> layout_countable(layout)
}

/// Where the named values and the tensors of a file end.
pub open spec fn front_end(b: Seq<u8>) -> int {
    match (number_at(b, 8, 8), number_at(b, 16, 8)) {
        (Ok((n_tensors, _)), Ok((n_entries, start))) => match many(
            entry_step(b),
            start,
            n_entries,
        ) {
            Ok((_, p)) => match many(tensor_step(b), p, n_tensors) {
                Ok((_, q)) => q,
                Err(_) => p,
            },
            Err(_) => start,
        },
        _ => 0,
    }
}

/// The bytes of a file from `start` to `end`, if it is long enough.
pub open spec fn bytes_between(b: Seq<u8>, start: int, end: int) -> Result<Seq<u8>, GgufFault> {
    if end <= b.len() {
        Ok(b.subrange(start, end))
    } else {
        Err(GgufFault::FileTooSmall { needed: end as u64, file_size: b.len() as u64 })
    }
}

/// A file that has been read; its bytes stay where they are.
pub struct GgufFile<'a> {
    pub header: GgufHeader,
    pub tensors: Vec<TensorInfo>,
    /// Where the data begin.
    pub data_offset: u64,
    /// The whole file.
    pub bytes: &'a [u8],
}

/// Header and tensors of a file before the sizes are looked at.
struct Front {
    header: GgufHeader,
    tensors: Vec<TensorInfo>,
    data_offset: u64,
}

impl Front {
    spec fn is(self, layout: Layout) -> bool {
        &&& self.header.version == layout.version
        &&& self.header.n_tensors == layout.n_tensors
        &&& are_entries(self.header.metadata@, layout.entries)
        &&& are_tensors(self.tensors@, layout.tensors)
        &&& self.data_offset == layout.data_offset
    }

    /// Reads everything in front of the data.
    fn read(bytes: &[u8]) -> (outcome: Result<Self, GgufError>)
        requires
            bytes@.len() + 31 <= u64::MAX,
        ensures
            match outcome {
                Ok(front) => layout_of(bytes@) matches Ok(layout) && front.is(layout),
                Err(error) => layout_of(bytes@) == Err::<Layout, GgufFault>(error@),
            },
    {
        let mut cursor = Cursor { bytes, pos: 0 };
        let magic: u32 = match cursor.read_u32() {
            Ok(n) => n,
            Err(error) => {
                return Err(error);
            },
        };
        if magic != GGUF_MAGIC {
            return Err(GgufError::BadMagic(magic));
        }
        let version: u32 = match cursor.read_u32() {
            Ok(n) => n,
            Err(error) => {
                return Err(error);
            },
        };
        if version != GGUF_VERSION_2 && version != GGUF_VERSION_3 {
            return Err(GgufError::UnsupportedVersion(version));
        }
        let n_tensors: u64 = match cursor.read_u64() {
            Ok(n) => n,
            Err(error) => {
                return Err(error);
            },
        };
        let n_entries: u64 = match cursor.read_u64() {
            Ok(n) => n,
            Err(error) => {
                return Err(error);
            },
        };
        let metadata = match read_entries(&mut cursor, n_entries) {
            Ok(metadata) => metadata,
            Err(error) => {
                return Err(error);
            },
        };
        let tensors = match read_tensors(&mut cursor, n_tensors) {
            Ok(tensors) => tensors,
            Err(error) => {
                return Err(error);
            },
        };
        let end: u64 = cursor.pos as u64;
        let data_offset: u64 = (end + 31) / 32 * 32;
        Ok(Front { header: GgufHeader { version, n_tensors, metadata }, tensors, data_offset })
    }

    /// Whether the sizes of all tensors can be counted, and added up.
    fn is_countable(&self, Ghost(layout): Ghost<Layout>) -> (yes: bool)
        requires
            self.is(layout),
        ensures
            yes == layout_countable(layout),
    {
        let mut total: u64 = 0;
        assert(layout.tensors.take(0) =~= Seq::empty());
        for i in 0..self.tensors.len()
            invariant
                self.is(layout),
                total == data_bytes(layout.tensors.take(i as int)),
                forall|j: int|
                    0 <= j < i ==> measurable(
                        (#[trigger] layout.tensors[j]).shape,
                        layout.tensors[j].ggml_type,
                    ),
        {
            let ghost model = layout.tensors[i as int];
            assert(self.tensors@[i as int]@ == model);
            if !self.tensors[i].is_measurable() {
                return false;
            }
            let size: u64 = self.tensors[i].data_size();
            proof {
                let more = layout.tensors.take(i + 1);
                assert(more.drop_last() =~= layout.tensors.take(i as int));
                lemma_data_bytes(layout.tensors, i + 1);
            }
            match total.checked_add(size) {
                Some(sum) => {
                    total = sum;
                },
                None => {
                    return false;
                },
            }
        }
        assert(layout.tensors.take(layout.tensors.len() as int) =~= layout.tensors);
        if self.tensors.len() == 0 {
            return true;
        }
        let last = &self.tensors[self.tensors.len() - 1];
        assert(last@ == layout.tensors.last());
        assert(measurable(layout.tensors.last().shape, layout.tensors.last().ggml_type)) by {
            assert(layout.tensors.last() == layout.tensors[layout.tensors.len() - 1]);
        }
        match self.data_offset.checked_add(last.offset) {
            Some(start) => match start.checked_add(last.data_size()) {
                Some(_) => true,
                None => false,
            },
            None => {
                proof {
                    lemma_byte_count(last@);
                }
                false
            },
        }
    }
}

proof fn lemma_byte_count(t: TensorModel)
    ensures
        model_bytes(t) >= 0,
{
    crate::arith::lemma_ceil_div(
        crate::gguf::types::element_count(t.shape) as int,
        crate::gguf::types::weights_per_block(t.ggml_type) as int,
    );
    let q = crate::arith::ceil_div(
        crate::gguf::types::element_count(t.shape) as int,
        crate::gguf::types::weights_per_block(t.ggml_type) as int,
    );
    let n = crate::gguf::types::bytes_per_block(t.ggml_type) as int;
    assert(q * n >= 0) by (nonlinear_arith)
        requires
            q >= 0,
            n >= 0,
    ;
}

/// A prefix takes no more bytes than the whole.
proof fn lemma_data_bytes(tensors: Seq<TensorModel>, n: int)
    requires
        0 <= n <= tensors.len(),
    ensures
        0 <= data_bytes(tensors.take(n)) <= data_bytes(tensors),
    decreases tensors.len() - n,
{
    if n == tensors.len() {
        assert(tensors.take(n) =~= tensors);
        lemma_data_bytes_sign(tensors);
    } else {
        assert(tensors.take(n + 1).drop_last() =~= tensors.take(n));
        lemma_byte_count(tensors[n]);
        lemma_data_bytes(tensors, n + 1);
        lemma_data_bytes_sign(tensors.take(n));
    }
}

proof fn lemma_data_bytes_sign(tensors: Seq<TensorModel>)
    ensures
        0 <= data_bytes(tensors),
    decreases tensors.len(),
{
    if tensors.len() > 0 {
        lemma_data_bytes_sign(tensors.drop_last());
        lemma_byte_count(tensors.last());
    }
}

/// The first tensor from `i` on with this name.
pub open spec fn tensor_named(tensors: Seq<TensorInfo>, name: Seq<char>, i: int) -> Option<TensorInfo>
    decreases tensors.len() - i,
{
    if i >= tensors.len() {
        None
    } else if tensors[i].name@ == name {
        Some(tensors[i])
    } else {
        tensor_named(tensors, name, i + 1)
    }
}

impl<'a> GgufFile<'a> {
    /// The file holds this in front of the data.
    pub open spec fn is(self, layout: Layout) -> bool {
        &&& self.header.version == layout.version
        &&& self.header.n_tensors == layout.n_tensors
        &&& are_entries(self.header.metadata@, layout.entries)
        &&& are_tensors(self.tensors@, layout.tensors)
        &&& self.data_offset == layout.data_offset
    }

    /// The bytes of a tensor, which are counted from the start of the data.
    pub open spec fn data_of(self, tensor: TensorModel) -> Result<Seq<u8>, GgufFault> {
        let start = self.data_offset + tensor.offset;
        bytes_between(self.bytes@, start, start + model_bytes(tensor))
    }

    /// Reads a file whose sizes can be counted.
    pub fn open(bytes: &'a [u8]) -> (outcome: Result<Self, GgufError>)
        requires
            bytes@.len() + 31 <= u64::MAX,
            countable(bytes@),
        ensures
            match outcome {
                Ok(file) => {
                    &&& file.bytes@ == bytes@
                    &&& layout_of(bytes@) matches Ok(layout) && file.is(layout) && layout_fault(
                        layout,
                        bytes@.len() as int,
                    ) is None
                },
                Err(error) => match layout_of(bytes@) {
                    Err(fault) => error@ == fault,
                    Ok(layout) => layout_fault(layout, bytes@.len() as int) == Some(error@),
                },
            },
    {
        let front = match Front::read(bytes) {
            Ok(front) => front,
            Err(error) => {
                return Err(error);
            },
        };
        let ghost layout = layout_of(bytes@)->Ok_0;
        let file_size: u64 = bytes.len() as u64;
        if front.tensors.len() > 0 {
            let last = &front.tensors[front.tensors.len() - 1];
            proof {
                assert(last@ == layout.tensors.last());
                assert(layout.tensors.last() == layout.tensors[layout.tensors.len() - 1]);
                lemma_byte_count(last@);
            }
            let needed: u64 = front.data_offset + last.offset + last.data_size();
            if needed > file_size {
                return Err(GgufError::FileTooSmall { needed, file_size });
            }
        }
        Ok(
            GgufFile {
                header: front.header,
                tensors: front.tensors,
                data_offset: front.data_offset,
                bytes,
            },
        )
    }

    /// Reads a file; gives nothing where its sizes cannot be counted.
    pub fn try_open(bytes: &'a [u8]) -> (outcome: Option<Result<Self, GgufError>>)
        requires
            bytes@.len() + 31 <= u64::MAX,
        ensures
            outcome is Some <==> countable(bytes@),
            match outcome {
                None => true,
                Some(Ok(file)) => {
                    &&& file.bytes@ == bytes@
                    &&& layout_of(bytes@) matches Ok(layout) && file.is(layout) && layout_fault(
                        layout,
                        bytes@.len() as int,
                    ) is None
                },
                Some(Err(error)) => match layout_of(bytes@) {
                    Err(fault) => error@ == fault,
                    Ok(layout) => layout_fault(layout, bytes@.len() as int) == Some(error@),
                },
            },
    {
        match Front::read(bytes) {
            Ok(front) => {
                if !front.is_countable(Ghost(layout_of(bytes@)->Ok_0)) {
                    return None;
                }
            },
            Err(_) => {},
        }
        Some(Self::open(bytes))
    }

    /// The bytes of a tensor; they must lie within the file.
    pub fn tensor_data(&self, tensor: &TensorInfo) -> (outcome: Result<&'a [u8], GgufError>)
        requires
            measurable(tensor.shape@, tensor.ggml_type),
            self.data_offset + tensor.offset + model_bytes(tensor@) <= usize::MAX,
        ensures
            match outcome {
                Ok(data) => self.data_of(tensor@) == Ok::<Seq<u8>, GgufFault>(data@),
                Err(error) => self.data_of(tensor@) == Err::<Seq<u8>, GgufFault>(error@),
            },
    {
        proof {
            lemma_byte_count(tensor@);
        }
        let start: usize = (self.data_offset + tensor.offset) as usize;
        let size: usize = tensor.data_size() as usize;
        let end: usize = start + size;
        if end > self.bytes.len() {
            return Err(
                GgufError::FileTooSmall {
                    needed: end as u64,
                    file_size: self.bytes.len() as u64,
                },
            );
        }
        Ok(slice_subrange(self.bytes, start, end))
    }

    /// The first tensor with a name.
    pub fn find_tensor(&self, name: &str) -> (found: Option<&TensorInfo>)
        ensures
            match found {
                Some(tensor) => tensor_named(self.tensors@, name@, 0) == Some(*tensor),
                None => tensor_named(self.tensors@, name@, 0) is None,
            },
    {
        for i in 0..self.tensors.len()
            invariant
                tensor_named(self.tensors@, name@, i as int) == tensor_named(
                    self.tensors@,
                    name@,
                    0,
                ),
        {
            if same(self.tensors[i].name.as_str(), name) {
                return Some(&self.tensors[i]);
            }
        }
        None
    }

    /// The first tensor with a name, and its bytes.
    pub fn tensor_data_by_name(&self, name: &str) -> (outcome: Result<
        (&TensorInfo, &'a [u8]),
        GgufError,
    >)
        requires
            tensor_named(self.tensors@, name@, 0) matches Some(tensor) ==> measurable(
                tensor.shape@,
                tensor.ggml_type,
            ) && self.data_offset + tensor.offset + model_bytes(tensor@) <= usize::MAX,
        ensures
            match tensor_named(self.tensors@, name@, 0) {
                None => outcome matches Err(error) && error@ == GgufFault::TensorNotFound(name@),
                Some(tensor) => match outcome {
                    Ok((info, data)) => *info == tensor && self.data_of(tensor@) == Ok::<
                        Seq<u8>,
                        GgufFault,
                    >(data@),
                    Err(error) => self.data_of(tensor@) == Err::<Seq<u8>, GgufFault>(error@),
                },
            },
    {
        match self.find_tensor(name) {
            None => Err(GgufError::TensorNotFound(name.to_owned())),
            Some(tensor) => match self.tensor_data(tensor) {
                Ok(data) => Ok((tensor, data)),
                Err(error) => Err(error),
            },
        }
    }

    /// How many bytes all tensors take.
    pub fn total_data_bytes(&self) -> (total: u64)
        requires
            exists|layout: Layout| #[trigger] self.is(layout) && layout_countable(layout),
        ensures
            forall|layout: Layout| #[trigger]
                self.is(layout) ==> total == data_bytes(layout.tensors),
    {
        let ghost layout = choose|layout: Layout| #[trigger]
            self.is(layout) && layout_countable(layout);
        let mut total: u64 = 0;
        assert(layout.tensors.take(0) =~= Seq::empty());
        for i in 0..self.tensors.len()
            invariant
                self.is(layout),
                layout_countable(layout),
                total == data_bytes(layout.tensors.take(i as int)),
        {
            let ghost model = layout.tensors[i as int];
            proof {
                assert(self.tensors@[i as int]@ == model);
                assert(measurable(model.shape, model.ggml_type));
                let more = layout.tensors.take(i + 1);
                assert(more.drop_last() =~= layout.tensors.take(i as int));
                lemma_data_bytes(layout.tensors, i + 1);
            }
            total = total + self.tensors[i].data_size();
        }
        proof {
            assert(layout.tensors.take(layout.tensors.len() as int) =~= layout.tensors);
            assert forall|other: Layout| #[trigger] self.is(other) implies total == data_bytes(
                other.tensors,
            ) by {
                assert forall|i: int| 0 <= i < other.tensors.len() implies #[trigger] other.tensors[i]
                    == layout.tensors[i] by {
                    assert(self.tensors@[i]@ == other.tensors[i]);
                }
                assert(other.tensors =~= layout.tensors);
            }
        }
        total
    }
}

/// The data of a file begin at the first multiple of 32 behind its named values
/// and tensors, and a tensor has the bytes that its offset and its size give
/// there: all of them, or the file is too small for them.
pub proof fn law_tensor_data_follow_the_front(file: GgufFile, layout: Layout, tensor: TensorModel)
    requires
        layout_of(file.bytes@) == Ok::<Layout, GgufFault>(layout),
        file.is(layout),
        measurable(tensor.shape, tensor.ggml_type),
    ensures
        ({
            let b = file.bytes@;
            let start = aligned(front_end(b)) + tensor.offset;
            let end = start + model_bytes(tensor);
            &&& file.data_offset == aligned(front_end(b))
            &&& end <= b.len() ==> file.data_of(tensor) == Ok::<Seq<u8>, GgufFault>(
                b.subrange(start, end),
            ) && b.subrange(start, end).len() == model_bytes(tensor)
            &&& end > b.len() ==> file.data_of(tensor) == Err::<Seq<u8>, GgufFault>(
                GgufFault::FileTooSmall { needed: end as u64, file_size: b.len() as u64 },
            )
        }),
{
    lemma_byte_count(tensor);
}

} // verus!
