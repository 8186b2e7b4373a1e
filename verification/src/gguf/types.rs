//! Tensor types, metadata values and errors of GGUF files.
use vstd::prelude::*;
use vstd::string::*;
use crate::arith::{ceil_div, lemma_ceil_div};
use crate::text::{decimal, to_decimal};

verus! {

/// "GGUF" as a little-endian number.
pub const GGUF_MAGIC: u32 = 0x4655_4747;

/// The older supported version.
pub const GGUF_VERSION_2: u32 = 2;

/// The newer supported version.
pub const GGUF_VERSION_3: u32 = 3;

/// How the weights of a tensor are stored.
#[derive(Debug, Clone, Copy, PartialEq, Eq, Hash, Structural)]
#[allow(non_camel_case_types)]
pub enum GgmlType {
    F32,
    F16,
    Q4_0,
    Q4_1,
    Q5_0,
    Q5_1,
    Q8_0,
    Q8_1,
    Q2_K,
    Q3_K,
    Q4_K,
    Q5_K,
    Q6_K,
    Q8_K,
    IQ2_XXS,
    IQ2_XS,
    IQ3_XXS,
    IQ1_S,
    IQ4_NL,
    IQ3_S,
    IQ2_S,
    IQ4_XS,
    I8,
    I16,
    I32,
    I64,
    F64,
    IQ1_M,
    BF16,
}

/// The number that stands for a type in a file.
pub open spec fn type_number(t: GgmlType) -> u32 {
    match t {
        GgmlType::F32 => 0,
        GgmlType::F16 => 1,
        GgmlType::Q4_0 => 2,
        GgmlType::Q4_1 => 3,
        GgmlType::Q5_0 => 6,
        GgmlType::Q5_1 => 7,
        GgmlType::Q8_0 => 8,
        GgmlType::Q8_1 => 9,
        GgmlType::Q2_K => 10,
        GgmlType::Q3_K => 11,
        GgmlType::Q4_K => 12,
        GgmlType::Q5_K => 13,
        GgmlType::Q6_K => 14,
        GgmlType::Q8_K => 15,
        GgmlType::IQ2_XXS => 16,
        GgmlType::IQ2_XS => 17,
        GgmlType::IQ3_XXS => 18,
        GgmlType::IQ1_S => 19,
        GgmlType::IQ4_NL => 20,
        GgmlType::IQ3_S => 21,
        GgmlType::IQ2_S => 22,
        GgmlType::IQ4_XS => 23,
        GgmlType::I8 => 24,
        GgmlType::I16 => 25,
        GgmlType::I32 => 26,
        GgmlType::I64 => 27,
        GgmlType::F64 => 28,
        GgmlType::IQ1_M => 29,
        GgmlType::BF16 => 30,
    }
}

/// How many weights share a block: one for plain numbers, 32 for the simple
/// quantisations and 256 for all others.
pub open spec fn weights_per_block(t: GgmlType) -> usize {
    match t {
        GgmlType::F32
        | GgmlType::F16
        | GgmlType::I8
        | GgmlType::I16
        | GgmlType::I32
        | GgmlType::I64
        | GgmlType::F64
        | GgmlType::BF16 => 1,
        GgmlType::Q4_0
        | GgmlType::Q4_1
        | GgmlType::Q5_0
        | GgmlType::Q5_1
        | GgmlType::Q8_0
        | GgmlType::Q8_1
        | GgmlType::IQ4_NL => 32,
        _ => 256,
    }
}

/// How many bytes a block takes.
pub open spec fn bytes_per_block(t: GgmlType) -> usize {
    match t {
        GgmlType::F32 => 4,
        GgmlType::F16 => 2,
        GgmlType::Q4_0 => 18,
        GgmlType::Q4_1 => 20,
        GgmlType::Q5_0 => 22,
        GgmlType::Q5_1 => 24,
        GgmlType::Q8_0 => 34,
        GgmlType::Q8_1 => 40,
        GgmlType::Q2_K => 84,
        GgmlType::Q3_K => 110,
        GgmlType::Q4_K => 144,
        GgmlType::Q5_K => 176,
        GgmlType::Q6_K => 210,
        GgmlType::Q8_K => 260,
        GgmlType::IQ2_XXS => 66,
        GgmlType::IQ2_XS => 74,
        GgmlType::IQ3_XXS => 114,
        GgmlType::IQ1_S => 50,
        GgmlType::IQ4_NL => 18,
        GgmlType::IQ3_S => 138,
        GgmlType::IQ2_S => 106,
        GgmlType::IQ4_XS => 148,
        GgmlType::I8 => 1,
        GgmlType::I16 => 2,
        GgmlType::I32 => 4,
        GgmlType::I64 => 8,
        GgmlType::F64 => 8,
        GgmlType::IQ1_M => 58,
        GgmlType::BF16 => 2,
    }
}

/// How a type is written.
pub open spec fn type_label(t: GgmlType) -> Seq<char> {
    match t {
        GgmlType::F32 => "F32"@,
        GgmlType::F16 => "F16"@,
        GgmlType::Q4_0 => "Q4_0"@,
        GgmlType::Q4_1 => "Q4_1"@,
        GgmlType::Q5_0 => "Q5_0"@,
        GgmlType::Q5_1 => "Q5_1"@,
        GgmlType::Q8_0 => "Q8_0"@,
        GgmlType::Q8_1 => "Q8_1"@,
        GgmlType::Q2_K => "Q2_K"@,
        GgmlType::Q3_K => "Q3_K"@,
        GgmlType::Q4_K => "Q4_K"@,
        GgmlType::Q5_K => "Q5_K"@,
        GgmlType::Q6_K => "Q6_K"@,
        GgmlType::Q8_K => "Q8_K"@,
        GgmlType::IQ2_XXS => "IQ2_XXS"@,
        GgmlType::IQ2_XS => "IQ2_XS"@,
        GgmlType::IQ3_XXS => "IQ3_XXS"@,
        GgmlType::IQ1_S => "IQ1_S"@,
        GgmlType::IQ4_NL => "IQ4_NL"@,
        GgmlType::IQ3_S => "IQ3_S"@,
        GgmlType::IQ2_S => "IQ2_S"@,
        GgmlType::IQ4_XS => "IQ4_XS"@,
        GgmlType::I8 => "I8"@,
        GgmlType::I16 => "I16"@,
        GgmlType::I32 => "I32"@,
        GgmlType::I64 => "I64"@,
        GgmlType::F64 => "F64"@,
        GgmlType::IQ1_M => "IQ1_M"@,
        GgmlType::BF16 => "BF16"@,
    }
}

/// Different types have different numbers.
pub proof fn law_type_numbers_differ(a: GgmlType, b: GgmlType)
    requires
        type_number(a) == type_number(b),
    ensures
        a == b,
{
}

impl GgmlType {
    /// The type that a number stands for.
    pub fn from_u32(v: u32) -> (found: Option<Self>)
        ensures
            match found {
                Some(t) => type_number(t) == v,
                None => forall|t: GgmlType| #[trigger] type_number(t) != v,
            },
    {
        match v {
            0 => Some(Self::F32),
            1 => Some(Self::F16),
            2 => Some(Self::Q4_0),
            3 => Some(Self::Q4_1),
            6 => Some(Self::Q5_0),
            7 => Some(Self::Q5_1),
            8 => Some(Self::Q8_0),
            9 => Some(Self::Q8_1),
            10 => Some(Self::Q2_K),
            11 => Some(Self::Q3_K),
            12 => Some(Self::Q4_K),
            13 => Some(Self::Q5_K),
            14 => Some(Self::Q6_K),
            15 => Some(Self::Q8_K),
            16 => Some(Self::IQ2_XXS),
            17 => Some(Self::IQ2_XS),
            18 => Some(Self::IQ3_XXS),
            19 => Some(Self::IQ1_S),
            20 => Some(Self::IQ4_NL),
            21 => Some(Self::IQ3_S),
            22 => Some(Self::IQ2_S),
            23 => Some(Self::IQ4_XS),
            24 => Some(Self::I8),
            25 => Some(Self::I16),
            26 => Some(Self::I32),
            27 => Some(Self::I64),
            28 => Some(Self::F64),
            29 => Some(Self::IQ1_M),
            30 => Some(Self::BF16),
            _ => None,
        }
    }

    /// How many weights share a block.
    pub fn block_size(&self) -> (n: usize)
        ensures
            n == weights_per_block(*self),
    {
        match self {
            Self::F32
            | Self::F16
            | Self::I8
            | Self::I16
            | Self::I32
            | Self::I64
            | Self::F64
            | Self::BF16 => 1,
            Self::Q4_0
            | Self::Q4_1
            | Self::Q5_0
            | Self::Q5_1
            | Self::Q8_0
            | Self::Q8_1
            | Self::IQ4_NL => 32,
            _ => 256,
        }
    }

    /// How many bytes a block takes.
    pub fn block_bytes(&self) -> (n: usize)
        ensures
            n == bytes_per_block(*self),
    {
        match self {
            Self::F32 => 4,
            Self::F16 => 2,
            Self::Q4_0 => 18,
            Self::Q4_1 => 20,
            Self::Q5_0 => 22,
            Self::Q5_1 => 24,
            Self::Q8_0 => 34,
            Self::Q8_1 => 40,
            Self::Q2_K => 84,
            Self::Q3_K => 110,
            Self::Q4_K => 144,
            Self::Q5_K => 176,
            Self::Q6_K => 210,
            Self::Q8_K => 260,
            Self::IQ2_XXS => 66,
            Self::IQ2_XS => 74,
            Self::IQ3_XXS => 114,
            Self::IQ1_S => 50,
            Self::IQ4_NL => 18,
            Self::IQ3_S => 138,
            Self::IQ2_S => 106,
            Self::IQ4_XS => 148,
            Self::I8 => 1,
            Self::I16 => 2,
            Self::I32 => 4,
            Self::I64 => 8,
            Self::F64 => 8,
            Self::IQ1_M => 58,
            Self::BF16 => 2,
        }
    }

    /// How a type is written.
    pub fn name(&self) -> (name: &'static str)
        ensures
            name@ == type_label(*self),
    {
        match self {
            Self::F32 => "F32",
            Self::F16 => "F16",
            Self::Q4_0 => "Q4_0",
            Self::Q4_1 => "Q4_1",
            Self::Q5_0 => "Q5_0",
            Self::Q5_1 => "Q5_1",
            Self::Q8_0 => "Q8_0",
            Self::Q8_1 => "Q8_1",
            Self::Q2_K => "Q2_K",
            Self::Q3_K => "Q3_K",
            Self::Q4_K => "Q4_K",
            Self::Q5_K => "Q5_K",
            Self::Q6_K => "Q6_K",
            Self::Q8_K => "Q8_K",
            Self::IQ2_XXS => "IQ2_XXS",
            Self::IQ2_XS => "IQ2_XS",
            Self::IQ3_XXS => "IQ3_XXS",
            Self::IQ1_S => "IQ1_S",
            Self::IQ4_NL => "IQ4_NL",
            Self::IQ3_S => "IQ3_S",
            Self::IQ2_S => "IQ2_S",
            Self::IQ4_XS => "IQ4_XS",
            Self::I8 => "I8",
            Self::I16 => "I16",
            Self::I32 => "I32",
            Self::I64 => "I64",
            Self::F64 => "F64",
            Self::IQ1_M => "IQ1_M",
            Self::BF16 => "BF16",
        }
    }
}

/// A tensor of a file.
#[derive(Debug)]
pub struct TensorInfo {
    /// Its name.
    pub name: String,
    /// How many dimensions it has.
    pub n_dims: u32,
    /// Its extents, the innermost first.
    pub shape: Vec<u64>,
    /// How its weights are stored.
    pub ggml_type: GgmlType,
    /// Where its data begin, counted from the start of all data.
    pub offset: u64,
}

/// The product of extents.
pub open spec fn product(shape: Seq<u64>) -> nat
    decreases shape.len(),
{
    if shape.len() == 0 {
        1
    } else {
        product(shape.drop_last()) * (shape.last() as nat)
    }
}

/// How many weights a shape has; none counts as one.
pub open spec fn element_count(shape: Seq<u64>) -> nat {
    if product(shape) == 0 {
        1
    } else {
        product(shape)
    }
}

/// How many bytes a tensor takes: whole blocks.
pub open spec fn byte_count(shape: Seq<u64>, t: GgmlType) -> int {
    ceil_div(element_count(shape) as int, weights_per_block(t) as int) * bytes_per_block(t)
}

/// The product of every run of leading extents fits.
pub open spec fn multipliable(shape: Seq<u64>) -> bool {
    forall|k: int| 0 <= k <= shape.len() ==> product(#[trigger] shape.take(k)) <= u64::MAX
}

/// The bytes of a tensor can be counted.
pub open spec fn measurable(shape: Seq<u64>, t: GgmlType) -> bool {
    &&& multipliable(shape)
    &&& element_count(shape) + weights_per_block(t) <= usize::MAX
    &&& byte_count(shape, t) <= usize::MAX
}

impl TensorInfo {
    /// How many weights the tensor has.
    pub fn n_elements(&self) -> (n: u64)
        requires
            multipliable(self.shape@),
        ensures
            n == element_count(self.shape@),
    {
        let mut n: u64 = 1;
        for i in 0..self.shape.len()
            invariant
                multipliable(self.shape@),
                n == product(self.shape@.take(i as int)),
        {
            proof {
                assert(self.shape@.take(i + 1).drop_last() =~= self.shape@.take(i as int));
                assert(product(self.shape@.take(i + 1)) <= u64::MAX);
            }
            n = n * self.shape[i];
        }
        assert(self.shape@.take(self.shape@.len() as int) =~= self.shape@);
        if n == 0 {
            1
        } else {
            n
        }
    }

    /// How many bytes the tensor takes in the file.
    pub fn data_size(&self) -> (n: u64)
        requires
            measurable(self.shape@, self.ggml_type),
        ensures
            n == byte_count(self.shape@, self.ggml_type),
    {
        let n: usize = self.n_elements() as usize;
        let bs: usize = self.ggml_type.block_size();
        let bb: usize = self.ggml_type.block_bytes();
        proof {
            lemma_ceil_div(n as int, bs as int);
        }
        let n_blocks: usize = (n + bs - 1) / bs;
        (n_blocks * bb) as u64
    }

    /// Whether the bytes of the tensor can be counted.
    pub fn is_measurable(&self) -> (yes: bool)
        ensures
            yes == measurable(self.shape@, self.ggml_type),
    {
        let mut n: u64 = 1;
        for i in 0..self.shape.len()
            invariant
                n == product(self.shape@.take(i as int)),
                forall|k: int|
                    0 <= k <= i ==> product(#[trigger] self.shape@.take(k)) <= u64::MAX,
        {
            proof {
                assert(self.shape@.take(i + 1).drop_last() =~= self.shape@.take(i as int));
            }
            match n.checked_mul(self.shape[i]) {
                Some(next) => {
                    n = next;
                },
                None => {
                    assert(product(self.shape@.take(i + 1)) > u64::MAX);
                    return false;
                },
            }
        }
        assert(self.shape@.take(self.shape@.len() as int) =~= self.shape@);
        let count: u64 = if n == 0 {
            1
        } else {
            n
        };
        let bs: usize = self.ggml_type.block_size();
        let bb: usize = self.ggml_type.block_bytes();
        if count > usize::MAX as u64 - bs as u64 {
            return false;
        }
        proof {
            lemma_ceil_div(count as int, bs as int);
        }
        let blocks: usize = (count as usize + bs - 1) / bs;
        match blocks.checked_mul(bb) {
            Some(_) => true,
            None => false,
        }
    }
}

/// A metadata value. Floating-point numbers are held by their bits.
#[derive(Debug)]
pub enum MetadataValue {
    Uint8(u8),
    Int8(i8),
    Uint16(u16),
    Int16(i16),
    Uint32(u32),
    Int32(i32),
    Uint64(u64),
    Int64(i64),
    Float32(u32),
    Float64(u64),
    Bool(bool),
    String(String),
    Array(Vec<MetadataValue>),
}

/// A number that is narrowed to single precision when it is used.
#[derive(Debug, Clone, Copy, PartialEq, Eq, Structural)]
pub enum FloatBits {
    Single(u32),
    Double(u64),
}

/// The text of a value.
pub open spec fn text_of(value: MetadataValue) -> Option<Seq<char>> {
    match value {
        MetadataValue::String(s) => Some(s@),
        _ => None,
    }
}

/// A signed number in two's complement.
pub open spec fn as_unsigned(n: i32) -> u32 {
    if n < 0 {
        (n + 0x1_0000_0000) as u32
    } else {
        n as u32
    }
}

/// The count that a value stands for; a signed number counts by its bits.
pub open spec fn count_of(value: MetadataValue) -> Option<u32> {
    match value {
        MetadataValue::Uint32(v) => Some(v),
        MetadataValue::Uint16(v) => Some(v as u32),
        MetadataValue::Uint8(v) => Some(v as u32),
        MetadataValue::Int32(v) => Some(as_unsigned(v)),
        _ => None,
    }
}

/// The wide count that a value stands for.
pub open spec fn wide_count_of(value: MetadataValue) -> Option<u64> {
    match value {
        MetadataValue::Uint64(v) => Some(v),
        MetadataValue::Uint32(v) => Some(v as u64),
        _ => None,
    }
}

/// The floating-point number that a value stands for.
pub open spec fn float_of(value: MetadataValue) -> Option<FloatBits> {
    match value {
        MetadataValue::Float32(bits) => Some(FloatBits::Single(bits)),
        MetadataValue::Float64(bits) => Some(FloatBits::Double(bits)),
        _ => None,
    }
}

/// The truth value that a value stands for.
pub open spec fn truth_of(value: MetadataValue) -> Option<bool> {
    match value {
        MetadataValue::Bool(v) => Some(v),
        _ => None,
    }
}

impl MetadataValue {
    /// The text of the value, if it is one.
    pub fn as_str(&self) -> (text: Option<&str>)
        ensures
            match text {
                Some(s) => text_of(*self) == Some(s@),
                None => text_of(*self) is None,
            },
    {
        match self {
            MetadataValue::String(s) => Some(s.as_str()),
            _ => None,
        }
    }

    /// The count that the value stands for, if any.
    pub fn as_u32(&self) -> (count: Option<u32>)
        ensures
            count == count_of(*self),
    {
        match self {
            MetadataValue::Uint32(v) => Some(*v),
            MetadataValue::Uint16(v) => Some(*v as u32),
            MetadataValue::Uint8(v) => Some(*v as u32),
            MetadataValue::Int32(v) => Some(
                if *v < 0 {
                    (*v as i64 + 0x1_0000_0000) as u32
                } else {
                    *v as u32
                },
            ),
            _ => None,
        }
    }

    /// The wide count that the value stands for, if any.
    pub fn as_u64(&self) -> (count: Option<u64>)
        ensures
            count == wide_count_of(*self),
    {
        match self {
            MetadataValue::Uint64(v) => Some(*v),
            MetadataValue::Uint32(v) => Some(*v as u64),
            _ => None,
        }
    }

    /// The floating-point number that the value stands for, if any.
    pub fn as_f32(&self) -> (number: Option<FloatBits>)
        ensures
            number == float_of(*self),
    {
        match self {
            MetadataValue::Float32(bits) => Some(FloatBits::Single(*bits)),
            MetadataValue::Float64(bits) => Some(FloatBits::Double(*bits)),
            _ => None,
        }
    }

    /// The truth value that the value stands for, if any.
    pub fn as_bool(&self) -> (truth: Option<bool>)
        ensures
            truth == truth_of(*self),
    {
        match self {
            MetadataValue::Bool(v) => Some(*v),
            _ => None,
        }
    }
}

/// What can be wrong with a file or a request.
#[derive(Debug)]
pub enum GgufError {
    /// The file starts with this number.
    BadMagic(u32),
    /// The file has this version.
    UnsupportedVersion(u32),
    /// A tensor has this type.
    UnknownType(u32),
    /// A metadata value has this type.
    UnknownMetadataType(u32),
    /// Reading failed, for this reason.
    Io(String),
    /// The architecture is not supported, in these words.
    UnsupportedArchitecture(String),
    /// There is no tensor or value of this name.
    TensorNotFound(String),
    /// The data do not fit into the file.
    FileTooSmall { needed: u64, file_size: u64 },
}

/// [`GgufError`] over plain sequences.
pub enum GgufFault {
    BadMagic(u32),
    UnsupportedVersion(u32),
    UnknownType(u32),
    UnknownMetadataType(u32),
    Io(Seq<char>),
    UnsupportedArchitecture(Seq<char>),
    TensorNotFound(Seq<char>),
    FileTooSmall { needed: u64, file_size: u64 },
}

/// A hexadecimal digit.
pub open spec fn hex_digit(d: int) -> char {
    "0123456789ABCDEF"@[d]
}

/// The weight of digit `i` of eight.
pub open spec fn place(i: int) -> int {
    if i == 0 {
        0x1000_0000
    } else if i == 1 {
        0x100_0000
    } else if i == 2 {
        0x10_0000
    } else if i == 3 {
        0x1_0000
    } else if i == 4 {
        0x1000
    } else if i == 5 {
        0x100
    } else if i == 6 {
        0x10
    } else {
        1
    }
}

/// A number in eight hexadecimal digits.
pub open spec fn hexadecimal(n: u32) -> Seq<char> {
    Seq::new(8, |i: int| hex_digit(n as int / place(i) % 16))
}

fn to_hex_digit(d: u32) -> (c: char)
    requires
        d < 16,
    ensures
        c == hex_digit(d as int),
{
    proof {
        reveal_strlit("0123456789ABCDEF");
    }
    match d {
        0 => '0',
        1 => '1',
        2 => '2',
        3 => '3',
        4 => '4',
        5 => '5',
        6 => '6',
        7 => '7',
        8 => '8',
        9 => '9',
        10 => 'A',
        11 => 'B',
        12 => 'C',
        13 => 'D',
        14 => 'E',
        _ => 'F',
    }
}

/// A number in eight hexadecimal digits.
pub fn to_hexadecimal(n: u32) -> (out: String)
    ensures
        out@ == hexadecimal(n),
{
    let mut out = String::new();
    out.push(to_hex_digit(n / 0x1000_0000 % 16));
    out.push(to_hex_digit(n / 0x100_0000 % 16));
    out.push(to_hex_digit(n / 0x10_0000 % 16));
    out.push(to_hex_digit(n / 0x1_0000 % 16));
    out.push(to_hex_digit(n / 0x1000 % 16));
    out.push(to_hex_digit(n / 0x100 % 16));
    out.push(to_hex_digit(n / 0x10 % 16));
    out.push(to_hex_digit(n % 16));
    assert(out@ =~= hexadecimal(n));
    out
}

/// What is said of an error.
pub open spec fn error_text(fault: GgufFault) -> Seq<char> {
    match fault {
        GgufFault::BadMagic(n) => "invalid GGUF magic: expected 0x"@ + hexadecimal(GGUF_MAGIC)
            + ", got 0x"@ + hexadecimal(n),
        GgufFault::UnsupportedVersion(n) => "unsupported GGUF version: "@ + decimal(n as nat)
            + " (supported: 2, 3)"@,
        GgufFault::UnknownType(n) => "unknown ggml type: "@ + decimal(n as nat),
        GgufFault::UnknownMetadataType(n) => "unknown metadata value type: "@ + decimal(n as nat),
        GgufFault::Io(reason) => "I/O error: "@ + reason,
        GgufFault::UnsupportedArchitecture(words) => words,
        GgufFault::TensorNotFound(name) => "tensor not found: "@ + name,
        GgufFault::FileTooSmall { needed, file_size } => "file too small for tensor data (need "@
            + decimal(needed as nat) + ", file has "@ + decimal(file_size as nat) + ")"@,
    }
}

impl GgufError {
    /// The error over plain sequences.
    pub open spec fn view(&self) -> GgufFault {
        match self {
            GgufError::BadMagic(n) => GgufFault::BadMagic(*n),
            GgufError::UnsupportedVersion(n) => GgufFault::UnsupportedVersion(*n),
            GgufError::UnknownType(n) => GgufFault::UnknownType(*n),
            GgufError::UnknownMetadataType(n) => GgufFault::UnknownMetadataType(*n),
            GgufError::Io(reason) => GgufFault::Io(reason@),
            GgufError::UnsupportedArchitecture(words) => GgufFault::UnsupportedArchitecture(words@),
            GgufError::TensorNotFound(name) => GgufFault::TensorNotFound(name@),
            GgufError::FileTooSmall { needed, file_size } => GgufFault::FileTooSmall {
                needed: *needed,
                file_size: *file_size,
            },
        }
    }

    /// What is said of the error.
    pub fn message(&self) -> (text: String)
        ensures
            text@ == error_text(self@),
    {
        match self {
            GgufError::BadMagic(n) => "invalid GGUF magic: expected 0x".to_owned().concat(
                &to_hexadecimal(GGUF_MAGIC),
            ).concat(", got 0x").concat(&to_hexadecimal(*n)),
            GgufError::UnsupportedVersion(n) => "unsupported GGUF version: ".to_owned().concat(
                &to_decimal(*n as u64),
            ).concat(" (supported: 2, 3)"),
            GgufError::UnknownType(n) => "unknown ggml type: ".to_owned().concat(
                &to_decimal(*n as u64),
            ),
            GgufError::UnknownMetadataType(n) => {
                "unknown metadata value type: ".to_owned().concat(&to_decimal(*n as u64))
            },
            GgufError::Io(reason) => "I/O error: ".to_owned().concat(reason.as_str()),
            GgufError::UnsupportedArchitecture(words) => words.clone(),
            GgufError::TensorNotFound(name) => "tensor not found: ".to_owned().concat(
                name.as_str(),
            ),
            GgufError::FileTooSmall { needed, file_size } => {
                "file too small for tensor data (need ".to_owned().concat(
                    &to_decimal(*needed),
                ).concat(", file has ").concat(&to_decimal(*file_size)).concat(")")
            },
        }
    }
}

} // verus!
