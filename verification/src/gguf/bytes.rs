//! Reading numbers and texts out of bytes.
use vstd::prelude::*;
use vstd::slice::*;
use vstd::string::*;
use vstd::utf8::{decode_utf8, valid_utf8};
use byteorder::{ByteOrder, LittleEndian};
use crate::gguf::types::{GgufError, GgufFault};

verus! {

/// The number that bytes stand for, the least significant first.
pub open spec fn little(bytes: Seq<u8>) -> nat
    decreases bytes.len(),
{
    if bytes.len() == 0 {
        0
    } else {
        bytes[0] as nat + 256 * little(bytes.drop_first())
    }
}

/// The first two bytes as a number, by byteorder's `LittleEndian::read_u16`,
/// which reads the least significant byte first and needs two bytes.
#[verifier::external_body]
pub(crate) fn little_u16(bytes: &[u8]) -> (n: u16)
    requires
        bytes@.len() >= 2,
    ensures
        n as nat == little(bytes@.take(2)),
{
    LittleEndian::read_u16(bytes)
}

/// The first four bytes as a number, by byteorder's `LittleEndian::read_u32`,
/// which reads the least significant byte first and needs four bytes.
#[verifier::external_body]
pub(crate) fn little_u32(bytes: &[u8]) -> (n: u32)
    requires
        bytes@.len() >= 4,
    ensures
        n as nat == little(bytes@.take(4)),
{
    LittleEndian::read_u32(bytes)
}

/// The first eight bytes as a number, by byteorder's `LittleEndian::read_u64`,
/// which reads the least significant byte first and needs eight bytes.
#[verifier::external_body]
pub(crate) fn little_u64(bytes: &[u8]) -> (n: u64)
    requires
        bytes@.len() >= 8,
    ensures
        n as nat == little(bytes@.take(8)),
{
    LittleEndian::read_u64(bytes)
}

/// What stands for bytes that are not a text: the text with every faulty
/// stretch replaced.
pub uninterp spec fn patched_text(bytes: Seq<u8>) -> Seq<char>;

/// The text that bytes stand for.
pub open spec fn text_in(bytes: Seq<u8>) -> Seq<char> {
    if valid_utf8(bytes) {
        decode_utf8(bytes)
    } else {
        patched_text(bytes)
    }
}

/// The text that bytes stand for, by `String::from_utf8_lossy`: the encoded
/// text where the bytes are one, and else a text with faulty stretches
/// replaced, which depends on the bytes alone.
#[verifier::external_body]
fn to_text(bytes: &[u8]) -> (text: String)
    ensures
        text@ == (if valid_utf8(bytes@) {
            decode_utf8(bytes@)
        } else {
            patched_text(bytes@)
        }),
{
    String::from_utf8_lossy(bytes).into_owned()
}

/// A text that is stored is read back as it was.
pub proof fn law_stored_text_is_read_back(text: Seq<char>)
    ensures
        text_in(vstd::utf8::encode_utf8(text)) == text,
{
    vstd::utf8::encode_utf8_valid_utf8(text);
    vstd::utf8::encode_utf8_decode_utf8(text);
}

/// The complaint about bytes that end too early.
pub open spec fn too_short() -> GgufFault {
    GgufFault::Io("failed to fill whole buffer"@)
}

/// The number in the `width` bytes at `pos`, and the position behind it.
pub open spec fn number_at(b: Seq<u8>, pos: int, width: int) -> Result<(nat, int), GgufFault> {
    if pos + width <= b.len() {
        Ok((little(b.subrange(pos, pos + width)), pos + width))
    } else {
        Err(too_short())
    }
}

/// The text at `pos`, a length and as many bytes, and the position behind it.
pub open spec fn text_at(b: Seq<u8>, pos: int) -> Result<(Seq<char>, int), GgufFault> {
    match number_at(b, pos, 8) {
        Err(fault) => Err(fault),
        Ok((n, p)) => if p + n <= b.len() {
            Ok((text_in(b.subrange(p, p + n)), p + n))
        } else {
            Err(too_short())
        },
    }
}

/// What `n` steps give, each taken where the one before ended.
pub open spec fn many<T>(step: spec_fn(int) -> Result<(T, int), GgufFault>, pos: int, n: nat) -> Result<
    (Seq<T>, int),
    GgufFault,
>
    decreases n,
{
    if n == 0 {
        Ok((Seq::empty(), pos))
    } else {
        match many(step, pos, (n - 1) as nat) {
            Err(fault) => Err(fault),
            Ok((list, p)) => match step(p) {
                Err(fault) => Err(fault),
                Ok((item, q)) => Ok((list.push(item), q)),
            },
        }
    }
}

/// A step that failed is never made good.
pub proof fn lemma_many_stops<T>(
    step: spec_fn(int) -> Result<(T, int), GgufFault>,
    pos: int,
    m: nat,
    n: nat,
)
    requires
        m <= n,
        many(step, pos, m) is Err,
    ensures
        many(step, pos, n) == many(step, pos, m),
    decreases n,
{
    if m < n {
        lemma_many_stops(step, pos, m, (n - 1) as nat);
    }
}

/// A place in bytes.
pub struct Cursor<'a> {
    pub bytes: &'a [u8],
    pub pos: usize,
}

fn end_of_bytes() -> (error: GgufError)
    ensures
        error@ == too_short(),
{
    GgufError::Io("failed to fill whole buffer".to_owned())
}

impl<'a> Cursor<'a> {
    /// The place lies within the bytes or just behind them.
    pub open spec fn wf(self) -> bool {
        self.pos <= self.bytes@.len()
    }

    /// Reads one byte.
    pub fn read_u8(&mut self) -> (outcome: Result<u8, GgufError>)
        requires
            old(self).wf(),
        ensures
            final(self).wf(),
            final(self).bytes == old(self).bytes,
            match outcome {
                Ok(n) => number_at(old(self).bytes@, old(self).pos as int, 1) == Ok::<
                    (nat, int),
                    GgufFault,
                >((n as nat, final(self).pos as int)),
                Err(error) => number_at(old(self).bytes@, old(self).pos as int, 1) == Err::<
                    (nat, int),
                    GgufFault,
                >(error@),
            },
    {
        if self.bytes.len() - self.pos < 1 {
            return Err(end_of_bytes());
        }
        let n: u8 = self.bytes[self.pos];
        proof {
            let one = self.bytes@.subrange(self.pos as int, self.pos + 1);
            assert(one.drop_first() =~= Seq::empty());
            reveal_with_fuel(little, 2);
        }
        self.pos = self.pos + 1;
        Ok(n)
    }

    /// Reads a number of two bytes.
    pub fn read_u16(&mut self) -> (outcome: Result<u16, GgufError>)
        requires
            old(self).wf(),
        ensures
            final(self).wf(),
            final(self).bytes == old(self).bytes,
            match outcome {
                Ok(n) => number_at(old(self).bytes@, old(self).pos as int, 2) == Ok::<
                    (nat, int),
                    GgufFault,
                >((n as nat, final(self).pos as int)),
                Err(error) => number_at(old(self).bytes@, old(self).pos as int, 2) == Err::<
                    (nat, int),
                    GgufFault,
                >(error@),
            },
    {
        if self.bytes.len() - self.pos < 2 {
            return Err(end_of_bytes());
        }
        let part = slice_subrange(self.bytes, self.pos, self.pos + 2);
        assert(part@.take(2) =~= part@);
        self.pos = self.pos + 2;
        Ok(little_u16(part))
    }

    /// Reads a number of four bytes.
    pub fn read_u32(&mut self) -> (outcome: Result<u32, GgufError>)
        requires
            old(self).wf(),
        ensures
            final(self).wf(),
            final(self).bytes == old(self).bytes,
            match outcome {
                Ok(n) => number_at(old(self).bytes@, old(self).pos as int, 4) == Ok::<
                    (nat, int),
                    GgufFault,
                >((n as nat, final(self).pos as int)),
                Err(error) => number_at(old(self).bytes@, old(self).pos as int, 4) == Err::<
                    (nat, int),
                    GgufFault,
                >(error@),
            },
    {
        if self.bytes.len() - self.pos < 4 {
            return Err(end_of_bytes());
        }
        let part = slice_subrange(self.bytes, self.pos, self.pos + 4);
        assert(part@.take(4) =~= part@);
        self.pos = self.pos + 4;
        Ok(little_u32(part))
    }

    /// Reads a number of eight bytes.
    pub fn read_u64(&mut self) -> (outcome: Result<u64, GgufError>)
        requires
            old(self).wf(),
        ensures
            final(self).wf(),
            final(self).bytes == old(self).bytes,
            match outcome {
                Ok(n) => number_at(old(self).bytes@, old(self).pos as int, 8) == Ok::<
                    (nat, int),
                    GgufFault,
                >((n as nat, final(self).pos as int)),
                Err(error) => number_at(old(self).bytes@, old(self).pos as int, 8) == Err::<
                    (nat, int),
                    GgufFault,
                >(error@),
            },
    {
        if self.bytes.len() - self.pos < 8 {
            return Err(end_of_bytes());
        }
        let part = slice_subrange(self.bytes, self.pos, self.pos + 8);
        assert(part@.take(8) =~= part@);
        self.pos = self.pos + 8;
        Ok(little_u64(part))
    }

    /// Reads a text: its length and its bytes.
    pub fn read_string(&mut self) -> (outcome: Result<String, GgufError>)
        requires
            old(self).wf(),
        ensures
            final(self).wf(),
            final(self).bytes == old(self).bytes,
            match outcome {
                Ok(text) => text_at(old(self).bytes@, old(self).pos as int) == Ok::<
                    (Seq<char>, int),
                    GgufFault,
                >((text@, final(self).pos as int)),
                Err(error) => text_at(old(self).bytes@, old(self).pos as int) == Err::<
                    (Seq<char>, int),
                    GgufFault,
                >(error@),
            },
    {
        let n: u64 = match self.read_u64() {
            Ok(n) => n,
            Err(error) => {
                return Err(error);
            },
        };
        let left: usize = self.bytes.len() - self.pos;
        if n > left as u64 {
            return Err(end_of_bytes());
        }
        let part = slice_subrange(self.bytes, self.pos, self.pos + n as usize);
        self.pos = self.pos + n as usize;
        Ok(to_text(part))
    }
}

} // verus!
