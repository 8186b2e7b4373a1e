//! Building and inspecting strings as sequences of characters.
use vstd::prelude::*;
use vstd::string::*;

verus! {

/// `String::push` appends one character.
pub assume_specification[ std::string::String::push ](s: &mut std::string::String, c: char)
    ensures
        final(s)@ == old(s)@.push(c),
;

/// The characters of `s`, in order.
pub fn chars_of(s: &str) -> (out: Vec<char>)
    ensures
        out@ == s@,
{
    let mut out: Vec<char> = Vec::new();
    for c in iter: s.chars()
        invariant
            out@ == iter.seq().take(iter.index() as int),
    {
        out.push(c);
        assert(iter.seq().take(iter.index() + 1) =~= iter.seq().take(iter.index() as int).push(c));
    }
    assert(out@ =~= s@);
    out
}

/// The string made of `chars`.
pub fn string_of(chars: &[char]) -> (out: String)
    ensures
        out@ == chars@,
{
    let mut out = String::new();
    for i in 0..chars.len()
        invariant
            out@ == chars@.take(i as int),
    {
        out.push(chars[i]);
        assert(chars@.take(i + 1) =~= chars@.take(i as int).push(chars[i as int]));
    }
    assert(chars@.take(chars.len() as int) =~= chars@);
    out
}


/// Whether two strings hold the same characters.
pub fn same(a: &str, b: &str) -> (r: bool)
    ensures
        r == (a@ == b@),
{
    let left = a.to_owned();
    let right = b.to_owned();
    left == right
}

/// The number of a character.
pub fn code_point(c: char) -> (n: u32)
    ensures
        n == c as int,
{
    c as u32
}

/// The character of a decimal digit.
pub open spec fn digit(d: nat) -> char {
    (48 + d) as char
}

/// The decimal digits of a number, most significant first.
pub open spec fn decimal(n: nat) -> Seq<char>
    decreases n,
{
    if n < 10 {
        seq![digit(n)]
    } else {
        decimal(n / 10).push(digit(n % 10))
    }
}

/// A number in decimal notation.
pub fn to_decimal(n: u64) -> (out: String)
    ensures
        out@ == decimal(n as nat),
{
    to_wide_decimal(n as u128)
}

/// A number in decimal notation.
pub fn to_wide_decimal(n: u128) -> (out: String)
    ensures
        out@ == decimal(n as nat),
    decreases n,
{
    let last = (48u8 + (n % 10) as u8) as char;
    let mut out = if n < 10 {
        String::new()
    } else {
        to_wide_decimal(n / 10)
    };
    out.push(last);
    assert(last == digit((n % 10) as nat));
    assert(n < 10 ==> out@ =~= seq![digit(n as nat)]);
    out
}

/// A signed number in decimal notation.
pub open spec fn signed_decimal(n: int) -> Seq<char> {
    if n < 0 {
        "-"@ + decimal((-n) as nat)
    } else {
        decimal(n as nat)
    }
}

/// A signed number in decimal notation.
pub fn to_signed_decimal(n: i32) -> (out: String)
    ensures
        out@ == signed_decimal(n as int),
{
    if n < 0 {
        let magnitude: u64 = (-(n as i64)) as u64;
        "-".to_owned().concat(&to_decimal(magnitude))
    } else {
        to_decimal(n as u64)
    }
}

/// The numbers of a list in decimal, separated by a comma and a space.
pub open spec fn separated(list: Seq<usize>) -> Seq<char>
    decreases list.len(),
{
    if list.len() == 0 {
        Seq::empty()
    } else if list.len() == 1 {
        decimal(list[0] as nat)
    } else {
        separated(list.drop_last()) + ", "@ + decimal(list.last() as nat)
    }
}

/// A list of numbers in square brackets.
pub open spec fn bracketed(list: Seq<usize>) -> Seq<char> {
    "["@ + separated(list) + "]"@
}

/// A list of numbers in square brackets.
pub fn to_bracketed(list: &[usize]) -> (out: String)
    ensures
        out@ == bracketed(list@),
{
    let mut inner = String::new();
    for i in 0..list.len()
        invariant
            inner@ == separated(list@.take(i as int)),
    {
        proof {
            assert(list@.take(i + 1).drop_last() =~= list@.take(i as int));
        }
        if i > 0 {
            inner = inner.concat(", ");
            inner = inner.concat(&to_decimal(list[i] as u64));
        } else {
            inner = to_decimal(list[i] as u64);
        }
    }
    assert(list@.take(list.len() as int) =~= list@);
    "[".to_owned().concat(&inner).concat("]")
}

/// How `Debug` shows a text: in double quotes, with escapes.
pub uninterp spec fn debug_shown(s: Seq<char>) -> Seq<char>;

/// Formats a text by the `Debug` of `str`; the result depends on the text
/// alone.
#[verifier::external_body]
pub(crate) fn to_debug(s: &str) -> (r: String)
    ensures
        r@ == debug_shown(s@),
{
    format!("{s:?}")
}

} // verus!
