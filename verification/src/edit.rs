//! Editing text as sequences of characters: whitespace, trimming, replacement.
use vstd::prelude::*;
use crate::text::code_point;

verus! {

/// Whether a character has the Unicode property White_Space.
pub open spec fn blank(c: char) -> bool {
    let n = c as int;
    ||| 0x9 <= n <= 0xd
    ||| n == 0x20
    ||| n == 0x85
    ||| n == 0xa0
    ||| n == 0x1680
    ||| 0x2000 <= n <= 0x200a
    ||| n == 0x2028
    ||| n == 0x2029
    ||| n == 0x202f
    ||| n == 0x205f
    ||| n == 0x3000
}

/// Whether a character has the Unicode property White_Space.
pub fn is_blank(c: char) -> (r: bool)
    ensures
        r == blank(c),
{
    let n: u32 = code_point(c);
    (0x9 <= n && n <= 0xd) || n == 0x20 || n == 0x85 || n == 0xa0 || n == 0x1680 || (0x2000 <= n && n
        <= 0x200a) || n == 0x2028 || n == 0x2029 || n == 0x202f || n == 0x205f || n == 0x3000
}

/// The words of a text, separated by single spaces: blanks at both ends are
/// dropped, and every run of blanks between words becomes one space.
pub open spec fn collapsed(s: Seq<char>) -> Seq<char>
    decreases s.len(),
{
    if s.len() == 0 {
        s
    } else {
        let before = collapsed(s.drop_last());
        let c = s.last();
        if blank(c) {
            before
        } else if before.len() == 0 || !blank(s[s.len() - 2]) {
            before.push(c)
        } else {
            before.push(' ').push(c)
        }
    }
}

/// The words of a text, separated by single spaces.
pub fn collapse(s: &Vec<char>) -> (out: Vec<char>)
    ensures
        out@ == collapsed(s@),
{
    let mut out: Vec<char> = Vec::new();
    assert(s@.take(0) =~= Seq::<char>::empty());
    for i in 0..s.len()
        invariant
            out@ == collapsed(s@.take(i as int)),
    {
        let c: char = s[i];
        proof {
            assert(s@.take(i + 1).drop_last() =~= s@.take(i as int));
            assert(s@.take(i + 1).last() == c);
            if i > 0 {
                assert(s@.take(i + 1)[i - 1] == s@[i - 1]);
            } else {
                assert(s@.take(0) =~= Seq::<char>::empty());
            }
        }
        if !is_blank(c) {
            if out.len() > 0 && is_blank(s[i - 1]) {
                out.push(' ');
            }
            out.push(c);
        }
    }
    assert(s@.take(s@.len() as int) =~= s@);
    out
}

/// The characters of a text that are not blank.
pub open spec fn inked(s: Seq<char>) -> Seq<char> {
    s.filter(|c: char| !blank(c))
}

/// What collapsing leaves: no blank but single spaces between words.
pub open spec fn well_spaced(s: Seq<char>) -> bool {
    &&& forall|i: int| 0 <= i < s.len() && blank(#[trigger] s[i]) ==> s[i] == ' '
    &&& s.len() > 0 ==> !blank(s[0]) && !blank(s.last())
    &&& forall|i: int|
        0 <= i < s.len() - 1 && blank(#[trigger] s[i]) ==> !blank(s[i + 1])
}

/// A collapsed text has only single spaces between words, and keeps every
/// character that is not blank, in order.
pub proof fn law_collapsing_keeps_the_words(s: Seq<char>)
    ensures
        well_spaced(collapsed(s)),
        inked(collapsed(s)) == inked(s),
    decreases s.len(),
{
    reveal(Seq::filter);
    let ink = |c: char| !blank(c);
    if s.len() > 0 {
        let before = collapsed(s.drop_last());
        let c = s.last();
        law_collapsing_keeps_the_words(s.drop_last());
        if !blank(c) {
            let spaced = before.push(' ');
            assert(spaced.drop_last() =~= before);
            assert(before.push(c).drop_last() =~= before);
            assert(spaced.push(c).drop_last() =~= spaced);
            assert(blank(' '));
            assert(inked(spaced) == inked(before));
        }
    }
}

/// A text is empty after collapsing exactly when it holds nothing but blanks.
pub proof fn law_collapses_to_nothing(s: Seq<char>)
    ensures
        collapsed(s).len() == 0 <==> forall|i: int| 0 <= i < s.len() ==> blank(#[trigger] s[i]),
    decreases s.len(),
{
    if s.len() > 0 {
        law_collapses_to_nothing(s.drop_last());
        let rest = s.drop_last();
        if collapsed(s).len() == 0 {
            assert forall|i: int| 0 <= i < s.len() implies blank(#[trigger] s[i]) by {
                if i < s.len() - 1 {
                    assert(rest[i] == s[i]);
                }
            }
        }
        if forall|i: int| 0 <= i < s.len() ==> blank(#[trigger] s[i]) {
            assert forall|i: int| 0 <= i < rest.len() implies blank(#[trigger] rest[i]) by {
                assert(s[i] == rest[i]);
            }
            assert(blank(s[s.len() - 1]));
        }
    }
}

/// `s` with every occurrence of `old`, found from the left and without
/// overlap, replaced by `new`.
pub open spec fn replaced(s: Seq<char>, old_part: Seq<char>, new_part: Seq<char>) -> Seq<char>
    decreases s.len(),
{
    if old_part.len() == 0 || s.len() < old_part.len() {
        s
    } else if s.take(old_part.len() as int) == old_part {
        new_part + replaced(s.skip(old_part.len() as int), old_part, new_part)
    } else {
        seq![s[0]] + replaced(s.skip(1), old_part, new_part)
    }
}

/// Whether `part` stands in `s` at `at`.
fn stands_at(s: &Vec<char>, part: &Vec<char>, at: usize) -> (r: bool)
    requires
        at + part@.len() <= s@.len(),
    ensures
        r == (s@.skip(at as int).take(part@.len() as int) == part@),
{
    let ghost window = s@.skip(at as int).take(part@.len() as int);
    let total: usize = s.len();
    for i in 0..part.len()
        invariant
            total == s@.len(),
            at + part@.len() <= s@.len(),
            window == s@.skip(at as int).take(part@.len() as int),
            forall|j: int| 0 <= j < i ==> window[j] == #[trigger] part@[j],
    {
        assert(window[i as int] == s@[at + i]);
        if code_point(s[at + i]) != code_point(part[i]) {
            return false;
        }
    }
    assert(window =~= part@);
    true
}

/// `s` with every occurrence of `old_part` replaced by `new_part`.
pub fn replace_all(s: &Vec<char>, old_part: &Vec<char>, new_part: &Vec<char>) -> (out: Vec<char>)
    requires
        old_part@.len() > 0,
    ensures
        out@ == replaced(s@, old_part@, new_part@),
{
    let mut out: Vec<char> = Vec::new();
    let mut i: usize = 0;
    assert(s@.skip(0) =~= s@);
    assert(out@ + replaced(s@, old_part@, new_part@) =~= replaced(s@, old_part@, new_part@));
    while i < s.len()
        invariant
            old_part@.len() > 0,
            i <= s@.len(),
            replaced(s@, old_part@, new_part@) == out@ + replaced(
                s@.skip(i as int),
                old_part@,
                new_part@,
            ),
        decreases s@.len() - i,
    {
        let ghost rest = s@.skip(i as int);
        let ghost done = out@;
        if old_part.len() <= s.len() - i && stands_at(s, old_part, i) {
            for j in 0..new_part.len()
                invariant
                    out@ == done + new_part@.take(j as int),
            {
                out.push(new_part[j]);
                assert(out@ =~= done + new_part@.take(j + 1));
            }
            proof {
                assert(new_part@.take(new_part@.len() as int) =~= new_part@);
                assert(rest.skip(old_part@.len() as int) =~= s@.skip(i + old_part@.len()));
                assert(done + (new_part@ + replaced(
                    s@.skip(i + old_part@.len()),
                    old_part@,
                    new_part@,
                )) =~= out@ + replaced(s@.skip(i + old_part@.len()), old_part@, new_part@));
            }
            i = i + old_part.len();
        } else {
            out.push(s[i]);
            proof {
                assert(rest.skip(1) =~= s@.skip(i + 1));
                if rest.len() < old_part@.len() {
                    lemma_short(rest, old_part@, new_part@);
                }
                assert(done + (seq![s@[i as int]] + replaced(
                    s@.skip(i + 1),
                    old_part@,
                    new_part@,
                )) =~= out@ + replaced(s@.skip(i + 1), old_part@, new_part@));
            }
            i = i + 1;
        }
    }
    assert(s@.skip(i as int) =~= Seq::<char>::empty());
    assert(out@ + Seq::<char>::empty() =~= out@);
    out
}

/// A text too short for an occurrence is its first character and the rest.
proof fn lemma_short(s: Seq<char>, old_part: Seq<char>, new_part: Seq<char>)
    requires
        0 < s.len() < old_part.len(),
    ensures
        replaced(s, old_part, new_part) == seq![s[0]] + replaced(s.skip(1), old_part, new_part),
{
    assert(seq![s[0]] + s.skip(1) =~= s);
}

/// `s` without the blanks at its end.
pub open spec fn trimmed_end(s: Seq<char>) -> Seq<char>
    decreases s.len(),
{
    if s.len() > 0 && blank(s.last()) {
        trimmed_end(s.drop_last())
    } else {
        s
    }
}

/// `s` without the blanks at its start.
pub open spec fn trimmed_start(s: Seq<char>) -> Seq<char>
    decreases s.len(),
{
    if s.len() > 0 && blank(s[0]) {
        trimmed_start(s.drop_first())
    } else {
        s
    }
}

/// Drops the blanks at the end.
pub fn trim_end(s: &mut Vec<char>)
    ensures
        final(s)@ == trimmed_end(old(s)@),
{
    let ghost start = s@;
    while s.len() > 0 && is_blank(s[s.len() - 1])
        invariant
            trimmed_end(start) == trimmed_end(s@),
        decreases s@.len(),
    {
        let ghost before = s@;
        let dropped = s.pop();
        assert(s@ =~= before.drop_last());
    }
}

/// `s` without the blanks at both ends.
pub fn trim(s: &Vec<char>) -> (out: Vec<char>)
    ensures
        out@ == trimmed_end(trimmed_start(s@)),
{
    let mut first: usize = 0;
    assert(s@.skip(0) =~= s@);
    while first < s.len() && is_blank(s[first])
        invariant
            first <= s@.len(),
            trimmed_start(s@) == trimmed_start(s@.skip(first as int)),
        decreases s@.len() - first,
    {
        assert(s@.skip(first as int).drop_first() =~= s@.skip(first + 1));
        first = first + 1;
    }
    let mut out: Vec<char> = Vec::new();
    for i in first..s.len()
        invariant
            first <= i,
            first <= s@.len(),
            out@ == s@.subrange(first as int, i as int),
    {
        out.push(s[i]);
        assert(out@ =~= s@.subrange(first as int, i + 1));
    }
    assert(out@ =~= s@.skip(first as int));
    trim_end(&mut out);
    out
}

/// The lower-case form of an ASCII letter; other characters as they are.
pub open spec fn ascii_lower(c: char) -> char {
    if 65 <= c as int <= 90 {
        (c as int + 32) as char
    } else {
        c
    }
}

/// `s` with every ASCII letter in lower case.
pub open spec fn ascii_lowered(s: Seq<char>) -> Seq<char> {
    s.map_values(|c: char| ascii_lower(c))
}

/// The lower-case form of an ASCII letter; other characters as they are.
fn lower_ascii(c: char) -> (r: char)
    ensures
        r == ascii_lower(c),
{
    let n: u32 = code_point(c);
    if 65 <= n && n <= 90 {
        (n as u8 + 32) as char
    } else {
        c
    }
}

/// `s` with every ASCII letter in lower case.
pub fn to_ascii_lower(s: &Vec<char>) -> (out: Vec<char>)
    ensures
        out@ == ascii_lowered(s@),
{
    let mut out: Vec<char> = Vec::new();
    for i in 0..s.len()
        invariant
            out@.len() == i,
            forall|j: int| 0 <= j < i ==> #[trigger] out@[j] == ascii_lower(s@[j]),
    {
        out.push(lower_ascii(s[i]));
    }
    assert(out@ =~= ascii_lowered(s@));
    out
}

/// `part` stands in `s` at `i`.
pub open spec fn occurs_at(s: Seq<char>, part: Seq<char>, i: int) -> bool {
    &&& 0 <= i
    &&& i + part.len() <= s.len()
    &&& s.subrange(i, i + part.len()) == part
}

/// The first place from `i` on where `part` stands in `s`.
pub open spec fn found_from(s: Seq<char>, part: Seq<char>, i: int) -> Option<int>
    decreases s.len() + 1 - i,
{
    if i + part.len() > s.len() {
        None
    } else if occurs_at(s, part, i) {
        Some(i)
    } else {
        found_from(s, part, i + 1)
    }
}

/// The first place where `part` stands in `s`.
pub fn find_first(s: &Vec<char>, part: &Vec<char>) -> (place: Option<usize>)
    ensures
        match place {
            Some(i) => found_from(s@, part@, 0) == Some(i as int) && i + part@.len() <= s@.len(),
            None => found_from(s@, part@, 0) is None,
        },
{
    let mut i: usize = 0;
    let n: usize = s.len();
    let m: usize = part.len();
    while i <= n && m <= n - i
        invariant
            n == s@.len(),
            m == part@.len(),
            i <= n + 1,
            n < usize::MAX || i <= n,
            found_from(s@, part@, i as int) == found_from(s@, part@, 0),
        decreases n + 1 - i,
    {
        assert(s@.skip(i as int).take(part@.len() as int) =~= s@.subrange(
            i as int,
            i + part@.len(),
        ));
        if stands_at(s, part, i) {
            return Some(i);
        }
        if i == n {
            assert(found_from(s@, part@, i + 1) is None);
            return None;
        }
        i = i + 1;
    }
    None
}

/// `s` with the first `old_part` in it replaced by `new_part`.
pub open spec fn replaced_once(s: Seq<char>, old_part: Seq<char>, new_part: Seq<char>) -> Seq<char> {
    match found_from(s, old_part, 0) {
        Some(i) => s.take(i) + new_part + s.skip(i + old_part.len()),
        None => s,
    }
}

/// `s` with the first `old_part` in it replaced by `new_part`.
pub fn replace_first(s: &Vec<char>, old_part: &Vec<char>, new_part: &Vec<char>) -> (out: Vec<char>)
    ensures
        out@ == replaced_once(s@, old_part@, new_part@),
{
    let (head, tail, middle): (usize, usize, bool) = match find_first(s, old_part) {
        Some(i) => (i, i + old_part.len(), true),
        None => (s.len(), s.len(), false),
    };
    let mut out: Vec<char> = Vec::new();
    for i in 0..head
        invariant
            head <= s@.len(),
            out@ == s@.take(i as int),
    {
        out.push(s[i]);
        assert(s@.take(i + 1) =~= s@.take(i as int).push(s@[i as int]));
    }
    let ghost start = out@;
    if middle {
        assert(out@ =~= start + new_part@.take(0));
        for i in 0..new_part.len()
            invariant
                out@ == start + new_part@.take(i as int),
        {
            out.push(new_part[i]);
            assert(out@ =~= start + new_part@.take(i + 1));
        }
        assert(new_part@.take(new_part@.len() as int) =~= new_part@);
    }
    let ghost joined = out@;
    assert(out@ =~= joined + s@.subrange(tail as int, tail as int));
    for i in tail..s.len()
        invariant
            tail <= s@.len(),
            out@ == joined + s@.subrange(tail as int, i as int),
    {
        out.push(s[i]);
        assert(out@ =~= joined + s@.subrange(tail as int, i + 1));
    }
    proof {
        if middle {
            assert(s@.skip(tail as int) =~= s@.subrange(tail as int, s@.len() as int));
            assert(out@ =~= replaced_once(s@, old_part@, new_part@));
        } else {
            assert(out@ =~= s@);
        }
    }
    out
}

} // verus!
