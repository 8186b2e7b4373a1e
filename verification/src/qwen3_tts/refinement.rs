//! What residual quantisation promises: every codebook refines what the ones
//! before it left over.
use vstd::prelude::*;
use crate::device::Term;
use crate::device::kernels::Kernel;
use crate::device::meaning::{Machine, group_numbers, numbers};
use crate::qwen3_tts::codec_encoder::codes_of;

verus! {

/// The rows that codes were searched for.
pub open spec fn searched(codes: Term) -> Term {
    codes->args[0]
}

/// The codebook that codes name rows of.
pub open spec fn codebook(codes: Term) -> Term {
    codes->args[1]
}

/// Number `j` of the rows of a codebook that codes name, in rows of 256.
pub open spec fn chosen(m: Machine, codes: Term, j: int) -> int {
    numbers(m, codebook(codes))(numbers(m, codes)(j / 256) * 256 + j % 256)
}

/// Codes are found by searching codebook `n` for the closest rows; the first is
/// searched for the rows themselves.
pub proof fn law_codebooks_are_searched_in_order(books: Seq<Term>, x: Term, frames: u32, n: nat)
    requires
        n < books.len(),
    ensures
        codes_of(books, x, frames, n as int)->kernel == Kernel::NearestCodebook,
        codebook(codes_of(books, x, frames, n as int)) == books[n as int],
        searched(codes_of(books, x, frames, 0)) == x,
{
}

/// Every codebook is searched for what the one before left over: its rows
/// without those that were chosen.
pub proof fn law_each_codebook_refines_the_last(
    m: Machine,
    books: Seq<Term>,
    x: Term,
    frames: u32,
    n: nat,
    j: int,
)
    requires
        n + 1 < books.len(),
        0 <= j < frames * 256,
    ensures
        ({
            let codes = codes_of(books, x, frames, n as int);
            let next = codes_of(books, x, frames, n as int + 1);
            numbers(m, searched(next))(j) == (m.sub)(
                numbers(m, searched(codes))(j),
                chosen(m, codes, j),
            )
        }),
{
    broadcast use group_numbers;

    let next = codes_of(books, x, frames, n as int + 1);
    assert(searched(next)->args.len() == 3);
}

/// `rest` with number `j` of the rows that the first `n` codebooks gave added
/// back.
pub open spec fn rebuilt(
    m: Machine,
    books: Seq<Term>,
    x: Term,
    frames: u32,
    n: nat,
    j: int,
    rest: int,
) -> int
    decreases n,
{
    if n == 0 {
        rest
    } else {
        let codes = codes_of(books, x, frames, n - 1);
        rebuilt(m, books, x, frames, (n - 1) as nat, j, (m.add)(rest, chosen(m, codes, j)))
    }
}

/// Without rounding, the rows that the first `n` codebooks gave and what
/// codebook `n` is searched for add up to the rows that were quantised.
pub proof fn law_chosen_rows_add_up(
    m: Machine,
    books: Seq<Term>,
    x: Term,
    frames: u32,
    n: nat,
    j: int,
)
    requires
        n < books.len(),
        0 <= j < frames * 256,
        forall|a: int, b: int| (m.add)(#[trigger] (m.sub)(a, b), b) == a,
    ensures
        rebuilt(
            m,
            books,
            x,
            frames,
            n,
            j,
            numbers(m, searched(codes_of(books, x, frames, n as int)))(j),
        ) == numbers(m, x)(j),
    decreases n,
{
    law_codebooks_are_searched_in_order(books, x, frames, n);
    if n > 0 {
        law_chosen_rows_add_up(m, books, x, frames, (n - 1) as nat, j);
        law_each_codebook_refines_the_last(m, books, x, frames, (n - 1) as nat, j);
    }
}

} // verus!
