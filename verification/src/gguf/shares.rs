//! How the data of a file divide among the types of weights.
use vstd::prelude::*;
use crate::arith::lemma_ceil_div;
use crate::gguf::types::{
    GgmlType, TensorInfo, byte_count, bytes_per_block, element_count, measurable, weights_per_block,
};

verus! {

/// What the tensors of one type take.
#[derive(Clone, Copy, Debug, PartialEq, Eq, Structural)]
pub struct TypeShare {
    pub kind: GgmlType,
    pub tensors: usize,
    pub bytes: u64,
}

/// How many tensors are of a type.
pub open spec fn tensors_of(tensors: Seq<TensorInfo>, kind: GgmlType) -> nat
    decreases tensors.len(),
{
    if tensors.len() == 0 {
        0
    } else {
        tensors_of(tensors.drop_last(), kind) + (if tensors.last().ggml_type == kind {
            1nat
        } else {
            0
        })
    }
}

/// How many bytes the tensors of a type take.
pub open spec fn bytes_of(tensors: Seq<TensorInfo>, kind: GgmlType) -> int
    decreases tensors.len(),
{
    if tensors.len() == 0 {
        0
    } else {
        bytes_of(tensors.drop_last(), kind) + (if tensors.last().ggml_type == kind {
            byte_count(tensors.last().shape@, kind)
        } else {
            0
        })
    }
}

/// How many bytes all tensors take.
pub open spec fn all_bytes(tensors: Seq<TensorInfo>) -> int
    decreases tensors.len(),
{
    if tensors.len() == 0 {
        0
    } else {
        all_bytes(tensors.drop_last()) + byte_count(
            tensors.last().shape@,
            tensors.last().ggml_type,
        )
    }
}

/// Every type that occurs has exactly one share, with its tensors and bytes.
pub open spec fn divides(shares: Seq<TypeShare>, tensors: Seq<TensorInfo>) -> bool {
    &&& forall|i: int|
        0 <= i < shares.len() ==> {
            let share = #[trigger] shares[i];
            &&& share.tensors == tensors_of(tensors, share.kind)
            &&& share.tensors > 0
            &&& share.bytes == bytes_of(tensors, share.kind)
        }
    &&& forall|i: int, j: int|
        0 <= i < j < shares.len() ==> #[trigger] shares[i].kind != #[trigger] shares[j].kind
    &&& forall|kind: GgmlType| #[trigger]
        tensors_of(tensors, kind) > 0 ==> has_share(shares, kind)
}

/// A type has a share.
pub open spec fn has_share(shares: Seq<TypeShare>, kind: GgmlType) -> bool {
    exists|i: int| 0 <= i < shares.len() && (#[trigger] shares[i]).kind == kind
}

/// No share comes before a larger one.
pub open spec fn largest_first(shares: Seq<TypeShare>, n: int) -> bool {
    forall|i: int, j: int|
        0 <= i < n && i < j < shares.len() ==> #[trigger] shares[i].bytes
            >= #[trigger] shares[j].bytes
}

proof fn lemma_share(tensors: Seq<TensorInfo>, kind: GgmlType)
    ensures
        0 <= bytes_of(tensors, kind) <= all_bytes(tensors),
        tensors_of(tensors, kind) <= tensors.len(),
    decreases tensors.len(),
{
    if tensors.len() > 0 {
        let last = tensors.last();
        lemma_share(tensors.drop_last(), kind);
        lemma_byte_count(last);
    }
}

proof fn lemma_byte_count(tensor: TensorInfo)
    ensures
        byte_count(tensor.shape@, tensor.ggml_type) >= 0,
{
    let n = element_count(tensor.shape@) as int;
    let b = weights_per_block(tensor.ggml_type) as int;
    lemma_ceil_div(n, b);
    let blocks = crate::arith::ceil_div(n, b);
    let bytes = bytes_per_block(tensor.ggml_type) as int;
    assert(blocks * bytes >= 0) by (nonlinear_arith)
        requires
            blocks >= 0,
            bytes >= 0,
    ;
}

proof fn lemma_prefix(tensors: Seq<TensorInfo>, n: int)
    requires
        0 <= n <= tensors.len(),
    ensures
        all_bytes(tensors.take(n)) <= all_bytes(tensors),
    decreases tensors.len() - n,
{
    if n < tensors.len() {
        lemma_prefix(tensors, n + 1);
        assert(tensors.take(n + 1).drop_last() =~= tensors.take(n));
        lemma_byte_count(tensors[n]);
    } else {
        assert(tensors.take(n) =~= tensors);
    }
}

/// The share of a type, where it has one.
fn find_share(shares: &Vec<TypeShare>, kind: GgmlType) -> (at: Option<usize>)
    ensures
        match at {
            Some(i) => i < shares@.len() && shares@[i as int].kind == kind,
            None => !has_share(shares@, kind),
        },
{
    for i in 0..shares.len()
        invariant
            forall|j: int| 0 <= j < i ==> (#[trigger] shares@[j]).kind != kind,
    {
        if shares[i].kind == kind {
            return Some(i);
        }
    }
    None
}

/// Counts one more tensor.
fn count_in(shares: &mut Vec<TypeShare>, tensors: &[TensorInfo], n: usize)
    requires
        n < tensors@.len(),
        measurable(tensors@[n as int].shape@, tensors@[n as int].ggml_type),
        all_bytes(tensors@) <= u64::MAX,
        divides(old(shares)@, tensors@.take(n as int)),
    ensures
        divides(final(shares)@, tensors@.take(n + 1)),
{
    let total: usize = tensors.len();
    let kind = tensors[n].ggml_type;
    let bytes: u64 = tensors[n].data_size();
    let ghost before = tensors@.take(n as int);
    let ghost after = tensors@.take(n + 1);
    proof {
        assert(after.drop_last() =~= before);
        assert(after.last() == tensors@[n as int]);
        lemma_prefix(tensors@, n + 1);
        lemma_share(after, kind);
        lemma_share(before, kind);
        assert forall|k: GgmlType| k != kind implies tensors_of(after, k) == #[trigger] tensors_of(
            before,
            k,
        ) && bytes_of(after, k) == bytes_of(before, k) by {}
    }
    let ghost listed = shares@;
    match find_share(shares, kind) {
        Some(i) => {
            let share = shares[i];
            shares.set(
                i,
                TypeShare { kind, tensors: share.tensors + 1, bytes: share.bytes + bytes },
            );
            proof {
                assert forall|k: GgmlType| #[trigger] tensors_of(after, k) > 0 implies has_share(
                    shares@,
                    k,
                ) by {
                    if k == kind {
                        assert(shares@[i as int].kind == k);
                    } else {
                        assert(tensors_of(before, k) > 0);
                        let j = choose|j: int| 0 <= j < listed.len() && (#[trigger] listed[j]).kind == k;
                        assert(shares@[j].kind == k);
                    }
                }
            }
        },
        None => {
            proof {
                if tensors_of(before, kind) > 0 {
                    assert(has_share(listed, kind));
                }
                lemma_none(before, kind);
            }
            shares.push(TypeShare { kind, tensors: 1, bytes });
            proof {
                assert forall|k: GgmlType| #[trigger] tensors_of(after, k) > 0 implies has_share(
                    shares@,
                    k,
                ) by {
                    if k == kind {
                        assert(shares@[listed.len() as int].kind == k);
                    } else {
                        assert(tensors_of(before, k) > 0);
                        let j = choose|j: int| 0 <= j < listed.len() && (#[trigger] listed[j]).kind == k;
                        assert(shares@[j].kind == k);
                    }
                }
                assert forall|i: int| 0 <= i < listed.len() implies (#[trigger] shares@[i]).kind
                    != kind by {
                    assert(listed[i].kind != kind);
                }
            }
        },
    }
}

proof fn lemma_none(tensors: Seq<TensorInfo>, kind: GgmlType)
    requires
        tensors_of(tensors, kind) == 0,
    ensures
        bytes_of(tensors, kind) == 0,
    decreases tensors.len(),
{
    if tensors.len() > 0 {
        lemma_none(tensors.drop_last(), kind);
    }
}

/// The place of the largest share from `start` on.
fn largest_from(shares: &Vec<TypeShare>, start: usize) -> (at: usize)
    requires
        start < shares@.len(),
    ensures
        start <= at < shares@.len(),
        forall|j: int| start <= j < shares@.len() ==> (#[trigger] shares@[j]).bytes
            <= shares@[at as int].bytes,
{
    let mut at: usize = start;
    for j in start..shares.len()
        invariant
            start <= at < shares@.len(),
            forall|k: int| start <= k < j ==> (#[trigger] shares@[k]).bytes
                <= shares@[at as int].bytes,
    {
        if shares[j].bytes > shares[at].bytes {
            at = j;
        }
    }
    at
}

/// The shares with two of them exchanged.
spec fn exchanged(shares: Seq<TypeShare>, i: int, j: int) -> Seq<TypeShare> {
    shares.update(i, shares[j]).update(j, shares[i])
}

proof fn lemma_exchanged(shares: Seq<TypeShare>, tensors: Seq<TensorInfo>, i: int, j: int)
    requires
        divides(shares, tensors),
        0 <= i < shares.len(),
        0 <= j < shares.len(),
    ensures
        divides(exchanged(shares, i, j), tensors),
{
    let after = exchanged(shares, i, j);
    let from = |k: int| if k == i { j } else if k == j { i } else { k };
    assert forall|k: int| 0 <= k < after.len() implies #[trigger] after[k] == shares[from(k)] by {}
    assert forall|a: int, b: int| 0 <= a < b < after.len() implies #[trigger] after[a].kind
        != #[trigger] after[b].kind by {
        let (p, q) = (from(a), from(b));
        assert(p != q);
        if p < q {
            assert(shares[p].kind != shares[q].kind);
        } else {
            assert(shares[q].kind != shares[p].kind);
        }
    }
    assert forall|kind: GgmlType| #[trigger] tensors_of(tensors, kind) > 0 implies has_share(
        after,
        kind,
    ) by {
        assert(has_share(shares, kind));
        let k = choose|k: int| 0 <= k < shares.len() && (#[trigger] shares[k]).kind == kind;
        assert(after[from(k)].kind == kind);
    }
}

/// Puts the largest share from `i` on in place `i`.
fn bring_forward(shares: &mut Vec<TypeShare>, i: usize, Ghost(tensors): Ghost<Seq<TensorInfo>>)
    requires
        i < old(shares)@.len(),
        divides(old(shares)@, tensors),
        largest_first(old(shares)@, i as int),
    ensures
        final(shares)@.len() == old(shares)@.len(),
        divides(final(shares)@, tensors),
        largest_first(final(shares)@, i + 1),
{
    let at: usize = largest_from(shares, i);
    let ghost before = shares@;
    let (small, large) = (shares[i], shares[at]);
    shares.set(i, large);
    shares.set(at, small);
    proof {
        assert(shares@ =~= exchanged(before, i as int, at as int));
        lemma_exchanged(before, tensors, i as int, at as int);
    }
}

/// What the tensors of each type take, the largest share first.
pub fn type_distribution(tensors: &[TensorInfo]) -> (shares: Vec<TypeShare>)
    requires
        forall|i: int|
            0 <= i < tensors@.len() ==> measurable(
                (#[trigger] tensors@[i]).shape@,
                tensors@[i].ggml_type,
            ),
        all_bytes(tensors@) <= u64::MAX,
    ensures
        divides(shares@, tensors@),
        largest_first(shares@, shares@.len() as int),
{
    let mut shares: Vec<TypeShare> = Vec::new();
    assert(tensors@.take(0) =~= Seq::empty());
    for i in 0..tensors.len()
        invariant
            forall|j: int|
                0 <= j < tensors@.len() ==> measurable(
                    (#[trigger] tensors@[j]).shape@,
                    tensors@[j].ggml_type,
                ),
            all_bytes(tensors@) <= u64::MAX,
            divides(shares@, tensors@.take(i as int)),
    {
        count_in(&mut shares, tensors, i);
    }
    assert(tensors@.take(tensors@.len() as int) =~= tensors@);
    let n: usize = shares.len();
    for i in 0..n
        invariant
            n == shares@.len(),
            divides(shares@, tensors@),
            largest_first(shares@, i as int),
    {
        bring_forward(&mut shares, i, Ghost(tensors@));
    }
    shares
}

/// The shares of all types make up the whole.
pub proof fn law_shares_make_up_the_whole(shares: Seq<TypeShare>, tensors: Seq<TensorInfo>)
    requires
        divides(shares, tensors),
    ensures
        shared_bytes(shares) == all_bytes(tensors),
{
    lemma_listed(shares, tensors);
    lemma_listed_all(shares, tensors);
}

/// How many bytes all shares take.
pub open spec fn shared_bytes(shares: Seq<TypeShare>) -> int
    decreases shares.len(),
{
    if shares.len() == 0 {
        0
    } else {
        shared_bytes(shares.drop_last()) + shares.last().bytes
    }
}

/// How many bytes the tensors of the listed types take.
spec fn listed_bytes(shares: Seq<TypeShare>, tensors: Seq<TensorInfo>) -> int
    decreases tensors.len(),
{
    if tensors.len() == 0 {
        0
    } else {
        listed_bytes(shares, tensors.drop_last()) + (if has_share(shares, tensors.last().ggml_type) {
            byte_count(tensors.last().shape@, tensors.last().ggml_type)
        } else {
            0
        })
    }
}

proof fn lemma_listed_more(shares: Seq<TypeShare>, tensors: Seq<TensorInfo>)
    requires
        shares.len() > 0,
        forall|i: int|
            0 <= i < shares.len() - 1 ==> (#[trigger] shares[i]).kind != shares.last().kind,
    ensures
        listed_bytes(shares, tensors) == listed_bytes(shares.drop_last(), tensors) + bytes_of(
            tensors,
            shares.last().kind,
        ),
    decreases tensors.len(),
{
    if tensors.len() > 0 {
        lemma_listed_more(shares, tensors.drop_last());
        let kind = tensors.last().ggml_type;
        let fewer = shares.drop_last();
        if kind == shares.last().kind {
            assert(shares[shares.len() - 1].kind == kind);
            if has_share(fewer, kind) {
                let i = choose|i: int| 0 <= i < fewer.len() && (#[trigger] fewer[i]).kind == kind;
                assert(shares[i].kind == kind);
            }
        } else {
            if has_share(fewer, kind) {
                let i = choose|i: int| 0 <= i < fewer.len() && (#[trigger] fewer[i]).kind == kind;
                assert(shares[i].kind == kind);
            }
            if has_share(shares, kind) {
                let i = choose|i: int| 0 <= i < shares.len() && (#[trigger] shares[i]).kind == kind;
                assert(fewer[i].kind == kind);
            }
        }
    }
}

proof fn lemma_listed(shares: Seq<TypeShare>, tensors: Seq<TensorInfo>)
    requires
        forall|i: int|
            0 <= i < shares.len() ==> (#[trigger] shares[i]).bytes == bytes_of(
                tensors,
                shares[i].kind,
            ),
        forall|i: int, j: int|
            0 <= i < j < shares.len() ==> #[trigger] shares[i].kind != #[trigger] shares[j].kind,
    ensures
        shared_bytes(shares) == listed_bytes(shares, tensors),
    decreases shares.len(),
{
    if shares.len() > 0 {
        let fewer = shares.drop_last();
        assert forall|i: int| 0 <= i < fewer.len() implies (#[trigger] fewer[i]).bytes == bytes_of(
            tensors,
            fewer[i].kind,
        ) by {
            assert(fewer[i] == shares[i]);
        }
        lemma_listed(fewer, tensors);
        lemma_listed_more(shares, tensors);
    } else {
        lemma_listed_none(shares, tensors);
    }
}

proof fn lemma_listed_none(shares: Seq<TypeShare>, tensors: Seq<TensorInfo>)
    requires
        shares.len() == 0,
    ensures
        listed_bytes(shares, tensors) == 0,
    decreases tensors.len(),
{
    if tensors.len() > 0 {
        lemma_listed_none(shares, tensors.drop_last());
    }
}

proof fn lemma_listed_all(shares: Seq<TypeShare>, tensors: Seq<TensorInfo>)
    requires
        forall|kind: GgmlType| #[trigger]
            tensors_of(tensors, kind) > 0 ==> has_share(shares, kind),
    ensures
        listed_bytes(shares, tensors) == all_bytes(tensors),
    decreases tensors.len(),
{
    if tensors.len() > 0 {
        let fewer = tensors.drop_last();
        assert forall|kind: GgmlType| #[trigger] tensors_of(fewer, kind) > 0 implies has_share(
            shares,
            kind,
        ) by {
            assert(tensors_of(tensors, kind) > 0);
        }
        lemma_listed_all(shares, fewer);
        assert(tensors_of(tensors, tensors.last().ggml_type) > 0);
    }
}

} // verus!
