//! Inventories of the tensors that weight files hold.
use vstd::prelude::*;
use vstd::string::*;
use crate::text::{chars_of, code_point, same};

verus! {

/// A tensor as a weight file describes it.
#[derive(Debug, Clone)]
pub struct TensorInfo {
    pub name: String,
    pub shape: Vec<usize>,
    pub bytes: usize,
}

/// Whether some tensor has this name.
pub open spec fn lists(tensors: Seq<TensorInfo>, name: Seq<char>) -> bool {
    exists|i: int| 0 <= i < tensors.len() && (#[trigger] tensors[i]).name@ == name
}

/// Whether some tensor has this name.
pub fn has_tensor(tensors: &[TensorInfo], name: &str) -> (found: bool)
    ensures
        found == lists(tensors@, name@),
{
    for i in 0..tensors.len()
        invariant
            forall|j: int| 0 <= j < i ==> (#[trigger] tensors@[j]).name@ != name@,
    {
        if same(tensors[i].name.as_str(), name) {
            return true;
        }
    }
    false
}

/// The bytes of all tensors together.
pub open spec fn total_bytes(tensors: Seq<TensorInfo>) -> nat
    decreases tensors.len(),
{
    if tensors.len() == 0 {
        0
    } else {
        total_bytes(tensors.drop_last()) + tensors.last().bytes as nat
    }
}

/// The bytes of a prefix are at most those of the whole.
proof fn lemma_total_bytes_prefix(tensors: Seq<TensorInfo>, n: int)
    requires
        0 <= n <= tensors.len(),
    ensures
        total_bytes(tensors.take(n)) <= total_bytes(tensors),
    decreases tensors.len() - n,
{
    if n == tensors.len() {
        assert(tensors.take(n) =~= tensors);
    } else {
        assert(tensors.take(n + 1).drop_last() =~= tensors.take(n));
        lemma_total_bytes_prefix(tensors, n + 1);
    }
}

/// An inserted tensor adds its bytes.
proof fn lemma_total_bytes_insert(tensors: Seq<TensorInfo>, x: TensorInfo, p: int)
    requires
        0 <= p <= tensors.len(),
    ensures
        total_bytes(tensors.insert(p, x)) == total_bytes(tensors) + x.bytes,
    decreases tensors.len(),
{
    let out = tensors.insert(p, x);
    if p == tensors.len() {
        assert(out.drop_last() =~= tensors);
    } else {
        assert(out.drop_last() =~= tensors.drop_last().insert(p, x));
        lemma_total_bytes_insert(tensors.drop_last(), x, p);
    }
}

/// The bytes of all tensors together.
pub fn sum_bytes(tensors: &[TensorInfo]) -> (total: u64)
    requires
        total_bytes(tensors@) <= u64::MAX,
    ensures
        total == total_bytes(tensors@),
{
    let mut total: u64 = 0;
    for i in 0..tensors.len()
        invariant
            total == total_bytes(tensors@.take(i as int)),
            total_bytes(tensors@) <= u64::MAX,
    {
        proof {
            assert(tensors@.take(i + 1).drop_last() =~= tensors@.take(i as int));
            lemma_total_bytes_prefix(tensors@, i + 1);
        }
        total = total + tensors[i].bytes as u64;
    }
    assert(tensors@.take(tensors@.len() as int) =~= tensors@);
    total
}

/// Lexicographic order of character sequences by code point.
pub open spec fn precedes(a: Seq<char>, b: Seq<char>) -> bool
    decreases a.len(),
{
    if b.len() == 0 {
        false
    } else if a.len() == 0 {
        true
    } else if a[0] != b[0] {
        (a[0] as int) < (b[0] as int)
    } else {
        precedes(a.drop_first(), b.drop_first())
    }
}

/// Nothing precedes itself, and of two sequences at most one precedes.
pub proof fn lemma_precedes_total(a: Seq<char>, b: Seq<char>)
    ensures
        !precedes(a, a),
        precedes(a, b) ==> !precedes(b, a),
        a == b || precedes(a, b) || precedes(b, a),
    decreases a.len(),
{
    if a.len() > 0 {
        lemma_precedes_total(a.drop_first(), a.drop_first());
    }
    if a.len() > 0 && b.len() > 0 && a[0] == b[0] {
        lemma_precedes_total(a.drop_first(), b.drop_first());
        if a.drop_first() == b.drop_first() {
            assert(a =~= seq![a[0]] + a.drop_first());
            assert(b =~= seq![b[0]] + b.drop_first());
        }
    } else if a.len() == 0 && b.len() == 0 {
        assert(a =~= b);
    }
}

/// The order is transitive.
pub proof fn lemma_precedes_transitive(a: Seq<char>, b: Seq<char>, c: Seq<char>)
    requires
        precedes(a, b),
        precedes(b, c),
    ensures
        precedes(a, c),
    decreases a.len(),
{
    if a.len() > 0 && a[0] == b[0] && b[0] == c[0] {
        lemma_precedes_transitive(a.drop_first(), b.drop_first(), c.drop_first());
    }
}

/// Whether `a` comes before `b`.
pub fn comes_before(a: &str, b: &str) -> (r: bool)
    ensures
        r == precedes(a@, b@),
{
    let left: Vec<char> = chars_of(a);
    let right: Vec<char> = chars_of(b);
    let mut i: usize = 0;
    assert(left@.skip(0) =~= left@);
    assert(right@.skip(0) =~= right@);
    while i < left.len() && i < right.len()
        invariant
            i <= left@.len(),
            i <= right@.len(),
            left@ == a@,
            right@ == b@,
            precedes(a@, b@) == precedes(left@.skip(i as int), right@.skip(i as int)),
        decreases left@.len() - i,
    {
        let x: u32 = code_point(left[i]);
        let y: u32 = code_point(right[i]);
        if x != y {
            return x < y;
        }
        proof {
            assert(left@.skip(i as int).drop_first() =~= left@.skip(i + 1));
            assert(right@.skip(i as int).drop_first() =~= right@.skip(i + 1));
        }
        i = i + 1;
    }
    left.len() <= i && i < right.len()
}

/// Each name is at most the next.
pub open spec fn sorted_by_name(tensors: Seq<TensorInfo>) -> bool {
    forall|i: int, j: int|
        0 <= i < j < tensors.len() ==> !precedes(
            (#[trigger] tensors[j]).name@,
            (#[trigger] tensors[i]).name@,
        )
}

/// The tensors that have this name.
pub open spec fn is_named(name: Seq<char>) -> spec_fn(TensorInfo) -> bool {
    |t: TensorInfo| t.name@ == name
}

/// The tensors of one name, in order.
pub open spec fn of_name(tensors: Seq<TensorInfo>, name: Seq<char>) -> Seq<TensorInfo> {
    tensors.filter(is_named(name))
}

/// `after` holds the tensors of `before` ordered by name; tensors of the same
/// name keep their order.
pub open spec fn name_ordering(before: Seq<TensorInfo>, after: Seq<TensorInfo>) -> bool {
    &&& sorted_by_name(after)
    &&& forall|name: Seq<char>| #[trigger] of_name(after, name) == of_name(before, name)
}

/// If no tensor has the name, none is found.
proof fn lemma_of_name_empty(tensors: Seq<TensorInfo>, name: Seq<char>)
    requires
        forall|i: int| 0 <= i < tensors.len() ==> (#[trigger] tensors[i]).name@ != name,
    ensures
        of_name(tensors, name) == Seq::<TensorInfo>::empty(),
    decreases tensors.len(),
{
    reveal(Seq::filter);
    if tensors.len() > 0 {
        assert(tensors.last() == tensors[tensors.len() - 1]);
        lemma_of_name_empty(tensors.drop_last(), name);
    }
}

/// Ordering by name changes nothing about which names there are.
pub proof fn law_ordering_keeps_names(before: Seq<TensorInfo>, after: Seq<TensorInfo>, name: Seq<char>)
    requires
        name_ordering(before, after),
    ensures
        lists(after, name) == lists(before, name),
{
    assert(of_name(after, name) == of_name(before, name));
    lemma_lists(before, name);
    lemma_lists(after, name);
}

/// A name is listed when some tensor is found under it.
proof fn lemma_lists(tensors: Seq<TensorInfo>, name: Seq<char>)
    ensures
        lists(tensors, name) == (of_name(tensors, name).len() > 0),
    decreases tensors.len(),
{
    reveal(Seq::filter);
    if tensors.len() > 0 {
        let shorter = tensors.drop_last();
        lemma_lists(shorter, name);
        if lists(shorter, name) {
            let i = choose|i: int| 0 <= i < shorter.len() && (#[trigger] shorter[i]).name@ == name;
            assert(tensors[i].name@ == name);
        }
        if lists(tensors, name) && tensors.last().name@ != name {
            let i = choose|i: int| 0 <= i < tensors.len() && (#[trigger] tensors[i]).name@ == name;
            assert(shorter[i].name@ == name);
        }
        assert(tensors.last() == tensors[tensors.len() - 1]);
    }
}

/// Inserting a tensor in front of those that follow it by name.
proof fn lemma_inserted(
    rest: Seq<TensorInfo>,
    out: Seq<TensorInfo>,
    x: TensorInfo,
    p: int,
    name: Seq<char>,
)
    requires
        0 <= p <= out.len(),
        forall|i: int| 0 <= i < p ==> precedes((#[trigger] out[i]).name@, x.name@),
        of_name(out, name) == of_name(rest, name),
    ensures
        of_name(out.insert(p, x), name) == of_name(seq![x] + rest, name),
{
    let f = is_named(name);
    let front = out.take(p);
    let back = out.skip(p);
    assert(out =~= front + back);
    assert(out.insert(p, x) =~= front + (seq![x] + back));
    Seq::filter_distributes_over_add(front, back, f);
    Seq::filter_distributes_over_add(front, seq![x] + back, f);
    Seq::filter_distributes_over_add(seq![x], back, f);
    Seq::filter_distributes_over_add(seq![x], rest, f);
    if name == x.name@ {
        assert forall|i: int| 0 <= i < front.len() implies (#[trigger] front[i]).name@ != name by {
            lemma_precedes_total(out[i].name@, x.name@);
        }
        lemma_of_name_empty(front, name);
        assert(front.filter(f) + (seq![x].filter(f) + back.filter(f)) =~= seq![x].filter(f) + (
        front.filter(f) + back.filter(f)));
    } else {
        assert forall|i: int| 0 <= i < seq![x].len() implies (#[trigger] seq![x][i]).name@
            != name by {}
        lemma_of_name_empty(seq![x], name);
        assert(seq![x].filter(f) + back.filter(f) =~= back.filter(f));
        assert(seq![x].filter(f) + rest.filter(f) =~= rest.filter(f));
    }
}

/// Orders tensors by name; those of the same name keep their order.
pub fn sort_by_name(tensors: Vec<TensorInfo>) -> (out: Vec<TensorInfo>)
    ensures
        name_ordering(tensors@, out@),
        out@.len() == tensors@.len(),
        total_bytes(out@) == total_bytes(tensors@),
{
    let ghost all = tensors@;
    let mut left = tensors;
    let mut out: Vec<TensorInfo> = Vec::new();
    assert(all.take(all.len() as int) =~= all);
    assert(all.skip(all.len() as int) =~= Seq::empty());
    while left.len() > 0
        invariant
            left@.len() <= all.len(),
            left@ == all.take(left@.len() as int),
            out@.len() == all.len() - left@.len(),
            sorted_by_name(out@),
            total_bytes(out@) + total_bytes(left@) == total_bytes(all),
            forall|name: Seq<char>|
                #[trigger] of_name(out@, name) == of_name(all.skip(left@.len() as int), name),
        decreases left@.len(),
    {
        let ghost m = left@.len() as int;
        let x = match left.pop() {
            Some(x) => x,
            None => {
                return out;
            },
        };
        assert(x == all[m - 1]);
        assert(left@ =~= all.take(m - 1));
        let mut p: usize = 0;
        while p < out.len() && comes_before(out[p].name.as_str(), x.name.as_str())
            invariant
                p <= out@.len(),
                forall|i: int| 0 <= i < p ==> precedes((#[trigger] out@[i]).name@, x.name@),
            decreases out@.len() - p,
        {
            p = p + 1;
        }
        let ghost before = out@;
        proof {
            assert(p < before.len() ==> !precedes(before[p as int].name@, x.name@));
        }
        out.insert(p, x);
        proof {
            assert(all.take(m).drop_last() =~= all.take(m - 1));
            lemma_total_bytes_insert(before, x, p as int);
            assert(all.skip(m - 1) =~= seq![x] + all.skip(m));
            assert forall|name: Seq<char>| #[trigger] of_name(out@, name) == of_name(
                all.skip(m - 1),
                name,
            ) by {
                assert(of_name(before, name) == of_name(all.skip(m), name));
                lemma_inserted(all.skip(m), before, x, p as int, name);
            }
            assert forall|i: int, j: int| 0 <= i < j < out@.len() implies !precedes(
                (#[trigger] out@[j]).name@,
                (#[trigger] out@[i]).name@,
            ) by {
                lemma_sorted_insert(before, x, p as int, i, j);
            }
        }
    }
    assert(all.skip(0) =~= all);
    out
}

/// Sortedness survives an insertion at the right place.
proof fn lemma_sorted_insert(before: Seq<TensorInfo>, x: TensorInfo, p: int, i: int, j: int)
    requires
        sorted_by_name(before),
        0 <= p <= before.len(),
        forall|k: int| 0 <= k < p ==> precedes((#[trigger] before[k]).name@, x.name@),
        p < before.len() ==> !precedes(before[p].name@, x.name@),
        0 <= i < j < before.len() + 1,
    ensures
        !precedes(before.insert(p, x)[j].name@, before.insert(p, x)[i].name@),
{
    let out = before.insert(p, x);
    if j < p {
        assert(out[i] == before[i] && out[j] == before[j]);
    } else if j == p {
        assert(out[i] == before[i] && out[j] == x);
        lemma_precedes_total(before[i].name@, x.name@);
    } else if i < p {
        assert(out[i] == before[i] && out[j] == before[j - 1]);
    } else if i == p {
        assert(out[i] == x && out[j] == before[j - 1]);
        if precedes(before[j - 1].name@, x.name@) {
            if j - 1 > p {
                lemma_precedes_total(before[p].name@, x.name@);
                lemma_precedes_total(before[j - 1].name@, before[p].name@);
                if before[p].name@ != before[j - 1].name@ {
                    if before[p].name@ != x.name@ {
                        lemma_precedes_transitive(
                            before[j - 1].name@,
                            x.name@,
                            before[p].name@,
                        );
                    }
                }
            }
        }
    } else {
        assert(out[i] == before[i - 1] && out[j] == before[j - 1]);
    }
}

} // verus!
