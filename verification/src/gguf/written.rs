//! Files as they are written: what is written is read back.
use vstd::prelude::*;
use vstd::utf8::encode_utf8;
use crate::gguf::bytes::{law_stored_text_is_read_back, little, many, number_at, text_at};
use crate::gguf::file::{Layout, aligned, layout_of};
use crate::gguf::metadata::{
    Item, Meta, TensorModel, entry_at, entry_step, extent_step, item_at, item_step, meta_at,
    shape_at, tensor_at, tensor_step, type_at,
};
use crate::gguf::types::{GGUF_MAGIC, GgmlType, GgufFault, law_type_numbers_differ, type_number};

verus! {

/// `part` stands at `pos`.
pub open spec fn stands(b: Seq<u8>, pos: int, part: Seq<u8>) -> bool {
    0 <= pos && pos + part.len() <= b.len() && b.subrange(pos, pos + part.len()) == part
}

/// How many numbers `width` bytes can hold.
pub open spec fn numbers_in(width: nat) -> nat
    decreases width,
{
    if width == 0 {
        1
    } else {
        256 * numbers_in((width - 1) as nat)
    }
}

/// A number in `width` bytes, the least significant first.
pub open spec fn number_bytes(n: nat, width: nat) -> Seq<u8>
    decreases width,
{
    if width == 0 {
        Seq::empty()
    } else {
        seq![(n % 256) as u8] + number_bytes(n / 256, (width - 1) as nat)
    }
}

/// A text: the length of its encoding, and the encoding.
pub open spec fn text_bytes(text: Seq<char>) -> Seq<u8> {
    number_bytes(encode_utf8(text).len(), 8) + encode_utf8(text)
}

/// The number that stands for the type of a value.
pub open spec fn item_kind(item: Item) -> u32 {
    match item {
        Item::Uint8(_) => 0,
        Item::Int8(_) => 1,
        Item::Uint16(_) => 2,
        Item::Int16(_) => 3,
        Item::Uint32(_) => 4,
        Item::Int32(_) => 5,
        Item::Float32(_) => 6,
        Item::Bool(_) => 7,
        Item::Text(_) => 8,
        Item::Uint64(_) => 10,
        Item::Int64(_) => 11,
        Item::Float64(_) => 12,
    }
}

/// A number in two's complement, of which there are `count`.
pub open spec fn complement(n: int, count: int) -> nat {
    (if n < 0 {
        n + count
    } else {
        n
    }) as nat
}

/// A value without its type.
pub open spec fn item_bytes(item: Item) -> Seq<u8> {
    match item {
        Item::Uint8(n) => number_bytes(n as nat, 1),
        Item::Int8(n) => number_bytes(complement(n as int, 0x100), 1),
        Item::Uint16(n) => number_bytes(n as nat, 2),
        Item::Int16(n) => number_bytes(complement(n as int, 0x1_0000), 2),
        Item::Uint32(n) => number_bytes(n as nat, 4),
        Item::Int32(n) => number_bytes(complement(n as int, 0x1_0000_0000), 4),
        Item::Float32(n) => number_bytes(n as nat, 4),
        Item::Bool(b) => number_bytes(
            if b {
                1
            } else {
                0
            },
            1,
        ),
        Item::Text(text) => text_bytes(text),
        Item::Uint64(n) => number_bytes(n as nat, 8),
        Item::Int64(n) => number_bytes(complement(n as int, 0x1_0000_0000_0000_0000), 8),
        Item::Float64(n) => number_bytes(n as nat, 8),
    }
}

/// Parts one behind another.
pub open spec fn joined(parts: Seq<Seq<u8>>) -> Seq<u8>
    decreases parts.len(),
{
    if parts.len() == 0 {
        Seq::empty()
    } else {
        joined(parts.drop_last()) + parts.last()
    }
}

/// The type of the elements of an array; any will do for none.
pub open spec fn element_kind(items: Seq<Item>) -> u32 {
    if items.len() == 0 {
        0
    } else {
        item_kind(items[0])
    }
}

/// A metadata value, its type first.
pub open spec fn meta_bytes(meta: Meta) -> Seq<u8> {
    match meta {
        Meta::One(item) => number_bytes(item_kind(item) as nat, 4) + item_bytes(item),
        Meta::Many(items) => number_bytes(9, 4) + (number_bytes(element_kind(items) as nat, 4) + (
        number_bytes(items.len(), 8) + joined(items.map_values(|item: Item| item_bytes(item))))),
    }
}

/// A named value.
pub open spec fn entry_bytes(entry: (Seq<char>, Meta)) -> Seq<u8> {
    text_bytes(entry.0) + meta_bytes(entry.1)
}

/// A tensor.
pub open spec fn tensor_bytes(tensor: TensorModel) -> Seq<u8> {
    text_bytes(tensor.name) + ((number_bytes(tensor.n_dims as nat, 4) + joined(
        tensor.shape.map_values(|n: u64| number_bytes(n as nat, 8)),
    )) + (number_bytes(type_number(tensor.ggml_type) as nat, 4) + number_bytes(
        tensor.offset as nat,
        8,
    )))
}

/// What stands in front of the data of a file.
pub open spec fn front_bytes(layout: Layout) -> Seq<u8> {
    number_bytes(GGUF_MAGIC as nat, 4) + (number_bytes(layout.version as nat, 4) + (number_bytes(
        layout.n_tensors as nat,
        8,
    ) + (number_bytes(layout.entries.len(), 8) + (joined(
        layout.entries.map_values(|entry: (Seq<char>, Meta)| entry_bytes(entry)),
    ) + joined(layout.tensors.map_values(|tensor: TensorModel| tensor_bytes(tensor)))))))
}

/// The length of a text can be written.
pub open spec fn text_storable(text: Seq<char>) -> bool {
    encode_utf8(text).len() <= u64::MAX
}

/// A value can be written.
pub open spec fn item_storable(item: Item) -> bool {
    item matches Item::Text(text) ==> text_storable(text)
}

/// A metadata value can be written: all elements of an array have one type.
pub open spec fn meta_storable(meta: Meta) -> bool {
    match meta {
        Meta::One(item) => item_storable(item),
        Meta::Many(items) => items.len() <= u64::MAX && forall|i: int|
            0 <= i < items.len() ==> item_storable(#[trigger] items[i]) && item_kind(items[i])
                == element_kind(items),
    }
}

/// A tensor can be written: it has as many extents as it says.
pub open spec fn tensor_storable(tensor: TensorModel) -> bool {
    text_storable(tensor.name) && tensor.n_dims == tensor.shape.len()
}

/// What stands in front of the data of a file can be written, and the data
/// begin behind it.
pub open spec fn storable(layout: Layout) -> bool {
    &&& layout.version == 2 || layout.version == 3
    &&& layout.n_tensors == layout.tensors.len()
    &&& layout.entries.len() <= u64::MAX
    &&& forall|i: int|
        0 <= i < layout.entries.len() ==> text_storable((#[trigger] layout.entries[i]).0)
            && meta_storable(layout.entries[i].1)
    &&& forall|i: int| 0 <= i < layout.tensors.len() ==> tensor_storable(#[trigger] layout.tensors[i])
    &&& layout.data_offset == aligned(front_bytes(layout).len() as int)
}

/// What is written in front of the data of a file is read back as it was,
/// whatever follows.
pub proof fn law_what_is_written_is_read(b: Seq<u8>, layout: Layout)
    requires
        storable(layout),
        stands(b, 0, front_bytes(layout)),
    ensures
        layout_of(b) == Ok::<Layout, GgufFault>(layout),
{
    let entries = layout.entries.map_values(|entry: (Seq<char>, Meta)| entry_bytes(entry));
    let tensors = layout.tensors.map_values(|tensor: TensorModel| tensor_bytes(tensor));
    let p6 = joined(entries) + joined(tensors);
    let p5 = number_bytes(layout.entries.len(), 8) + p6;
    let p4 = number_bytes(layout.n_tensors as nat, 8) + p5;
    let p3 = number_bytes(layout.version as nat, 4) + p4;
    lemma_len(GGUF_MAGIC as nat, 4);
    lemma_len(layout.version as nat, 4);
    lemma_len(layout.n_tensors as nat, 8);
    lemma_len(layout.entries.len(), 8);
    lemma_widths();
    lemma_split(b, 0, number_bytes(GGUF_MAGIC as nat, 4), p3);
    lemma_split(b, 4, number_bytes(layout.version as nat, 4), p4);
    lemma_split(b, 8, number_bytes(layout.n_tensors as nat, 8), p5);
    lemma_split(b, 16, number_bytes(layout.entries.len(), 8), p6);
    lemma_split(b, 24, joined(entries), joined(tensors));
    lemma_number(b, 0, GGUF_MAGIC as nat, 4);
    lemma_number(b, 4, layout.version as nat, 4);
    lemma_number(b, 8, layout.n_tensors as nat, 8);
    lemma_number(b, 16, layout.entries.len(), 8);
    assert forall|i: int, p: int|
        0 <= i < entries.len() && #[trigger] stands(b, p, #[trigger] entries[i]) implies entry_step(
        b,
    )(p) == Ok::<((Seq<char>, Meta), int), GgufFault>(
        (layout.entries[i], p + entries[i].len()),
    ) by {
        lemma_entry(b, p, layout.entries[i]);
    }
    lemma_many(b, entry_step(b), 24, entries, layout.entries);
    let q = 24 + joined(entries).len();
    assert forall|i: int, p: int|
        0 <= i < tensors.len() && #[trigger] stands(b, p, #[trigger] tensors[i]) implies tensor_step(
        b,
    )(p) == Ok::<(TensorModel, int), GgufFault>((layout.tensors[i], p + tensors[i].len())) by {
        lemma_tensor(b, p, layout.tensors[i]);
    }
    lemma_many(b, tensor_step(b), q as int, tensors, layout.tensors);
}

proof fn lemma_widths()
    ensures
        numbers_in(1) == 0x100,
        numbers_in(2) == 0x1_0000,
        numbers_in(4) == 0x1_0000_0000,
        numbers_in(8) == 0x1_0000_0000_0000_0000,
{
    reveal_with_fuel(numbers_in, 9);
}

proof fn lemma_len(n: nat, width: nat)
    ensures
        number_bytes(n, width).len() == width,
    decreases width,
{
    if width > 0 {
        lemma_len(n / 256, (width - 1) as nat);
    }
}

proof fn lemma_little(n: nat, width: nat)
    requires
        n < numbers_in(width),
    ensures
        little(number_bytes(n, width)) == n,
    decreases width,
{
    if width > 0 {
        let rest = number_bytes(n / 256, (width - 1) as nat);
        lemma_little(n / 256, (width - 1) as nat);
        assert(number_bytes(n, width).drop_first() =~= rest);
    }
}

proof fn lemma_split(b: Seq<u8>, pos: int, first: Seq<u8>, second: Seq<u8>)
    requires
        stands(b, pos, first + second),
    ensures
        stands(b, pos, first),
        stands(b, pos + first.len(), second),
{
    let both = b.subrange(pos, pos + first.len() + second.len());
    assert(both == first + second);
    assert(b.subrange(pos, pos + first.len()) =~= both.take(first.len() as int));
    assert((first + second).take(first.len() as int) =~= first);
    assert(b.subrange(pos + first.len(), pos + first.len() + second.len()) =~= both.skip(
        first.len() as int,
    ));
    assert((first + second).skip(first.len() as int) =~= second);
}

proof fn lemma_number(b: Seq<u8>, pos: int, n: nat, width: nat)
    requires
        stands(b, pos, number_bytes(n, width)),
        n < numbers_in(width),
    ensures
        number_at(b, pos, width as int) == Ok::<(nat, int), GgufFault>((n, pos + width)),
{
    lemma_len(n, width);
    lemma_little(n, width);
}

proof fn lemma_text(b: Seq<u8>, pos: int, text: Seq<char>)
    requires
        stands(b, pos, text_bytes(text)),
        text_storable(text),
    ensures
        text_at(b, pos) == Ok::<(Seq<char>, int), GgufFault>((text, pos + text_bytes(text).len())),
{
    let encoded = encode_utf8(text);
    lemma_len(encoded.len(), 8);
    lemma_widths();
    lemma_split(b, pos, number_bytes(encoded.len(), 8), encoded);
    lemma_number(b, pos, encoded.len(), 8);
    law_stored_text_is_read_back(text);
}

proof fn lemma_item(b: Seq<u8>, pos: int, item: Item)
    requires
        stands(b, pos, item_bytes(item)),
        item_storable(item),
    ensures
        item_at(b, pos, item_kind(item)) == Ok::<(Item, int), GgufFault>(
            (item, pos + item_bytes(item).len()),
        ),
{
    lemma_widths();
    match item {
        Item::Uint8(n) => {
            lemma_len(n as nat, 1);
            lemma_number(b, pos, n as nat, 1);
        },
        Item::Int8(n) => {
            lemma_len(complement(n as int, 0x100), 1);
            lemma_number(b, pos, complement(n as int, 0x100), 1);
        },
        Item::Uint16(n) => {
            lemma_len(n as nat, 2);
            lemma_number(b, pos, n as nat, 2);
        },
        Item::Int16(n) => {
            lemma_len(complement(n as int, 0x1_0000), 2);
            lemma_number(b, pos, complement(n as int, 0x1_0000), 2);
        },
        Item::Uint32(n) => {
            lemma_len(n as nat, 4);
            lemma_number(b, pos, n as nat, 4);
        },
        Item::Int32(n) => {
            lemma_len(complement(n as int, 0x1_0000_0000), 4);
            lemma_number(b, pos, complement(n as int, 0x1_0000_0000), 4);
        },
        Item::Float32(n) => {
            lemma_len(n as nat, 4);
            lemma_number(b, pos, n as nat, 4);
        },
        Item::Bool(v) => {
            let n: nat = if v {
                1
            } else {
                0
            };
            lemma_len(n, 1);
            lemma_number(b, pos, n, 1);
        },
        Item::Text(text) => {
            lemma_text(b, pos, text);
        },
        Item::Uint64(n) => {
            lemma_len(n as nat, 8);
            lemma_number(b, pos, n as nat, 8);
        },
        Item::Int64(n) => {
            lemma_len(complement(n as int, 0x1_0000_0000_0000_0000), 8);
            lemma_number(b, pos, complement(n as int, 0x1_0000_0000_0000_0000), 8);
        },
        Item::Float64(n) => {
            lemma_len(n as nat, 8);
            lemma_number(b, pos, n as nat, 8);
        },
    }
}

/// Steps that read their parts wherever they stand read all parts in a row.
proof fn lemma_many<T>(
    b: Seq<u8>,
    step: spec_fn(int) -> Result<(T, int), GgufFault>,
    pos: int,
    parts: Seq<Seq<u8>>,
    items: Seq<T>,
)
    requires
        parts.len() == items.len(),
        stands(b, pos, joined(parts)),
        forall|i: int, p: int|
            0 <= i < parts.len() && #[trigger] stands(b, p, #[trigger] parts[i]) ==> step(p) == Ok::<
                (T, int),
                GgufFault,
            >((items[i], p + parts[i].len())),
    ensures
        many(step, pos, items.len()) == Ok::<(Seq<T>, int), GgufFault>(
            (items, pos + joined(parts).len()),
        ),
    decreases parts.len(),
{
    if parts.len() == 0 {
        assert(items =~= Seq::empty());
    } else {
        let (fewer, less) = (parts.drop_last(), items.drop_last());
        let last = parts.len() - 1;
        lemma_split(b, pos, joined(fewer), parts.last());
        assert forall|i: int, p: int|
            0 <= i < fewer.len() && #[trigger] stands(b, p, #[trigger] fewer[i]) implies step(p)
            == Ok::<(T, int), GgufFault>((less[i], p + fewer[i].len())) by {
            assert(stands(b, p, parts[i]));
        }
        lemma_many(b, step, pos, fewer, less);
        let p = pos + joined(fewer).len();
        assert(stands(b, p, parts[last]));
        assert(less.push(items[last]) =~= items);
    }
}

proof fn lemma_meta(b: Seq<u8>, pos: int, meta: Meta)
    requires
        stands(b, pos, meta_bytes(meta)),
        meta_storable(meta),
    ensures
        meta_at(b, pos) == Ok::<(Meta, int), GgufFault>((meta, pos + meta_bytes(meta).len())),
{
    lemma_widths();
    match meta {
        Meta::One(item) => {
            let kind = item_kind(item) as nat;
            lemma_len(kind, 4);
            lemma_split(b, pos, number_bytes(kind, 4), item_bytes(item));
            lemma_number(b, pos, kind, 4);
            lemma_item(b, pos + 4, item);
        },
        Meta::Many(items) => {
            let kind = element_kind(items) as nat;
            let parts = items.map_values(|item: Item| item_bytes(item));
            lemma_len(9, 4);
            lemma_len(kind, 4);
            lemma_len(items.len(), 8);
            let p2 = number_bytes(items.len(), 8) + joined(parts);
            let p1 = number_bytes(kind, 4) + p2;
            lemma_split(b, pos, number_bytes(9, 4), p1);
            lemma_split(b, pos + 4, number_bytes(kind, 4), p2);
            lemma_split(b, pos + 8, number_bytes(items.len(), 8), joined(parts));
            lemma_number(b, pos, 9, 4);
            lemma_number(b, pos + 4, kind, 4);
            lemma_number(b, pos + 8, items.len(), 8);
            assert forall|i: int, p: int|
                0 <= i < parts.len() && #[trigger] stands(b, p, #[trigger] parts[i]) implies item_step(
                b,
                kind as u32,
            )(p) == Ok::<(Item, int), GgufFault>((items[i], p + parts[i].len())) by {
                lemma_item(b, p, items[i]);
            }
            lemma_many(b, item_step(b, kind as u32), pos + 16, parts, items);
        },
    }
}

proof fn lemma_entry(b: Seq<u8>, pos: int, entry: (Seq<char>, Meta))
    requires
        stands(b, pos, entry_bytes(entry)),
        text_storable(entry.0),
        meta_storable(entry.1),
    ensures
        entry_at(b, pos) == Ok::<((Seq<char>, Meta), int), GgufFault>(
            (entry, pos + entry_bytes(entry).len()),
        ),
{
    lemma_split(b, pos, text_bytes(entry.0), meta_bytes(entry.1));
    lemma_text(b, pos, entry.0);
    lemma_meta(b, pos + text_bytes(entry.0).len(), entry.1);
}

proof fn lemma_type(b: Seq<u8>, pos: int, t: GgmlType)
    requires
        stands(b, pos, number_bytes(type_number(t) as nat, 4)),
    ensures
        type_at(b, pos) == Ok::<(GgmlType, int), GgufFault>((t, pos + 4)),
{
    lemma_widths();
    lemma_number(b, pos, type_number(t) as nat, 4);
    let n = type_number(t) as nat;
    assert(type_number(t) == n);
    let found = choose|u: GgmlType| type_number(u) == n;
    law_type_numbers_differ(found, t);
}

proof fn lemma_shape(b: Seq<u8>, pos: int, n_dims: u32, shape: Seq<u64>)
    requires
        n_dims == shape.len(),
        stands(
            b,
            pos,
            number_bytes(n_dims as nat, 4) + joined(
                shape.map_values(|n: u64| number_bytes(n as nat, 8)),
            ),
        ),
    ensures
        shape_at(b, pos) == Ok::<((u32, Seq<u64>), int), GgufFault>(
            (
                (n_dims, shape),
                pos + (number_bytes(n_dims as nat, 4) + joined(
                    shape.map_values(|n: u64| number_bytes(n as nat, 8)),
                )).len(),
            ),
        ),
{
    let parts = shape.map_values(|n: u64| number_bytes(n as nat, 8));
    lemma_widths();
    lemma_len(n_dims as nat, 4);
    lemma_split(b, pos, number_bytes(n_dims as nat, 4), joined(parts));
    lemma_number(b, pos, n_dims as nat, 4);
    assert forall|i: int, p: int|
        0 <= i < parts.len() && #[trigger] stands(b, p, #[trigger] parts[i]) implies extent_step(b)(
        p,
    ) == Ok::<(u64, int), GgufFault>((shape[i], p + parts[i].len())) by {
        lemma_len(shape[i] as nat, 8);
        lemma_number(b, p, shape[i] as nat, 8);
    }
    lemma_many(b, extent_step(b), pos + 4, parts, shape);
}

proof fn lemma_tensor(b: Seq<u8>, pos: int, tensor: TensorModel)
    requires
        stands(b, pos, tensor_bytes(tensor)),
        tensor_storable(tensor),
    ensures
        tensor_at(b, pos) == Ok::<(TensorModel, int), GgufFault>(
            (tensor, pos + tensor_bytes(tensor).len()),
        ),
{
    let name = text_bytes(tensor.name);
    let shape = number_bytes(tensor.n_dims as nat, 4) + joined(
        tensor.shape.map_values(|n: u64| number_bytes(n as nat, 8)),
    );
    let kind = number_bytes(type_number(tensor.ggml_type) as nat, 4);
    let offset = number_bytes(tensor.offset as nat, 8);
    lemma_widths();
    lemma_len(type_number(tensor.ggml_type) as nat, 4);
    lemma_len(tensor.offset as nat, 8);
    lemma_split(b, pos, name, shape + (kind + offset));
    let p = pos + name.len();
    lemma_split(b, p, shape, kind + offset);
    let q = p + shape.len();
    lemma_split(b, q, kind, offset);
    lemma_text(b, pos, tensor.name);
    lemma_shape(b, p, tensor.n_dims, tensor.shape);
    lemma_type(b, q, tensor.ggml_type);
    lemma_number(b, q + 4, tensor.offset as nat, 8);
}

} // verus!
