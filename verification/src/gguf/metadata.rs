//! Metadata values and tensors, as they stand in a file.
use vstd::prelude::*;
use crate::gguf::bytes::{Cursor, lemma_many_stops, many, number_at, text_at};
use crate::gguf::types::{
    GgmlType, GgufError, GgufFault, MetadataValue, TensorInfo, law_type_numbers_differ, type_number,
};

verus! {

/// A metadata value that is not an array.
pub enum Item {
    Uint8(u8),
    Int8(i8),
    Uint16(u16),
    Int16(i16),
    Uint32(u32),
    Int32(i32),
    Uint64(u64),
    Int64(i64),
    Float32(u32),
    Float64(u64),
    Bool(bool),
    Text(Seq<char>),
}

/// A metadata value.
pub enum Meta {
    One(Item),
    Many(Seq<Item>),
}

/// The value that a metadata value holds, unless it is an array.
pub open spec fn item_of(value: MetadataValue) -> Option<Item> {
    match value {
        MetadataValue::Uint8(v) => Some(Item::Uint8(v)),
        MetadataValue::Int8(v) => Some(Item::Int8(v)),
        MetadataValue::Uint16(v) => Some(Item::Uint16(v)),
        MetadataValue::Int16(v) => Some(Item::Int16(v)),
        MetadataValue::Uint32(v) => Some(Item::Uint32(v)),
        MetadataValue::Int32(v) => Some(Item::Int32(v)),
        MetadataValue::Uint64(v) => Some(Item::Uint64(v)),
        MetadataValue::Int64(v) => Some(Item::Int64(v)),
        MetadataValue::Float32(v) => Some(Item::Float32(v)),
        MetadataValue::Float64(v) => Some(Item::Float64(v)),
        MetadataValue::Bool(v) => Some(Item::Bool(v)),
        MetadataValue::String(s) => Some(Item::Text(s@)),
        MetadataValue::Array(_) => None,
    }
}

/// `value` holds `meta`.
pub open spec fn is_meta(value: MetadataValue, meta: Meta) -> bool {
    match meta {
        Meta::One(item) => item_of(value) == Some(item),
        Meta::Many(items) => value matches MetadataValue::Array(list) && are_items(list@, items),
    }
}

/// The values are these.
pub open spec fn are_items(list: Seq<MetadataValue>, items: Seq<Item>) -> bool {
    &&& list.len() == items.len()
    &&& forall|i: int| 0 <= i < items.len() ==> item_of(#[trigger] list[i]) == Some(items[i])
}

/// A byte in two's complement.
pub open spec fn signed8(n: int) -> i8 {
    (if n < 0x80 {
        n
    } else {
        n - 0x100
    }) as i8
}

/// Two bytes in two's complement.
pub open spec fn signed16(n: int) -> i16 {
    (if n < 0x8000 {
        n
    } else {
        n - 0x1_0000
    }) as i16
}

/// Four bytes in two's complement.
pub open spec fn signed32(n: int) -> i32 {
    (if n < 0x8000_0000 {
        n
    } else {
        n - 0x1_0000_0000
    }) as i32
}

/// Eight bytes in two's complement.
pub open spec fn signed64(n: int) -> i64 {
    (if n < 0x8000_0000_0000_0000 {
        n
    } else {
        n - 0x1_0000_0000_0000_0000
    }) as i64
}

/// A byte in two's complement.
pub fn to_signed8(n: u8) -> (s: i8)
    ensures
        s == signed8(n as int),
{
    if n < 0x80 {
        n as i8
    } else {
        (n as i16 - 0x100) as i8
    }
}

/// Two bytes in two's complement.
fn to_signed16(n: u16) -> (s: i16)
    ensures
        s == signed16(n as int),
{
    if n < 0x8000 {
        n as i16
    } else {
        (n as i32 - 0x1_0000) as i16
    }
}

/// Four bytes in two's complement.
pub fn to_signed32(n: u32) -> (s: i32)
    ensures
        s == signed32(n as int),
{
    if n < 0x8000_0000 {
        n as i32
    } else {
        (n as i64 - 0x1_0000_0000) as i32
    }
}

/// Eight bytes in two's complement.
fn to_signed64(n: u64) -> (s: i64)
    ensures
        s == signed64(n as int),
{
    if n < 0x8000_0000_0000_0000 {
        n as i64
    } else {
        (n as i128 - 0x1_0000_0000_0000_0000) as i64
    }
}

/// A number at `pos`, as an item.
pub open spec fn number_item(b: Seq<u8>, pos: int, width: int, item: spec_fn(int) -> Item) -> Result<
    (Item, int),
    GgufFault,
> {
    match number_at(b, pos, width) {
        Err(fault) => Err(fault),
        Ok((n, p)) => Ok((item(n as int), p)),
    }
}

/// The value of type `kind` at `pos`, and the position behind it. Arrays hold
/// no arrays.
pub open spec fn item_at(b: Seq<u8>, pos: int, kind: u32) -> Result<(Item, int), GgufFault> {
    match kind {
        0 => number_item(b, pos, 1, |n: int| Item::Uint8(n as u8)),
        1 => number_item(b, pos, 1, |n: int| Item::Int8(signed8(n))),
        2 => number_item(b, pos, 2, |n: int| Item::Uint16(n as u16)),
        3 => number_item(b, pos, 2, |n: int| Item::Int16(signed16(n))),
        4 => number_item(b, pos, 4, |n: int| Item::Uint32(n as u32)),
        5 => number_item(b, pos, 4, |n: int| Item::Int32(signed32(n))),
        6 => number_item(b, pos, 4, |n: int| Item::Float32(n as u32)),
        7 => number_item(b, pos, 1, |n: int| Item::Bool(n != 0)),
        8 => match text_at(b, pos) {
            Err(fault) => Err(fault),
            Ok((text, p)) => Ok((Item::Text(text), p)),
        },
        10 => number_item(b, pos, 8, |n: int| Item::Uint64(n as u64)),
        11 => number_item(b, pos, 8, |n: int| Item::Int64(signed64(n))),
        12 => number_item(b, pos, 8, |n: int| Item::Float64(n as u64)),
        _ => Err(GgufFault::UnknownMetadataType(kind)),
    }
}

/// Reading one element of an array.
pub open spec fn item_step(b: Seq<u8>, kind: u32) -> spec_fn(int) -> Result<(Item, int), GgufFault> {
    |pos: int| item_at(b, pos, kind)
}

/// The metadata value at `pos`, its type first, and the position behind it.
pub open spec fn meta_at(b: Seq<u8>, pos: int) -> Result<(Meta, int), GgufFault> {
    match number_at(b, pos, 4) {
        Err(fault) => Err(fault),
        Ok((kind, p)) => if kind == 9 {
            array_at(b, p)
        } else {
            match item_at(b, p, kind as u32) {
                Err(fault) => Err(fault),
                Ok((item, q)) => Ok((Meta::One(item), q)),
            }
        },
    }
}

/// The array at `pos`: the type of its elements, their count and they
/// themselves.
pub open spec fn array_at(b: Seq<u8>, pos: int) -> Result<(Meta, int), GgufFault> {
    match number_at(b, pos, 4) {
        Err(fault) => Err(fault),
        Ok((kind, p)) => match number_at(b, p, 8) {
            Err(fault) => Err(fault),
            Ok((n, q)) => match many(item_step(b, kind as u32), q, n) {
                Err(fault) => Err(fault),
                Ok((items, r)) => Ok((Meta::Many(items), r)),
            },
        },
    }
}

/// Reads a value of type `kind`.
pub fn read_typed_value(cursor: &mut Cursor, kind: u32) -> (outcome: Result<MetadataValue, GgufError>)
    requires
        old(cursor).wf(),
    ensures
        final(cursor).wf(),
        final(cursor).bytes == old(cursor).bytes,
        match outcome {
            Ok(value) => item_of(value) matches Some(item) && item_at(
                old(cursor).bytes@,
                old(cursor).pos as int,
                kind,
            ) == Ok::<(Item, int), GgufFault>((item, final(cursor).pos as int)),
            Err(error) => item_at(old(cursor).bytes@, old(cursor).pos as int, kind) == Err::<
                (Item, int),
                GgufFault,
            >(error@),
        },
{
    match kind {
        0 => match cursor.read_u8() {
            Ok(n) => Ok(MetadataValue::Uint8(n)),
            Err(error) => Err(error),
        },
        1 => match cursor.read_u8() {
            Ok(n) => Ok(MetadataValue::Int8(to_signed8(n))),
            Err(error) => Err(error),
        },
        2 => match cursor.read_u16() {
            Ok(n) => Ok(MetadataValue::Uint16(n)),
            Err(error) => Err(error),
        },
        3 => match cursor.read_u16() {
            Ok(n) => Ok(MetadataValue::Int16(to_signed16(n))),
            Err(error) => Err(error),
        },
        4 => match cursor.read_u32() {
            Ok(n) => Ok(MetadataValue::Uint32(n)),
            Err(error) => Err(error),
        },
        5 => match cursor.read_u32() {
            Ok(n) => Ok(MetadataValue::Int32(to_signed32(n))),
            Err(error) => Err(error),
        },
        6 => match cursor.read_u32() {
            Ok(n) => Ok(MetadataValue::Float32(n)),
            Err(error) => Err(error),
        },
        7 => match cursor.read_u8() {
            Ok(n) => Ok(MetadataValue::Bool(n != 0)),
            Err(error) => Err(error),
        },
        8 => match cursor.read_string() {
            Ok(text) => Ok(MetadataValue::String(text)),
            Err(error) => Err(error),
        },
        10 => match cursor.read_u64() {
            Ok(n) => Ok(MetadataValue::Uint64(n)),
            Err(error) => Err(error),
        },
        11 => match cursor.read_u64() {
            Ok(n) => Ok(MetadataValue::Int64(to_signed64(n))),
            Err(error) => Err(error),
        },
        12 => match cursor.read_u64() {
            Ok(n) => Ok(MetadataValue::Float64(n)),
            Err(error) => Err(error),
        },
        _ => Err(GgufError::UnknownMetadataType(kind)),
    }
}

/// Reads the elements of an array.
fn read_items(cursor: &mut Cursor, kind: u32, count: u64) -> (outcome: Result<
    Vec<MetadataValue>,
    GgufError,
>)
    requires
        old(cursor).wf(),
    ensures
        final(cursor).wf(),
        final(cursor).bytes == old(cursor).bytes,
        match outcome {
            Ok(list) => many(
                item_step(old(cursor).bytes@, kind),
                old(cursor).pos as int,
                count as nat,
            ) matches Ok((items, p)) && p == final(cursor).pos && are_items(list@, items),
            Err(error) => many(
                item_step(old(cursor).bytes@, kind),
                old(cursor).pos as int,
                count as nat,
            ) == Err::<(Seq<Item>, int), GgufFault>(error@),
        },
{
    let ghost b = cursor.bytes@;
    let ghost start = cursor.pos as int;
    let ghost step = item_step(b, kind);
    let mut list: Vec<MetadataValue> = Vec::new();
    for i in 0..count
        invariant
            cursor.wf(),
            cursor.bytes == old(cursor).bytes,
            b == old(cursor).bytes@,
            start == old(cursor).pos,
            step == item_step(b, kind),
            many(step, start, i as nat) matches Ok((items, p)) && p == cursor.pos && are_items(
                list@,
                items,
            ),
    {
        let ghost here = cursor.pos as int;
        let ghost before = list@;
        match read_typed_value(cursor, kind) {
            Err(error) => {
                proof {
                    assert(step(here) == Err::<(Item, int), GgufFault>(error@));
                    lemma_many_stops(step, start, (i + 1) as nat, count as nat);
                }
                return Err(error);
            },
            Ok(value) => {
                list.push(value);
                proof {
                    let items = many(step, start, i as nat)->Ok_0.0;
                    let item = item_of(value)->Some_0;
                    assert(step(here) == Ok::<(Item, int), GgufFault>((item, cursor.pos as int)));
                    assert(many(step, start, (i + 1) as nat) == Ok::<(Seq<Item>, int), GgufFault>(
                        (items.push(item), cursor.pos as int),
                    ));
                    assert forall|j: int| 0 <= j < items.push(item).len() implies item_of(
                        #[trigger] list@[j],
                    ) == Some(items.push(item)[j]) by {
                        if j < items.len() {
                            assert(list@[j] == before[j]);
                        }
                    }
                }
            },
        }
    }
    Ok(list)
}

/// Reads a metadata value, its type first.
pub fn read_metadata_value(cursor: &mut Cursor) -> (outcome: Result<MetadataValue, GgufError>)
    requires
        old(cursor).wf(),
    ensures
        final(cursor).wf(),
        final(cursor).bytes == old(cursor).bytes,
        match outcome {
            Ok(value) => meta_at(old(cursor).bytes@, old(cursor).pos as int) matches Ok((meta, p))
                && p == final(cursor).pos && is_meta(value, meta),
            Err(error) => meta_at(old(cursor).bytes@, old(cursor).pos as int) == Err::<
                (Meta, int),
                GgufFault,
            >(error@),
        },
{
    let kind: u32 = match cursor.read_u32() {
        Ok(kind) => kind,
        Err(error) => {
            return Err(error);
        },
    };
    if kind != 9 {
        return read_typed_value(cursor, kind);
    }
    let element: u32 = match cursor.read_u32() {
        Ok(element) => element,
        Err(error) => {
            return Err(error);
        },
    };
    let count: u64 = match cursor.read_u64() {
        Ok(count) => count,
        Err(error) => {
            return Err(error);
        },
    };
    match read_items(cursor, element, count) {
        Ok(list) => Ok(MetadataValue::Array(list)),
        Err(error) => Err(error),
    }
}

/// A named value at `pos`, and the position behind it.
pub open spec fn entry_at(b: Seq<u8>, pos: int) -> Result<((Seq<char>, Meta), int), GgufFault> {
    match text_at(b, pos) {
        Err(fault) => Err(fault),
        Ok((key, p)) => match meta_at(b, p) {
            Err(fault) => Err(fault),
            Ok((meta, q)) => Ok(((key, meta), q)),
        },
    }
}

/// Reading one named value.
pub open spec fn entry_step(b: Seq<u8>) -> spec_fn(int) -> Result<((Seq<char>, Meta), int), GgufFault> {
    |pos: int| entry_at(b, pos)
}

/// The named values are these.
pub open spec fn are_entries(list: Seq<(String, MetadataValue)>, entries: Seq<(Seq<char>, Meta)>) -> bool {
    &&& list.len() == entries.len()
    &&& forall|i: int|
        0 <= i < entries.len() ==> (#[trigger] list[i]).0@ == entries[i].0 && is_meta(
            list[i].1,
            entries[i].1,
        )
}

/// Reads `count` named values.
pub fn read_entries(cursor: &mut Cursor, count: u64) -> (outcome: Result<
    Vec<(String, MetadataValue)>,
    GgufError,
>)
    requires
        old(cursor).wf(),
    ensures
        final(cursor).wf(),
        final(cursor).bytes == old(cursor).bytes,
        match outcome {
            Ok(list) => many(
                entry_step(old(cursor).bytes@),
                old(cursor).pos as int,
                count as nat,
            ) matches Ok((entries, p)) && p == final(cursor).pos && are_entries(list@, entries),
            Err(error) => many(
                entry_step(old(cursor).bytes@),
                old(cursor).pos as int,
                count as nat,
            ) == Err::<(Seq<(Seq<char>, Meta)>, int), GgufFault>(error@),
        },
{
    let ghost b = cursor.bytes@;
    let ghost start = cursor.pos as int;
    let ghost step = entry_step(b);
    let mut list: Vec<(String, MetadataValue)> = Vec::new();
    for i in 0..count
        invariant
            cursor.wf(),
            cursor.bytes == old(cursor).bytes,
            b == old(cursor).bytes@,
            start == old(cursor).pos,
            step == entry_step(b),
            many(step, start, i as nat) matches Ok((entries, p)) && p == cursor.pos && are_entries(
                list@,
                entries,
            ),
    {
        let ghost here = cursor.pos as int;
        let ghost before = list@;
        let key = match cursor.read_string() {
            Err(error) => {
                proof {
                    assert(step(here) == Err::<((Seq<char>, Meta), int), GgufFault>(error@));
                    lemma_many_stops(step, start, (i + 1) as nat, count as nat);
                }
                return Err(error);
            },
            Ok(key) => key,
        };
        let value = match read_metadata_value(cursor) {
            Err(error) => {
                proof {
                    assert(step(here) == Err::<((Seq<char>, Meta), int), GgufFault>(error@));
                    lemma_many_stops(step, start, (i + 1) as nat, count as nat);
                }
                return Err(error);
            },
            Ok(value) => value,
        };
        let ghost name = key@;
        list.push((key, value));
        proof {
            let entries = many(step, start, i as nat)->Ok_0.0;
            let entry = entry_at(b, here)->Ok_0.0;
            assert(step(here) == Ok::<((Seq<char>, Meta), int), GgufFault>(
                (entry, cursor.pos as int),
            ));
            assert(entry.0 == name);
            let all = entries.push(entry);
            assert(many(step, start, (i + 1) as nat) == Ok::<
                (Seq<(Seq<char>, Meta)>, int),
                GgufFault,
            >((all, cursor.pos as int)));
            assert forall|j: int| 0 <= j < all.len() implies (#[trigger] list@[j]).0@ == all[j].0
                && is_meta(list@[j].1, all[j].1) by {
                if j < entries.len() {
                    assert(list@[j] == before[j]);
                }
            }
        }
    }
    Ok(list)
}

/// [`TensorInfo`] over plain sequences.
pub struct TensorModel {
    pub name: Seq<char>,
    pub n_dims: u32,
    pub shape: Seq<u64>,
    pub ggml_type: GgmlType,
    pub offset: u64,
}

impl TensorInfo {
    /// The tensor over plain sequences.
    pub open spec fn view(&self) -> TensorModel {
        TensorModel {
            name: self.name@,
            n_dims: self.n_dims,
            shape: self.shape@,
            ggml_type: self.ggml_type,
            offset: self.offset,
        }
    }
}

/// An extent at `pos`, and the position behind it.
pub open spec fn extent_at(b: Seq<u8>, pos: int) -> Result<(u64, int), GgufFault> {
    match number_at(b, pos, 8) {
        Err(fault) => Err(fault),
        Ok((n, p)) => Ok((n as u64, p)),
    }
}

/// Reading one extent.
pub open spec fn extent_step(b: Seq<u8>) -> spec_fn(int) -> Result<(u64, int), GgufFault> {
    |pos: int| extent_at(b, pos)
}

/// A shape at `pos`: the number of extents and they themselves.
pub open spec fn shape_at(b: Seq<u8>, pos: int) -> Result<((u32, Seq<u64>), int), GgufFault> {
    match number_at(b, pos, 4) {
        Err(fault) => Err(fault),
        Ok((n, p)) => match many(extent_step(b), p, n) {
            Err(fault) => Err(fault),
            Ok((shape, q)) => Ok(((n as u32, shape), q)),
        },
    }
}

/// A type at `pos`.
pub open spec fn type_at(b: Seq<u8>, pos: int) -> Result<(GgmlType, int), GgufFault> {
    match number_at(b, pos, 4) {
        Err(fault) => Err(fault),
        Ok((n, p)) => if exists|t: GgmlType| type_number(t) == n {
            Ok((choose|t: GgmlType| type_number(t) == n, p))
        } else {
            Err(GgufFault::UnknownType(n as u32))
        },
    }
}

/// A tensor at `pos`: its name, shape, type and offset.
pub open spec fn tensor_at(b: Seq<u8>, pos: int) -> Result<(TensorModel, int), GgufFault> {
    match text_at(b, pos) {
        Err(fault) => Err(fault),
        Ok((name, p)) => match shape_at(b, p) {
            Err(fault) => Err(fault),
            Ok(((n_dims, shape), q)) => match type_at(b, q) {
                Err(fault) => Err(fault),
                Ok((ggml_type, r)) => match number_at(b, r, 8) {
                    Err(fault) => Err(fault),
                    Ok((offset, s)) => Ok(
                        (TensorModel { name, n_dims, shape, ggml_type, offset: offset as u64 }, s),
                    ),
                },
            },
        },
    }
}

/// Reading one tensor.
pub open spec fn tensor_step(b: Seq<u8>) -> spec_fn(int) -> Result<(TensorModel, int), GgufFault> {
    |pos: int| tensor_at(b, pos)
}

/// Reads a shape.
fn read_shape(cursor: &mut Cursor) -> (outcome: Result<(u32, Vec<u64>), GgufError>)
    requires
        old(cursor).wf(),
    ensures
        final(cursor).wf(),
        final(cursor).bytes == old(cursor).bytes,
        match outcome {
            Ok(shape) => shape_at(old(cursor).bytes@, old(cursor).pos as int) == Ok::<
                ((u32, Seq<u64>), int),
                GgufFault,
            >(((shape.0, shape.1@), final(cursor).pos as int)),
            Err(error) => shape_at(old(cursor).bytes@, old(cursor).pos as int) == Err::<
                ((u32, Seq<u64>), int),
                GgufFault,
            >(error@),
        },
{
    let n_dims: u32 = match cursor.read_u32() {
        Ok(n) => n,
        Err(error) => {
            return Err(error);
        },
    };
    let ghost b = cursor.bytes@;
    let ghost start = cursor.pos as int;
    let ghost step = extent_step(b);
    let mut shape: Vec<u64> = Vec::new();
    assert(shape@ =~= Seq::empty());
    for i in 0..n_dims
        invariant
            cursor.wf(),
            cursor.bytes == old(cursor).bytes,
            b == old(cursor).bytes@,
            step == extent_step(b),
            number_at(b, old(cursor).pos as int, 4) == Ok::<(nat, int), GgufFault>(
                (n_dims as nat, start),
            ),
            many(step, start, i as nat) == Ok::<(Seq<u64>, int), GgufFault>(
                (shape@, cursor.pos as int),
            ),
    {
        let ghost here = cursor.pos as int;
        match cursor.read_u64() {
            Err(error) => {
                proof {
                    assert(step(here) == Err::<(u64, int), GgufFault>(error@));
                    lemma_many_stops(step, start, (i + 1) as nat, n_dims as nat);
                }
                return Err(error);
            },
            Ok(extent) => {
                assert(step(here) == Ok::<(u64, int), GgufFault>((extent, cursor.pos as int)));
                shape.push(extent);
            },
        }
    }
    Ok((n_dims, shape))
}

/// Reads a tensor.
pub fn read_tensor(cursor: &mut Cursor) -> (outcome: Result<TensorInfo, GgufError>)
    requires
        old(cursor).wf(),
    ensures
        final(cursor).wf(),
        final(cursor).bytes == old(cursor).bytes,
        match outcome {
            Ok(tensor) => tensor_at(old(cursor).bytes@, old(cursor).pos as int) == Ok::<
                (TensorModel, int),
                GgufFault,
            >((tensor@, final(cursor).pos as int)),
            Err(error) => tensor_at(old(cursor).bytes@, old(cursor).pos as int) == Err::<
                (TensorModel, int),
                GgufFault,
            >(error@),
        },
{
    let name = match cursor.read_string() {
        Ok(name) => name,
        Err(error) => {
            return Err(error);
        },
    };
    let (n_dims, shape) = match read_shape(cursor) {
        Ok(shape) => shape,
        Err(error) => {
            return Err(error);
        },
    };
    let number: u32 = match cursor.read_u32() {
        Ok(number) => number,
        Err(error) => {
            return Err(error);
        },
    };
    let ggml_type = match GgmlType::from_u32(number) {
        Some(ggml_type) => ggml_type,
        None => {
            return Err(GgufError::UnknownType(number));
        },
    };
    proof {
        assert(type_number(ggml_type) == number as nat);
        let t = choose|t: GgmlType| type_number(t) == number as nat;
        law_type_numbers_differ(t, ggml_type);
    }
    match cursor.read_u64() {
        Ok(offset) => Ok(TensorInfo { name, n_dims, shape, ggml_type, offset }),
        Err(error) => Err(error),
    }
}

/// The tensors are these.
pub open spec fn are_tensors(list: Seq<TensorInfo>, models: Seq<TensorModel>) -> bool {
    &&& list.len() == models.len()
    &&& forall|i: int| 0 <= i < models.len() ==> (#[trigger] list[i])@ == models[i]
}

/// Reads `count` tensors.
pub fn read_tensors(cursor: &mut Cursor, count: u64) -> (outcome: Result<Vec<TensorInfo>, GgufError>)
    requires
        old(cursor).wf(),
    ensures
        final(cursor).wf(),
        final(cursor).bytes == old(cursor).bytes,
        match outcome {
            Ok(list) => many(
                tensor_step(old(cursor).bytes@),
                old(cursor).pos as int,
                count as nat,
            ) matches Ok((models, p)) && p == final(cursor).pos && are_tensors(list@, models),
            Err(error) => many(
                tensor_step(old(cursor).bytes@),
                old(cursor).pos as int,
                count as nat,
            ) == Err::<(Seq<TensorModel>, int), GgufFault>(error@),
        },
{
    let ghost b = cursor.bytes@;
    let ghost start = cursor.pos as int;
    let ghost step = tensor_step(b);
    let mut list: Vec<TensorInfo> = Vec::new();
    for i in 0..count
        invariant
            cursor.wf(),
            cursor.bytes == old(cursor).bytes,
            b == old(cursor).bytes@,
            start == old(cursor).pos,
            step == tensor_step(b),
            many(step, start, i as nat) matches Ok((models, p)) && p == cursor.pos && are_tensors(
                list@,
                models,
            ),
    {
        let ghost here = cursor.pos as int;
        let ghost before = list@;
        match read_tensor(cursor) {
            Err(error) => {
                proof {
                    assert(step(here) == Err::<(TensorModel, int), GgufFault>(error@));
                    lemma_many_stops(step, start, (i + 1) as nat, count as nat);
                }
                return Err(error);
            },
            Ok(tensor) => {
                let ghost model = tensor@;
                list.push(tensor);
                proof {
                    let models = many(step, start, i as nat)->Ok_0.0;
                    assert(step(here) == Ok::<(TensorModel, int), GgufFault>(
                        (model, cursor.pos as int),
                    ));
                    assert forall|j: int| 0 <= j < models.push(model).len() implies (
                    #[trigger] list@[j])@ == models.push(model)[j] by {
                        if j < models.len() {
                            assert(list@[j] == before[j]);
                        }
                    }
                }
            },
        }
    }
    Ok(list)
}

} // verus!
