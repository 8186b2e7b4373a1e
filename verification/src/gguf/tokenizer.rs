//! Tokenizers out of the metadata of a file.
use vstd::prelude::*;
use vstd::string::*;
use vstd::utf8::encode_utf8;
use crate::gguf::file::{GgufHeader, count_under, text_under, value_of};
use crate::gguf::metadata::{signed32, to_signed32};
use crate::gguf::types::MetadataValue;
use crate::json::{
    Fields, Tree, lemma_last_counts, list, member, members, null, number, object_of, text, tree_of, trees_of,
};
use crate::text::{chars_of, same};
use crate::tokenization::{
    admitted, describes, is_admitted, read_tokenizer, readable, text_bytes, write_text, written,
};

verus! {

/// The type of an ordinary token.
pub const TOKEN_TYPE_NORMAL: i32 = 1;

/// The type of the token for unknown text.
pub const TOKEN_TYPE_UNKNOWN: i32 = 2;

/// The type of a control token.
pub const TOKEN_TYPE_CONTROL: i32 = 3;

/// The type of a token that a user defined.
pub const TOKEN_TYPE_USER_DEFINED: i32 = 4;

/// The tokens that play a part of their own.
#[derive(Debug, Clone, Copy, PartialEq, Eq, Structural)]
pub struct SpecialIds {
    pub bos: Option<u32>,
    pub eos: Option<u32>,
    pub unk: Option<u32>,
    pub pad: Option<u32>,
}

/// Texts over plain sequences.
pub open spec fn texts_of(list: Seq<String>) -> Seq<Seq<char>> {
    Seq::new(list.len(), |i: int| list[i]@)
}

/// Every token with its number.
pub open spec fn numbered(tokens: Seq<Seq<char>>) -> Seq<(Seq<char>, Tree)> {
    Seq::new(tokens.len(), |i: int| (tokens[i], Tree::Number(i as u64)))
}

/// Whether a token stands apart from ordinary text: by its type, which is
/// ordinary where none is given, or by the part it plays.
pub open spec fn is_special(types: Seq<i32>, ids: SpecialIds, id: int) -> bool {
    ||| id < types.len() && (types[id] == TOKEN_TYPE_CONTROL || types[id] == TOKEN_TYPE_UNKNOWN
        || types[id] == TOKEN_TYPE_USER_DEFINED)
    ||| ids.bos == Some(id as u32)
    ||| ids.eos == Some(id as u32)
    ||| ids.unk == Some(id as u32)
    ||| ids.pad == Some(id as u32)
}

/// The entry of a token that stands apart.
pub open spec fn added_token(token: Seq<char>, id: int) -> Tree {
    object_of(
        seq![
            ("id"@, Tree::Number(id as u64)),
            ("content"@, Tree::Text(token)),
            ("single_word"@, Tree::Truth(false)),
            ("lstrip"@, Tree::Truth(false)),
            ("rstrip"@, Tree::Truth(false)),
            ("normalized"@, Tree::Truth(false)),
            ("special"@, Tree::Truth(true)),
        ],
    )
}

/// The entries of the tokens that stand apart, among the first `n`.
pub open spec fn added_tokens(tokens: Seq<Seq<char>>, types: Seq<i32>, ids: SpecialIds, n: int) -> Seq<
    Tree,
>
    decreases n,
{
    if n <= 0 {
        Seq::empty()
    } else if is_special(types, ids, n - 1) {
        added_tokens(tokens, types, ids, n - 1).push(added_token(tokens[n - 1], n - 1))
    } else {
        added_tokens(tokens, types, ids, n - 1)
    }
}

/// Texts as a list.
pub open spec fn text_list(texts: Seq<Seq<char>>) -> Seq<Tree> {
    Seq::new(texts.len(), |i: int| Tree::Text(texts[i]))
}

/// The token that stands for unknown text.
pub open spec fn unknown_token(tokens: Seq<Seq<char>>, unk: Option<u32>) -> Seq<char> {
    match unk {
        Some(id) => if id < tokens.len() {
            tokens[id as int]
        } else {
            "<unk>"@
        },
        None => "<unk>"@,
    }
}

/// Whether unknown text falls back on byte tokens.
pub open spec fn byte_fallback(kind: Seq<char>) -> bool {
    kind == "llama"@ || kind == "gemma"@ || kind == "gemma4"@
}

/// Whether neighbouring unknown tokens are fused.
pub open spec fn fuses_unknown(kind: Seq<char>) -> bool {
    kind == "llama"@ || (kind.len() >= 5 && kind.take(5) == "gemma"@)
}

/// The model of the tokenizer.
pub open spec fn model_tree(
    tokens: Seq<Seq<char>>,
    merges: Seq<Seq<char>>,
    kind: Seq<char>,
    unk: Option<u32>,
) -> Tree {
    let plain = seq![
        ("type"@, Tree::Text("BPE"@)),
        ("vocab"@, object_of(numbered(tokens))),
        ("merges"@, Tree::List(text_list(merges))),
        ("unk_token"@, Tree::Text(unknown_token(tokens, unk))),
        ("byte_fallback"@, Tree::Truth(byte_fallback(kind))),
    ];
    object_of(
        if fuses_unknown(kind) {
            plain.push(("fuse_unk"@, Tree::Truth(true)))
        } else {
            plain
        },
    )
}

/// A step that works on bytes.
pub open spec fn byte_level(use_regex: bool) -> Tree {
    object_of(
        seq![
            ("type"@, Tree::Text("ByteLevel"@)),
            ("add_prefix_space"@, Tree::Truth(false)),
            ("trim_offsets"@, Tree::Truth(true)),
            ("use_regex"@, Tree::Truth(use_regex)),
        ],
    )
}

/// A step that writes spaces as a visible mark.
pub open spec fn metaspace() -> Tree {
    object_of(
        seq![
            ("type"@, Tree::Text("Metaspace"@)),
            ("replacement"@, Tree::Text("▁"@)),
            ("prepend_scheme"@, Tree::Text("always"@)),
            ("split"@, Tree::Truth(false)),
        ],
    )
}

/// A step that splits words, numbers, other marks and spaces.
pub open spec fn word_split() -> Tree {
    object_of(
        seq![
            ("type"@, Tree::Text("Split"@)),
            (
                "pattern"@,
                object_of(
                    seq![
                        (
                            "Regex"@,
                            Tree::Text(
                                "'s|'t|'re|'ve|'m|'ll|'d| ?\\p{L}+| ?\\p{N}+| ?[^\\s\\p{L}\\p{N}]+|\\s+(?!\\S)|\\s+"@,
                            ),
                        ),
                    ],
                ),
            ),
            ("behavior"@, Tree::Text("Isolated"@)),
            ("invert"@, Tree::Truth(false)),
        ],
    )
}

/// Steps one after another, under a name of their own.
pub open spec fn sequence_of(name: Seq<char>, steps: Seq<Tree>) -> Tree {
    object_of(seq![("type"@, Tree::Text("Sequence"@)), (name, Tree::List(steps))])
}

/// Whether spaces are written as visible marks.
pub open spec fn marks_spaces(kind: Seq<char>) -> bool {
    kind == "llama"@ || kind == "gemma"@ || kind == "gemma2"@ || kind == "gemma3"@
}

/// How text is cut before the model sees it.
pub open spec fn pre_tokenizer(kind: Seq<char>) -> Tree {
    if kind == "gpt2"@ {
        byte_level(true)
    } else if kind == "gemma4"@ {
        sequence_of("pretokenizers"@, seq![word_split()])
    } else if marks_spaces(kind) {
        sequence_of("pretokenizers"@, seq![metaspace()])
    } else {
        Tree::Null
    }
}

/// How tokens become text again.
pub open spec fn decoder(kind: Seq<char>) -> Tree {
    if kind == "gpt2"@ {
        byte_level(true)
    } else if kind == "gemma4"@ {
        byte_level(false)
    } else if marks_spaces(kind) {
        sequence_of(
            "decoders"@,
            seq![metaspace(), object_of(seq![("type"@, Tree::Text("ByteFallback"@))])],
        )
    } else {
        Tree::Null
    }
}

/// The description of a tokenizer.
pub open spec fn tokenizer_tree(
    tokens: Seq<Seq<char>>,
    merges: Seq<Seq<char>>,
    types: Seq<i32>,
    kind: Seq<char>,
    ids: SpecialIds,
) -> Tree {
    object_of(
        seq![
            ("version"@, Tree::Text("1.0"@)),
            ("model"@, model_tree(tokens, merges, kind, ids.unk)),
            (
                "added_tokens"@,
                Tree::List(added_tokens(tokens, types, ids, tokens.len() as int)),
            ),
            ("normalizer"@, Tree::Null),
            ("pre_tokenizer"@, pre_tokenizer(kind)),
            ("post_processor"@, Tree::Null),
            ("decoder"@, decoder(kind)),
        ],
    )
}

/// Every ordinary token keeps its number, and of a token that occurs twice the
/// last occurrence counts.
pub proof fn law_vocabulary_holds_every_token(tokens: Seq<Seq<char>>, id: int)
    requires
        0 <= id < tokens.len(),
        tokens.len() <= u64::MAX,
        forall|j: int| id < j < tokens.len() ==> #[trigger] tokens[j] != tokens[id],
    ensures
        members(numbered(tokens)).contains_key(tokens[id]),
        members(numbered(tokens))[tokens[id]] == Tree::Number(id as u64),
    decreases tokens.len(),
{
    let fields = numbered(tokens);
    let n = tokens.len() - 1;
    assert(fields.drop_last() =~= numbered(tokens.drop_last()));
    if id < n {
        assert(tokens[n] != tokens[id]);
        assert forall|j: int| id < j < tokens.drop_last().len() implies #[trigger] tokens.drop_last()[j]
            != tokens.drop_last()[id] by {
            assert(tokens[j] != tokens[id]);
        }
        law_vocabulary_holds_every_token(tokens.drop_last(), id);
    }
}

/// A token stands apart in the description exactly when it is special.
pub proof fn law_added_tokens_are_the_special_ones(
    tokens: Seq<Seq<char>>,
    types: Seq<i32>,
    ids: SpecialIds,
    id: int,
)
    requires
        0 <= id < tokens.len() <= u64::MAX,
    ensures
        added_tokens(tokens, types, ids, tokens.len() as int).contains(
            added_token(tokens[id], id),
        ) <==> is_special(types, ids, id),
{
    let n = tokens.len() as int;
    if is_special(types, ids, id) {
        lemma_added(tokens, types, ids, id, n);
    }
    let entry = added_token(tokens[id], id);
    if added_tokens(tokens, types, ids, n).contains(entry) {
        lemma_only_added(tokens, types, ids, entry, n);
        let k = choose|k: int|
            0 <= k < n && is_special(types, ids, k) && #[trigger] added_token(tokens[k], k) == entry;
        lemma_entry_number(tokens[k], k);
        lemma_entry_number(tokens[id], id);
    }
}

/// An entry tells the number of its token.
proof fn lemma_entry_number(token: Seq<char>, id: int)
    ensures
        member(added_token(token, id), "id"@) == Some(Tree::Number(id as u64)),
{
    reveal_strlit("id");
    reveal_strlit("content");
    reveal_strlit("single_word");
    reveal_strlit("lstrip");
    reveal_strlit("rstrip");
    reveal_strlit("normalized");
    reveal_strlit("special");
    let fields = seq![
        ("id"@, Tree::Number(id as u64)),
        ("content"@, Tree::Text(token)),
        ("single_word"@, Tree::Truth(false)),
        ("lstrip"@, Tree::Truth(false)),
        ("rstrip"@, Tree::Truth(false)),
        ("normalized"@, Tree::Truth(false)),
        ("special"@, Tree::Truth(true)),
    ];
    assert forall|j: int| 0 < j < fields.len() implies (#[trigger] fields[j]).0 != fields[0].0 by {
        assert(fields[j].0.len() != 2);
    }
    lemma_last_counts(fields, 0);
}

/// Every entry is that of a special token.
proof fn lemma_only_added(
    tokens: Seq<Seq<char>>,
    types: Seq<i32>,
    ids: SpecialIds,
    entry: Tree,
    n: int,
)
    requires
        0 <= n <= tokens.len(),
        added_tokens(tokens, types, ids, n).contains(entry),
    ensures
        exists|k: int|
            0 <= k < n && is_special(types, ids, k) && #[trigger] added_token(tokens[k], k) == entry,
    decreases n,
{
    if n > 0 {
        let all = added_tokens(tokens, types, ids, n);
        let fewer = added_tokens(tokens, types, ids, n - 1);
        let at = choose|at: int| 0 <= at < all.len() && all[at] == entry;
        if at < fewer.len() {
            assert(fewer[at] == entry);
            lemma_only_added(tokens, types, ids, entry, n - 1);
        } else {
            assert(added_token(tokens[n - 1], n - 1) == entry);
        }
    }
}

proof fn lemma_added(tokens: Seq<Seq<char>>, types: Seq<i32>, ids: SpecialIds, id: int, n: int)
    requires
        0 <= id < n <= tokens.len(),
        is_special(types, ids, id),
    ensures
        added_tokens(tokens, types, ids, n).contains(added_token(tokens[id], id)),
    decreases n,
{
    let all = added_tokens(tokens, types, ids, n);
    if id == n - 1 {
        assert(all[all.len() - 1] == added_token(tokens[id], id));
    } else {
        lemma_added(tokens, types, ids, id, n - 1);
        let fewer = added_tokens(tokens, types, ids, n - 1);
        let k = choose|k: int| 0 <= k < fewer.len() && fewer[k] == added_token(tokens[id], id);
        assert(all[k] == fewer[k]);
    }
}

/// The vocabulary with its numbers.
fn build_vocab(tokens: &[String]) -> (value: serde_json::Value)
    ensures
        tree_of(value) == object_of(numbered(texts_of(tokens@))),
{
    let mut fields = Fields::new();
    for i in 0..tokens.len()
        invariant
            fields@ == numbered(texts_of(tokens@)).take(i as int),
    {
        fields.put(tokens[i].as_str(), number(i as u64));
        assert(fields@ =~= numbered(texts_of(tokens@)).take(i + 1));
    }
    assert(fields@ =~= numbered(texts_of(tokens@)));
    fields.done()
}

/// The entry of a token that stands apart.
fn build_added(token: &str, id: u64) -> (value: serde_json::Value)
    ensures
        tree_of(value) == added_token(token@, id as int),
{
    let mut fields = Fields::new();
    fields.put("id", number(id));
    fields.put_text("content", token);
    fields.put_truth("single_word", false);
    fields.put_truth("lstrip", false);
    fields.put_truth("rstrip", false);
    fields.put_truth("normalized", false);
    fields.put_truth("special", true);
    assert(fields@ =~= seq![
        ("id"@, Tree::Number(id as int as u64)),
        ("content"@, Tree::Text(token@)),
        ("single_word"@, Tree::Truth(false)),
        ("lstrip"@, Tree::Truth(false)),
        ("rstrip"@, Tree::Truth(false)),
        ("normalized"@, Tree::Truth(false)),
        ("special"@, Tree::Truth(true)),
    ]);
    fields.done()
}

/// Whether a token stands apart.
fn stands_apart(types: &[i32], ids: SpecialIds, id: usize) -> (apart: bool)
    ensures
        apart == is_special(types@, ids, id as int),
{
    let mut apart = false;
    if id < types.len() {
        let kind: i32 = types[id];
        if kind == TOKEN_TYPE_CONTROL || kind == TOKEN_TYPE_UNKNOWN || kind
            == TOKEN_TYPE_USER_DEFINED {
            apart = true;
        }
    }
    let number: u32 = #[verifier::truncate] (id as u32);
    apart || ids.bos == Some(number) || ids.eos == Some(number) || ids.unk == Some(number)
        || ids.pad == Some(number)
}

/// The entries of the tokens that stand apart.
fn build_added_tokens(tokens: &[String], types: &[i32], ids: SpecialIds) -> (value: serde_json::Value)
    ensures
        tree_of(value) == Tree::List(
            added_tokens(texts_of(tokens@), types@, ids, tokens@.len() as int),
        ),
{
    let mut entries: Vec<serde_json::Value> = Vec::new();
    assert(trees_of(entries@) =~= Seq::empty());
    for i in 0..tokens.len()
        invariant
            trees_of(entries@) == added_tokens(texts_of(tokens@), types@, ids, i as int),
    {
        if stands_apart(types, ids, i) {
            let ghost before = entries@;
            let entry = build_added(tokens[i].as_str(), i as u64);
            entries.push(entry);
            assert(trees_of(entries@) =~= trees_of(before).push(tree_of(entry)));
        }
    }
    list(entries)
}

/// Texts as a list.
fn build_texts(texts: &[String]) -> (value: serde_json::Value)
    ensures
        tree_of(value) == Tree::List(text_list(texts_of(texts@))),
{
    let mut entries: Vec<serde_json::Value> = Vec::new();
    for i in 0..texts.len()
        invariant
            entries@.len() == i,
            forall|j: int| 0 <= j < i ==> tree_of(#[trigger] entries@[j]) == Tree::Text(texts@[j]@),
    {
        entries.push(text(texts[i].clone()));
    }
    assert(trees_of(entries@) =~= text_list(texts_of(texts@)));
    list(entries)
}

/// Whether neighbouring unknown tokens are fused.
fn needs_fusing(kind: &str) -> (yes: bool)
    ensures
        yes == fuses_unknown(kind@),
{
    if same(kind, "llama") {
        return true;
    }
    let chars = chars_of(kind);
    let gemma = chars_of("gemma");
    proof {
        reveal_strlit("gemma");
        reveal_strlit("llama");
    }
    if chars.len() < 5 {
        return false;
    }
    for i in 0..5usize
        invariant
            chars@ == kind@,
            gemma@ == "gemma"@,
            gemma@.len() == 5,
            chars@.len() >= 5,
            kind@ != "llama"@,
            forall|j: int| 0 <= j < i ==> chars@[j] == gemma@[j],
    {
        if chars[i] != gemma[i] {
            assert(kind@.take(5)[i as int] != "gemma"@[i as int]);
            return false;
        }
    }
    assert(kind@.take(5) =~= "gemma"@);
    true
}

/// The model of the tokenizer.
fn build_model(tokens: &[String], merges: &[String], kind: &str, unk: Option<u32>) -> (value:
    serde_json::Value)
    ensures
        tree_of(value) == model_tree(texts_of(tokens@), texts_of(merges@), kind@, unk),
{
    let mut fields = Fields::new();
    fields.put_text("type", "BPE");
    fields.put("vocab", build_vocab(tokens));
    fields.put("merges", build_texts(merges));
    let known: Option<usize> = match unk {
        Some(id) => if (id as u64) < tokens.len() as u64 {
            Some(id as usize)
        } else {
            None
        },
        None => None,
    };
    match known {
        Some(id) => {
            fields.put_text("unk_token", tokens[id].as_str());
        },
        None => {
            fields.put_text("unk_token", "<unk>");
        },
    }
    let fallback = same(kind, "llama") || same(kind, "gemma") || same(kind, "gemma4");
    fields.put_truth("byte_fallback", fallback);
    let ghost plain = seq![
        ("type"@, Tree::Text("BPE"@)),
        ("vocab"@, object_of(numbered(texts_of(tokens@)))),
        ("merges"@, Tree::List(text_list(texts_of(merges@)))),
        ("unk_token"@, Tree::Text(unknown_token(texts_of(tokens@), unk))),
        ("byte_fallback"@, Tree::Truth(byte_fallback(kind@))),
    ];
    assert(fields@ =~= plain);
    if needs_fusing(kind) {
        fields.put_truth("fuse_unk", true);
    }
    fields.done()
}

/// A step that works on bytes.
fn build_byte_level(use_regex: bool) -> (value: serde_json::Value)
    ensures
        tree_of(value) == byte_level(use_regex),
{
    let mut fields = Fields::new();
    fields.put_text("type", "ByteLevel");
    fields.put_truth("add_prefix_space", false);
    fields.put_truth("trim_offsets", true);
    fields.put_truth("use_regex", use_regex);
    assert(fields@ =~= seq![
        ("type"@, Tree::Text("ByteLevel"@)),
        ("add_prefix_space"@, Tree::Truth(false)),
        ("trim_offsets"@, Tree::Truth(true)),
        ("use_regex"@, Tree::Truth(use_regex)),
    ]);
    fields.done()
}

/// A step that writes spaces as a visible mark.
fn build_metaspace() -> (value: serde_json::Value)
    ensures
        tree_of(value) == metaspace(),
{
    let mut fields = Fields::new();
    fields.put_text("type", "Metaspace");
    fields.put_text("replacement", "▁");
    fields.put_text("prepend_scheme", "always");
    fields.put_truth("split", false);
    assert(fields@ =~= seq![
        ("type"@, Tree::Text("Metaspace"@)),
        ("replacement"@, Tree::Text("▁"@)),
        ("prepend_scheme"@, Tree::Text("always"@)),
        ("split"@, Tree::Truth(false)),
    ]);
    fields.done()
}

/// A step that splits words, numbers, other marks and spaces.
fn build_word_split() -> (value: serde_json::Value)
    ensures
        tree_of(value) == word_split(),
{
    let mut pattern = Fields::new();
    pattern.put_text(
        "Regex",
        "'s|'t|'re|'ve|'m|'ll|'d| ?\\p{L}+| ?\\p{N}+| ?[^\\s\\p{L}\\p{N}]+|\\s+(?!\\S)|\\s+",
    );
    let ghost inner = seq![
        (
            "Regex"@,
            Tree::Text(
                "'s|'t|'re|'ve|'m|'ll|'d| ?\\p{L}+| ?\\p{N}+| ?[^\\s\\p{L}\\p{N}]+|\\s+(?!\\S)|\\s+"@,
            ),
        ),
    ];
    assert(pattern@ =~= inner);
    let mut fields = Fields::new();
    fields.put_text("type", "Split");
    fields.put("pattern", pattern.done());
    fields.put_text("behavior", "Isolated");
    fields.put_truth("invert", false);
    assert(fields@ =~= seq![
        ("type"@, Tree::Text("Split"@)),
        ("pattern"@, object_of(inner)),
        ("behavior"@, Tree::Text("Isolated"@)),
        ("invert"@, Tree::Truth(false)),
    ]);
    fields.done()
}

/// Steps one after another, under a name of their own.
fn build_sequence(name: &str, steps: Vec<serde_json::Value>) -> (value: serde_json::Value)
    ensures
        tree_of(value) == sequence_of(name@, trees_of(steps@)),
{
    let ghost trees = trees_of(steps@);
    let mut fields = Fields::new();
    fields.put_text("type", "Sequence");
    fields.put(name, list(steps));
    assert(fields@ =~= seq![("type"@, Tree::Text("Sequence"@)), (name@, Tree::List(trees))]);
    fields.done()
}

/// Whether spaces are written as visible marks.
fn has_marked_spaces(kind: &str) -> (yes: bool)
    ensures
        yes == marks_spaces(kind@),
{
    same(kind, "llama") || same(kind, "gemma") || same(kind, "gemma2") || same(kind, "gemma3")
}

/// How text is cut before the model sees it.
fn build_pre_tokenizer(kind: &str) -> (value: serde_json::Value)
    ensures
        tree_of(value) == pre_tokenizer(kind@),
{
    if same(kind, "gpt2") {
        return build_byte_level(true);
    }
    if same(kind, "gemma4") {
        let mut steps: Vec<serde_json::Value> = Vec::new();
        steps.push(build_word_split());
        assert(trees_of(steps@) =~= seq![word_split()]);
        return build_sequence("pretokenizers", steps);
    }
    if has_marked_spaces(kind) {
        let mut steps: Vec<serde_json::Value> = Vec::new();
        steps.push(build_metaspace());
        assert(trees_of(steps@) =~= seq![metaspace()]);
        return build_sequence("pretokenizers", steps);
    }
    null()
}

/// How tokens become text again.
fn build_decoder(kind: &str) -> (value: serde_json::Value)
    ensures
        tree_of(value) == decoder(kind@),
{
    if same(kind, "gpt2") {
        return build_byte_level(true);
    }
    if same(kind, "gemma4") {
        return build_byte_level(false);
    }
    if has_marked_spaces(kind) {
        let mut fallback = Fields::new();
        fallback.put_text("type", "ByteFallback");
        let ghost inner = seq![("type"@, Tree::Text("ByteFallback"@))];
        assert(fallback@ =~= inner);
        let mut steps: Vec<serde_json::Value> = Vec::new();
        steps.push(build_metaspace());
        steps.push(fallback.done());
        assert(trees_of(steps@) =~= seq![metaspace(), object_of(inner)]);
        return build_sequence("decoders", steps);
    }
    null()
}

/// The elements of a list, or none.
pub open spec fn or_none<T>(list: Option<Seq<T>>) -> Seq<T> {
    match list {
        Some(s) => s,
        None => Seq::empty(),
    }
}

/// The view of an optional slice.
pub open spec fn listed<T>(list: Option<&[T]>) -> Option<Seq<T>> {
    match list {
        Some(s) => Some(s@),
        None => None,
    }
}

/// Describes the tokenizer of a file.
pub fn build_tokenizer_json(
    tokens: &[String],
    merges: Option<&[String]>,
    token_types: Option<&[i32]>,
    model_type: &str,
    bos_id: Option<u32>,
    eos_id: Option<u32>,
    unk_id: Option<u32>,
    pad_id: Option<u32>,
) -> (value: serde_json::Value)
    ensures
        tree_of(value) == tokenizer_tree(
            texts_of(tokens@),
            texts_of(or_none(listed(merges))),
            or_none(listed(token_types)),
            model_type@,
            (SpecialIds { bos: bos_id, eos: eos_id, unk: unk_id, pad: pad_id }),
        ),
{
    let no_merges: Vec<String> = Vec::new();
    let no_types: Vec<i32> = Vec::new();
    assert(no_merges@ =~= Seq::empty());
    assert(no_types@ =~= Seq::empty());
    let merges: &[String] = match merges {
        Some(list) => list,
        None => no_merges.as_slice(),
    };
    let types: &[i32] = match token_types {
        Some(list) => list,
        None => no_types.as_slice(),
    };
    let ids = SpecialIds { bos: bos_id, eos: eos_id, unk: unk_id, pad: pad_id };
    let mut fields = Fields::new();
    fields.put_text("version", "1.0");
    fields.put("model", build_model(tokens, merges, model_type, unk_id));
    fields.put("added_tokens", build_added_tokens(tokens, types, ids));
    fields.put("normalizer", null());
    fields.put("pre_tokenizer", build_pre_tokenizer(model_type));
    fields.put("post_processor", null());
    fields.put("decoder", build_decoder(model_type));
    let ghost t = texts_of(tokens@);
    assert(fields@ =~= seq![
        ("version"@, Tree::Text("1.0"@)),
        ("model"@, model_tree(t, texts_of(merges@), model_type@, unk_id)),
        ("added_tokens"@, Tree::List(added_tokens(t, types@, ids, t.len() as int))),
        ("normalizer"@, Tree::Null),
        ("pre_tokenizer"@, pre_tokenizer(model_type@)),
        ("post_processor"@, Tree::Null),
        ("decoder"@, decoder(model_type@)),
    ]);
    fields.done()
}

/// The texts among values, in order.
pub open spec fn texts_in(values: Seq<MetadataValue>) -> Seq<Seq<char>>
    decreases values.len(),
{
    if values.len() == 0 {
        Seq::empty()
    } else {
        match values.last() {
            MetadataValue::String(s) => texts_in(values.drop_last()).push(s@),
            _ => texts_in(values.drop_last()),
        }
    }
}

/// The small integer that a value stands for; wide unsigned ones count by
/// their bits.
pub open spec fn small_integer(value: MetadataValue) -> Option<i32> {
    match value {
        MetadataValue::Int32(n) => Some(n),
        MetadataValue::Uint32(n) => Some(signed32(n as int)),
        MetadataValue::Int8(n) => Some(n as i32),
        MetadataValue::Uint8(n) => Some(n as i32),
        MetadataValue::Int16(n) => Some(n as i32),
        MetadataValue::Uint16(n) => Some(n as i32),
        _ => None,
    }
}

/// The small integers among values, in order.
pub open spec fn integers_in(values: Seq<MetadataValue>) -> Seq<i32>
    decreases values.len(),
{
    if values.len() == 0 {
        Seq::empty()
    } else {
        match small_integer(values.last()) {
            Some(n) => integers_in(values.drop_last()).push(n),
            None => integers_in(values.drop_last()),
        }
    }
}

/// The texts under a name, if there are any.
pub open spec fn texts_under(header: GgufHeader, key: Seq<char>) -> Option<Seq<Seq<char>>> {
    match value_of(header.metadata@, key) {
        Some(MetadataValue::Array(values)) => if texts_in(values@).len() == 0 {
            None
        } else {
            Some(texts_in(values@))
        },
        _ => None,
    }
}

/// The small integers under a name, if there are any.
pub open spec fn integers_under(header: GgufHeader, key: Seq<char>) -> Option<Seq<i32>> {
    match value_of(header.metadata@, key) {
        Some(MetadataValue::Array(values)) => if integers_in(values@).len() == 0 {
            None
        } else {
            Some(integers_in(values@))
        },
        _ => None,
    }
}

/// The texts under a name, if there are any.
pub fn get_string_array(header: &GgufHeader, key: &str) -> (found: Option<Vec<String>>)
    ensures
        match found {
            Some(texts) => texts_under(*header, key@) == Some(texts_of(texts@)),
            None => texts_under(*header, key@) is None,
        },
{
    match header.value(key) {
        Some(MetadataValue::Array(values)) => {
            let mut texts: Vec<String> = Vec::new();
            assert(texts_of(texts@) =~= Seq::empty());
            for i in 0..values.len()
                invariant
                    texts_of(texts@) == texts_in(values@.take(i as int)),
            {
                proof {
                    assert(values@.take(i + 1).drop_last() =~= values@.take(i as int));
                }
                match &values[i] {
                    MetadataValue::String(s) => {
                        let ghost before = texts@;
                        let copied = s.clone();
                        texts.push(copied);
                        assert(texts_of(texts@) =~= texts_of(before).push(s@));
                    },
                    _ => {},
                }
            }
            assert(values@.take(values@.len() as int) =~= values@);
            assert(texts_of(texts@).len() == texts@.len());
            if texts.len() == 0 {
                None
            } else {
                Some(texts)
            }
        },
        _ => None,
    }
}

/// The small integers under a name, if there are any.
pub fn get_i32_array(header: &GgufHeader, key: &str) -> (found: Option<Vec<i32>>)
    ensures
        match found {
            Some(list) => integers_under(*header, key@) == Some(list@),
            None => integers_under(*header, key@) is None,
        },
{
    match header.value(key) {
        Some(MetadataValue::Array(values)) => {
            let mut list: Vec<i32> = Vec::new();
            for i in 0..values.len()
                invariant
                    list@ == integers_in(values@.take(i as int)),
            {
                proof {
                    assert(values@.take(i + 1).drop_last() =~= values@.take(i as int));
                }
                match &values[i] {
                    MetadataValue::Int32(n) => {
                        list.push(*n);
                    },
                    MetadataValue::Uint32(n) => {
                        list.push(to_signed32(*n));
                    },
                    MetadataValue::Int8(n) => {
                        list.push(*n as i32);
                    },
                    MetadataValue::Uint8(n) => {
                        list.push(*n as i32);
                    },
                    MetadataValue::Int16(n) => {
                        list.push(*n as i32);
                    },
                    MetadataValue::Uint16(n) => {
                        list.push(*n as i32);
                    },
                    _ => {},
                }
            }
            assert(values@.take(values@.len() as int) =~= values@);
            if list.len() == 0 {
                None
            } else {
                Some(list)
            }
        },
        _ => None,
    }
}

/// The kind of tokenizer that a file names.
pub open spec fn tokenizer_kind(header: GgufHeader) -> Seq<char> {
    match text_under(header, "tokenizer.ggml.model"@) {
        Some(kind) => kind,
        None => "bpe"@,
    }
}

/// The tokens of a file that play a part of their own.
pub open spec fn special_ids(header: GgufHeader) -> SpecialIds {
    SpecialIds {
        bos: count_under(header, "tokenizer.ggml.bos_token_id"@),
        eos: count_under(header, "tokenizer.ggml.eos_token_id"@),
        unk: count_under(header, "tokenizer.ggml.unknown_token_id"@),
        pad: count_under(header, "tokenizer.ggml.padding_token_id"@),
    }
}

/// The description of the tokenizer of a file with these tokens.
pub open spec fn header_tree(header: GgufHeader, tokens: Seq<Seq<char>>) -> Tree {
    tokenizer_tree(
        tokens,
        or_none(texts_under(header, "tokenizer.ggml.merges"@)),
        or_none(integers_under(header, "tokenizer.ggml.token_type"@)),
        tokenizer_kind(header),
        special_ids(header),
    )
}

/// Describes the tokenizer of a file, if the file holds tokens.
pub fn describe_tokenizer(header: &GgufHeader) -> (found: Option<serde_json::Value>)
    ensures
        match found {
            Some(value) => texts_under(*header, "tokenizer.ggml.tokens"@) matches Some(tokens)
                && tree_of(value) == header_tree(*header, tokens),
            None => texts_under(*header, "tokenizer.ggml.tokens"@) is None,
        },
{
    let tokens = match get_string_array(header, "tokenizer.ggml.tokens") {
        Some(tokens) => tokens,
        None => {
            return None;
        },
    };
    let merges = get_string_array(header, "tokenizer.ggml.merges");
    let types = get_i32_array(header, "tokenizer.ggml.token_type");
    let kind: &str = match header.value("tokenizer.ggml.model") {
        Some(value) => match value.as_str() {
            Some(kind) => kind,
            None => "bpe",
        },
        None => "bpe",
    };
    let merges: Option<&[String]> = match &merges {
        Some(list) => Some(list.as_slice()),
        None => None,
    };
    let types: Option<&[i32]> = match &types {
        Some(list) => Some(list.as_slice()),
        None => None,
    };
    assert(texts_of(or_none(listed(merges))) =~= or_none(
        texts_under(*header, "tokenizer.ggml.merges"@),
    ));
    assert(or_none(listed(types)) =~= or_none(
        integers_under(*header, "tokenizer.ggml.token_type"@),
    ));
    Some(
        build_tokenizer_json(
            tokens.as_slice(),
            merges,
            types,
            kind,
            header.token_id("tokenizer.ggml.bos_token_id"),
            header.token_id("tokenizer.ggml.eos_token_id"),
            header.token_id("tokenizer.ggml.unknown_token_id"),
            header.token_id("tokenizer.ggml.padding_token_id"),
        ),
    )
}

/// The tokenizer file that a header describes, if it holds tokens.
pub open spec fn tokenizer_file(header: GgufHeader) -> Option<Seq<u8>> {
    match texts_under(header, "tokenizer.ggml.tokens"@) {
        Some(tokens) => text_bytes(header_tree(header, tokens)),
        None => None,
    }
}

/// Writes the tokenizer file that a header describes.
fn write_tokenizer(header: &GgufHeader) -> (text: Option<String>)
    ensures
        match text {
            Some(text) => tokenizer_file(*header) == Some(encode_utf8(text@)) && written(
                encode_utf8(text@),
            ),
            None => tokenizer_file(*header) is None,
        },
{
    match describe_tokenizer(header) {
        None => None,
        Some(value) => write_text(&value),
    }
}

/// Builds the tokenizer of a file: there is one exactly if the file holds
/// tokens and the tokenizer file that they describe can be read.
pub fn extract_tokenizer(header: &GgufHeader) -> (found: Option<tokenizers::Tokenizer>)
    requires
        tokenizer_file(*header) matches Some(file) ==> admitted(file),
    ensures
        found is Some <==> (tokenizer_file(*header) matches Some(file) && readable(file)),
        found matches Some(tokenizer) ==> (tokenizer_file(*header) matches Some(file) && describes(
            file,
            tokenizer,
        )),
{
    match write_tokenizer(header) {
        None => None,
        Some(text) => match read_tokenizer(text.as_str().as_bytes()) {
            Ok(tokenizer) => Some(tokenizer),
            Err(_) => None,
        },
    }
}

/// Builds the tokenizer of a file where what the file describes can be handed
/// to the reader of tokenizers; `None` where it cannot.
pub fn try_extract_tokenizer(header: &GgufHeader) -> (outcome: Option<Option<tokenizers::Tokenizer>>)
    ensures
        outcome is None <==> (tokenizer_file(*header) matches Some(file) && !admitted(file)),
        outcome matches Some(found) ==> {
            &&& found is Some <==> (tokenizer_file(*header) matches Some(file) && readable(file))
            &&& found matches Some(tokenizer) ==> (tokenizer_file(*header) matches Some(file)
                && describes(file, tokenizer))
        },
{
    match write_tokenizer(header) {
        None => {},
        Some(text) => {
            if !is_admitted(text.as_str().as_bytes()) {
                return None;
            }
        },
    }
    Some(extract_tokenizer(header))
}

} // verus!
