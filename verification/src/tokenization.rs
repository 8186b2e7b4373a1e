//! Calls into the tokenizer of the `tokenizers` crate, and the files that it
//! can be trusted with.
use vstd::prelude::*;
use vstd::string::*;
use vstd::utf8::encode_utf8;
use crate::json::{
    Node, Tree, fields_of, find_member, json_text, lemma_members, member, members,
    object_of, open_value, parse, parsed, to_text, tree_of, trees_of,
};
use crate::text::{chars_of, code_point, same, string_of};

verus! {

/// The tokenizer of the `tokenizers` crate.
#[verifier::external_type_specification]
#[verifier::external_body]
pub struct ExTokenizer(tokenizers::Tokenizer);

/// Whether an object names this type.
pub open spec fn type_is(tree: Tree, name: Seq<char>) -> bool {
    member(tree, "type"@) == Some(Tree::Text(name))
}

/// Whether a part of a description is left out.
pub open spec fn absent(part: Option<Tree>) -> bool {
    part is None || part == Some(Tree::Null)
}

/// Whether a normaliser is one that maps characters one after another.
pub open spec fn normalizer_known(tree: Tree) -> bool {
    ||| type_is(tree, "NFC"@)
    ||| type_is(tree, "NFD"@)
    ||| type_is(tree, "NFKC"@)
    ||| type_is(tree, "NFKD"@)
    ||| type_is(tree, "Lowercase"@)
}

/// Whether a splitter is one without a pattern or a length of its own.
pub open spec fn splitter_known(tree: Tree) -> bool {
    ||| type_is(tree, "Whitespace"@)
    ||| type_is(tree, "WhitespaceSplit"@)
    ||| type_is(tree, "BertPreTokenizer"@)
    ||| type_is(tree, "Punctuation"@)
    ||| type_is(tree, "Digits"@)
    ||| type_is(tree, "Metaspace"@)
}

/// Whether an entry of a list of merges joins `a` and `b`: a pair of texts, or
/// one text with a single space between them.
pub open spec fn joins(entry: Tree, a: Seq<char>, b: Seq<char>) -> bool {
    ||| entry == Tree::List(seq![Tree::Text(a), Tree::Text(b)])
    ||| entry == Tree::Text(a.push(' ') + b) && !a.contains(' ') && !b.contains(' ')
}

/// Whether some token is at least `n` bytes long.
pub open spec fn reaches(vocab: Map<Seq<char>, Tree>, n: int) -> bool {
    exists|token: Seq<char>| #[trigger] vocab.contains_key(token) && n <= encode_utf8(token).len()
}

/// Where two tokens are joined, the result is no longer than the longest
/// token.
pub open spec fn merges_fit(vocab: Map<Seq<char>, Tree>, merges: Seq<Tree>) -> bool {
    forall|i: int, a: Seq<char>, b: Seq<char>|
        0 <= i < merges.len() && #[trigger] joins(merges[i], a, b) && vocab.contains_key(a)
            && vocab.contains_key(b) ==> reaches(
            vocab,
            (encode_utf8(a).len() + encode_utf8(b).len()) as int,
        )
}

/// Whether a model is a word table, or a merging model without a prefix for
/// the later parts of a word whose merges fit.
pub open spec fn model_known(tree: Tree) -> bool {
    ||| type_is(tree, "WordLevel"@)
    ||| type_is(tree, "WordPiece"@)
    ||| {
        let prefix = member(tree, "continuing_subword_prefix"@);
        &&& type_is(tree, "BPE"@)
        &&& absent(prefix) || prefix == Some(Tree::Text(Seq::empty()))
        &&& match (member(tree, "vocab"@), member(tree, "merges"@)) {
            (Some(Tree::Object(vocab)), Some(Tree::List(merges))) => merges_fit(vocab, merges),
            _ => true,
        }
    }
}

/// Whether a description can be handed to the reader, which fails on the
/// others in ways of its own: its model and its normaliser are known ones, and
/// it has no step behind the model.
pub open spec fn read_known(tree: Tree) -> bool {
    &&& member(tree, "model"@) matches Some(model) ==> model_known(model)
    &&& absent(member(tree, "normalizer"@)) || (member(tree, "normalizer"@) matches Some(part)
        && normalizer_known(part))
    &&& absent(member(tree, "post_processor"@))
}

/// Whether truncation is left out or moves on: each piece overlaps the one
/// before by less than its length.
pub open spec fn truncation_fits(tree: Tree) -> bool {
    tree is Null || tree is Object && match (member(tree, "max_length"@), member(tree, "stride"@)) {
        (Some(Tree::Number(length)), Some(Tree::Number(stride))) => length == 0 || stride < length,
        _ => true,
    }
}

/// Whether no added token takes the blanks behind it away.
pub open spec fn added_tokens_fit(tree: Tree) -> bool {
    tree matches Tree::List(tokens) ==> forall|i: int|
        0 <= i < tokens.len() ==> member(#[trigger] tokens[i], "rstrip"@) != Some(
            Tree::Truth(true),
        )
}

/// Whether the tokenizer of a description can be handed any text: its splitter
/// is a known one, its added tokens leave the blanks behind them, it adds no
/// padding, and what it cuts off moves on.
pub open spec fn encode_known(tree: Tree) -> bool {
    &&& read_known(tree)
    &&& absent(member(tree, "pre_tokenizer"@)) || (member(tree, "pre_tokenizer"@) matches Some(part)
        && splitter_known(part))
    &&& member(tree, "added_tokens"@) matches Some(part) ==> added_tokens_fit(part)
    &&& absent(member(tree, "padding"@))
    &&& member(tree, "truncation"@) matches Some(part) ==> truncation_fits(part)
}

/// Whether the model of a description drops no merges at random.
pub open spec fn keeps_merges(tree: Tree) -> bool {
    member(tree, "model"@) matches Some(model) ==> absent(member(model, "dropout"@))
}

/// Whether bytes are a JSON text as `serde_json` writes it.
pub open spec fn written(bytes: Seq<u8>) -> bool {
    exists|tree: Tree| #[trigger] json_text(tree) matches Some(text) && bytes == encode_utf8(text)
}

/// Whether bytes can be handed to the reader of tokenizers.
pub open spec fn admitted(bytes: Seq<u8>) -> bool {
    written(bytes) && (parsed(bytes) matches Some(tree) && read_known(tree))
}

/// Whether bytes can be handed to the reader of tokenizers, and any text to
/// what is read.
pub open spec fn usable(bytes: Seq<u8>) -> bool {
    written(bytes) && (parsed(bytes) matches Some(tree) && encode_known(tree))
}

/// Whether a tokenizer file describes a tokenizer.
pub uninterp spec fn describes(bytes: Seq<u8>, tokenizer: tokenizers::Tokenizer) -> bool;

/// Whether a tokenizer file can be read.
pub uninterp spec fn readable(bytes: Seq<u8>) -> bool;

/// Whether encoding a text can give these token numbers. A model with merge
/// dropout draws at random, so there may be more than one answer.
pub uninterp spec fn may_encode(
    tokenizer: tokenizers::Tokenizer,
    input: Seq<char>,
    ids: Seq<u32>,
) -> bool;

/// The token numbers that a tokenizer without merge dropout gives a text, where
/// it can encode it.
pub uninterp spec fn encoding_of(
    tokenizer: tokenizers::Tokenizer,
    input: Seq<char>,
) -> Option<Seq<u32>>;

/// The number of a token, where it has one.
pub uninterp spec fn number_of(tokenizer: tokenizers::Tokenizer, token: Seq<char>) -> Option<u32>;

/// Calls `tokenizers::Tokenizer::from_bytes`. Whether it succeeds depends on
/// the bytes alone; on success the tokenizer is the one that they describe. It
/// does not return on all bytes. A merge that is longer than every token and
/// some normalisers stop it, so only descriptions without them are handed to
/// it. So does a decoder that is no JSON value, so the bytes are a text that
/// `serde_json` wrote and reads back.
#[verifier::external_body]
pub(crate) fn read_tokenizer(bytes: &[u8]) -> (r: Result<tokenizers::Tokenizer, String>)
    requires
        admitted(bytes@),
    ensures
        r is Ok <==> readable(bytes@),
        r matches Ok(tokenizer) ==> describes(bytes@, tokenizer),
{
    tokenizers::Tokenizer::from_bytes(bytes).map_err(|error| error.to_string())
}

/// Calls `tokenizers::Tokenizer::token_to_id`, a lookup in the vocabulary.
#[verifier::external_body]
pub(crate) fn look_up(tokenizer: &tokenizers::Tokenizer, token: &str) -> (r: Option<u32>)
    ensures
        r == number_of(*tokenizer, token@),
{
    tokenizer.token_to_id(token)
}

/// Whether a tokenizer was read from a description that lets it be handed any
/// text.
pub open spec fn safe(tokenizer: tokenizers::Tokenizer) -> bool {
    exists|bytes: Seq<u8>| usable(bytes) && #[trigger] describes(bytes, tokenizer)
}

/// Whether a tokenizer was read from such a description, and its model drops no
/// merges at random.
pub open spec fn steady(tokenizer: tokenizers::Tokenizer) -> bool {
    exists|bytes: Seq<u8>|
        usable(bytes) && #[trigger] describes(bytes, tokenizer) && (parsed(bytes) matches Some(tree)
            && keeps_merges(tree))
}

/// Calls `tokenizers::Tokenizer::encode` without special tokens and takes the
/// token numbers. On success they are one of the possible encodings of the
/// text. Where nothing is drawn at random, success and the numbers depend on
/// the tokenizer and the text alone; where merges are dropped at random, when it
/// succeeds is left open. It does not return for every tokenizer:
/// a splitter with a pattern or a length of its own, an added token that takes
/// the blanks behind it, padding to a length, and truncation that does not move
/// on can stop it, so only tokenizers without them are used.
#[verifier::external_body]
pub(crate) fn encode_text(tokenizer: &tokenizers::Tokenizer, input: &str) -> (r: Result<Vec<u32>, String>)
    requires
        safe(*tokenizer),
    ensures
        r matches Ok(ids) ==> may_encode(*tokenizer, input@, ids@),
        steady(*tokenizer) ==> match r {
            Ok(ids) => encoding_of(*tokenizer, input@) == Some(ids@),
            Err(_) => encoding_of(*tokenizer, input@) is None,
        },
{
    match tokenizer.encode(input, false) {
        Ok(encoding) => Ok(encoding.get_ids().to_vec()),
        Err(error) => Err(error.to_string()),
    }
}

/// The type that a value names.
fn type_of(value: &serde_json::Value) -> (name: Option<String>)
    ensures
        match name {
            Some(name) => type_is(tree_of(*value), name@),
            None => forall|name: Seq<char>| !#[trigger] type_is(tree_of(*value), name),
        },
{
    match open_value(value) {
        Node::Object(fields) => match find_member(&fields, "type") {
            Some(inner) => match open_value(inner) {
                Node::Text(name) => Some(name),
                _ => None,
            },
            None => None,
        },
        _ => None,
    }
}

/// Whether a normaliser is a known one.
fn is_normalizer_known(value: &serde_json::Value) -> (yes: bool)
    ensures
        yes == normalizer_known(tree_of(*value)),
{
    match type_of(value) {
        Some(name) => {
            let name = name.as_str();
            same(name, "NFC") || same(name, "NFD") || same(name, "NFKC") || same(name, "NFKD")
                || same(name, "Lowercase")
        },
        None => false,
    }
}

/// Whether a splitter is a known one.
fn is_splitter_known(value: &serde_json::Value) -> (yes: bool)
    ensures
        yes == splitter_known(tree_of(*value)),
{
    match type_of(value) {
        Some(name) => {
            let name = name.as_str();
            same(name, "Whitespace") || same(name, "WhitespaceSplit") || same(
                name,
                "BertPreTokenizer",
            ) || same(name, "Punctuation") || same(name, "Digits") || same(
                name,
                "Metaspace",
            )
        },
        None => false,
    }
}

/// Whether a part of a description is left out.
fn is_absent(part: Option<&serde_json::Value>) -> (yes: bool)
    ensures
        yes == absent(
            match part {
                Some(value) => Some(tree_of(*value)),
                None => None,
            },
        ),
{
    match part {
        None => true,
        Some(value) => match open_value(value) {
            Node::Null => true,
            _ => false,
        },
    }
}

/// How many bytes a text takes.
fn byte_len(text: &str) -> (n: usize)
    ensures
        n == encode_utf8(text@).len(),
{
    text.as_bytes().len()
}

/// Only one split of a text has a single space.
proof fn lemma_one_split(a: Seq<char>, b: Seq<char>, c: Seq<char>, d: Seq<char>)
    requires
        a.push(' ') + b == c.push(' ') + d,
        !a.contains(' '),
        !c.contains(' '),
    ensures
        a == c,
        b == d,
{
    let whole = a.push(' ') + b;
    assert(whole[a.len() as int] == ' ');
    assert((c.push(' ') + d)[c.len() as int] == ' ');
    if a.len() < c.len() {
        assert(c[a.len() as int] == whole[a.len() as int]);
        assert(c.contains(' '));
    }
    if c.len() < a.len() {
        assert(a[c.len() as int] == whole[c.len() as int]);
        assert(a.contains(' '));
    }
    assert(a =~= c) by {
        assert forall|i: int| 0 <= i < a.len() implies a[i] == c[i] by {
            assert(whole[i] == a[i]);
            assert((c.push(' ') + d)[i] == c[i]);
        }
    }
    assert(b =~= whole.skip(a.len() as int + 1));
    assert(d =~= (c.push(' ') + d).skip(c.len() as int + 1));
}

/// The two parts of a text with a single space.
fn split_text(text: &str) -> (parts: Option<(String, String)>)
    ensures
        match parts {
            Some((a, b)) => text@ == a@.push(' ') + b@ && !a@.contains(' ') && !b@.contains(' '),
            None => forall|a: Seq<char>, b: Seq<char>|
                text@ == #[trigger] (a.push(' ') + b) ==> a.contains(' ') || b.contains(' '),
        },
{
    let chars = chars_of(text);
    let mut first: Vec<char> = Vec::new();
    let mut second: Vec<char> = Vec::new();
    let mut found: bool = false;
    for i in 0..chars.len()
        invariant
            chars@ == text@,
            !first@.contains(' '),
            !second@.contains(' '),
            !found ==> first@ == chars@.take(i as int) && second@.len() == 0,
            found ==> chars@.take(i as int) == first@.push(' ') + second@,
    {
        let c: char = chars[i];
        let ghost before = chars@.take(i as int);
        assert(chars@.take(i + 1) =~= before.push(c));
        if code_point(c) == 32 {
            if found {
                proof {
                    assert((first@.push(' ') + second@)[first@.len() as int] == ' ');
                    assert(before[first@.len() as int] == text@[first@.len() as int]);
                    assert forall|a: Seq<char>, b: Seq<char>| text@ == #[trigger] (a.push(' ') + b) implies
                        a.contains(' ') || b.contains(' ') by {
                        lemma_two_spaces(text@, first@.len() as int, i as int, a, b);
                    }
                }
                return None;
            }
            found = true;
            assert(chars@.take(i + 1) =~= first@.push(' ') + second@);
        } else if found {
            let ghost was = second@;
            second.push(c);
            proof {
                assert(!second@.contains(' ')) by {
                    assert forall|j: int| 0 <= j < second@.len() implies second@[j] != ' ' by {
                        if j < was.len() {
                            assert(was[j] != ' ') by {
                                if was[j] == ' ' {
                                    assert(was.contains(' '));
                                }
                            }
                        }
                    }
                }
                assert(chars@.take(i + 1) =~= first@.push(' ') + second@);
            }
        } else {
            let ghost was = first@;
            first.push(c);
            proof {
                assert(!first@.contains(' ')) by {
                    assert forall|j: int| 0 <= j < first@.len() implies first@[j] != ' ' by {
                        if j < was.len() {
                            assert(was[j] != ' ') by {
                                if was[j] == ' ' {
                                    assert(was.contains(' '));
                                }
                            }
                        }
                    }
                }
                assert(first@ =~= chars@.take(i + 1));
            }
        }
    }
    assert(chars@.take(chars@.len() as int) =~= chars@);
    if found {
        Some((string_of(first.as_slice()), string_of(second.as_slice())))
    } else {
        proof {
            assert forall|a: Seq<char>, b: Seq<char>| text@ == #[trigger] (a.push(' ') + b) implies
                a.contains(' ') || b.contains(' ') by {
                assert((a.push(' ') + b)[a.len() as int] == ' ');
                assert(first@[a.len() as int] == ' ');
                assert(first@.contains(' '));
            }
        }
        None
    }
}

proof fn lemma_two_spaces(text: Seq<char>, p: int, q: int, a: Seq<char>, b: Seq<char>)
    requires
        0 <= p < q < text.len(),
        text[p] == ' ',
        text[q] == ' ',
        text == a.push(' ') + b,
    ensures
        a.contains(' ') || b.contains(' '),
{
    let n = a.len() as int;
    if p < n {
        assert(a[p] == ' ');
    } else if p > n {
        assert(b[p - n - 1] == ' ');
    } else {
        assert(b[q - n - 1] == ' ');
    }
}

/// The two texts that an entry of a list of merges joins.
fn parts_of(entry: &serde_json::Value) -> (parts: Option<(String, String)>)
    ensures
        match parts {
            Some((a, b)) => forall|x: Seq<char>, y: Seq<char>|
                #[trigger] joins(tree_of(*entry), x, y) <==> x == a@ && y == b@,
            None => forall|x: Seq<char>, y: Seq<char>| !#[trigger] joins(tree_of(*entry), x, y),
        },
{
    match open_value(entry) {
        Node::Text(text) => match split_text(text.as_str()) {
            Some((a, b)) => {
                proof {
                    assert forall|x: Seq<char>, y: Seq<char>| #[trigger]
                        joins(tree_of(*entry), x, y) implies x == a@ && y == b@ by {
                        lemma_one_split(x, y, a@, b@);
                    }
                }
                Some((a, b))
            },
            None => {
                proof {
                    assert forall|x: Seq<char>, y: Seq<char>| !#[trigger]
                        joins(tree_of(*entry), x, y) by {
                        assert(text@ == x.push(' ') + y ==> x.contains(' ') || y.contains(' '));
                    }
                }
                None
            },
        },
        Node::List(items) => {
            proof {
                assert(trees_of(items@).len() == items@.len());
            }
            if items.len() != 2 {
                proof {
                    assert forall|x: Seq<char>, y: Seq<char>| !#[trigger]
                        joins(tree_of(*entry), x, y) by {
                        assert(seq![Tree::Text(x), Tree::Text(y)].len() == 2);
                    }
                }
                return None;
            }
            let ghost trees = trees_of(items@);
            match (open_value(&items[0]), open_value(&items[1])) {
                (Node::Text(a), Node::Text(b)) => {
                    proof {
                        assert(trees =~= seq![Tree::Text(a@), Tree::Text(b@)]);
                        assert forall|x: Seq<char>, y: Seq<char>| #[trigger]
                            joins(tree_of(*entry), x, y) implies x == a@ && y == b@ by {
                            let pair = seq![Tree::Text(x), Tree::Text(y)];
                            assert(trees == pair);
                            assert(pair[0] == Tree::Text(x) && pair[1] == Tree::Text(y));
                        }
                    }
                    Some((a, b))
                },
                _ => {
                    proof {
                        assert forall|x: Seq<char>, y: Seq<char>| !#[trigger]
                            joins(tree_of(*entry), x, y) by {
                            let pair = seq![Tree::Text(x), Tree::Text(y)];
                            assert(pair[0] == Tree::Text(x) && pair[1] == Tree::Text(y));
                            assert(trees[0] == tree_of(items@[0]) && trees[1] == tree_of(items@[1]));
                        }
                    }
                    None
                },
            }
        },
        _ => None,
    }
}

/// The length of the longest token, in bytes.
fn longest_token(fields: &Vec<(String, serde_json::Value)>) -> (n: usize)
    ensures
        forall|k: int| fields@.len() > 0 ==> (#[trigger] reaches(members(fields_of(fields@)), k)
            <==> k <= n),
        fields@.len() == 0 ==> n == 0,
{
    let ghost all = fields_of(fields@);
    let mut n: usize = 0;
    let ghost mut best: int = 0;
    for i in 0..fields.len()
        invariant
            all == fields_of(fields@),
            i > 0 ==> 0 <= best < i && encode_utf8(all[best].0).len() == n,
            i == 0 ==> n == 0,
            forall|j: int| 0 <= j < i ==> encode_utf8((#[trigger] all[j]).0).len() <= n,
    {
        let len: usize = byte_len(fields[i].0.as_str());
        assert(all[i as int].0 == fields@[i as int].0@);
        if i == 0 || len > n {
            n = len;
            proof {
                best = i as int;
            }
        }
    }
    proof {
        let vocab = members(all);
        assert forall|k: int| fields@.len() > 0 implies (#[trigger] reaches(vocab, k) <==> k <= n) by {
            if k <= n {
                let token = all[best].0;
                lemma_members(all, token);
                assert(vocab.contains_key(token));
            }
            if reaches(vocab, k) {
                let token = choose|token: Seq<char>| #[trigger]
                    vocab.contains_key(token) && k <= encode_utf8(token).len();
                lemma_members(all, token);
                let j = choose|j: int| 0 <= j < all.len() && (#[trigger] all[j]).0 == token;
                assert(encode_utf8(all[j].0).len() <= n);
            }
        }
    }
    n
}

/// Whether the merges of a vocabulary fit.
fn do_merges_fit(fields: &Vec<(String, serde_json::Value)>, merges: &Vec<serde_json::Value>) -> (yes:
    bool)
    ensures
        yes == merges_fit(members(fields_of(fields@)), trees_of(merges@)),
{
    let longest: usize = longest_token(fields);
    let ghost vocab = members(fields_of(fields@));
    let ghost trees = trees_of(merges@);
    for i in 0..merges.len()
        invariant
            vocab == members(fields_of(fields@)),
            trees == trees_of(merges@),
            forall|k: int| fields@.len() > 0 ==> (#[trigger] reaches(vocab, k) <==> k <= longest),
            forall|j: int, a: Seq<char>, b: Seq<char>|
                0 <= j < i && #[trigger] joins(trees[j], a, b) && vocab.contains_key(a)
                    && vocab.contains_key(b) ==> reaches(
                    vocab,
                    (encode_utf8(a).len() + encode_utf8(b).len()) as int,
                ),
    {
        assert(trees[i as int] == tree_of(merges@[i as int]));
        match parts_of(&merges[i]) {
            None => {},
            Some((a, b)) => {
                let (m, n): (usize, usize) = (byte_len(a.as_str()), byte_len(b.as_str()));
                if m > longest || n > longest - m {
                    if find_member(fields, a.as_str()).is_some() && find_member(
                        fields,
                        b.as_str(),
                    ).is_some() {
                        proof {
                            lemma_members(fields_of(fields@), a@);
                            assert(joins(trees[i as int], a@, b@));
                            assert(!reaches(vocab, m + n));
                        }
                        return false;
                    }
                } else {
                    proof {
                        if vocab.contains_key(a@) {
                            lemma_members(fields_of(fields@), a@);
                            assert(reaches(vocab, m + n));
                        }
                    }
                }
            },
        }
    }
    true
}

/// Whether a model is a known one.
fn is_model_known(value: &serde_json::Value) -> (yes: bool)
    ensures
        yes == model_known(tree_of(*value)),
{
    let kind = match type_of(value) {
        Some(kind) => kind,
        None => {
            return false;
        },
    };
    if same(kind.as_str(), "WordLevel") || same(kind.as_str(), "WordPiece") {
        return true;
    }
    if !same(kind.as_str(), "BPE") {
        return false;
    }
    match open_value(value) {
        Node::Object(fields) => {
            assert(tree_of(*value) == object_of(fields_of(fields@)));
            let prefix = find_member(&fields, "continuing_subword_prefix");
            if !is_absent(prefix) {
                match prefix {
                    Some(inner) => match open_value(inner) {
                        Node::Text(text) => {
                            if !same(text.as_str(), "") {
                                proof {
                                    reveal_strlit("");
                                    assert(""@ =~= Seq::<char>::empty());
                                }
                                return false;
                            }
                            proof {
                                reveal_strlit("");
                                assert(""@ =~= Seq::<char>::empty());
                            }
                        },
                        _ => {
                            return false;
                        },
                    },
                    None => {},
                }
            }
            match (find_member(&fields, "vocab"), find_member(&fields, "merges")) {
                (Some(vocab), Some(merges)) => match (open_value(vocab), open_value(merges)) {
                    (Node::Object(tokens), Node::List(list)) => do_merges_fit(&tokens, &list),
                    _ => true,
                },
                _ => true,
            }
        },
        _ => false,
    }
}

/// Whether a description can be handed to the reader.
fn is_read_known(value: &serde_json::Value) -> (yes: bool)
    ensures
        yes == read_known(tree_of(*value)),
{
    match open_value(value) {
        Node::Object(fields) => {
            assert(tree_of(*value) == object_of(fields_of(fields@)));
            let normalizer = find_member(&fields, "normalizer");
            let plain: bool = is_absent(normalizer) || match normalizer {
                Some(part) => is_normalizer_known(part),
                None => true,
            };
            let known: bool = match find_member(&fields, "model") {
                Some(model) => is_model_known(model),
                None => true,
            };
            plain && known && is_absent(find_member(&fields, "post_processor"))
        },
        _ => true,
    }
}

/// Whether what is cut off moves on.
fn does_truncation_fit(value: &serde_json::Value) -> (yes: bool)
    ensures
        yes == truncation_fits(tree_of(*value)),
{
    match open_value(value) {
        Node::Object(fields) => {
            assert(tree_of(*value) == object_of(fields_of(fields@)));
            match (find_member(&fields, "max_length"), find_member(&fields, "stride")) {
                (Some(length), Some(stride)) => match (open_value(length), open_value(stride)) {
                    (Node::Number(Some(length)), Node::Number(Some(stride))) => length == 0
                        || stride < length,
                    _ => true,
                },
                _ => true,
            }
        },
        Node::Null => true,
        _ => false,
    }
}

/// Whether no added token takes the blanks behind it away.
fn do_added_tokens_fit(value: &serde_json::Value) -> (yes: bool)
    ensures
        yes == added_tokens_fit(tree_of(*value)),
{
    match open_value(value) {
        Node::List(tokens) => {
            let ghost trees = trees_of(tokens@);
            for i in 0..tokens.len()
                invariant
                    trees == trees_of(tokens@),
                    tree_of(*value) == Tree::List(trees),
                    forall|j: int|
                        0 <= j < i ==> member(#[trigger] trees[j], "rstrip"@) != Some(
                            Tree::Truth(true),
                        ),
            {
                assert(trees[i as int] == tree_of(tokens@[i as int]));
                match open_value(&tokens[i]) {
                    Node::Object(fields) => match find_member(&fields, "rstrip") {
                        Some(inner) => match open_value(inner) {
                            Node::Truth(true) => {
                                return false;
                            },
                            _ => {},
                        },
                        None => {},
                    },
                    _ => {},
                }
            }
            true
        },
        _ => true,
    }
}

/// Whether the tokenizer of a description can be handed any text.
fn is_encode_known(value: &serde_json::Value) -> (yes: bool)
    ensures
        yes == encode_known(tree_of(*value)),
{
    if !is_read_known(value) {
        return false;
    }
    match open_value(value) {
        Node::Object(fields) => {
            assert(tree_of(*value) == object_of(fields_of(fields@)));
            let splitter = find_member(&fields, "pre_tokenizer");
            let plain: bool = is_absent(splitter) || match splitter {
                Some(part) => is_splitter_known(part),
                None => true,
            };
            let moves: bool = match find_member(&fields, "truncation") {
                Some(part) => does_truncation_fit(part),
                None => true,
            };
            let stays: bool = match find_member(&fields, "added_tokens") {
                Some(part) => do_added_tokens_fit(part),
                None => true,
            };
            plain && moves && stays && is_absent(find_member(&fields, "padding"))
        },
        _ => true,
    }
}

/// The text of a value, in bytes.
pub open spec fn text_bytes(tree: Tree) -> Option<Seq<u8>> {
    match json_text(tree) {
        Some(text) => Some(encode_utf8(text)),
        None => None,
    }
}

/// Whether a written text can be handed to the reader of tokenizers.
pub(crate) fn is_admitted(bytes: &[u8]) -> (yes: bool)
    requires
        written(bytes@),
    ensures
        yes == admitted(bytes@),
{
    match parse(bytes) {
        Some(value) => is_read_known(&value),
        None => false,
    }
}

/// Whether a written text can be handed to the reader of tokenizers, and any
/// text to what is read.
pub(crate) fn is_usable(bytes: &[u8]) -> (yes: bool)
    requires
        written(bytes@),
    ensures
        yes == usable(bytes@),
{
    match parse(bytes) {
        Some(value) => is_encode_known(&value),
        None => false,
    }
}

/// The text of a value.
pub(crate) fn write_text(value: &serde_json::Value) -> (text: Option<String>)
    ensures
        match text {
            Some(text) => text_bytes(tree_of(*value)) == Some(encode_utf8(text@)) && written(
                encode_utf8(text@),
            ),
            None => text_bytes(tree_of(*value)) is None,
        },
{
    to_text(value)
}

} // verus!
