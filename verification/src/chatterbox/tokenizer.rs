//! Text preparation and tokenisation.
use vstd::prelude::*;
use vstd::string::*;
use vstd::utf8::encode_utf8;
use unicode_normalization::UnicodeNormalization;
use crate::edit::{
    ascii_lowered, blank, collapse, collapsed, replace_all, replaced, to_ascii_lower, trim, trim_end,
    trimmed_end, trimmed_start,
};
use crate::json::{Tree, parse, parsed};
use crate::text::{
    chars_of, code_point, debug_shown, decimal, same, string_of, to_debug, to_wide_decimal,
};
use crate::tokenization::{
    describes, encode_text, encoding_of, is_usable, keeps_merges, look_up, may_encode, number_of,
    read_tokenizer, readable, safe, steady, text_bytes, usable, write_text, written,
};

verus! {

/// Whether the model speaks a language, by its lower-case code.
pub open spec fn supported(language: Seq<char>) -> bool {
    ||| language == "ar"@
    ||| language == "da"@
    ||| language == "de"@
    ||| language == "el"@
    ||| language == "en"@
    ||| language == "es"@
    ||| language == "fi"@
    ||| language == "fr"@
    ||| language == "he"@
    ||| language == "hi"@
    ||| language == "it"@
    ||| language == "ja"@
    ||| language == "ko"@
    ||| language == "ms"@
    ||| language == "nl"@
    ||| language == "no"@
    ||| language == "pl"@
    ||| language == "pt"@
    ||| language == "ru"@
    ||| language == "sv"@
    ||| language == "sw"@
    ||| language == "tr"@
    ||| language == "zh"@
}

/// Whether the model speaks a language, by its lower-case code.
pub fn is_supported(language: &str) -> (r: bool)
    ensures
        r == supported(language@),
{
    same(language, "ar") || same(language, "da") || same(language, "de") || same(language, "el")
        || same(language, "en") || same(language, "es") || same(language, "fi")
        || same(language, "fr") || same(language, "he") || same(language, "hi")
        || same(language, "it") || same(language, "ja") || same(language, "ko")
        || same(language, "ms") || same(language, "nl") || same(language, "no")
        || same(language, "pl") || same(language, "pt") || same(language, "ru")
        || same(language, "sv") || same(language, "sw") || same(language, "tr")
        || same(language, "zh")
}

/// A text with typographic marks put into plain ones, in a fixed order.
pub open spec fn punctuated(s: Seq<char>) -> Seq<char> {
    let s1 = replaced(s, "..."@, ", "@);
    let s2 = replaced(s1, "…"@, ", "@);
    let s3 = replaced(s2, ":"@, ","@);
    let s4 = replaced(s3, " - "@, ", "@);
    let s5 = replaced(s4, ";"@, ", "@);
    let s6 = replaced(s5, "—"@, "-"@);
    let s7 = replaced(s6, "–"@, "-"@);
    let s8 = replaced(s7, " ,"@, ","@);
    let s9 = replaced(s8, "“"@, "\""@);
    let s10 = replaced(s9, "”"@, "\""@);
    let s11 = replaced(s10, "‘"@, "'"@);
    let s12 = replaced(s11, "’"@, "'"@);
    s12
}

/// The characters a text may end in.
pub open spec fn closes(c: char) -> bool {
    c == '.' || c == '!' || c == '?' || c == '-' || c == ','
}

/// A text without blanks at its end, closed with a full stop where it is
/// open.
pub open spec fn closed_text(s: Seq<char>) -> Seq<char> {
    let t = trimmed_end(s);
    if t.len() > 0 && closes(t.last()) {
        t
    } else {
        t.push('.')
    }
}

/// The form in which a text is spoken.
pub open spec fn normalized(s: Seq<char>) -> Seq<char> {
    closed_text(punctuated(collapsed(s)))
}

/// `s` with every `from` replaced by `to`.
fn substitute(s: &Vec<char>, from: &str, to: &str) -> (out: Vec<char>)
    requires
        from@.len() > 0,
    ensures
        out@ == replaced(s@, from@, to@),
{
    let old_part = chars_of(from);
    let new_part = chars_of(to);
    replace_all(s, &old_part, &new_part)
}

/// Whether a text may end in this character.
fn is_closing(c: char) -> (r: bool)
    ensures
        r == closes(c),
{
    let n: u32 = code_point(c);
    n == 46 || n == 33 || n == 63 || n == 45 || n == 44
}

/// Puts a text into the form in which it is spoken: single spaces, plain
/// punctuation, and a closing mark.
pub fn normalize_multilingual_text(text: &str) -> (outcome: Result<String, String>)
    ensures
        match outcome {
            Ok(spoken) => collapsed(text@).len() > 0 && spoken@ == normalized(text@),
            Err(message) => collapsed(text@).len() == 0 && message@
                == "Chatterbox text must not be empty"@,
        },
{
    let raw = chars_of(text);
    let mut s = collapse(&raw);
    if s.len() == 0 {
        return Err("Chatterbox text must not be empty".to_owned());
    }
    proof {
        reveal_strlit("...");
        reveal_strlit("…");
        reveal_strlit(":");
        reveal_strlit(" - ");
        reveal_strlit(";");
        reveal_strlit("—");
        reveal_strlit("–");
        reveal_strlit(" ,");
        reveal_strlit("“");
        reveal_strlit("”");
        reveal_strlit("‘");
        reveal_strlit("’");
    }
    s = substitute(&s, "...", ", ");
    s = substitute(&s, "…", ", ");
    s = substitute(&s, ":", ",");
    s = substitute(&s, " - ", ", ");
    s = substitute(&s, ";", ", ");
    s = substitute(&s, "—", "-");
    s = substitute(&s, "–", "-");
    s = substitute(&s, " ,", ",");
    s = substitute(&s, "“", "\"");
    s = substitute(&s, "”", "\"");
    s = substitute(&s, "‘", "'");
    s = substitute(&s, "’", "'");
    trim_end(&mut s);
    if s.len() == 0 || !is_closing(s[s.len() - 1]) {
        s.push('.');
    }
    Ok(string_of(s.as_slice()))
}

/// A spoken text is never empty and always ends in a closing mark.
pub proof fn law_spoken_text_is_closed(s: Seq<char>)
    ensures
        normalized(s).len() > 0,
        closes(normalized(s).last()),
{
}

/// Whether a character stands in a text.
pub open spec fn occurs(s: Seq<char>, c: char) -> bool {
    exists|i: int| 0 <= i < s.len() && #[trigger] s[i] == c
}

/// A character that is neither in the text nor in the replacement does not
/// come in by replacing.
proof fn lemma_stays_out(s: Seq<char>, from: Seq<char>, to: Seq<char>, c: char)
    requires
        !occurs(s, c),
        !occurs(to, c),
    ensures
        !occurs(replaced(s, from, to), c),
    decreases s.len(),
{
    if from.len() > 0 && s.len() >= from.len() {
        let n = if s.take(from.len() as int) == from { from.len() as int } else { 1 };
        let rest = s.skip(n);
        assert forall|i: int| 0 <= i < rest.len() implies rest[i] != c by {
            assert(rest[i] == s[i + n]);
        }
        lemma_stays_out(rest, from, to, c);
        let out = replaced(s, from, to);
        let tail = replaced(rest, from, to);
        assert forall|i: int| 0 <= i < out.len() implies out[i] != c by {
            if s.take(from.len() as int) == from {
                if i < to.len() {
                    assert(out[i] == to[i]);
                } else {
                    assert(out[i] == tail[i - to.len()]);
                }
            } else if i == 0 {
                assert(out[i] == s[0]);
            } else {
                assert(out[i] == tail[i - 1]);
            }
        }
    }
}

/// Replacing a single character by a text without it removes it.
proof fn lemma_goes_out(s: Seq<char>, from: Seq<char>, to: Seq<char>, c: char)
    requires
        from.len() == 1,
        from[0] == c,
        !occurs(to, c),
    ensures
        !occurs(replaced(s, from, to), c),
    decreases s.len(),
{
    if s.len() > 0 {
        let rest = s.skip(1);
        lemma_goes_out(rest, from, to, c);
        let out = replaced(s, from, to);
        let tail = replaced(rest, from, to);
        assert(s.take(1)[0] == s[0]);
        if s[0] == c {
            assert(s.take(1) =~= from);
        }
        assert forall|i: int| 0 <= i < out.len() implies out[i] != c by {
            if s.take(1) == from {
                if i < to.len() {
                    assert(out[i] == to[i]);
                } else {
                    assert(out[i] == tail[i - to.len()]);
                }
            } else if i == 0 {
                assert(out[i] == s[0]);
            } else {
                assert(out[i] == tail[i - 1]);
            }
        }
    }
}

/// A character is out of a text behind a replacement that does not bring it in,
/// if it was out before or is what is replaced.
proof fn lemma_replacing(s: Seq<char>, from: Seq<char>, to: Seq<char>, c: char)
    requires
        !occurs(to, c),
    ensures
        !occurs(s, c) || (from.len() == 1 && from[0] == c) ==> !occurs(replaced(s, from, to), c),
{
    if from.len() == 1 && from[0] == c {
        lemma_goes_out(s, from, to, c);
    } else if !occurs(s, c) {
        lemma_stays_out(s, from, to, c);
    }
}

/// Trimming brings no character in.
proof fn lemma_trim_stays_out(s: Seq<char>, c: char)
    requires
        !occurs(s, c),
    ensures
        !occurs(trimmed_end(s), c),
    decreases s.len(),
{
    if s.len() > 0 && blank(s.last()) {
        assert forall|i: int| 0 <= i < s.drop_last().len() implies s.drop_last()[i] != c by {
            assert(s.drop_last()[i] == s[i]);
        }
        lemma_trim_stays_out(s.drop_last(), c);
    }
}

/// A mark that the list of replacements removes.
pub open spec fn typographic(c: char) -> bool {
    ||| c == '\u{2026}'
    ||| c == ':'
    ||| c == ';'
    ||| c == '\u{2014}'
    ||| c == '\u{2013}'
    ||| c == '\u{201c}'
    ||| c == '\u{201d}'
    ||| c == '\u{2018}'
    ||| c == '\u{2019}'
}

/// No ellipsis, colon, semicolon, dash or typographic quote is left in a
/// spoken text.
pub proof fn law_no_typographic_mark_is_left(s: Seq<char>, c: char)
    requires
        typographic(c),
    ensures
        !occurs(normalized(s), c),
{
    reveal_strlit(" ,");
    reveal_strlit(" - ");
    reveal_strlit("'");
    reveal_strlit(",");
    reveal_strlit(", ");
    reveal_strlit("-");
    reveal_strlit("...");
    reveal_strlit(":");
    reveal_strlit(";");
    reveal_strlit("\"");
    reveal_strlit("–");
    reveal_strlit("—");
    reveal_strlit("‘");
    reveal_strlit("’");
    reveal_strlit("“");
    reveal_strlit("”");
    reveal_strlit("…");
    let s0 = collapsed(s);
    let s1 = replaced(s0, "..."@, ", "@);
    let s2 = replaced(s1, "…"@, ", "@);
    let s3 = replaced(s2, ":"@, ","@);
    let s4 = replaced(s3, " - "@, ", "@);
    let s5 = replaced(s4, ";"@, ", "@);
    let s6 = replaced(s5, "—"@, "-"@);
    let s7 = replaced(s6, "–"@, "-"@);
    let s8 = replaced(s7, " ,"@, ","@);
    let s9 = replaced(s8, "“"@, "\""@);
    let s10 = replaced(s9, "”"@, "\""@);
    let s11 = replaced(s10, "‘"@, "'"@);
    let s12 = replaced(s11, "’"@, "'"@);
    lemma_replacing(s0, "..."@, ", "@, c);
    lemma_replacing(s1, "…"@, ", "@, c);
    lemma_replacing(s2, ":"@, ","@, c);
    lemma_replacing(s3, " - "@, ", "@, c);
    lemma_replacing(s4, ";"@, ", "@, c);
    lemma_replacing(s5, "—"@, "-"@, c);
    lemma_replacing(s6, "–"@, "-"@, c);
    lemma_replacing(s7, " ,"@, ","@, c);
    lemma_replacing(s8, "“"@, "\""@, c);
    lemma_replacing(s9, "”"@, "\""@, c);
    lemma_replacing(s10, "‘"@, "'"@, c);
    lemma_replacing(s11, "’"@, "'"@, c);
    lemma_trim_stays_out(s12, c);
    let t = trimmed_end(s12);
    assert forall|i: int| 0 <= i < t.push('.').len() implies t.push('.')[i] != c by {
        if i < t.len() {
            assert(t[i] != c);
        }
    }
}

/// What `str::to_lowercase` makes of a text.
pub uninterp spec fn lowercased(s: Seq<char>) -> Seq<char>;

/// Calls `str::to_lowercase`, which maps a text by the Unicode property
/// Lowercase; the result depends on the text alone.
#[verifier::external_body]
fn to_lowercase(s: &str) -> (r: String)
    ensures
        r@ == lowercased(s@),
{
    s.to_lowercase()
}

/// What `UnicodeNormalization::nfkd` makes of a text.
pub uninterp spec fn compatibly_decomposed(s: Seq<char>) -> Seq<char>;

/// Collects `unicode_normalization::UnicodeNormalization::nfkd`, the
/// compatibility decomposition of a text; the result depends on the text
/// alone.
#[verifier::external_body]
fn to_nfkd(s: &str) -> (r: String)
    ensures
        r@ == compatibly_decomposed(s@),
{
    s.nfkd().collect::<String>()
}

/// The language code a request stands for.
pub open spec fn language_code(language: Seq<char>) -> Seq<char> {
    ascii_lowered(trimmed_end(trimmed_start(language)))
}

/// What is handed to the tokenizer, once the text has been put into lower
/// case and decomposed: the language in brackets, and the text with its
/// spaces spelled out.
pub open spec fn tagged(language: Seq<char>, decomposed: Seq<char>) -> Seq<char> {
    "["@ + language + "]"@ + replaced(decomposed, " "@, "[SPACE]"@)
}

/// What is handed to the tokenizer, given the decomposed text.
pub fn tag_text(language: &str, decomposed: &str) -> (input: String)
    ensures
        input@ == tagged(language@, decomposed@),
{
    proof {
        reveal_strlit(" ");
    }
    let chars = chars_of(decomposed);
    let spelled = substitute(&chars, " ", "[SPACE]");
    "[".to_owned().concat(language).concat("]").concat(&string_of(spelled.as_slice()))
}

/// Why a request cannot be tokenized, if it cannot.
pub open spec fn request_fault(text: Seq<char>, language: Seq<char>) -> Option<Seq<char>> {
    if !supported(language_code(language)) {
        Some("unsupported Chatterbox language "@ + debug_shown(language_code(language)))
    } else if collapsed(text).len() == 0 {
        Some("Chatterbox text must not be empty"@)
    } else {
        None
    }
}

/// What a request hands to the tokenizer.
pub open spec fn tokenizer_input(text: Seq<char>, language: Seq<char>) -> Seq<char> {
    tagged(language_code(language), compatibly_decomposed(lowercased(normalized(text))))
}

/// Prepares a request for the tokenizer.
pub fn prepare(text: &str, language: &str) -> (outcome: Result<String, String>)
    ensures
        match outcome {
            Ok(input) => request_fault(text@, language@) is None && input@ == tokenizer_input(
                text@,
                language@,
            ),
            Err(message) => request_fault(text@, language@) == Some(message@),
        },
{
    let chars = chars_of(language);
    let code = string_of(to_ascii_lower(&trim(&chars)).as_slice());
    if !is_supported(code.as_str()) {
        return Err(
            "unsupported Chatterbox language ".to_owned().concat(&to_debug(code.as_str())),
        );
    }
    match normalize_multilingual_text(text) {
        Err(message) => Err(message),
        Ok(spoken) => {
            let decomposed = to_nfkd(to_lowercase(spoken.as_str()).as_str());
            Ok(tag_text(code.as_str(), decomposed.as_str()))
        },
    }
}

/// A token number as the model takes it.
pub open spec fn as_signed(id: u32) -> i32 {
    id as i32
}

/// Token numbers between the start and the stop token.
pub open spec fn framed(ids: Seq<u32>) -> Seq<i32> {
    seq![255i32] + ids.map_values(|id: u32| as_signed(id)) + seq![0i32]
}

/// The complaint about more token numbers than the model can take.
pub open spec fn too_many(ids: Seq<u32>) -> Seq<char> {
    "Chatterbox text requires "@ + decimal((ids.len() + 2) as nat)
        + " tokens, model limit is 2050"@
}

/// The complaint about a text that the tokenizer refuses for `reason`.
pub open spec fn untokenizable(reason: Seq<char>) -> Seq<char> {
    "could not tokenize Chatterbox text: "@ + reason
}

/// Puts token numbers between the start and the stop token, if the model can
/// take that many.
pub fn frame_tokens(ids: &Vec<u32>) -> (outcome: Result<Vec<i32>, String>)
    ensures
        match outcome {
            Ok(tokens) => ids@.len() <= 2048 && tokens@ == framed(ids@),
            Err(message) => ids@.len() > 2048 && message@ == too_many(ids@),
        },
{
    if ids.len() > 2048 {
        return Err(
            "Chatterbox text requires ".to_owned().concat(&to_wide_decimal(ids.len() as u128 + 2)).concat(
                " tokens, model limit is 2050",
            ),
        );
    }
    let mut tokens: Vec<i32> = Vec::new();
    tokens.push(255);
    for i in 0..ids.len()
        invariant
            tokens@.len() == i + 1,
            tokens@[0] == 255,
            forall|j: int| 0 <= j < i ==> #[trigger] tokens@[j + 1] == as_signed(ids@[j]),
    {
        let id: u32 = ids[i];
        let ghost before = tokens@;
        tokens.push(#[verifier::truncate] (id as i32));
        assert forall|j: int| 0 <= j < i + 1 implies #[trigger] tokens@[j + 1] == as_signed(
            ids@[j],
        ) by {
            if j < i {
                assert(before[j + 1] == as_signed(ids@[j]));
            }
        }
    }
    tokens.push(0);
    assert forall|j: int| 0 <= j < framed(ids@).len() implies tokens@[j] == framed(ids@)[j] by {
        if 0 < j <= ids@.len() {
            assert(tokens@[(j - 1) + 1] == as_signed(ids@[j - 1]));
        }
    }
    assert(tokens@ =~= framed(ids@));
    Ok(tokens)
}

/// The text tokenizer of the model.
pub struct ChatterboxTokenizer {
    tokenizer: tokenizers::Tokenizer,
}

/// Why a vocabulary is not the model's, if it is not, given the numbers of its
/// three control tokens.
pub open spec fn vocabulary_fault(stop: Option<u32>, start: Option<u32>, space: Option<u32>) -> Option<
    Seq<char>,
> {
    if stop != Some(0u32) {
        Some("Chatterbox tokenizer [STOP] has an unexpected ID"@)
    } else if start != Some(255u32) {
        Some("Chatterbox tokenizer [START] has an unexpected ID"@)
    } else if space != Some(2u32) {
        Some("Chatterbox tokenizer [SPACE] has an unexpected ID"@)
    } else {
        None
    }
}

/// Checks the numbers of the three control tokens.
pub fn check_vocabulary(stop: Option<u32>, start: Option<u32>, space: Option<u32>) -> (outcome: Result<
    (),
    String,
>)
    ensures
        match outcome {
            Ok(_) => vocabulary_fault(stop, start, space) is None,
            Err(message) => vocabulary_fault(stop, start, space) == Some(message@),
        },
{
    if stop != Some(0u32) {
        return Err("Chatterbox tokenizer [STOP] has an unexpected ID".to_owned());
    }
    if start != Some(255u32) {
        return Err("Chatterbox tokenizer [START] has an unexpected ID".to_owned());
    }
    if space != Some(2u32) {
        return Err("Chatterbox tokenizer [SPACE] has an unexpected ID".to_owned());
    }
    Ok(())
}

/// A tokenizer file, written out anew, if the bytes are a JSON text.
pub open spec fn rewritten(bytes: Seq<u8>) -> Option<Seq<u8>> {
    match parsed(bytes) {
        Some(tree) => text_bytes(tree),
        None => None,
    }
}

/// Why the vocabulary of a tokenizer is not the model's, if it is not.
pub open spec fn tokenizer_fault(tokenizer: tokenizers::Tokenizer) -> Option<Seq<char>> {
    vocabulary_fault(
        number_of(tokenizer, "[STOP]"@),
        number_of(tokenizer, "[START]"@),
        number_of(tokenizer, "[SPACE]"@),
    )
}

/// What loading a tokenizer file gives: the tokenizer that it describes where
/// its vocabulary is the model's, the fault of that vocabulary where it is not,
/// and an error of the reader where the file cannot be read.
pub open spec fn loads(bytes: Seq<u8>, outcome: Result<ChatterboxTokenizer, String>) -> bool {
    match rewritten(bytes) {
        Some(file) => if readable(file) {
            exists|tokenizer: tokenizers::Tokenizer| #[trigger]
                describes(file, tokenizer) && match outcome {
                    Ok(model) => tokenizer == model.inner() && tokenizer_fault(tokenizer) is None,
                    Err(message) => tokenizer_fault(tokenizer) == Some(message@),
                }
        } else {
            outcome is Err
        },
        None => outcome matches Err(message) && message@ == "not a JSON text"@,
    }
}

/// Writes a tokenizer file out anew.
fn rewrite(bytes: &[u8]) -> (text: Option<String>)
    ensures
        match text {
            Some(text) => rewritten(bytes@) == Some(encode_utf8(text@)) && written(
                encode_utf8(text@),
            ),
            None => rewritten(bytes@) is None,
        },
{
    match parse(bytes) {
        None => None,
        Some(value) => write_text(&value),
    }
}

impl ChatterboxTokenizer {
    /// The tokenizer that encodes.
    pub closed spec fn inner(self) -> tokenizers::Tokenizer {
        self.tokenizer
    }

    /// Any text can be handed to the tokenizer.
    #[verifier::type_invariant]
    pub closed spec fn valid(self) -> bool {
        safe(self.tokenizer)
    }

    /// Reads a tokenizer file and checks its vocabulary.
    pub fn load(bytes: &[u8]) -> (outcome: Result<Self, String>)
        requires
            rewritten(bytes@) matches Some(file) ==> usable(file),
        ensures
            loads(bytes@, outcome),
    {
        let text = match rewrite(bytes) {
            Some(text) => text,
            None => {
                return Err("not a JSON text".to_owned());
            },
        };
        let ghost file = encode_utf8(text@);
        let tokenizer = match read_tokenizer(text.as_str().as_bytes()) {
            Ok(tokenizer) => tokenizer,
            Err(message) => {
                return Err(message);
            },
        };
        assert(usable(file) && describes(file, tokenizer));
        match check_vocabulary(
            look_up(&tokenizer, "[STOP]"),
            look_up(&tokenizer, "[START]"),
            look_up(&tokenizer, "[SPACE]"),
        ) {
            Ok(_) => Ok(ChatterboxTokenizer { tokenizer }),
            Err(message) => Err(message),
        }
    }

    /// Reads a tokenizer file and checks its vocabulary, where what the file
    /// describes can be handed to the reader of tokenizers and any text to what
    /// is read; `None` where it cannot.
    pub fn try_load(bytes: &[u8]) -> (outcome: Option<Result<Self, String>>)
        ensures
            outcome is None <==> (rewritten(bytes@) matches Some(file) && !usable(file)),
            outcome matches Some(loaded) ==> loads(bytes@, loaded),
    {
        match rewrite(bytes) {
            None => {},
            Some(text) => {
                if !is_usable(text.as_str().as_bytes()) {
                    return None;
                }
            },
        }
        Some(Self::load(bytes))
    }

    /// Tokenizes a text in a language.
    pub fn encode(&self, text: &str, language: &str) -> (outcome: Result<Vec<i32>, String>)
        ensures
            match outcome {
                Ok(tokens) => {
                    &&& request_fault(text@, language@) is None
                    &&& exists|ids: Seq<u32>|
                        #![trigger framed(ids)]
                        may_encode(self.inner(), tokenizer_input(text@, language@), ids)
                            && ids.len() <= 2048 && tokens@ == framed(ids)
                },
                Err(message) => match request_fault(text@, language@) {
                    Some(fault) => message@ == fault,
                    None => {
                        ||| exists|ids: Seq<u32>|
                            #![trigger too_many(ids)]
                            may_encode(self.inner(), tokenizer_input(text@, language@), ids)
                                && ids.len() > 2048 && message@ == too_many(ids)
                        ||| exists|reason: Seq<char>| message@ == #[trigger] untokenizable(reason)
                    },
                },
            },
            request_fault(text@, language@) is None && steady(self.inner()) ==> match encoding_of(
                self.inner(),
                tokenizer_input(text@, language@),
            ) {
                Some(ids) => if ids.len() <= 2048 {
                    outcome matches Ok(tokens) && tokens@ == framed(ids)
                } else {
                    outcome matches Err(message) && message@ == too_many(ids)
                },
                None => outcome matches Err(message) && exists|reason: Seq<char>|
                    message@ == #[trigger] untokenizable(reason),
            },
    {
        let input = match prepare(text, language) {
            Err(message) => {
                return Err(message);
            },
            Ok(input) => input,
        };
        proof {
            use_type_invariant(self);
        }
        match encode_text(&self.tokenizer, input.as_str()) {
            Err(reason) => {
                let message = "could not tokenize Chatterbox text: ".to_owned().concat(
                    reason.as_str(),
                );
                assert(message@ == untokenizable(reason@));
                Err(message)
            },
            Ok(ids) => {
                frame_tokens(&ids)
            },
        }
    }
}

/// A tokenizer that was loaded from a file whose model drops no merges gives one
/// text one answer.
pub proof fn law_loaded_tokenizers_are_steady(
    bytes: Seq<u8>,
    file: Seq<u8>,
    tree: Tree,
    model: ChatterboxTokenizer,
)
    requires
        rewritten(bytes) == Some(file),
        usable(file),
        parsed(file) == Some(tree),
        keeps_merges(tree),
        loads(bytes, Ok(model)),
    ensures
        steady(model.inner()),
{
}

} // verus!
