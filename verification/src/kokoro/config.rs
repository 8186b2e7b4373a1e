//! Model configuration, phoneme tokens and voices.
use vstd::prelude::*;
use vstd::string::*;
use vstd::slice::slice_subrange;
use crate::edit::{trim, trimmed_end, trimmed_start};
use crate::number::{finite, is_finite};
use crate::text::{chars_of, decimal, same, string_of, to_decimal, to_wide_decimal};

verus! {

/// Geometry of the waveform generator.
#[derive(Debug)]
pub struct IstftNetConfig {
    pub upsample_kernel_sizes: Vec<usize>,
    pub upsample_rates: Vec<usize>,
    pub gen_istft_hop_size: usize,
    pub gen_istft_n_fft: usize,
    pub resblock_dilation_sizes: Vec<Vec<usize>>,
    pub resblock_kernel_sizes: Vec<usize>,
    pub upsample_initial_channel: usize,
}

/// Geometry of the text backbone.
#[derive(Debug, Clone, Copy, PartialEq, Eq, Structural)]
pub struct AlbertConfig {
    pub hidden_size: usize,
    pub num_attention_heads: usize,
    pub intermediate_size: usize,
    pub max_position_embeddings: usize,
    pub num_hidden_layers: usize,
}

/// The whole model configuration. The vocabulary lists each phoneme once.
#[derive(Debug)]
pub struct KokoroConfig {
    pub istftnet: IstftNetConfig,
    pub dim_in: usize,
    pub hidden_dim: usize,
    pub max_conv_dim: usize,
    pub max_dur: usize,
    pub multispeaker: bool,
    pub n_layer: usize,
    pub n_mels: usize,
    pub n_token: usize,
    pub style_dim: usize,
    pub text_encoder_kernel_size: usize,
    pub plbert: AlbertConfig,
    pub vocab: Vec<(String, usize)>,
}

/// The tokens of a phoneme string.
#[derive(Debug)]
pub struct KokoroTokens {
    pub ids: Vec<usize>,
    pub phoneme_count: usize,
    pub skipped_phonemes: usize,
}

/// The token of a phoneme.
pub open spec fn lookup(vocab: Seq<(String, usize)>, phoneme: Seq<char>) -> Option<usize>
    decreases vocab.len(),
{
    if vocab.len() == 0 {
        None
    } else if vocab.last().0@ == phoneme {
        Some(vocab.last().1)
    } else {
        lookup(vocab.drop_last(), phoneme)
    }
}

/// The tokens of the known phonemes of a text, in order.
pub open spec fn known(vocab: Seq<(String, usize)>, phonemes: Seq<char>) -> Seq<usize>
    decreases phonemes.len(),
{
    if phonemes.len() == 0 {
        Seq::empty()
    } else {
        let before = known(vocab, phonemes.drop_last());
        match lookup(vocab, seq![phonemes.last()]) {
            Some(token) => before.push(token),
            None => before,
        }
    }
}

impl KokoroConfig {
    /// Every token of the vocabulary has an embedding.
    pub open spec fn vocabulary_fits(self) -> bool {
        forall|i: int| 0 <= i < self.vocab@.len() ==> (#[trigger] self.vocab@[i]).1 < self.n_token
    }

    /// What is wrong with the geometry, if anything.
    pub open spec fn fault(self) -> Option<Seq<char>> {
        if self.n_token == 0 {
            Some("Kokoro vocabulary must not be empty"@)
        } else if !self.vocabulary_fits() {
            Some("Kokoro vocabulary contains a token outside 0.."@ + decimal(self.n_token as nat))
        } else if self.plbert.hidden_size % self.plbert.num_attention_heads != 0 {
            Some("Kokoro Albert hidden size must be divisible by its head count"@)
        } else if self.plbert.max_position_embeddings < 2 {
            Some("Kokoro context must hold boundary tokens"@)
        } else if self.istftnet.upsample_rates@.len() != self.istftnet.upsample_kernel_sizes@.len() {
            Some("Kokoro iSTFTNet upsample rates and kernels differ in length"@)
        } else if self.istftnet.resblock_kernel_sizes@.len()
            != self.istftnet.resblock_dilation_sizes@.len() {
            Some("Kokoro iSTFTNet residual kernels and dilation groups differ in length"@)
        } else {
            None
        }
    }

    /// Checks the geometry.
    pub fn validate(&self) -> (outcome: Result<(), String>)
        requires
            self.n_token > 0 && self.vocabulary_fits() ==> self.plbert.num_attention_heads > 0,
        ensures
            match outcome {
                Ok(_) => self.fault() is None,
                Err(message) => self.fault() == Some(message@),
            },
    {
        if self.n_token == 0 {
            return Err("Kokoro vocabulary must not be empty".to_owned());
        }
        for i in 0..self.vocab.len()
            invariant
                self.n_token > 0,
                forall|j: int| 0 <= j < i ==> (#[trigger] self.vocab@[j]).1 < self.n_token,
        {
            if self.vocab[i].1 >= self.n_token {
                assert(self.vocab@[i as int].1 >= self.n_token);
                return Err(
                    "Kokoro vocabulary contains a token outside 0..".to_owned().concat(
                        &to_decimal(self.n_token as u64),
                    ),
                );
            }
        }
        if self.plbert.hidden_size % self.plbert.num_attention_heads != 0 {
            return Err("Kokoro Albert hidden size must be divisible by its head count".to_owned());
        }
        if self.plbert.max_position_embeddings < 2 {
            return Err("Kokoro context must hold boundary tokens".to_owned());
        }
        if self.istftnet.upsample_rates.len() != self.istftnet.upsample_kernel_sizes.len() {
            return Err("Kokoro iSTFTNet upsample rates and kernels differ in length".to_owned());
        }
        if self.istftnet.resblock_kernel_sizes.len() != self.istftnet.resblock_dilation_sizes.len() {
            return Err(
                "Kokoro iSTFTNet residual kernels and dilation groups differ in length".to_owned(),
            );
        }
        Ok(())
    }

    /// The token of a phoneme.
    fn token_of(&self, phoneme: &str) -> (token: Option<usize>)
        ensures
            token == lookup(self.vocab@, phoneme@),
    {
        let mut n: usize = self.vocab.len();
        assert(self.vocab@.take(n as int) =~= self.vocab@);
        while n > 0
            invariant
                n <= self.vocab@.len(),
                lookup(self.vocab@, phoneme@) == lookup(self.vocab@.take(n as int), phoneme@),
            decreases n,
        {
            assert(self.vocab@.take(n as int).drop_last() =~= self.vocab@.take(n - 1));
            n = n - 1;
            if same(self.vocab[n].0.as_str(), phoneme) {
                return Some(self.vocab[n].1);
            }
        }
        None
    }

    /// Why a phoneme string cannot be tokenized, if it cannot.
    pub open spec fn phoneme_fault(self, phonemes: Seq<char>) -> Option<Seq<char>> {
        let count = known(self.vocab@, phonemes).len();
        if count + 2 > self.plbert.max_position_embeddings {
            Some(
                "Kokoro phoneme sequence requires "@ + decimal(count + 2)
                    + " tokens, model context is "@ + decimal(
                    self.plbert.max_position_embeddings as nat,
                ),
            )
        } else if count == 0 {
            Some("Kokoro phoneme sequence contains no known tokens"@)
        } else {
            None
        }
    }

    /// Tokenizes a phoneme string: unknown phonemes are skipped, and token
    /// zero stands at both ends.
    pub fn tokenize_phonemes(&self, phonemes: &str) -> (outcome: Result<KokoroTokens, String>)
        ensures
            match outcome {
                Err(message) => self.phoneme_fault(phonemes@) == Some(message@),
                Ok(tokens) => {
                    let ids = known(self.vocab@, phonemes@);
                    &&& self.phoneme_fault(phonemes@) is None
                    &&& tokens.ids@ == seq![0usize] + ids + seq![0usize]
                    &&& tokens.phoneme_count == ids.len()
                    &&& tokens.skipped_phonemes == phonemes@.len() - ids.len()
                },
            },
    {
        let chars = chars_of(phonemes);
        let mut ids: Vec<usize> = Vec::new();
        let mut skipped: usize = 0;
        assert(chars@.take(0) =~= Seq::<char>::empty());
        for i in 0..chars.len()
            invariant
                chars@ == phonemes@,
                ids@ == known(self.vocab@, chars@.take(i as int)),
                ids@.len() <= i,
                skipped == i - ids@.len(),
        {
            let one: Vec<char> = vec![chars[i]];
            proof {
                assert(one@ =~= seq![chars@[i as int]]);
                assert(chars@.take(i + 1).drop_last() =~= chars@.take(i as int));
                assert(chars@.take(i + 1).last() == chars@[i as int]);
            }
            let phoneme = string_of(one.as_slice());
            match self.token_of(phoneme.as_str()) {
                Some(token) => {
                    ids.push(token);
                },
                None => {
                    skipped = skipped + 1;
                },
            }
        }
        assert(chars@.take(chars@.len() as int) =~= chars@);
        let phoneme_count: usize = ids.len();
        let limit: usize = self.plbert.max_position_embeddings;
        if limit < 2 || phoneme_count > limit - 2 {
            return Err(
                "Kokoro phoneme sequence requires ".to_owned().concat(
                    &to_wide_decimal(phoneme_count as u128 + 2),
                ).concat(" tokens, model context is ").concat(&to_decimal(limit as u64)),
            );
        }
        if phoneme_count == 0 {
            return Err("Kokoro phoneme sequence contains no known tokens".to_owned());
        }
        let ghost inner = ids@;
        ids.insert(0, 0);
        ids.push(0);
        assert(ids@ =~= seq![0usize] + inner + seq![0usize]);
        Ok(KokoroTokens { ids, phoneme_count, skipped_phonemes: skipped })
    }
}

/// Under a valid configuration every token has an embedding.
pub proof fn law_known_tokens_have_embeddings(
    config: KokoroConfig,
    phonemes: Seq<char>,
    i: int,
)
    requires
        config.vocabulary_fits(),
        0 <= i < known(config.vocab@, phonemes).len(),
    ensures
        known(config.vocab@, phonemes)[i] < config.n_token,
    decreases phonemes.len(),
{
    let before = known(config.vocab@, phonemes.drop_last());
    if i < before.len() {
        law_known_tokens_have_embeddings(config, phonemes.drop_last(), i);
    } else {
        lemma_lookup_fits(config, config.vocab@, seq![phonemes.last()]);
    }
}

proof fn lemma_lookup_fits(config: KokoroConfig, vocab: Seq<(String, usize)>, phoneme: Seq<char>)
    requires
        forall|i: int| 0 <= i < vocab.len() ==> (#[trigger] vocab[i]).1 < config.n_token,
    ensures
        lookup(vocab, phoneme) matches Some(token) ==> token < config.n_token,
    decreases vocab.len(),
{
    if vocab.len() > 0 {
        assert(vocab[vocab.len() - 1].1 < config.n_token);
        assert forall|i: int| 0 <= i < vocab.drop_last().len() implies (
        #[trigger] vocab.drop_last()[i]).1 < config.n_token by {
            assert(vocab[i].1 < config.n_token);
        }
        lemma_lookup_fits(config, vocab.drop_last(), phoneme);
    }
}

/// No phoneme is counted twice: those known and those skipped are all.
pub proof fn law_every_phoneme_is_known_or_skipped(config: KokoroConfig, phonemes: Seq<char>)
    ensures
        known(config.vocab@, phonemes).len() <= phonemes.len(),
    decreases phonemes.len(),
{
    if phonemes.len() > 0 {
        law_every_phoneme_is_known_or_skipped(config, phonemes.drop_last());
    }
}

/// The checkpoint files, in order of preference.
pub open spec fn checkpoint_names() -> Seq<Seq<char>> {
    seq!["kokoro-v1_0.pth"@, "kokoro-v1_1-zh.pth"@, "model.pth"@]
}

/// Which checkpoint is read, given which of them are there; `model_dir` is
/// the directory as it is shown.
pub fn find_checkpoint(model_dir: &str, present: (bool, bool, bool)) -> (outcome: Result<
    String,
    String,
>)
    ensures
        match outcome {
            Ok(name) => if present.0 {
                name@ == checkpoint_names()[0]
            } else if present.1 {
                name@ == checkpoint_names()[1]
            } else {
                present.2 && name@ == checkpoint_names()[2]
            },
            Err(message) => !present.0 && !present.1 && !present.2 && message@
                == "no Kokoro checkpoint found in "@ + model_dir@
                + "; expected kokoro-v1_0.pth, kokoro-v1_1-zh.pth, or model.pth"@,
        },
{
    if present.0 {
        Ok("kokoro-v1_0.pth".to_owned())
    } else if present.1 {
        Ok("kokoro-v1_1-zh.pth".to_owned())
    } else if present.2 {
        Ok("model.pth".to_owned())
    } else {
        Err(
            "no Kokoro checkpoint found in ".to_owned().concat(model_dir).concat(
                "; expected kokoro-v1_0.pth, kokoro-v1_1-zh.pth, or model.pth",
            ),
        )
    }
}

/// A voice: one style per phoneme count. The values are single-precision
/// numbers, by their bits.
#[derive(Debug)]
pub struct KokoroVoice {
    styles: Vec<u32>,
    entries: usize,
    style_width: usize,
}

/// The number that four bytes stand for, least significant first.
pub open spec fn little_endian(bytes: Seq<u8>, i: int) -> u32 {
    (bytes[4 * i] as int + bytes[4 * i + 1] as int * 0x100 + bytes[4 * i + 2] as int * 0x1_0000
        + bytes[4 * i + 3] as int * 0x100_0000) as u32
}

/// Whether a name ends in `suffix`.
pub open spec fn ends_with(name: Seq<char>, suffix: Seq<char>) -> bool {
    name.len() >= suffix.len() && name.skip(name.len() - suffix.len()) == suffix
}

/// Whether a name ends in `suffix`.
fn has_suffix(name: &str, suffix: &str) -> (r: bool)
    ensures
        r == ends_with(name@, suffix@),
{
    let n = chars_of(name);
    let s = chars_of(suffix);
    if n.len() < s.len() {
        return false;
    }
    let start: usize = n.len() - s.len();
    let mut tail: Vec<char> = Vec::new();
    for i in start..n.len()
        invariant
            start <= i,
            start <= n@.len(),
            tail@ == n@.subrange(start as int, i as int),
    {
        tail.push(n[i]);
        assert(tail@ =~= n@.subrange(start as int, i + 1));
    }
    assert(tail@ =~= n@.skip(start as int));
    same(string_of(tail.as_slice()).as_str(), suffix)
}

/// The first name that ends in `suffix`.
pub open spec fn first_ending(names: Seq<String>, suffix: Seq<char>, n: nat) -> Option<nat>
    decreases n,
{
    if n == 0 {
        None
    } else if first_ending(names, suffix, (n - 1) as nat) is Some {
        first_ending(names, suffix, (n - 1) as nat)
    } else if ends_with(names[n - 1]@, suffix) {
        Some((n - 1) as nat)
    } else {
        None
    }
}

/// The first name that ends in `suffix`.
pub fn find_ending(names: &[String], suffix: &str) -> (at: Option<usize>)
    ensures
        match at {
            Some(i) => first_ending(names@, suffix@, names@.len()) == Some(i as nat),
            None => first_ending(names@, suffix@, names@.len()) is None,
        },
{
    for i in 0..names.len()
        invariant
            first_ending(names@, suffix@, i as nat) is None,
    {
        if has_suffix(names[i].as_str(), suffix) {
            proof {
                lemma_first_ending(names@, suffix@, (i + 1) as nat, names@.len());
            }
            return Some(i);
        }
    }
    None
}

proof fn lemma_first_ending(names: Seq<String>, suffix: Seq<char>, n: nat, m: nat)
    requires
        n <= m,
        first_ending(names, suffix, n) is Some,
    ensures
        first_ending(names, suffix, m) == first_ending(names, suffix, n),
    decreases m,
{
    if n < m {
        lemma_first_ending(names, suffix, n, (m - 1) as nat);
    }
}

/// Whether a byte-order mark names the order that voices are stored in.
pub fn is_little(byte_order: &str) -> (r: bool)
    ensures
        r == (trimmed_end(trimmed_start(byte_order@)) == "little"@),
{
    let chars = chars_of(byte_order);
    let trimmed = trim(&chars);
    same(string_of(trimmed.as_slice()).as_str(), "little")
}

/// Every number that the bytes stand for is finite.
pub open spec fn all_finite(bytes: Seq<u8>) -> bool {
    forall|i: int| 0 <= i < bytes.len() / 4 ==> finite(#[trigger] little_endian(bytes, i))
}

/// Why bytes are not the styles of a voice, if they are not.
pub open spec fn voice_fault(bytes: Seq<u8>, config: KokoroConfig) -> Option<Seq<char>> {
    let values = bytes.len() as int / 4;
    let width = 2 * config.style_dim;
    let least = config.plbert.max_position_embeddings - 2;
    if bytes.len() % 4 != 0 {
        Some("Kokoro voice storage has a partial float32 value"@)
    } else if values % width != 0 {
        Some(
            "Kokoro voice width does not match model style dimension "@ + decimal(
                config.style_dim as nat,
            ),
        )
    } else if values / width < least {
        Some(
            "Kokoro voice contains "@ + decimal((values / width) as nat)
                + " contexts, expected at least "@ + decimal(least as nat),
        )
    } else if !all_finite(bytes) {
        Some("Kokoro voice contains non-finite style values"@)
    } else {
        None
    }
}

/// The four bytes from `at` on as a number, least significant first.
fn read_bits(bytes: &[u8], at: usize) -> (bits: u32)
    requires
        at + 4 <= bytes@.len(),
        at % 4 == 0,
    ensures
        bits == little_endian(bytes@, at as int / 4),
{
    bytes[at] as u32 + bytes[at + 1] as u32 * 0x100 + bytes[at + 2] as u32 * 0x1_0000 + bytes[at
        + 3] as u32 * 0x100_0000
}

/// Why a voice has no style for that many phonemes, if it has none.
pub open spec fn style_fault(voice: KokoroVoice, phoneme_count: int) -> Option<Seq<char>> {
    if phoneme_count == 0 {
        Some("Kokoro voice requires at least one phoneme"@)
    } else if phoneme_count > voice.count() {
        Some(
            "Kokoro voice has no style for "@ + decimal(phoneme_count as nat) + " phonemes"@,
        )
    } else {
        None
    }
}

/// The style for that many phonemes.
pub open spec fn style_row(voice: KokoroVoice, phoneme_count: int) -> Seq<u32> {
    let first = (phoneme_count - 1) * voice.width();
    voice.styles().subrange(first, first + voice.width())
}

impl KokoroVoice {
    /// The styles, one after another.
    pub closed spec fn styles(self) -> Seq<u32> {
        self.styles@
    }

    /// How many styles there are.
    pub closed spec fn count(self) -> int {
        self.entries as int
    }

    /// How wide a style is.
    pub closed spec fn width(self) -> int {
        self.style_width as int
    }

    /// The styles fill the storage.
    pub open spec fn wf(self) -> bool {
        &&& self.width() > 0
        &&& self.styles().len() == self.count() * self.width()
        &&& self.styles().len() <= usize::MAX
    }

    /// Reads the styles of a voice from their storage.
    pub fn load(bytes: &[u8], config: &KokoroConfig) -> (outcome: Result<Self, String>)
        requires
            config.style_dim > 0,
            2 * config.style_dim <= usize::MAX,
            config.plbert.max_position_embeddings >= 2,
        ensures
            match outcome {
                Err(message) => voice_fault(bytes@, *config) == Some(message@),
                Ok(voice) => {
                    &&& voice_fault(bytes@, *config) is None
                    &&& voice.wf()
                    &&& voice.width() == 2 * config.style_dim
                    &&& voice.count() == bytes@.len() as int / 4 / voice.width()
                    &&& voice.styles().len() == bytes@.len() / 4
                    &&& forall|i: int|
                        0 <= i < voice.styles().len() ==> #[trigger] voice.styles()[i]
                            == little_endian(bytes@, i)
                },
            },
    {
        if bytes.len() % 4 != 0 {
            return Err("Kokoro voice storage has a partial float32 value".to_owned());
        }
        let values: usize = bytes.len() / 4;
        let style_width: usize = config.style_dim * 2;
        if values % style_width != 0 {
            return Err(
                "Kokoro voice width does not match model style dimension ".to_owned().concat(
                    &to_decimal(config.style_dim as u64),
                ),
            );
        }
        let entries: usize = values / style_width;
        let least: usize = config.plbert.max_position_embeddings - 2;
        if entries < least {
            return Err(
                "Kokoro voice contains ".to_owned().concat(&to_decimal(entries as u64)).concat(
                    " contexts, expected at least ",
                ).concat(&to_decimal(least as u64)),
            );
        }
        let mut styles: Vec<u32> = Vec::new();
        for i in 0..values
            invariant
                values == bytes@.len() / 4,
                bytes@.len() % 4 == 0,
                bytes@.len() <= usize::MAX,
                styles@.len() == i,
                forall|j: int| 0 <= j < i ==> #[trigger] styles@[j] == little_endian(bytes@, j),
                forall|j: int| 0 <= j < i ==> finite(#[trigger] little_endian(bytes@, j)),
                voice_fault(bytes@, *config) is None || voice_fault(bytes@, *config) == Some(
                    "Kokoro voice contains non-finite style values"@,
                ),
        {
            let bits: u32 = read_bits(bytes, 4 * i);
            if !is_finite(bits) {
                assert(!finite(little_endian(bytes@, i as int)));
                return Err("Kokoro voice contains non-finite style values".to_owned());
            }
            styles.push(bits);
        }
        proof {
            assert(values == entries * style_width) by (nonlinear_arith)
                requires
                    entries == values / style_width,
                    values % style_width == 0,
                    style_width > 0,
            ;
        }
        Ok(KokoroVoice { styles, entries, style_width })
    }

    /// How many styles there are.
    pub fn entries(&self) -> (n: usize)
        ensures
            n == self.count(),
    {
        self.entries
    }

    /// How wide a style is.
    pub fn style_width(&self) -> (n: usize)
        ensures
            n == self.width(),
    {
        self.style_width
    }

    /// The style for a number of phonemes: styles are numbered from one.
    pub fn style_for_phoneme_count(&self, phoneme_count: usize) -> (outcome: Result<&[u32], String>)
        requires
            self.wf(),
        ensures
            match outcome {
                Err(message) => style_fault(*self, phoneme_count as int) == Some(message@),
                Ok(style) => {
                    &&& style_fault(*self, phoneme_count as int) is None
                    &&& style@ == style_row(*self, phoneme_count as int)
                    &&& style@.len() == self.width()
                },
            },
    {
        if phoneme_count == 0 {
            return Err("Kokoro voice requires at least one phoneme".to_owned());
        }
        let index: usize = phoneme_count - 1;
        if index >= self.entries {
            return Err(
                "Kokoro voice has no style for ".to_owned().concat(
                    &to_decimal(phoneme_count as u64),
                ).concat(" phonemes"),
            );
        }
        proof {
            crate::layout::lemma_cell(
                self.entries as int,
                self.style_width as int,
                index as int,
                0,
            );
        }
        let offset: usize = index * self.style_width;
        Ok(slice_subrange(self.styles.as_slice(), offset, offset + self.style_width))
    }
}

} // verus!
