//! Special tokens, prompt templates and the wrapped HuggingFace tokenizer.

use vstd::prelude::*;

use crate::error::{ErrorKind, LFM2Error};
use crate::text::{concat2, concat3, concat5, owned, parse_unsigned, parse_unsigned_spec, str_eq};

verus! {

/// Audio codebook constants
pub const NUM_CODEBOOKS: usize = 8;
pub const CODEBOOK_VOCAB: usize = 2049;
pub const END_OF_AUDIO_TOKEN: u16 = 2048;

/// Special token IDs
#[derive(Debug, Clone, Copy, PartialEq, Eq, Structural)]
pub struct SpecialTokens {
    pub pad: u32,
    pub start_of_text: u32,
    pub end_of_text: u32,
    pub im_start: u32,
    pub im_end: u32,
    pub audio_start: u32,
    pub text_start: u32,
    pub text_end: u32,
    pub mixed_start: u32,
    pub mixed_end: u32,
}

/// The special token table of the LFM2.5 vocabulary.
pub open spec fn default_special_tokens() -> SpecialTokens {
    SpecialTokens {
        pad: 0,
        start_of_text: 1,
        end_of_text: 2,
        im_start: 6,
        im_end: 7,
        audio_start: 128,
        text_start: 129,
        text_end: 130,
        mixed_start: 131,
        mixed_end: 132,
    }
}

impl Default for SpecialTokens {
    fn default() -> (s: Self)
        ensures
            s == default_special_tokens(),
    {
        SpecialTokens {
            pad: 0,
            start_of_text: 1,
            end_of_text: 2,
            im_start: 6,
            im_end: 7,
            audio_start: 128,
            text_start: 129,
            text_end: 130,
            mixed_start: 131,
            mixed_end: 132,
        }
    }
}

impl SpecialTokens {
    /// A token that ends the assistant's turn.
    pub open spec fn spec_is_eos(&self, token: u32) -> bool {
        token == self.end_of_text || token == self.im_end
    }

    /// Check if token is end-of-sequence
    pub fn is_eos(&self, token_id: u32) -> (b: bool)
        ensures
            b == self.spec_is_eos(token_id),
    {
        token_id == self.end_of_text || token_id == self.im_end
    }

    /// Check if token is audio start
    pub fn is_audio_start(&self, token_id: u32) -> (b: bool)
        ensures
            b == (token_id == self.audio_start),
    {
        token_id == self.audio_start
    }
}


/// The special token whose content string is `content`, set to `id`.
pub open spec fn with_added_token(s: SpecialTokens, id: u32, content: Seq<char>) -> SpecialTokens {
    if content == "<|pad|>"@ {
        SpecialTokens { pad: id, ..s }
    } else if content == "<|startoftext|>"@ {
        SpecialTokens { start_of_text: id, ..s }
    } else if content == "<|endoftext|>"@ {
        SpecialTokens { end_of_text: id, ..s }
    } else if content == "<|im_start|>"@ {
        SpecialTokens { im_start: id, ..s }
    } else if content == "<|im_end|>"@ {
        SpecialTokens { im_end: id, ..s }
    } else if content == "<|audio_start|>"@ {
        SpecialTokens { audio_start: id, ..s }
    } else if content == "<|text_start|>"@ {
        SpecialTokens { text_start: id, ..s }
    } else if content == "<|text_end|>"@ {
        SpecialTokens { text_end: id, ..s }
    } else if content == "<|mixed_start|>"@ {
        SpecialTokens { mixed_start: id, ..s }
    } else if content == "<|mixed_end|>"@ {
        SpecialTokens { mixed_end: id, ..s }
    } else {
        s
    }
}

/// An added-token entry of `tokenizer_config.json`: its id key and its
/// `content` string, if it has one.
pub type AddedTokenEntry = (Seq<char>, Option<Seq<char>>);

/// The special tokens after applying the entries in order: an entry whose key
/// is a decimal id and whose content names a special token sets that token.
pub open spec fn apply_added_tokens(s: SpecialTokens, entries: Seq<AddedTokenEntry>) -> SpecialTokens
    decreases entries.len(),
{
    if entries.len() == 0 {
        s
    } else {
        let prev = apply_added_tokens(s, entries.drop_last());
        let e = entries.last();
        match (parse_u32_spec(e.0), e.1) {
            (Some(id), Some(content)) => with_added_token(prev, id, content),
            _ => prev,
        }
    }
}

/// `u32::from_str`: an optional `+` followed by one or more ASCII digits whose
/// value fits in `u32`.
pub open spec fn parse_u32_spec(s: Seq<char>) -> Option<u32> {
    match parse_unsigned_spec(s, u32::MAX as nat) {
        Some(v) => Some(v as u32),
        None => None,
    }
}

/// Parse a decimal `u32` as `str::parse::<u32>` does.
pub fn parse_u32(s: &str) -> (r: Option<u32>)
    ensures
        r == parse_u32_spec(s@),
{
    match parse_unsigned(s, 4294967295u64) {
        Some(v) => Some(v as u32),
        None => None,
    }
}

/// The added-token entries of a `tokenizer_config.json` text, as
/// `serde_json` parses it: `None` when the text is not valid JSON, `Some(None)`
/// when it has no `added_tokens_decoder` object, else the entries of that
/// object in the order the parser's map yields them.
pub uninterp spec fn json_added_tokens(config_json: Seq<char>) -> Option<Option<Seq<AddedTokenEntry>>>;

pub open spec fn entries_view(v: Seq<(String, Option<String>)>) -> Seq<AddedTokenEntry> {
    v.map_values(
        |e: (String, Option<String>)|
            (
                e.0@,
                match e.1 {
                    Some(c) => Some(c@),
                    None => None,
                },
            ),
    )
}

/// `serde_json::from_str` on the text of `tokenizer_config.json`, then the
/// `added_tokens_decoder` object read into plain values: for every member its
/// key and the string under its `content` field. The result depends on the
/// text alone and is named [`json_added_tokens`]; the JSON grammar is not
/// stated here. On a parse error, the parser's message is returned.
#[verifier::external_body]
fn read_added_tokens(config_json: &str) -> (r: Result<Option<Vec<(String, Option<String>)>>, String>)
    ensures
        r is Err <==> json_added_tokens(config_json@) is None,
        r matches Ok(Some(v)) ==> json_added_tokens(config_json@) == Some(
            Some(entries_view(v@)),
        ),
        r matches Ok(None) ==> json_added_tokens(config_json@) == Some(
            None::<Seq<AddedTokenEntry>>,
        ),
{
    let value: serde_json::Value = serde_json::from_str(config_json).map_err(|e| format!("{}", e))?;
    Ok(value.get("added_tokens_decoder").and_then(|d| d.as_object()).map(|obj| {
        obj.iter().map(|(k, v)| (k.clone(), v.get("content").and_then(|c| c.as_str()).map(|c| c.to_string()))).collect()
    }))
}

impl SpecialTokens {
    /// Set the special token named by `content` to `id`.
    fn set_by_content(&mut self, id: u32, content: &str)
        ensures
            *final(self) == with_added_token(*old(self), id, content@),
    {
        if str_eq(content, "<|pad|>") {
            self.pad = id;
        } else if str_eq(content, "<|startoftext|>") {
            self.start_of_text = id;
        } else if str_eq(content, "<|endoftext|>") {
            self.end_of_text = id;
        } else if str_eq(content, "<|im_start|>") {
            self.im_start = id;
        } else if str_eq(content, "<|im_end|>") {
            self.im_end = id;
        } else if str_eq(content, "<|audio_start|>") {
            self.audio_start = id;
        } else if str_eq(content, "<|text_start|>") {
            self.text_start = id;
        } else if str_eq(content, "<|text_end|>") {
            self.text_end = id;
        } else if str_eq(content, "<|mixed_start|>") {
            self.mixed_start = id;
        } else if str_eq(content, "<|mixed_end|>") {
            self.mixed_end = id;
        }
    }

    /// The default special tokens updated by the added-token entries.
    pub fn from_added_tokens(entries: &Vec<(String, Option<String>)>) -> (s: SpecialTokens)
        ensures
            s == apply_added_tokens(default_special_tokens(), entries_view(entries@)),
    {
        let mut special = SpecialTokens::default();
        let n = entries.len();
        let mut i: usize = 0;
        while i < n
            invariant
                n == entries.len(),
                i <= n,
                special == apply_added_tokens(
                    default_special_tokens(),
                    entries_view(entries@.subrange(0, i as int)),
                ),
            decreases n - i,
        {
            let (id_str, content) = &entries[i];
            proof {
                assert(entries_view(entries@.subrange(0, i + 1)).drop_last() =~= entries_view(
                    entries@.subrange(0, i as int),
                ));
            }
            match parse_u32(id_str.as_str()) {
                Some(id) => match content {
                    Some(c) => special.set_by_content(id, c.as_str()),
                    None => {},
                },
                None => {},
            }
            i = i + 1;
        }
        proof {
            assert(entries@.subrange(0, n as int) =~= entries@);
        }
        special
    }

    /// Special tokens from the text of `tokenizer_config.json`, if the file
    /// exists; the defaults otherwise.
    pub fn from_tokenizer_config(config_json: Option<&str>) -> (r: Result<SpecialTokens, LFM2Error>)
        ensures
            config_json is None ==> r == Ok::<SpecialTokens, LFM2Error>(default_special_tokens()),
            config_json matches Some(t) ==> (r is Err <==> json_added_tokens(t@) is None),
            config_json matches Some(t) ==> (r matches Err(e) ==> e@.0 == ErrorKind::Serialization),
            config_json matches Some(t) ==> (json_added_tokens(t@) matches Some(Some(es)) ==> r
                == Ok::<SpecialTokens, LFM2Error>(apply_added_tokens(default_special_tokens(), es))),
            config_json matches Some(t) ==> (json_added_tokens(t@) matches Some(None) ==> r
                == Ok::<SpecialTokens, LFM2Error>(default_special_tokens())),
    {
        match config_json {
            None => Ok(SpecialTokens::default()),
            Some(text) => match read_added_tokens(text) {
                Err(message) => Err(LFM2Error::Serialization(message)),
                Ok(None) => Ok(SpecialTokens::default()),
                Ok(Some(entries)) => Ok(SpecialTokens::from_added_tokens(&entries)),
            },
        }
    }
}

/// `<|im_end|>\n<|im_start|>assistant\n`: closes the user turn and opens the
/// assistant's.
pub open spec fn assistant_suffix() -> Seq<char> {
    "<|im_end|>\n<|im_start|>assistant\n"@
}

/// A conversation opening with a system prompt, up to the user's content.
pub open spec fn system_then_user(system: Seq<char>) -> Seq<char> {
    "<|startoftext|><|im_start|>system\n"@ + system + "<|im_end|>\n<|im_start|>user\n"@
}

/// A complete user turn with the system prompt, ready for the assistant.
pub open spec fn chat_prompt(system: Seq<char>, user_text: Seq<char>) -> Seq<char> {
    system_then_user(system) + user_text + assistant_suffix()
}

/// A follow-up user turn in an ongoing conversation, ready for the assistant.
pub open spec fn continuation_prompt(user_text: Seq<char>) -> Seq<char> {
    "<|im_start|>user\n"@ + user_text + assistant_suffix()
}

/// Prompt prefix of an ASR request or of an audio turn with the system prompt.
pub fn system_prompt_prefix(system: &str) -> (r: String)
    ensures
        r@ == system_then_user(system@),
{
    concat3("<|startoftext|><|im_start|>system\n", system, "<|im_end|>\n<|im_start|>user\n")
}

/// Prompt prefix of an audio turn later in a conversation.
pub fn user_turn_prefix() -> (r: String)
    ensures
        r@ == "<|im_start|>user\n"@,
{
    owned("<|im_start|>user\n")
}

/// The suffix that follows the user's content.
pub fn assistant_turn_suffix() -> (r: String)
    ensures
        r@ == assistant_suffix(),
{
    owned("<|im_end|>\n<|im_start|>assistant\n")
}

/// A complete text turn: with the system prompt at the start of a
/// conversation, else as a continuation.
pub fn text_turn_prompt(system: &str, user_text: &str, include_system_prompt: bool) -> (r: String)
    ensures
        include_system_prompt ==> r@ == chat_prompt(system@, user_text@),
        !include_system_prompt ==> r@ == continuation_prompt(user_text@),
{
    if include_system_prompt {
        concat5(
            "<|startoftext|><|im_start|>system\n",
            system,
            "<|im_end|>\n<|im_start|>user\n",
            user_text,
            "<|im_end|>\n<|im_start|>assistant\n",
        )
    } else {
        concat3("<|im_start|>user\n", user_text, "<|im_end|>\n<|im_start|>assistant\n")
    }
}

/// The prompt prefix of an audio turn: with the system prompt at the start of
/// a conversation, else just the opening of the user turn.
pub fn audio_turn_prefix(system: &str, include_system_prompt: bool) -> (r: String)
    ensures
        include_system_prompt ==> r@ == system_then_user(system@),
        !include_system_prompt ==> r@ == "<|im_start|>user\n"@,
{
    if include_system_prompt {
        system_prompt_prefix(system)
    } else {
        user_turn_prefix()
    }
}

#[verifier::external_type_specification]
#[verifier::external_body]
pub struct ExHfTokenizer(tokenizers::Tokenizer);

/// Whether `tokenizers` accepts the bytes as a serialized tokenizer.
pub uninterp spec fn tokenizer_json_accepted(json: Seq<u8>) -> bool;

/// The token ids `tokenizers` encodes the text to with the tokenizer
/// serialized as `json`, or `None` when encoding fails.
pub uninterp spec fn tokenizer_encoding(json: Seq<u8>, text: Seq<char>, add_special_tokens: bool) -> Option<Seq<u32>>;

/// The text `tokenizers` decodes the ids to with the tokenizer serialized as
/// `json`, or `None` when decoding fails.
pub uninterp spec fn tokenizer_decoding(json: Seq<u8>, ids: Seq<u32>, skip_special_tokens: bool) -> Option<Seq<char>>;

/// The vocabulary size of the tokenizer serialized as `json`, added tokens
/// included.
pub uninterp spec fn tokenizer_vocab_size(json: Seq<u8>) -> usize;

/// Whether `serde_json` reads the bytes as one JSON document.
pub uninterp spec fn json_document_parses(json: Seq<u8>) -> bool;

/// `serde_json::from_slice` into a `serde_json::Value`: whether the bytes are
/// one well-formed JSON document. The result depends on the bytes alone; the
/// JSON grammar is not stated here. The parse error is returned as its
/// message.
#[verifier::external_body]
fn check_json_document(json: &[u8]) -> (r: Result<(), String>)
    ensures
        r is Ok <==> json_document_parses(json@),
{
    serde_json::from_slice::<serde_json::Value>(json).map(|_| ()).map_err(|e| format!("{}", e))
}

/// The bytes of the word `Precompiled`.
pub open spec fn precompiled_bytes() -> Seq<u8> {
    seq![0x50u8, 0x72, 0x65, 0x63, 0x6f, 0x6d, 0x70, 0x69, 0x6c, 0x65, 0x64]
}

/// At `i` the bytes hold either the word `Precompiled` or a JSON `\u00XX`
/// escape of a character from `@` to DEL, which covers every escaped ASCII
/// letter.
pub open spec fn may_spell_precompiled_at(json: Seq<u8>, i: int) -> bool {
    ||| (i + 11 <= json.len() && json.subrange(i, i + 11) == precompiled_bytes())
    ||| (i + 5 <= json.len() && json[i] == 0x5c && json[i + 1] == 0x75 && json[i + 2] == 0x30
        && json[i + 3] == 0x30 && 0x34 <= json[i + 4] <= 0x37)
}

/// Whether some JSON string of the bytes could read `Precompiled`: the word is
/// there as it is, or some ASCII letter is written as an escape.
pub open spec fn may_spell_precompiled(json: Seq<u8>) -> bool {
    exists|i: int| 0 <= i < json.len() && #[trigger] may_spell_precompiled_at(json, i)
}

/// Test [`may_spell_precompiled`].
pub fn mentions_precompiled(json: &[u8]) -> (b: bool)
    ensures
        b == may_spell_precompiled(json@),
{
    let n = json.len();
    let word: [u8; 11] = [0x50u8, 0x72, 0x65, 0x63, 0x6f, 0x6d, 0x70, 0x69, 0x6c, 0x65, 0x64];
    assert(word@ == precompiled_bytes());
    let mut i: usize = 0;
    while i < n
        invariant
            n == json@.len(),
            i <= n,
            word@ == precompiled_bytes(),
            forall|j: int| 0 <= j < i ==> !#[trigger] may_spell_precompiled_at(json@, j),
        decreases n - i,
    {
        if n - i >= 5 && json[i] == 0x5c && json[i + 1] == 0x75 && json[i + 2] == 0x30
            && json[i + 3] == 0x30 && 0x34 <= json[i + 4] && json[i + 4] <= 0x37 {
            assert(may_spell_precompiled_at(json@, i as int));
            return true;
        }
        if n - i >= 11 {
            let mut k: usize = 0;
            while k < 11 && json[i + k] == word[k]
                invariant
                    k <= 11,
                    i + 11 <= n,
                    n == json@.len(),
                    forall|m: int| 0 <= m < k ==> json@[i + m] == word@[m],
                decreases 11 - k,
            {
                k = k + 1;
            }
            if k == 11 {
                assert(json@.subrange(i as int, i + 11) =~= precompiled_bytes());
                assert(may_spell_precompiled_at(json@, i as int));
                return true;
            }
            assert(json@.subrange(i as int, i + 11)[k as int] != precompiled_bytes()[k as int]);
        }
        i = i + 1;
    }
    false
}

/// `tokenizers::Tokenizer::from_bytes`: deserialize a tokenizer from its JSON
/// serialization (the content of `tokenizer.json`). Whether it succeeds
/// depends on the bytes alone; the error is returned as its message.
///
/// Two inputs make it panic rather than fail: bytes that are not one JSON
/// document (the decoder is read with `expect("Helper")`), and a normalizer of
/// type `Precompiled` whose data does not load (read with
/// `expect("Precompiled")`). `requires` leaves both out: the bytes parse as
/// JSON and no string in them can read `Precompiled`.
#[verifier::external_body]
fn hf_tokenizer_from_bytes(json: &[u8]) -> (r: Result<tokenizers::Tokenizer, String>)
    requires
        json_document_parses(json@),
        !may_spell_precompiled(json@),
    ensures
        r is Ok <==> tokenizer_json_accepted(json@),
{
    tokenizers::Tokenizer::from_bytes(json).map_err(|e| format!("{}", e))
}

/// Whether the tokenizer serialized as `json` segments text at random: a BPE
/// model with a dropout, or a Unigram model with a sampling `alpha`.
pub uninterp spec fn tokenizer_samples(json: Seq<u8>) -> bool;

/// Wrapped tokenizer with special token handling
pub struct LFM2Tokenizer {
    tokenizer: tokenizers::Tokenizer,
    special: SpecialTokens,
    /// The serialization the tokenizer was built from
    source: Ghost<Seq<u8>>,
}

impl LFM2Tokenizer {
    /// The serialization (`tokenizer.json`) this tokenizer was built from.
    pub closed spec fn source(&self) -> Seq<u8> {
        self.source@
    }

    pub closed spec fn spec_special(&self) -> SpecialTokens {
        self.special
    }

    /// Build the tokenizer from the content of `tokenizer.json` and the
    /// special tokens of `tokenizer_config.json`.
    ///
    /// Bytes that are not one JSON document, and bytes in which some string
    /// could read `Precompiled`, are refused before `tokenizers` sees them.
    pub fn from_json(tokenizer_json: &[u8], special: SpecialTokens) -> (r: Result<Self, LFM2Error>)
        ensures
            r is Ok <==> json_document_parses(tokenizer_json@) && !may_spell_precompiled(
                tokenizer_json@,
            ) && tokenizer_json_accepted(tokenizer_json@),
            r matches Ok(t) ==> t.source() == tokenizer_json@ && t.spec_special() == special,
            r matches Err(e) ==> e@.0 == ErrorKind::Tokenizer && "Failed to load tokenizer: "@.is_prefix_of(e@.1),
    {
        proof {
            reveal_strlit("Failed to load tokenizer: ");
        }
        match check_json_document(tokenizer_json) {
            Ok(()) => {},
            Err(message) => {
                let m = concat2("Failed to load tokenizer: ", message.as_str());
                proof {
                    assert(m@.subrange(0, "Failed to load tokenizer: "@.len() as int) =~= "Failed to load tokenizer: "@);
                }
                return Err(LFM2Error::Tokenizer(m));
            },
        }
        if mentions_precompiled(tokenizer_json) {
            let m = owned("Failed to load tokenizer: Precompiled normalizers are not supported");
            proof {
                reveal_strlit("Failed to load tokenizer: Precompiled normalizers are not supported");
                assert(m@.subrange(0, "Failed to load tokenizer: "@.len() as int) =~= "Failed to load tokenizer: "@);
            }
            return Err(LFM2Error::Tokenizer(m));
        }
        match hf_tokenizer_from_bytes(tokenizer_json) {
            Ok(tokenizer) => Ok(LFM2Tokenizer { tokenizer, special, source: Ghost(tokenizer_json@) }),
            Err(message) => {
                let m = concat2("Failed to load tokenizer: ", message.as_str());
                proof {
                    assert(m@.subrange(0, "Failed to load tokenizer: "@.len() as int) =~= "Failed to load tokenizer: "@);
                }
                Err(LFM2Error::Tokenizer(m))
            },
        }
    }

    /// Whether the model of `tokenizers::Tokenizer::get_model` samples its
    /// segmentation: a BPE model with a dropout or a Unigram model with an
    /// `alpha` set.
    #[verifier::external_body]
    fn hf_samples_segmentation(&self) -> (b: bool)
        ensures
            b == tokenizer_samples(self.source()),
    {
        match self.tokenizer.get_model() {
            tokenizers::models::ModelWrapper::BPE(bpe) => bpe.dropout.is_some(),
            tokenizers::models::ModelWrapper::Unigram(unigram) => unigram.alpha.is_some(),
            _ => false,
        }
    }

    /// Whether encoding with this tokenizer draws random numbers, so that two
    /// encodings of one text may differ.
    pub fn samples_segmentation(&self) -> (b: bool)
        ensures
            b == tokenizer_samples(self.source()),
    {
        self.hf_samples_segmentation()
    }

    /// `tokenizers::Tokenizer::encode` on a single text, then the ids of the
    /// encoding; the error is returned as its message. When the model samples
    /// its segmentation (BPE dropout, Unigram `alpha`) the ids are drawn at
    /// random and nothing is stated of them; otherwise they are a function of
    /// the serialization, the text and the flag.
    #[verifier::external_body]
    fn hf_encode(&self, text: &str, add_special_tokens: bool) -> (r: Result<Vec<u32>, String>)
        ensures
            !tokenizer_samples(self.source()) ==> (r is Ok <==> tokenizer_encoding(
                self.source(),
                text@,
                add_special_tokens,
            ) is Some),
            !tokenizer_samples(self.source()) ==> (r matches Ok(ids) ==> Some(ids@)
                == tokenizer_encoding(self.source(), text@, add_special_tokens)),
    {
        self.tokenizer.encode(text, add_special_tokens).map(|e| e.get_ids().to_vec()).map_err(|e| format!("{}", e))
    }

    /// `tokenizers::Tokenizer::decode`; the error is returned as its message.
    #[verifier::external_body]
    fn hf_decode(&self, ids: &[u32], skip_special_tokens: bool) -> (r: Result<String, String>)
        ensures
            r is Ok <==> tokenizer_decoding(self.source(), ids@, skip_special_tokens) is Some,
            r matches Ok(text) ==> Some(text@) == tokenizer_decoding(self.source(), ids@, skip_special_tokens),
    {
        self.tokenizer.decode(ids, skip_special_tokens).map_err(|e| format!("{}", e))
    }

    /// `tokenizers::Tokenizer::get_vocab_size` with added tokens.
    #[verifier::external_body]
    fn hf_vocab_size(&self) -> (n: usize)
        ensures
            n == tokenizer_vocab_size(self.source()),
    {
        self.tokenizer.get_vocab_size(true)
    }

    /// Encode text to token IDs
    pub fn encode(&self, text: &str, add_special_tokens: bool) -> (r: Result<Vec<u32>, LFM2Error>)
        ensures
            !tokenizer_samples(self.source()) ==> (r is Ok <==> tokenizer_encoding(
                self.source(),
                text@,
                add_special_tokens,
            ) is Some),
            !tokenizer_samples(self.source()) ==> (r matches Ok(ids) ==> Some(ids@)
                == tokenizer_encoding(self.source(), text@, add_special_tokens)),
            r matches Err(e) ==> e@.0 == ErrorKind::Tokenizer,
    {
        match self.hf_encode(text, add_special_tokens) {
            Ok(ids) => Ok(ids),
            Err(message) => Err(LFM2Error::Tokenizer(message)),
        }
    }

    /// Decode token IDs to text
    pub fn decode(&self, ids: &[u32], skip_special_tokens: bool) -> (r: Result<String, LFM2Error>)
        ensures
            r is Ok <==> tokenizer_decoding(self.source(), ids@, skip_special_tokens) is Some,
            r matches Ok(text) ==> Some(text@) == tokenizer_decoding(self.source(), ids@, skip_special_tokens),
            r matches Err(e) ==> e@.0 == ErrorKind::Tokenizer,
    {
        match self.hf_decode(ids, skip_special_tokens) {
            Ok(text) => Ok(text),
            Err(message) => Err(LFM2Error::Tokenizer(message)),
        }
    }

    /// Get special tokens
    pub fn special_tokens(&self) -> (s: &SpecialTokens)
        ensures
            *s == self.spec_special(),
    {
        &self.special
    }

    /// Build chat prompt for ASR
    pub fn build_asr_prompt(&self, system_prompt: Option<&str>) -> (r: String)
        ensures
            r@ == system_then_user(
                match system_prompt {
                    Some(s) => s@,
                    None => "Perform ASR."@,
                },
            ),
    {
        let system = match system_prompt {
            Some(s) => s,
            None => "Perform ASR.",
        };
        system_prompt_prefix(system)
    }

    /// Build chat prompt for TTS
    pub fn build_tts_prompt(&self, text: &str, voice: Option<&str>) -> (r: String)
        ensures
            r@ == chat_prompt(
                "Perform TTS. "@ + match voice {
                    Some(v) => v@,
                    None => "Use the UK female voice."@,
                },
                text@,
            ),
    {
        let voice_desc = match voice {
            Some(v) => v,
            None => "Use the UK female voice.",
        };
        let system = concat2("Perform TTS. ", voice_desc);
        text_turn_prompt(system.as_str(), text, true)
    }

    /// Build suffix for assistant response
    pub fn build_assistant_suffix(&self) -> (r: String)
        ensures
            r@ == assistant_suffix(),
    {
        assistant_turn_suffix()
    }

    /// Check if token is end-of-sequence
    pub fn is_eos(&self, token_id: u32) -> (b: bool)
        ensures
            b == self.spec_special().spec_is_eos(token_id),
    {
        self.special.is_eos(token_id)
    }

    /// Check if token is audio start
    pub fn is_audio_start(&self, token_id: u32) -> (b: bool)
        ensures
            b == (token_id == self.spec_special().audio_start),
    {
        self.special.is_audio_start(token_id)
    }

    /// Get vocab size
    pub fn vocab_size(&self) -> (n: usize)
        ensures
            n == tokenizer_vocab_size(self.source()),
    {
        self.hf_vocab_size()
    }
}
} // verus!
