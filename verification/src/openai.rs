//! Decisions of the streaming image client: the request it sends, what each
//! stream event means, when the stream has produced an image, and the
//! errors it reports.
//!
//! The HTTP exchange happens outside the library; the status, the body and
//! the event payloads are handed in as plain values. The typed reading of an
//! event (a serde derive) is handed in too.
use vstd::prelude::*;

use base64::Engine;

use crate::pricing::TokenUsage;
use crate::text::{
    chars_of, decimal, lemma_encode_scalar_len, lemma_encode_utf8_append, lemma_utf8_len_push,
    push_decimal, trim, trim_ws, utf8_len, utf8_width, utf8_width_of,
};
use vstd::utf8::*;

verus! {

#[verifier::external_type_specification]
#[verifier::external_body]
pub struct ExJsonError(serde_json::Error);

#[verifier::external_type_specification]
#[verifier::external_body]
pub struct ExDecodeError(base64::DecodeError);

/// Number of partial images requested with every generation.
pub const PARTIAL_IMAGE_COUNT: u8 = 1;

/// Longest error body kept, in bytes, before `...` is added.
pub const MAX_ERROR_BODY_LENGTH: usize = 2_000;

// ---------------------------------------------------------------------------
// Outside calls
// ---------------------------------------------------------------------------

/// Name for what `base64::engine::general_purpose::STANDARD.decode` gives
/// for the UTF-8 bytes of `text`: the decoded bytes, or `None` when it
/// reports an error.
pub uninterp spec fn standard_base64_decoding(text: Seq<char>) -> Option<Seq<u8>>;

/// Calls `base64::engine::general_purpose::STANDARD.decode` (standard
/// alphabet, canonical padding). The contract only names the result; which
/// `DecodeError` comes back on failure is left unsaid.
#[verifier::external_body]
fn decode_standard_base64(text: &str) -> (res: Result<Vec<u8>, base64::DecodeError>)
    ensures
        match standard_base64_decoding(text@) {
            Some(bytes) => res matches Ok(v) && v@ == bytes,
            None => res is Err,
        },
{
    base64::engine::general_purpose::STANDARD.decode(text)
}

/// Name for `String::from_utf8_lossy`: the text of `bytes`, each invalid
/// sequence replaced by U+FFFD.
pub uninterp spec fn utf8_lossy(bytes: Seq<u8>) -> Seq<char>;

/// Calls `String::from_utf8_lossy`. The contract names the result and states
/// what its documentation promises: valid UTF-8 comes back unchanged.
#[verifier::external_body]
fn lossy_utf8_text(bytes: &[u8]) -> (text: String)
    ensures
        text@ == utf8_lossy(bytes@),
        valid_utf8(bytes@) ==> text@ == decode_utf8(bytes@),
{
    String::from_utf8_lossy(bytes).into_owned()
}

/// Name for what `serde_json` makes of `bytes` and the member `key`: `None`
/// when `bytes` is not a JSON document, `Some(None)` when the document has
/// no top-level member `key` (or is not an object), and `Some(Some(t))` when
/// it has one, `t` being that member written back as compact JSON.
pub uninterp spec fn json_member_text(bytes: Seq<u8>, key: Seq<char>) -> Option<Option<Seq<char>>>;

/// Calls `serde_json::from_slice::<serde_json::Value>`, then `Value::get`
/// with `key` and `Value::to_string` on the member found. The contract names
/// the outcome; which `serde_json::Error` comes back is left unsaid.
#[verifier::external_body]
fn json_member(data: &[u8], key: &str) -> (res: Result<Option<String>, serde_json::Error>)
    ensures
        match json_member_text(data@, key@) {
            None => res is Err,
            Some(None) => res matches Ok(None),
            Some(Some(t)) => res matches Ok(Some(s)) && s@ == t,
        },
{
    let value: serde_json::Value = serde_json::from_slice(data)?;
    Ok(value.get(key).map(serde_json::Value::to_string))
}

/// Calls `<serde_json::Error as Display>` through `to_string`. Nothing is
/// stated of the text.
#[verifier::external_body]
fn json_error_text(error: &serde_json::Error) -> String {
    error.to_string()
}

/// Calls `<base64::DecodeError as Display>` through `to_string`. Nothing is
/// stated of the text.
#[verifier::external_body]
fn decode_error_text(error: &base64::DecodeError) -> String {
    error.to_string()
}

// ---------------------------------------------------------------------------
// Error bodies
// ---------------------------------------------------------------------------

/// Number of leading characters of `s` whose UTF-8 encoding fits in `budget` bytes.
pub open spec fn fit_prefix_len(s: Seq<char>, budget: int) -> nat
    decreases s.len(),
{
    if s.len() > 0 && utf8_width(s[0]) <= budget {
        1 + fit_prefix_len(s.drop_first(), budget - utf8_width(s[0]))
    } else {
        0
    }
}

/// The characters `...`.
pub open spec fn ellipsis() -> Seq<char> {
    seq!['.', '.', '.']
}

/// An error body as it is reported: trimmed, and if longer than
/// `MAX_ERROR_BODY_LENGTH` bytes, cut at a character boundary to at most that
/// many bytes and followed by `...`.
pub open spec fn compact_text(body: Seq<char>) -> Seq<char> {
    let t = trim_ws(body);
    if utf8_len(t) <= MAX_ERROR_BODY_LENGTH {
        t
    } else {
        t.take(fit_prefix_len(t, MAX_ERROR_BODY_LENGTH as int) as int) + ellipsis()
    }
}

proof fn lemma_fit_prefix_bytes(s: Seq<char>, budget: int)
    requires
        budget >= 0,
    ensures
        fit_prefix_len(s, budget) <= s.len(),
        utf8_len(s.take(fit_prefix_len(s, budget) as int)) <= budget,
    decreases s.len(),
{
    if s.len() > 0 && utf8_width(s[0]) <= budget {
        let w = utf8_width(s[0]);
        let f = fit_prefix_len(s.drop_first(), budget - w);
        lemma_fit_prefix_bytes(s.drop_first(), budget - w);
        let taken = s.take(1 + f as int);
        assert(taken.drop_first() =~= s.drop_first().take(f as int));
        assert(taken[0] == s[0]);
        lemma_encode_scalar_len(s[0]);
    } else {
        assert(s.take(0) =~= Seq::<char>::empty());
        assert(encode_utf8(Seq::<char>::empty()) =~= Seq::<u8>::empty());
    }
}

/// Trims `body` and, when it exceeds `MAX_ERROR_BODY_LENGTH` bytes, cuts it at
/// a character boundary and appends `...`.
pub fn compact_body(body: &str) -> (compacted: String)
    ensures
        compacted@ == compact_text(body@),
{
    let t = trim(body);
    let chars = chars_of(t);
    let n = chars.len();
    let mut used: usize = 0;
    let mut k: usize = 0;
    assert(t@.skip(0) =~= t@);
    assert(t@.take(0) =~= Seq::<char>::empty());
    assert(encode_utf8(Seq::<char>::empty()) =~= Seq::<u8>::empty());
    while k < n && utf8_width_of(chars[k]) <= MAX_ERROR_BODY_LENGTH - used
        invariant
            k <= n,
            n == t@.len(),
            chars@ == t@,
            used <= MAX_ERROR_BODY_LENGTH,
            used == utf8_len(t@.take(k as int)),
            fit_prefix_len(t@, MAX_ERROR_BODY_LENGTH as int) == k + fit_prefix_len(
                t@.skip(k as int),
                MAX_ERROR_BODY_LENGTH - used,
            ),
        decreases n - k,
    {
        let w = utf8_width_of(chars[k]);
        assert(t@.skip(k as int).drop_first() =~= t@.skip(k + 1));
        assert(t@.skip(k as int)[0] == t@[k as int]);
        assert(t@.take(k + 1) =~= t@.take(k as int).push(t@[k as int]));
        proof {
            lemma_utf8_len_push(t@.take(k as int), t@[k as int]);
        }
        used = used + w;
        k = k + 1;
    }
    assert(fit_prefix_len(t@.skip(k as int), MAX_ERROR_BODY_LENGTH - used) == 0);
    if k == n {
        // every character fits: the trimmed body is short enough
        assert(t@.take(k as int) =~= t@);
        return t.to_owned();
    }
    proof {
        // the body is too long: the first `k + 1` characters already exceed the limit
        assert(t@.take(k + 1) =~= t@.take(k as int).push(t@[k as int]));
        lemma_utf8_len_push(t@.take(k as int), t@[k as int]);
        assert(t@ =~= t@.take(k + 1) + t@.skip(k + 1));
        lemma_encode_utf8_append(t@.take(k + 1), t@.skip(k + 1));
    }
    proof {
        reveal_strlit("...");
    }
    let mut compacted = t.substring_char(0, k).to_owned();
    compacted.append("...");
    assert(t@.subrange(0, k as int) =~= t@.take(k as int));
    compacted
}

// ---------------------------------------------------------------------------
// Stream events
// ---------------------------------------------------------------------------

/// Token details of the input of a generation, as the API reports them.
#[derive(Debug, Clone, Copy, PartialEq, Eq, Structural)]
pub struct ApiInputTokenDetails {
    pub text_tokens: u64,
    pub image_tokens: u64,
}

/// Token usage of a generation, as the API reports it.
#[derive(Debug, Clone, Copy, PartialEq, Eq, Structural)]
pub struct ApiUsage {
    pub input_tokens: u64,
    pub output_tokens: u64,
    pub input_tokens_details: Option<ApiInputTokenDetails>,
}

/// The pricing view of an API usage report: the input split into text and
/// image tokens when the report gives the split, all text otherwise.
pub open spec fn token_usage_of(usage: ApiUsage) -> TokenUsage {
    let (text, image) = match usage.input_tokens_details {
        Some(details) => (details.text_tokens, details.image_tokens),
        None => (usage.input_tokens, 0u64),
    };
    TokenUsage {
        text_input_tokens: text,
        image_input_tokens: image,
        image_output_tokens: usage.output_tokens,
    }
}

impl vstd::std_specs::convert::FromSpecImpl<ApiUsage> for TokenUsage {
    open spec fn obeys_from_spec() -> bool {
        true
    }

    open spec fn from_spec(v: ApiUsage) -> Self {
        token_usage_of(v)
    }
}

impl From<ApiUsage> for TokenUsage {
    fn from(usage: ApiUsage) -> (converted: Self)
        ensures
            converted.image_output_tokens == usage.output_tokens,
            match usage.input_tokens_details {
                Some(details) => converted.text_input_tokens == details.text_tokens
                    && converted.image_input_tokens == details.image_tokens,
                None => converted.text_input_tokens == usage.input_tokens
                    && converted.image_input_tokens == 0,
            },
    {
        let (text_input_tokens, image_input_tokens) = match usage.input_tokens_details {
            Some(details) => (details.text_tokens, details.image_tokens),
            None => (usage.input_tokens, 0),
        };
        TokenUsage {
            text_input_tokens,
            image_input_tokens,
            image_output_tokens: usage.output_tokens,
        }
    }
}

/// A stream event, by its `type`.
#[derive(Debug)]
pub enum StreamEvent {
    /// `image_generation.partial_image`
    PartialImage { partial_image_index: u8 },
    /// `image_generation.completed`
    Completed { b64_json: String, usage: Option<ApiUsage> },
}

/// Progress reported while the image is generated.
#[derive(Debug, Clone, Copy, PartialEq, Eq, Structural)]
pub struct ImageProgress {
    pub partial_image_index: u8,
}

/// The final image of a generation.
#[derive(Debug)]
pub struct GeneratedImage {
    pub bytes: Vec<u8>,
    pub usage: Option<TokenUsage>,
}

/// What one event of the stream amounts to.
#[derive(Debug)]
pub enum StreamStep {
    /// Nothing: an empty payload or the `[DONE]` marker.
    Ignored,
    /// A partial image was produced.
    Progress(ImageProgress),
    /// The final image.
    Completed(GeneratedImage),
}

/// Errors of the image client.
#[derive(Debug)]
pub enum OpenAiError {
    /// The API answered with a non-success HTTP status.
    Api { status: u16, body: String },
    /// The stream carried an error object.
    StreamApi { body: String },
    /// An event payload could not be read.
    InvalidStreamEvent { source: serde_json::Error, body: String },
    /// The stream ended before the completed event.
    StreamEndedWithoutCompletion,
    /// The completed event carried no image bytes.
    MissingImageData,
    /// The image of the completed event is not valid base64.
    DecodeImage(base64::DecodeError),
    /// The prompt is blank.
    EmptyPrompt,
}

/// The bytes `[DONE]`.
pub open spec fn done_marker() -> Seq<u8> {
    seq![91u8, 68u8, 79u8, 78u8, 69u8, 93u8]
}

/// Payloads that carry no event: empty, or starting with `[DONE]`.
pub open spec fn is_ignored_payload(data: Seq<u8>) -> bool {
    data.len() == 0 || (data.len() >= 6 && data.take(6) == done_marker())
}

/// `usage` converted to the pricing view.
pub open spec fn usage_view(usage: Option<ApiUsage>) -> Option<TokenUsage> {
    match usage {
        Some(u) => Some(token_usage_of(u)),
        None => None,
    }
}

fn is_ignored(data: &[u8]) -> (ignored: bool)
    ensures
        ignored == is_ignored_payload(data@),
{
    if data.len() == 0 {
        return true;
    }
    if data.len() < 6 {
        return false;
    }
    let ignored = data[0] == 91u8 && data[1] == 68u8 && data[2] == 79u8 && data[3] == 78u8
        && data[4] == 69u8 && data[5] == 93u8;
    proof {
        if ignored {
            assert(data@.take(6) =~= done_marker());
        } else if data@.take(6) == done_marker() {
            assert(data@.take(6)[0] == done_marker()[0]);
            assert(data@.take(6)[1] == done_marker()[1]);
            assert(data@.take(6)[2] == done_marker()[2]);
            assert(data@.take(6)[3] == done_marker()[3]);
            assert(data@.take(6)[4] == done_marker()[4]);
            assert(data@.take(6)[5] == done_marker()[5]);
        }
    }
    ignored
}

/// The error for a payload that could not be read.
fn invalid_event(data: &[u8], source: serde_json::Error) -> (error: OpenAiError)
    ensures
        error matches OpenAiError::InvalidStreamEvent { source: s, body } && s == source && body@
            == compact_text(utf8_lossy(data@)),
{
    let text = lossy_utf8_text(data);
    OpenAiError::InvalidStreamEvent { source, body: compact_body(text.as_str()) }
}

/// What the completed image is, given the decoding of its base64 text
/// (`decoded`) and the usage reported with it.
pub open spec fn completed_image_outcome(
    decoded: Result<Vec<u8>, base64::DecodeError>,
    usage: Option<ApiUsage>,
    res: Result<GeneratedImage, OpenAiError>,
) -> bool {
    match decoded {
        Err(e) => res matches Err(OpenAiError::DecodeImage(d)) && d == e,
        Ok(bytes) => if bytes@.len() == 0 {
            res matches Err(OpenAiError::MissingImageData)
        } else {
            res matches Ok(image) && image.bytes@ == bytes@ && image.usage == usage_view(usage)
        },
    }
}

/// The image of a completed event from its decoded bytes: a decoding error
/// is reported as is, no bytes are an error, and the usage is converted to
/// the pricing view.
pub fn completed_image(decoded: Result<Vec<u8>, base64::DecodeError>, usage: Option<ApiUsage>) -> (res:
    Result<GeneratedImage, OpenAiError>)
    ensures
        completed_image_outcome(decoded, usage, res),
{
    let bytes = match decoded {
        Ok(bytes) => bytes,
        Err(error) => return Err(OpenAiError::DecodeImage(error)),
    };
    if bytes.len() == 0 {
        return Err(OpenAiError::MissingImageData);
    }
    let usage = match usage {
        Some(u) => Some(TokenUsage::from(u)),
        None => None,
    };
    Ok(GeneratedImage { bytes, usage })
}

/// What a payload that is JSON without an `error` member amounts to, given
/// its reading as a [`StreamEvent`].
pub open spec fn event_outcome(
    data: Seq<u8>,
    event: Result<StreamEvent, serde_json::Error>,
    res: Result<StreamStep, OpenAiError>,
) -> bool {
    match event {
        Err(e) => res matches Err(OpenAiError::InvalidStreamEvent { source, body }) && source == e
            && body@ == compact_text(utf8_lossy(data)),
        Ok(StreamEvent::PartialImage { partial_image_index }) => res matches Ok(
            StreamStep::Progress(p),
        ) && p == ImageProgress { partial_image_index },
        Ok(StreamEvent::Completed { b64_json, usage }) => match standard_base64_decoding(b64_json@) {
            None => res matches Err(OpenAiError::DecodeImage(_)),
            Some(bytes) => if bytes.len() == 0 {
                res matches Err(OpenAiError::MissingImageData)
            } else {
                res matches Ok(StreamStep::Completed(image)) && image.bytes@ == bytes
                    && image.usage == usage_view(usage)
            },
        },
    }
}

/// What the event payload `data` amounts to, given the top-level `error`
/// member that JSON parsing found in it (`error_member`) and its reading
/// as a [`StreamEvent`] (`event`): ignored payloads first, then a payload
/// that is not JSON, then a stream error, then the event itself.
pub fn classify_stream_event(
    data: &[u8],
    error_member: Result<Option<String>, serde_json::Error>,
    event: Result<StreamEvent, serde_json::Error>,
) -> (res: Result<StreamStep, OpenAiError>)
    ensures
        is_ignored_payload(data@) ==> res matches Ok(StreamStep::Ignored),
        !is_ignored_payload(data@) ==> match error_member {
            Err(e) => res matches Err(OpenAiError::InvalidStreamEvent { source, body })
                && source == e && body@ == compact_text(utf8_lossy(data@)),
            Ok(Some(t)) => res matches Err(OpenAiError::StreamApi { body }) && body@
                == compact_text(t@),
            Ok(None) => event_outcome(data@, event, res),
        },
{
    if is_ignored(data) {
        return Ok(StreamStep::Ignored);
    }
    match error_member {
        Err(source) => Err(invalid_event(data, source)),
        Ok(Some(text)) => Err(OpenAiError::StreamApi { body: compact_body(text.as_str()) }),
        Ok(None) => match event {
            Err(source) => Err(invalid_event(data, source)),
            Ok(StreamEvent::PartialImage { partial_image_index }) => Ok(
                StreamStep::Progress(ImageProgress { partial_image_index }),
            ),
            Ok(StreamEvent::Completed { b64_json, usage }) => {
                let decoded = decode_standard_base64(b64_json.as_str());
                match completed_image(decoded, usage) {
                    Ok(image) => Ok(StreamStep::Completed(image)),
                    Err(error) => Err(error),
                }
            },
        },
    }
}

/// What the event payload `data` amounts to, given its reading as a
/// [`StreamEvent`]: ignored payloads first, then a payload that is not JSON,
/// then a top-level `error` member, then the event itself.
pub open spec fn payload_outcome(
    data: Seq<u8>,
    event: Result<StreamEvent, serde_json::Error>,
    res: Result<StreamStep, OpenAiError>,
) -> bool {
    if is_ignored_payload(data) {
        res matches Ok(StreamStep::Ignored)
    } else {
        match json_member_text(data, "error"@) {
            None => res matches Err(OpenAiError::InvalidStreamEvent { source: _, body })
                && body@ == compact_text(utf8_lossy(data)),
            Some(Some(t)) => res matches Err(OpenAiError::StreamApi { body }) && body@
                == compact_text(t),
            Some(None) => event_outcome(data, event, res),
        }
    }
}

/// Decides what the event payload `data` amounts to. `data` is parsed as
/// JSON here; `event` is its reading as a [`StreamEvent`].
pub fn handle_stream_event(data: &[u8], event: Result<StreamEvent, serde_json::Error>) -> (res:
    Result<StreamStep, OpenAiError>)
    ensures
        payload_outcome(data@, event, res),
{
    if is_ignored(data) {
        return Ok(StreamStep::Ignored);
    }
    let error_member = json_member(data, "error");
    classify_stream_event(data, error_member, event)
}

/// The error for a response with a non-success HTTP status.
pub fn api_error(status: u16, body: &str) -> (error: OpenAiError)
    ensures
        error matches OpenAiError::Api { status: s, body: b } && s == status && b@ == compact_text(
            body@,
        ),
{
    OpenAiError::Api { status, body: compact_body(body) }
}

/// Whether an HTTP status code means success (the 2xx range).
pub fn is_success_status(status: u16) -> (success: bool)
    ensures
        success == (200 <= status <= 299),
{
    200 <= status && status <= 299
}

/// What the reader of the stream does after a step.
#[derive(Debug, Clone, Copy, PartialEq, Eq, Structural)]
pub enum NextStep {
    /// Read on.
    Continue,
    /// Report this progress, then read on.
    Report(ImageProgress),
    /// Stop reading: the image has arrived, or an error ended the stream.
    Finished,
}

/// The outcome held after `step`, when `outcome` was held before: the first
/// completed image or the first error stays.
pub open spec fn after_step(
    outcome: Option<Result<GeneratedImage, OpenAiError>>,
    step: Result<StreamStep, OpenAiError>,
) -> Option<Result<GeneratedImage, OpenAiError>> {
    match outcome {
        Some(done) => Some(done),
        None => match step {
            Err(error) => Some(Err(error)),
            Ok(StreamStep::Completed(image)) => Some(Ok(image)),
            Ok(_) => None,
        },
    }
}

/// What the reader does after `step`, when `outcome` was held before.
pub open spec fn next_after(
    outcome: Option<Result<GeneratedImage, OpenAiError>>,
    step: Result<StreamStep, OpenAiError>,
) -> NextStep {
    match outcome {
        Some(_) => NextStep::Finished,
        None => match step {
            Ok(StreamStep::Ignored) => NextStep::Continue,
            Ok(StreamStep::Progress(p)) => NextStep::Report(p),
            _ => NextStep::Finished,
        },
    }
}

/// The outcome held after each of `steps` in turn, from `outcome`.
pub open spec fn after_steps(
    outcome: Option<Result<GeneratedImage, OpenAiError>>,
    steps: Seq<Result<StreamStep, OpenAiError>>,
) -> Option<Result<GeneratedImage, OpenAiError>>
    decreases steps.len(),
{
    if steps.len() == 0 {
        outcome
    } else {
        after_steps(after_step(outcome, steps[0]), steps.drop_first())
    }
}

/// The outcome of the first step of `steps` that is an error or a completed
/// image, if any.
pub open spec fn first_outcome(steps: Seq<Result<StreamStep, OpenAiError>>) -> Option<
    Result<GeneratedImage, OpenAiError>,
>
    decreases steps.len(),
{
    if steps.len() == 0 {
        None
    } else {
        match steps[0] {
            Err(error) => Some(Err(error)),
            Ok(StreamStep::Completed(image)) => Some(Ok(image)),
            Ok(_) => first_outcome(steps.drop_first()),
        }
    }
}

/// What the stream has produced so far.
#[derive(Debug)]
pub struct ImageStream {
    outcome: Option<Result<GeneratedImage, OpenAiError>>,
}

impl ImageStream {
    /// The completed image or the error that ended the stream, if any.
    pub closed spec fn outcome(&self) -> Option<Result<GeneratedImage, OpenAiError>> {
        self.outcome
    }

    /// A stream that has produced nothing.
    pub fn new() -> (stream: Self)
        ensures
            stream.outcome() is None,
    {
        ImageStream { outcome: None }
    }

    /// Whether reading has stopped: the image arrived or an error ended the
    /// stream.
    pub fn is_finished(&self) -> (finished: bool)
        ensures
            finished == self.outcome() is Some,
    {
        self.outcome.is_some()
    }

    /// Takes in what one event amounted to and says what to do next. The
    /// first completed image, or the first error, ends the stream; after
    /// that nothing changes it.
    pub fn take_step(&mut self, step: Result<StreamStep, OpenAiError>) -> (next: NextStep)
        ensures
            final(self).outcome() == after_step(old(self).outcome(), step),
            next == next_after(old(self).outcome(), step),
    {
        if self.outcome.is_some() {
            return NextStep::Finished;
        }
        match step {
            Err(error) => {
                self.outcome = Some(Err(error));
                NextStep::Finished
            },
            Ok(StreamStep::Ignored) => NextStep::Continue,
            Ok(StreamStep::Progress(p)) => NextStep::Report(p),
            Ok(StreamStep::Completed(image)) => {
                self.outcome = Some(Ok(image));
                NextStep::Finished
            },
        }
    }

    /// Takes in the event payload `data`, with its reading as a
    /// [`StreamEvent`], and says what to do next. A stream that has
    /// stopped ignores it; otherwise the payload is handled as
    /// [`handle_stream_event`] does and its outcome taken in.
    pub fn take_payload(&mut self, data: &[u8], event: Result<StreamEvent, serde_json::Error>) -> (next:
        NextStep)
        ensures
            old(self).outcome() is Some ==> next == NextStep::Finished && final(self).outcome()
                == old(self).outcome(),
            old(self).outcome() is None ==> exists|step: Result<StreamStep, OpenAiError>|
                #[trigger] payload_outcome(data@, event, step) && final(self).outcome()
                    == after_step(None, step) && next == next_after(None, step),
    {
        if self.outcome.is_some() {
            return NextStep::Finished;
        }
        let ghost read = event;
        let step = handle_stream_event(data, event);
        let ghost taken = step;
        let next = self.take_step(step);
        assert(payload_outcome(data@, read, taken));
        next
    }

    /// The outcome once reading has stopped: the completed image or the
    /// error that ended the stream, and an error when the stream ended
    /// without either.
    pub fn into_result(self) -> (res: Result<GeneratedImage, OpenAiError>)
        ensures
            match self.outcome() {
                Some(done) => res == done,
                None => res matches Err(OpenAiError::StreamEndedWithoutCompletion),
            },
    {
        match self.outcome {
            Some(done) => done,
            None => Err(OpenAiError::StreamEndedWithoutCompletion),
        }
    }
}

// ---------------------------------------------------------------------------
// Request
// ---------------------------------------------------------------------------

/// The body of an image generation request.
#[derive(Debug)]
pub struct ImageRequest {
    pub model: String,
    pub prompt: String,
    pub size: String,
    pub quality: String,
    pub stream: bool,
    pub partial_images: u8,
}

/// The request for `prompt`: the trimmed prompt with the given model, size
/// and quality, streamed, with one partial image; a blank prompt is an
/// error.
pub fn prepare_image_request(model: &str, size: &str, quality: &str, prompt: &str) -> (res: Result<
    ImageRequest,
    OpenAiError,
>)
    ensures
        trim_ws(prompt@).len() == 0 ==> res matches Err(OpenAiError::EmptyPrompt),
        trim_ws(prompt@).len() > 0 ==> (res matches Ok(r) && r.prompt@ == trim_ws(prompt@)
            && r.model@ == model@ && r.size@ == size@ && r.quality@ == quality@ && r.stream
            && r.partial_images == PARTIAL_IMAGE_COUNT),
{
    let prompt = trim(prompt);
    if prompt.is_empty() {
        return Err(OpenAiError::EmptyPrompt);
    }
    Ok(
        ImageRequest {
            model: model.to_owned(),
            prompt: prompt.to_owned(),
            size: size.to_owned(),
            quality: quality.to_owned(),
            stream: true,
            partial_images: PARTIAL_IMAGE_COUNT,
        },
    )
}

// ---------------------------------------------------------------------------
// Messages
// ---------------------------------------------------------------------------

impl OpenAiError {
    /// The message shown for the error.
    pub fn message(&self) -> (text: String)
        ensures
            match *self {
                OpenAiError::Api { status, body } => text@ == "OpenAI API 返回 HTTP "@ + decimal(
                    status as nat,
                ) + ": "@ + body@,
                OpenAiError::StreamApi { body } => text@ == "OpenAI 流返回错误: "@ + body@,
                OpenAiError::InvalidStreamEvent { source: _, body } => exists|t: Seq<char>|
                    text@ == "OpenAI 返回了无法解析的流事件: "@ + t + "; body: "@ + body@,
                OpenAiError::StreamEndedWithoutCompletion => text@
                    == "OpenAI 流在返回完成事件前已结束"@,
                OpenAiError::MissingImageData => text@ == "OpenAI 响应中没有图片数据"@,
                OpenAiError::DecodeImage(_) => exists|t: Seq<char>|
                    text@ == "图片内容不是有效的 base64: "@ + t,
                OpenAiError::EmptyPrompt => text@ == "图片 prompt 不能为空"@,
            },
    {
        match self {
            OpenAiError::Api { status, body } => {
                let mut text = "OpenAI API 返回 HTTP ".to_owned();
                push_decimal(&mut text, *status as u128);
                text.append(": ");
                text.append(body.as_str());
                text
            },
            OpenAiError::StreamApi { body } => {
                let mut text = "OpenAI 流返回错误: ".to_owned();
                text.append(body.as_str());
                text
            },
            OpenAiError::InvalidStreamEvent { source, body } => {
                let mut text = "OpenAI 返回了无法解析的流事件: ".to_owned();
                let detail = json_error_text(source);
                text.append(detail.as_str());
                text.append("; body: ");
                text.append(body.as_str());
                assert(text@ == "OpenAI 返回了无法解析的流事件: "@ + detail@ + "; body: "@ + body@);
                text
            },
            OpenAiError::StreamEndedWithoutCompletion => "OpenAI 流在返回完成事件前已结束".to_owned(),
            OpenAiError::MissingImageData => "OpenAI 响应中没有图片数据".to_owned(),
            OpenAiError::DecodeImage(error) => {
                let mut text = "图片内容不是有效的 base64: ".to_owned();
                let detail = decode_error_text(error);
                text.append(detail.as_str());
                assert(text@ == "图片内容不是有效的 base64: "@ + detail@);
                text
            },
            OpenAiError::EmptyPrompt => "图片 prompt 不能为空".to_owned(),
        }
    }
}

// ---------------------------------------------------------------------------
// Laws
// ---------------------------------------------------------------------------

/// A compacted error body never exceeds `MAX_ERROR_BODY_LENGTH + 3` bytes.
pub proof fn law_compact_body_is_bounded(body: Seq<char>)
    ensures
        utf8_len(compact_text(body)) <= MAX_ERROR_BODY_LENGTH + 3,
{
    let t = trim_ws(body);
    if utf8_len(t) > MAX_ERROR_BODY_LENGTH {
        let k = fit_prefix_len(t, MAX_ERROR_BODY_LENGTH as int);
        lemma_fit_prefix_bytes(t, MAX_ERROR_BODY_LENGTH as int);
        lemma_encode_utf8_append(t.take(k as int), ellipsis());
        lemma_utf8_len_push(Seq::<char>::empty(), '.');
        lemma_utf8_len_push(seq!['.'], '.');
        lemma_utf8_len_push(seq!['.', '.'], '.');
        assert(Seq::<char>::empty().push('.') =~= seq!['.']);
        assert(seq!['.'].push('.') =~= seq!['.', '.']);
        assert(seq!['.', '.'].push('.') =~= ellipsis());
        assert(encode_utf8(Seq::<char>::empty()) =~= Seq::<u8>::empty());
    }
}

/// An error body that fits is reported trimmed and otherwise unchanged; a
/// longer one keeps a prefix of the trimmed body and ends with `...`.
pub proof fn law_compact_body_keeps_a_prefix(body: Seq<char>)
    ensures
        utf8_len(trim_ws(body)) <= MAX_ERROR_BODY_LENGTH ==> compact_text(body) == trim_ws(body),
        utf8_len(trim_ws(body)) > MAX_ERROR_BODY_LENGTH ==> {
            let c = compact_text(body);
            let k = c.len() - 3;
            &&& k >= 0
            &&& c.take(k) == trim_ws(body).take(k)
            &&& c.skip(k) == ellipsis()
        },
{
    let t = trim_ws(body);
    if utf8_len(t) > MAX_ERROR_BODY_LENGTH {
        let k = fit_prefix_len(t, MAX_ERROR_BODY_LENGTH as int);
        lemma_fit_prefix_bytes(t, MAX_ERROR_BODY_LENGTH as int);
        let c = compact_text(body);
        assert(c.take(k as int) =~= t.take(k as int));
        assert(c.skip(k as int) =~= ellipsis());
    }
}

/// The pricing view of a usage report keeps the reported split of the
/// input: with details, text and image input tokens are those of the
/// details; without them, all input tokens count as text and none as image.
/// The output tokens are always the reported ones.
pub proof fn law_usage_keeps_the_input_split(usage: ApiUsage)
    ensures
        token_usage_of(usage).image_output_tokens == usage.output_tokens,
        usage.input_tokens_details matches Some(details) ==> token_usage_of(usage).text_input_tokens
            == details.text_tokens && token_usage_of(usage).image_input_tokens
            == details.image_tokens,
        usage.input_tokens_details is None ==> token_usage_of(usage).text_input_tokens
            == usage.input_tokens && token_usage_of(usage).image_input_tokens == 0,
{
}

/// Reading a stream keeps the outcome of its first completed event or first
/// error: whatever steps follow, the outcome held is that of the first step
/// that is an error or a completed image, and a stream that already holds an
/// outcome keeps it.
pub proof fn law_first_outcome_is_kept(
    outcome: Option<Result<GeneratedImage, OpenAiError>>,
    steps: Seq<Result<StreamStep, OpenAiError>>,
)
    ensures
        after_steps(None, steps) == first_outcome(steps),
        outcome is Some ==> after_steps(outcome, steps) == outcome,
    decreases steps.len(),
{
    if steps.len() > 0 {
        law_first_outcome_is_kept(outcome, steps.drop_first());
        law_first_outcome_is_kept(after_step(None, steps[0]), steps.drop_first());
    }
}

} // verus!
