//! How a daemon is spoken to on one machine: frames of bytes that end in a newline, what an
//! answer has to match, and which socket may be used.
use crate::agent::{
    DaemonControlError, DaemonControlErrorCode, DaemonControlErrorView, DaemonEvent, DaemonEventView, DaemonRequest,
    DaemonResponse, DaemonResponseOutcomeView, DaemonResponseView, DaemonRuntimeState, DAEMON_PROTOCOL_SCHEMA_VERSION,
};
use crate::daemon::DaemonEventSubscriptionError;
use crate::text::{decimal, join2, join3, join4, number, quoted, quoted_text};
use crate::value::Value;
use vstd::prelude::*;

verus! {

pub const APP_DIR: &'static str = "gh-housekeeper";

pub const SOCKET_FILE: &'static str = "control-v2.sock";

/// How many bytes a frame holds at most.
pub const MAX_FRAME_BYTES: usize = 65_536;

pub const NEWLINE: u8 = 10;

// ---------------------------------------------------------------------------------------------
// Frames.
// ---------------------------------------------------------------------------------------------

/// White space among ASCII bytes: space, tab, line feed, form feed, carriage return.
pub open spec fn is_white(byte: u8) -> bool {
    byte == 32 || byte == 9 || byte == 10 || byte == 12 || byte == 13
}

/// The place of the first newline.
pub open spec fn newline_in(bytes: Seq<u8>) -> Option<int> {
    if exists|i: int| first_newline(bytes, i) {
        Some(choose|i: int| first_newline(bytes, i))
    } else {
        None
    }
}

/// The first newline is at `i`.
pub open spec fn first_newline(bytes: Seq<u8>, i: int) -> bool {
    0 <= i < bytes.len() && bytes[i] == NEWLINE && forall|k: int| 0 <= k < i ==> #[trigger] bytes[k] != NEWLINE
}

/// There is at most one first newline.
proof fn lemma_first_newline(bytes: Seq<u8>, i: int)
    requires
        first_newline(bytes, i),
    ensures
        newline_in(bytes) == Some(i),
{
    let k = choose|k: int| first_newline(bytes, k);
    assert(first_newline(bytes, k));
    if k < i {
        assert(bytes[k] == NEWLINE);
    }
    if i < k {
        assert(bytes[i] == NEWLINE);
    }
}

proof fn lemma_no_newline(bytes: Seq<u8>)
    requires
        forall|k: int| 0 <= k < bytes.len() ==> #[trigger] bytes[k] != NEWLINE,
    ensures
        newline_in(bytes) is None,
{
    if exists|i: int| first_newline(bytes, i) {
        let i = choose|i: int| first_newline(bytes, i);
        assert(bytes[i] == NEWLINE);
    }
}

pub open spec fn too_long() -> Seq<char> {
    "local control frame exceeds the "@ + decimal(MAX_FRAME_BYTES as nat) + "-byte limit"@
}

/// What comes of the bytes that were read so far.
#[verifier::ext_equal]
pub enum FrameStepView {
    /// The frame goes on, with these bytes so far.
    More(Seq<u8>),
    Complete(Seq<u8>),
    Refused(Seq<char>),
}

/// What comes of a chunk that follows the bytes `frame`.
pub open spec fn after_chunk(frame: Seq<u8>, chunk: Seq<u8>) -> FrameStepView {
    match newline_in(chunk) {
        Some(end) => {
            let whole = frame + chunk.take(end);
            if whole.len() > MAX_FRAME_BYTES {
                FrameStepView::Refused(too_long())
            } else if exists|i: int| end < i < chunk.len() && !is_white(#[trigger] chunk[i]) {
                FrameStepView::Refused("multiple local control frames on one connection are not supported"@)
            } else if whole.len() == 0 {
                FrameStepView::Refused("empty local control frame"@)
            } else {
                FrameStepView::Complete(whole)
            }
        },
        None => if frame.len() + chunk.len() > MAX_FRAME_BYTES {
            FrameStepView::Refused(too_long())
        } else {
            FrameStepView::More(frame + chunk)
        },
    }
}

/// What comes of a connection that ended after the bytes `frame`.
pub open spec fn after_end(frame: Seq<u8>) -> Seq<char> {
    if frame.len() == 0 {
        "connection closed before a request frame was received"@
    } else {
        "connection closed before the request frame terminator"@
    }
}

/// What comes of chunks, one after the other.
pub open spec fn after_chunks(frame: Seq<u8>, chunks: Seq<Seq<u8>>) -> FrameStepView
    decreases chunks.len(),
{
    if chunks.len() == 0 {
        FrameStepView::More(frame)
    } else {
        match after_chunk(frame, chunks[0]) {
            FrameStepView::More(frame) => after_chunks(frame, chunks.drop_first()),
            step => step,
        }
    }
}

/// What comes of the bytes that were read so far.
#[derive(Clone, Debug, PartialEq, Eq)]
pub enum FrameStep {
    More,
    Complete(Vec<u8>),
    Refused(String),
}

/// A frame that is being read.
pub struct FrameReader {
    frame: Vec<u8>,
}

impl View for FrameReader {
    type V = Seq<u8>;

    closed spec fn view(&self) -> Seq<u8> {
        self.frame@
    }
}

/// What comes of a chunk, with the bytes that are kept.
pub open spec fn step_view(step: FrameStep, kept: Seq<u8>) -> FrameStepView {
    match step {
        FrameStep::More => FrameStepView::More(kept),
        FrameStep::Complete(frame) => FrameStepView::Complete(frame@),
        FrameStep::Refused(message) => FrameStepView::Refused(message@),
    }
}

fn find_newline(chunk: &Vec<u8>) -> (result: Option<usize>)
    ensures
        match newline_in(chunk@) {
            Some(i) => result matches Some(k) && k == i && first_newline(chunk@, i),
            None => result is None,
        },
{
    let mut i: usize = 0;
    while i < chunk.len() && chunk[i] != NEWLINE
        invariant
            i <= chunk.len(),
            forall|k: int| 0 <= k < i ==> #[trigger] chunk@[k] != NEWLINE,
        decreases chunk.len() - i,
    {
        i = i + 1;
    }
    if i < chunk.len() {
        proof {
            lemma_first_newline(chunk@, i as int);
        }
        Some(i)
    } else {
        proof {
            lemma_no_newline(chunk@);
        }
        None
    }
}

fn only_white_after(chunk: &Vec<u8>, end: usize) -> (result: bool)
    requires
        end < chunk.len(),
    ensures
        result == !(exists|i: int| end < i < chunk@.len() && !is_white(#[trigger] chunk@[i])),
{
    let mut i: usize = end + 1;
    while i < chunk.len()
        invariant
            end < i <= chunk.len(),
            forall|k: int| end < k < i ==> is_white(#[trigger] chunk@[k]),
        decreases chunk.len() - i,
    {
        let byte: u8 = chunk[i];
        if !(byte == 32 || byte == 9 || byte == 10 || byte == 12 || byte == 13) {
            assert(!is_white(chunk@[i as int]));
            return false;
        }
        i = i + 1;
    }
    true
}

fn describe_too_long() -> (result: String)
    ensures
        result@ == too_long(),
{
    join3("local control frame exceeds the ", number(MAX_FRAME_BYTES as u64).as_str(), "-byte limit")
}

impl FrameReader {
    /// Before the first byte.
    pub fn new() -> (result: Self)
        ensures
            result@ == Seq::<u8>::empty(),
    {
        FrameReader { frame: Vec::new() }
    }

    fn keep(&mut self, chunk: &Vec<u8>, end: usize)
        requires
            end <= chunk.len(),
            old(self)@.len() + end <= MAX_FRAME_BYTES,
        ensures
            final(self)@ == old(self)@ + chunk@.take(end as int),
    {
        let ghost before = self.frame@;
        let mut i: usize = 0;
        assert(before + chunk@.take(0) =~= before);
        while i < end
            invariant
                i <= end <= chunk.len(),
                self.frame@ == before + chunk@.take(i as int),
            decreases end - i,
        {
            self.frame.push(chunk[i]);
            i = i + 1;
            assert(self.frame@ =~= before + chunk@.take(i as int));
        }
    }

    /// Takes a chunk.
    pub fn received(&mut self, chunk: &Vec<u8>) -> (result: FrameStep)
        requires
            old(self)@.len() <= MAX_FRAME_BYTES,
        ensures
            step_view(result, final(self)@) == after_chunk(old(self)@, chunk@),
            result is More ==> final(self)@.len() <= MAX_FRAME_BYTES,
    {
        match find_newline(chunk) {
            Some(end) => {
                if end > MAX_FRAME_BYTES || self.frame.len() + end > MAX_FRAME_BYTES {
                    return FrameStep::Refused(describe_too_long());
                }
                self.keep(chunk, end);
                if !only_white_after(chunk, end) {
                    return FrameStep::Refused(
                        "multiple local control frames on one connection are not supported".to_string(),
                    );
                }
                if self.frame.len() == 0 {
                    return FrameStep::Refused("empty local control frame".to_string());
                }
                let mut frame: Vec<u8> = Vec::new();
                std::mem::swap(&mut frame, &mut self.frame);
                FrameStep::Complete(frame)
            },
            None => {
                if chunk.len() > MAX_FRAME_BYTES || self.frame.len() + chunk.len() > MAX_FRAME_BYTES {
                    return FrameStep::Refused(describe_too_long());
                }
                self.keep(chunk, chunk.len());
                assert(chunk@.take(chunk.len() as int) =~= chunk@);
                FrameStep::More
            },
        }
    }

    /// What is said of a connection that ended here.
    pub fn ended(&self) -> (result: String)
        ensures
            result@ == after_end(self@),
    {
        if self.frame.len() == 0 {
            "connection closed before a request frame was received".to_string()
        } else {
            "connection closed before the request frame terminator".to_string()
        }
    }
}

/// The frame of a message.
pub open spec fn framed(message: Seq<u8>) -> Seq<u8> {
    message.push(NEWLINE)
}

/// Frames a message, if it is not too long. `what` names it.
pub fn encode_frame(message: Vec<u8>, what: &str) -> (result: Result<Vec<u8>, String>)
    ensures
        match result {
            Ok(frame) => message@.len() <= MAX_FRAME_BYTES && frame@ == framed(message@),
            Err(error) => message@.len() > MAX_FRAME_BYTES && error@ == "daemon control "@ + what@
                + " exceeds the local frame limit"@,
        },
{
    if message.len() > MAX_FRAME_BYTES {
        return Err(join3("daemon control ", what, " exceeds the local frame limit"));
    }
    let mut frame = message;
    frame.push(NEWLINE);
    Ok(frame)
}

/// All chunks in a row.
pub open spec fn in_a_row(chunks: Seq<Seq<u8>>) -> Seq<u8>
    decreases chunks.len(),
{
    if chunks.len() == 0 {
        Seq::empty()
    } else {
        chunks[0] + in_a_row(chunks.drop_first())
    }
}

/// What was framed is read back, into however many chunks it was cut on its way: a message
/// without newlines that is neither empty nor too long.
pub proof fn a_framed_message_is_read_back(message: Seq<u8>, chunks: Seq<Seq<u8>>)
    requires
        0 < message.len() <= MAX_FRAME_BYTES,
        forall|k: int| 0 <= k < message.len() ==> #[trigger] message[k] != NEWLINE,
        in_a_row(chunks) == framed(message),
    ensures
        after_chunks(Seq::empty(), chunks) == FrameStepView::Complete(message),
{
    assert(Seq::<u8>::empty() + in_a_row(chunks) =~= framed(message));
    lemma_read_back(message, Seq::empty(), chunks);
}

proof fn lemma_read_back(message: Seq<u8>, frame: Seq<u8>, chunks: Seq<Seq<u8>>)
    requires
        0 < message.len() <= MAX_FRAME_BYTES,
        forall|k: int| 0 <= k < message.len() ==> #[trigger] message[k] != NEWLINE,
        frame + in_a_row(chunks) == framed(message),
        frame.len() <= message.len(),
    ensures
        after_chunks(frame, chunks) == FrameStepView::Complete(message),
    decreases chunks.len(),
{
    let all = framed(message);
    let n = frame.len() as int;
    if chunks.len() == 0 {
        assert((frame + in_a_row(chunks)).len() == n);
        assert(false);
    }
    let chunk = chunks[0];
    let rest = in_a_row(chunks.drop_first());
    assert forall|k: int| 0 <= k < chunk.len() implies chunk[k] == all[n + k] by {
        assert((frame + in_a_row(chunks))[n + k] == chunk[k]);
    }
    if n + chunk.len() == all.len() {
        let end = chunk.len() - 1;
        assert forall|k: int| 0 <= k < end implies #[trigger] chunk[k] != NEWLINE by {
            assert(all[n + k] == message[n + k]);
        }
        assert(first_newline(chunk, end));
        lemma_first_newline(chunk, end);
        assert(frame + chunk.take(end) =~= message) by {
            assert forall|k: int| 0 <= k < message.len() implies (frame + chunk.take(end))[k] == message[k] by {
                if k < n {
                    assert((frame + in_a_row(chunks))[k] == frame[k]);
                    assert(all[k] == message[k]);
                } else {
                    assert(chunk[k - n] == all[k]);
                    assert(all[k] == message[k]);
                }
            }
        }
    } else {
        assert((frame + in_a_row(chunks)).len() == n + chunk.len() + rest.len());
        assert forall|k: int| 0 <= k < chunk.len() implies #[trigger] chunk[k] != NEWLINE by {
            assert(all[n + k] == message[n + k]);
        }
        lemma_no_newline(chunk);
        assert((frame + chunk) + rest =~= frame + in_a_row(chunks));
        lemma_read_back(message, frame + chunk, chunks.drop_first());
    }
}

// ---------------------------------------------------------------------------------------------
// Requests and answers.
// ---------------------------------------------------------------------------------------------

/// The text under a key of a JSON object, if the bytes are one that has it.
pub uninterp spec fn json_text(bytes: Seq<u8>, key: Seq<char>) -> Option<Seq<char>>;

/// `serde_json::from_slice` into a `serde_json::Value`, then its `get` and `as_str`: the text
/// under a key, if the bytes are a JSON object that has one there.
#[verifier::external_body]
fn text_in_json(bytes: &Vec<u8>, key: &str) -> (result: Option<String>)
    ensures
        result.deep_view() == json_text(bytes@, key@),
{
    let value = serde_json::from_slice::<serde_json::Value>(bytes.as_slice()).ok()?;
    value.get(key)?.as_str().map(|text| text.to_string())
}

/// The id of a request, as far as one can be made out.
pub fn request_id_from_json(frame: &Vec<u8>) -> (result: String)
    ensures
        result@ == match json_text(frame@, "request_id"@) {
            Some(id) => id,
            None => ""@,
        },
{
    match text_in_json(frame, "request_id") {
        Some(id) => id,
        None => "".to_string(),
    }
}

/// The answer to a request that cannot be made out.
pub open spec fn invalid_request(request_id: Seq<char>, message: Seq<char>) -> DaemonResponseView {
    DaemonResponseView {
        schema_version: DAEMON_PROTOCOL_SCHEMA_VERSION,
        request_id,
        outcome: DaemonResponseOutcomeView::Error {
            error: DaemonControlErrorView { code: DaemonControlErrorCode::InvalidRequest, message },
        },
    }
}

/// Answers a frame that could not be read.
pub fn refuse_frame(message: &str) -> (result: DaemonResponse)
    ensures
        result.deep_view() == invalid_request(""@, message@),
{
    DaemonResponse::error_for_request_id("", DaemonControlError::invalid_request(message))
}

/// Answers a frame that is no request, by what is wrong with it.
pub fn refuse_json(frame: &Vec<u8>, detail: &str) -> (result: DaemonResponse)
    ensures
        result.deep_view() == invalid_request(
            match json_text(frame@, "request_id"@) {
                Some(id) => id,
                None => ""@,
            },
            "invalid daemon control request JSON: "@ + detail@,
        ),
{
    let message = join2("invalid daemon control request JSON: ", detail);
    DaemonResponse::error_for_request_id(
        request_id_from_json(frame).as_str(),
        DaemonControlError::invalid_request(message.as_str()),
    )
}

/// Why a response is not the answer to a request.
pub open spec fn response_problem(version: u32, id: Seq<char>, request_id: Seq<char>) -> Option<Seq<char>> {
    if version != DAEMON_PROTOCOL_SCHEMA_VERSION {
        Some(
            "daemon response schema mismatch: received "@ + decimal(version as nat) + ", expected "@ + decimal(
                DAEMON_PROTOCOL_SCHEMA_VERSION as nat,
            ),
        )
    } else if id != request_id {
        Some(
            "daemon response request id mismatch: received "@ + quoted_text(id) + ", expected "@ + quoted_text(
                request_id,
            ),
        )
    } else {
        None
    }
}

/// Checks that a response is the answer to a request.
pub fn check_response(response: &DaemonResponse, request: &DaemonRequest) -> (result: Result<(), String>)
    ensures
        match response_problem(response.schema_version, response.request_id@, request.request_id@) {
            Some(problem) => result is Err && result->Err_0@ == problem,
            None => result is Ok,
        },
{
    if response.schema_version != DAEMON_PROTOCOL_SCHEMA_VERSION {
        return Err(
            join4(
                "daemon response schema mismatch: received ",
                number(response.schema_version as u64).as_str(),
                ", expected ",
                number(DAEMON_PROTOCOL_SCHEMA_VERSION as u64).as_str(),
            ),
        );
    }
    if !response.request_id.same(&request.request_id) {
        return Err(
            join4(
                "daemon response request id mismatch: received ",
                quoted(response.request_id.as_str()).as_str(),
                ", expected ",
                quoted(request.request_id.as_str()).as_str(),
            ),
        );
    }
    Ok(())
}

/// The id of a request: by process and number.
pub fn request_id(process: u32, sequence: u64) -> (result: String)
    ensures
        result@ == "cli-"@ + decimal(process as nat) + "-"@ + decimal(sequence as nat),
{
    join4("cli-", number(process as u64).as_str(), "-", number(sequence).as_str())
}

/// Whether what came of waiting for an event ends the service.
pub fn ends_service(event: &Result<DaemonEvent, DaemonEventSubscriptionError>) -> (result: bool)
    ensures
        result == match event {
            Ok(event) => event.deep_view() matches DaemonEventView::StatusChanged { status } && status.state
                == DaemonRuntimeState::Stopping,
            Err(DaemonEventSubscriptionError::Lagged(_)) => false,
            Err(DaemonEventSubscriptionError::Closed) => true,
        },
{
    match event {
        Ok(DaemonEvent::StatusChanged { status }) => status.state == DaemonRuntimeState::Stopping,
        Ok(_) => false,
        Err(DaemonEventSubscriptionError::Lagged(_)) => false,
        Err(DaemonEventSubscriptionError::Closed) => true,
    }
}

// ---------------------------------------------------------------------------------------------
// The socket.
// ---------------------------------------------------------------------------------------------

/// What stands at a path.
#[derive(Clone, Copy, Debug, PartialEq, Eq, Structural)]
pub enum PathKind {
    Missing,
    SymbolicLink,
    Socket,
    Other,
}

/// How a socket that is there reacts.
#[derive(Clone, Copy, Debug, PartialEq, Eq, Structural)]
pub enum ProbeOutcome {
    Accepted,
    RefusedOrGone,
    Unclear,
}

/// What to do about a path before a socket is made there.
#[derive(Clone, Copy, Debug, PartialEq, Eq, Structural)]
pub enum SocketStep {
    /// Nothing is in the way.
    Bind,
    /// See whether the socket there is in use.
    Probe,
}

/// Decides about the directory of a socket.
pub fn judge_directory(is_directory: bool, is_link: bool, path: &str) -> (result: Result<(), String>)
    ensures
        result is Ok <==> is_directory && !is_link,
        result matches Err(error) ==> error@ == "refusing unsafe local daemon control directory "@ + path@,
{
    if is_link || !is_directory {
        return Err(join2("refusing unsafe local daemon control directory ", path));
    }
    Ok(())
}

/// Decides about a path before a socket is made there.
pub fn judge_socket_path(kind: PathKind, path: &str) -> (result: Result<SocketStep, String>)
    ensures
        match kind {
            PathKind::Missing => result == Ok::<SocketStep, String>(SocketStep::Bind),
            PathKind::Socket => result == Ok::<SocketStep, String>(SocketStep::Probe),
            PathKind::SymbolicLink => result is Err && result->Err_0@ == "refusing symbolic link daemon control socket "@
                + path@,
            PathKind::Other => result is Err && result->Err_0@ == "refusing to replace non-socket daemon control path "@
                + path@,
        },
{
    match kind {
        PathKind::Missing => Ok(SocketStep::Bind),
        PathKind::Socket => Ok(SocketStep::Probe),
        PathKind::SymbolicLink => Err(join2("refusing symbolic link daemon control socket ", path)),
        PathKind::Other => Err(join2("refusing to replace non-socket daemon control path ", path)),
    }
}

/// Decides about a socket that is there: only one that nobody serves is removed.
pub fn judge_probe(outcome: ProbeOutcome, path: &str) -> (result: Result<(), String>)
    ensures
        match outcome {
            ProbeOutcome::RefusedOrGone => result is Ok,
            ProbeOutcome::Accepted => result is Err && result->Err_0@
                == "daemon control socket is already accepting connections at "@ + path@ + "; refusing to replace it"@,
            ProbeOutcome::Unclear => result is Err && result->Err_0@
                == "failed to verify whether daemon control socket is stale "@ + path@,
        },
{
    match outcome {
        ProbeOutcome::RefusedOrGone => Ok(()),
        ProbeOutcome::Accepted => Err(
            join3(
                "daemon control socket is already accepting connections at ",
                path,
                "; refusing to replace it",
            ),
        ),
        ProbeOutcome::Unclear => Err(join2("failed to verify whether daemon control socket is stale ", path)),
    }
}

/// Decides about a path before a client connects to it.
pub fn judge_client_path(kind: PathKind, path: &str) -> (result: Result<(), String>)
    ensures
        match kind {
            PathKind::Socket => result is Ok,
            PathKind::Missing => result is Err && result->Err_0@
                == "gh-housekeeper daemon control socket is not available at "@ + path@,
            PathKind::SymbolicLink => result is Err && result->Err_0@ == "refusing symbolic link daemon control socket "@
                + path@,
            PathKind::Other => result is Err && result->Err_0@ == "refusing non-socket daemon control path "@ + path@,
        },
{
    match kind {
        PathKind::Socket => Ok(()),
        PathKind::Missing => Err(join2("gh-housekeeper daemon control socket is not available at ", path)),
        PathKind::SymbolicLink => Err(join2("refusing symbolic link daemon control socket ", path)),
        PathKind::Other => Err(join2("refusing non-socket daemon control path ", path)),
    }
}

/// A chunk without a newline is kept as long as no more than 65536 bytes are held, and refused
/// otherwise.
pub proof fn bytes_are_kept_until_the_newline(frame: Seq<u8>, chunk: Seq<u8>)
    requires
        forall|k: int| 0 <= k < chunk.len() ==> #[trigger] chunk[k] != 10,
    ensures
        frame.len() + chunk.len() <= 65_536 ==> after_chunk(frame, chunk) == FrameStepView::More(frame + chunk),
        frame.len() + chunk.len() > 65_536 ==> after_chunk(frame, chunk) is Refused,
{
    lemma_no_newline(chunk);
}

/// A newline ends the frame. It is complete where it holds something, no more than 65536 bytes, and
/// only white space follows; otherwise it is refused. Nothing of what follows is part of it.
pub proof fn a_newline_ends_the_frame(frame: Seq<u8>, body: Seq<u8>, rest: Seq<u8>)
    requires
        forall|k: int| 0 <= k < body.len() ==> #[trigger] body[k] != 10,
    ensures
        ({
            let step = after_chunk(frame, body.push(10) + rest);
            let blank = forall|k: int|
                0 <= k < rest.len() ==> #[trigger] rest[k] == 32 || rest[k] == 9 || rest[k] == 10 || rest[k] == 12
                    || rest[k] == 13;
            &&& 0 < frame.len() + body.len() <= 65_536 && blank ==> step == FrameStepView::Complete(frame + body)
            &&& !(0 < frame.len() + body.len() <= 65_536 && blank) ==> step is Refused
        }),
{
    let chunk = body.push(10) + rest;
    let end = body.len() as int;
    assert forall|k: int| 0 <= k < end implies #[trigger] chunk[k] != NEWLINE by {
        assert(chunk[k] == body[k]);
    }
    assert(first_newline(chunk, end));
    lemma_first_newline(chunk, end);
    assert(chunk.take(end) =~= body);
    assert forall|k: int| 0 <= k < rest.len() implies #[trigger] rest[k] == chunk[end + 1 + k] by {
    }
    assert forall|i: int| end < i < chunk.len() implies #[trigger] chunk[i] == rest[i - end - 1] by {
    }
    if exists|k: int| 0 <= k < rest.len() && !is_white(#[trigger] rest[k]) {
        let k = choose|k: int| 0 <= k < rest.len() && !is_white(#[trigger] rest[k]);
        assert(!is_white(chunk[end + 1 + k]));
    }
    if exists|i: int| end < i < chunk.len() && !is_white(#[trigger] chunk[i]) {
        let i = choose|i: int| end < i < chunk.len() && !is_white(#[trigger] chunk[i]);
        assert(!is_white(rest[i - end - 1]));
    }
}

/// A connection that ends is told apart by whether any byte came.
pub proof fn an_end_before_any_byte_is_told_apart(frame: Seq<u8>)
    ensures
        frame.len() == 0 ==> after_end(frame) == "connection closed before a request frame was received"@,
        frame.len() > 0 ==> after_end(frame) == "connection closed before the request frame terminator"@,
{
}

/// A response passes for the answer to a request only where it is of the present version and carries
/// the id of the request.
pub proof fn only_the_answer_passes(version: u32, id: Seq<char>, request_id: Seq<char>)
    ensures
        response_problem(version, id, request_id) is None <==> version == 2 && id == request_id,
{
}

/// A request that cannot be made out is refused as invalid, under its id and with the reason.
pub proof fn what_cannot_be_read_is_refused(id: Seq<char>, message: Seq<char>)
    ensures
        invalid_request(id, message).schema_version == 2,
        invalid_request(id, message).request_id == id,
        invalid_request(id, message).outcome matches DaemonResponseOutcomeView::Error { error } && error.code
            is InvalidRequest && error.message == message,
{
}

} // verus!
