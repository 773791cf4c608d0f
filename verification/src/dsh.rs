//! The bounded catalog sidecar of DSH: configuration, request framing,
//! bounded capture of its output and the checks its single reply must pass.

use vstd::prelude::*;
use vstd::string::*;

use crate::json::{ascii_bytes, json_number, json_string, push_ascii, push_json_string, push_json_u64};
use crate::text::{is_safe_id, is_safe_identifier};

verus! {

/// Process and limits configured by the service alone.
#[derive(Debug, Clone)]
pub struct DshSidecarClient {
    /// Program to spawn.
    pub program: String,
    /// Its arguments.
    pub args: Vec<String>,
    /// The only environment the process receives, in order.
    pub env: Vec<(String, String)>,
    /// Time limit, in milliseconds.
    pub timeout_ms: u64,
    /// Largest standard output retained.
    pub max_stdout_bytes: usize,
    /// Largest standard error retained.
    pub max_stderr_bytes: usize,
}

/// Closed error answer of the sidecar.
#[derive(Debug, Clone, PartialEq, Eq)]
pub struct SidecarRemoteError {
    /// Stable code.
    pub code: String,
    /// Field concerned.
    pub field: String,
    /// Message.
    pub message: String,
}

/// Typed failure of the sidecar process or protocol.
#[derive(Debug, Clone, PartialEq, Eq)]
pub enum DshSidecarError {
    /// Unsafe configuration.
    Configuration,
    /// Time exhausted; the process tree was killed.
    Timeout,
    /// An output went over its limit.
    Truncated,
    /// Invalid protocol.
    Protocol(String),
    /// Closed error answer.
    Remote {
        /// Stable code.
        code: String,
        /// Field concerned.
        field: String,
        /// Message.
        message: String,
    },
    /// Non-zero exit.
    Exit {
        /// Code, when not killed by a signal.
        code: Option<i32>,
        /// Standard error, already bounded.
        stderr: String,
    },
}

impl DshSidecarClient {
    /// Sets the command, the allowlisted environment and positive limits.
    pub fn new(
        program: String,
        args: Vec<String>,
        env: Vec<(String, String)>,
        timeout_ms: u64,
        max_stdout_bytes: usize,
        max_stderr_bytes: usize,
    ) -> (r: Result<DshSidecarClient, DshSidecarError>)
        ensures
            r is Ok <==> timeout_ms > 0 && max_stdout_bytes > 0 && max_stderr_bytes > 0,
            r matches Err(e) ==> e is Configuration,
            r matches Ok(c) ==> c.program == program && c.args == args && c.env == env && c.timeout_ms == timeout_ms
                && c.max_stdout_bytes == max_stdout_bytes && c.max_stderr_bytes == max_stderr_bytes,
    {
        if timeout_ms == 0 || max_stdout_bytes == 0 || max_stderr_bytes == 0 {
            return Err(DshSidecarError::Configuration);
        }
        Ok(DshSidecarClient { program, args, env, timeout_ms, max_stdout_bytes, max_stderr_bytes })
    }
}

/// The request line: compact JSON with version 1, the id and the method, then a newline.
pub open spec fn request_bytes(id: Seq<char>) -> Seq<u8> {
    ascii_bytes("{\"schema_version\":"@) + json_number(1) + ascii_bytes(",\"id\":"@)
        + json_string(vstd::utf8::encode_utf8(id)) + ascii_bytes(",\"method\":\"catalog_snapshot\"}"@) + seq![10u8]
}

/// Frames the single request sent to the sidecar for a catalog snapshot.
pub fn request_line(id: &str) -> (r: Result<Vec<u8>, DshSidecarError>)
    ensures
        r is Ok <==> is_safe_id(id@),
        r matches Err(e) ==> e is Configuration,
        r matches Ok(bytes) ==> bytes@ == request_bytes(id@),
{
    if !is_safe_identifier(id) {
        return Err(DshSidecarError::Configuration);
    }
    proof {
        reveal_strlit("{\"schema_version\":");
        reveal_strlit(",\"id\":");
        reveal_strlit(",\"method\":\"catalog_snapshot\"}");
    }
    let mut out: Vec<u8> = Vec::new();
    push_ascii(&mut out, "{\"schema_version\":");
    push_json_u64(&mut out, 1);
    push_ascii(&mut out, ",\"id\":");
    push_json_string(&mut out, id);
    push_ascii(&mut out, ",\"method\":\"catalog_snapshot\"}");
    out.push(10u8);
    assert(out@ =~= request_bytes(id@));
    Ok(out)
}

/// Keeps a chunk read from an output within the limit: what fits is retained,
/// and the capture is marked truncated when anything was dropped.
pub fn absorb_chunk(retained: &mut Vec<u8>, chunk: &[u8], maximum: usize) -> (truncated: bool)
    ensures
        ({
            let remaining = if old(retained)@.len() <= maximum { maximum - old(retained)@.len() } else { 0 };
            let kept = if chunk@.len() <= remaining { chunk@.len() as int } else { remaining };
            &&& final(retained)@ == old(retained)@ + chunk@.subrange(0, kept)
            &&& truncated == (chunk@.len() > remaining)
        }),
{
    let remaining = if retained.len() <= maximum { maximum - retained.len() } else { 0 };
    let kept = if chunk.len() <= remaining { chunk.len() } else { remaining };
    let mut i: usize = 0;
    let ghost start = retained@;
    while i < kept
        invariant
            i <= kept <= chunk@.len(),
            retained@ == start + chunk@.subrange(0, i as int),
        decreases kept - i,
    {
        retained.push(chunk[i]);
        assert(retained@ =~= start + chunk@.subrange(0, i + 1));
        i = i + 1;
    }
    chunk.len() > remaining
}

/// The text of bytes that are valid UTF-8.
///
/// Calls `std::str::from_utf8`, which fails exactly on invalid UTF-8; the
/// contract states that the text is the decoding of the bytes.
#[verifier::external_body]
fn utf8_text(bytes: &[u8]) -> (r: Option<String>)
    ensures
        r is Some <==> vstd::utf8::valid_utf8(bytes@),
        r matches Some(s) ==> s@ == vstd::utf8::decode_utf8(bytes@),
{
    match std::str::from_utf8(bytes) {
        Ok(text) => Some(text.to_string()),
        Err(_) => None,
    }
}

/// Position of the first newline byte, or -1.
pub open spec fn first_newline(bytes: Seq<u8>) -> int
    decreases bytes.len(),
{
    if bytes.len() == 0 {
        -1
    } else if bytes[0] == 10 {
        0
    } else {
        let f = first_newline(bytes.subrange(1, bytes.len() as int));
        if f < 0 { -1 } else { f + 1 }
    }
}

/// The output holds exactly one line as `str::lines` counts them: either no
/// newline and some text, or a single newline that ends the output.
pub open spec fn one_line(bytes: Seq<u8>) -> bool {
    let f = first_newline(bytes);
    (f < 0 && bytes.len() > 0) || (f >= 0 && f == bytes.len() - 1)
}

/// The line of a one-line output: without its newline, and without a
/// carriage return right before that newline.
pub open spec fn line_of(bytes: Seq<u8>) -> Seq<u8> {
    if bytes.len() > 0 && bytes.last() == 10 {
        let body = bytes.drop_last();
        if body.len() > 0 && body.last() == 13 { body.drop_last() } else { body }
    } else {
        bytes
    }
}

proof fn lemma_first_newline(bytes: Seq<u8>)
    ensures
        -1 <= first_newline(bytes) < bytes.len(),
        first_newline(bytes) >= 0 ==> bytes[first_newline(bytes)] == 10,
        forall|j: int| 0 <= j < bytes.len() && (first_newline(bytes) < 0 || j < first_newline(bytes)) ==> #[trigger] bytes[j] != 10,
    decreases bytes.len(),
{
    if bytes.len() > 0 && bytes[0] != 10 {
        let rest = bytes.subrange(1, bytes.len() as int);
        lemma_first_newline(rest);
        assert forall|j: int| 0 <= j < bytes.len() && (first_newline(bytes) < 0 || j < first_newline(bytes)) implies #[trigger] bytes[j] != 10 by {
            if j > 0 {
                assert(bytes[j] == rest[j - 1]);
            }
        }
        if first_newline(rest) >= 0 {
            assert(bytes[first_newline(bytes)] == rest[first_newline(rest)]);
        }
    }
}

/// How a sidecar process that has stopped ended, by precedence: over its time
/// limit, then an output over its byte limit, then a failing exit status; only
/// a process that did none of these may have its output read.
pub fn process_outcome(timed_out: bool, truncated: bool, success: bool, code: Option<i32>, stderr: String) -> (r: Result<(), DshSidecarError>)
    ensures
        timed_out ==> r == Err::<(), DshSidecarError>(DshSidecarError::Timeout),
        !timed_out && truncated ==> r == Err::<(), DshSidecarError>(DshSidecarError::Truncated),
        !timed_out && !truncated && !success ==> r == Err::<(), DshSidecarError>(DshSidecarError::Exit { code, stderr }),
        !timed_out && !truncated && success ==> r is Ok,
{
    if timed_out {
        Err(DshSidecarError::Timeout)
    } else if truncated {
        Err(DshSidecarError::Truncated)
    } else if !success {
        Err(DshSidecarError::Exit { code, stderr })
    } else {
        Ok(())
    }
}

/// The single response line of the sidecar: its output must be UTF-8 and hold
/// exactly one line.
pub fn single_line(stdout: &[u8]) -> (r: Result<Vec<u8>, DshSidecarError>)
    ensures
        r is Ok <==> vstd::utf8::valid_utf8(stdout@) && one_line(stdout@),
        r matches Err(e) ==> e is Protocol,
        r matches Err(DshSidecarError::Protocol(m)) ==> m@ == (if !vstd::utf8::valid_utf8(stdout@) {
            "stdout is not UTF-8"@
        } else {
            "sidecar must emit exactly one response line"@
        }),
        r matches Ok(line) ==> line@ == line_of(stdout@),
{
    if utf8_text(stdout).is_none() {
        return Err(DshSidecarError::Protocol(String::from_str("stdout is not UTF-8")));
    }
    proof {
        lemma_first_newline(stdout@);
    }
    let n = stdout.len();
    let mut i: usize = 0;
    while i < n
        invariant
            n == stdout@.len(),
            i <= n,
            forall|j: int| 0 <= j < i ==> #[trigger] stdout@[j] != 10,
        ensures
            i <= n,
            forall|j: int| 0 <= j < i ==> #[trigger] stdout@[j] != 10,
            i < n ==> stdout@[i as int] == 10,
        decreases n - i,
    {
        if stdout[i] == 10u8 {
            break;
        }
        i = i + 1;
    }
    proof {
        let f = first_newline(stdout@);
        if i < n {
            if f < 0 || f > i {
                assert(stdout@[i as int] != 10);
            } else if f < i {
                assert(stdout@[f] != 10);
            }
            assert(f == i);
        } else if f >= 0 {
            assert(stdout@[f] != 10);
        }
    }
    if !((i == n && n > 0) || (i < n && i == n - 1)) {
        return Err(DshSidecarError::Protocol(String::from_str("sidecar must emit exactly one response line")));
    }
    let end = if i < n && i > 0 && stdout[i - 1] == 13u8 { i - 1 } else { i };
    let mut line: Vec<u8> = Vec::new();
    let mut k: usize = 0;
    while k < end
        invariant
            end <= n == stdout@.len(),
            k <= end,
            line@ == stdout@.subrange(0, k as int),
        decreases end - k,
    {
        line.push(stdout[k]);
        assert(line@ =~= stdout@.subrange(0, k + 1));
        k = k + 1;
    }
    proof {
        let body = if stdout@.len() > 0 && stdout@.last() == 10 { stdout@.drop_last() } else { stdout@ };
        if i < n {
            assert(body =~= stdout@.subrange(0, i as int));
        } else {
            if n > 0 {
                assert(stdout@[n - 1] != 10);
            }
            assert(body =~= stdout@);
        }
        if i < n && body.len() > 0 && body.last() == 13 {
            assert(body.drop_last() =~= stdout@.subrange(0, end as int));
        } else {
            assert(body =~= stdout@.subrange(0, end as int));
        }
        assert(line@ =~= line_of(stdout@));
    }
    Ok(line)
}

/// The parts of the sidecar's reply that its checks read.
#[derive(Debug, Clone, PartialEq, Eq)]
pub struct SidecarReply {
    /// Version, 1.
    pub schema_version: u16,
    /// Correlation id.
    pub id: String,
    /// Success flag.
    pub ok: bool,
    /// A result is present.
    pub has_result: bool,
    /// The error, if any.
    pub error: Option<SidecarRemoteError>,
}

/// The reply answers request `id` in version 1.
pub open spec fn correlated(reply: SidecarReply, id: Seq<char>) -> bool {
    reply.schema_version == 1 && reply.id@ == id
}

/// The protocol failure of a reply to request `id`, as its message, if any.
pub open spec fn reply_protocol_error(reply: SidecarReply, id: Seq<char>) -> Option<Seq<char>> {
    if !correlated(reply, id) {
        Some("sidecar response correlation mismatch"@)
    } else if !reply.ok && reply.error is None {
        Some("error response has no error"@)
    } else if reply.ok && !reply.has_result {
        Some("success response has no result"@)
    } else {
        None
    }
}

/// Checks the reply correlated with a request and the error it carries: a
/// correlated failure answer is the remote error it carries, a correlated
/// success must carry a result, and anything else is a protocol failure.
pub fn check_reply(reply: SidecarReply, id: &str) -> (r: Result<(), DshSidecarError>)
    ensures
        r is Ok <==> correlated(reply, id@) && reply.ok && reply.has_result,
        r matches Err(DshSidecarError::Protocol(m)) ==> reply_protocol_error(reply, id@) == Some(m@),
        reply_protocol_error(reply, id@) is Some ==> r matches Err(DshSidecarError::Protocol(_)),
        correlated(reply, id@) && !reply.ok && reply.error is Some ==> r == Err::<(), DshSidecarError>(DshSidecarError::Remote {
            code: reply.error->0.code,
            field: reply.error->0.field,
            message: reply.error->0.message,
        }),
        r matches Err(e) ==> (e is Protocol || e is Remote),
{
    let wanted = String::from_str(id);
    if reply.schema_version != 1 || reply.id != wanted {
        return Err(DshSidecarError::Protocol(String::from_str("sidecar response correlation mismatch")));
    }
    if !reply.ok {
        return match reply.error {
            Some(e) => Err(DshSidecarError::Remote { code: e.code, field: e.field, message: e.message }),
            None => Err(DshSidecarError::Protocol(String::from_str("error response has no error"))),
        };
    }
    if !reply.has_result {
        return Err(DshSidecarError::Protocol(String::from_str("success response has no result")));
    }
    Ok(())
}

} // verus!
