//! Length-prefixed frames: four bytes of little-endian length, then the payload.

use crate::config::WsCkptError;
use crate::message::{error_resp, ErrorCode, Response};
use crate::text::{decimal, push_decimal};
use vstd::prelude::*;

verus! {

/// Largest payload of a frame, without its length prefix.
pub const MAX_FRAME_SIZE: u32 = 16_777_216;

/// The four bytes of a length, least significant first.
pub open spec fn length_prefix(n: nat) -> Seq<u8> {
    seq![
        (n % 256) as u8,
        (n / 256 % 256) as u8,
        (n / 65536 % 256) as u8,
        (n / 16777216 % 256) as u8,
    ]
}

/// The length that four bytes denote.
pub open spec fn prefix_length(b: Seq<u8>) -> nat {
    (b[0] + b[1] * 256 + b[2] * 65536 + b[3] * 16777216) as nat
}

/// Whether `r` reports a frame of `size` bytes as too large.
pub open spec fn is_too_large(r: WsCkptError, size: nat) -> bool {
    r matches WsCkptError::FrameTooLarge { size: s, max } && s == size && max == MAX_FRAME_SIZE
}

/// Puts a payload into a frame, unless it is too large.
pub fn encode_frame(payload: &Vec<u8>) -> (r: Result<Vec<u8>, WsCkptError>)
    ensures
        match r {
            Ok(f) => payload@.len() <= MAX_FRAME_SIZE && f@ == length_prefix(payload@.len())
                + payload@,
            Err(e) => payload@.len() > MAX_FRAME_SIZE && is_too_large(e, payload@.len()),
        },
{
    let size: usize = payload.len();
    if size > MAX_FRAME_SIZE as usize {
        return Err(WsCkptError::FrameTooLarge { size: size as u64, max: MAX_FRAME_SIZE });
    }
    let mut frame: Vec<u8> = Vec::new();
    frame.push((size % 256) as u8);
    frame.push((size / 256 % 256) as u8);
    frame.push((size / 65536 % 256) as u8);
    frame.push((size / 16777216 % 256) as u8);
    let ghost head = frame@;
    let mut i: usize = 0;
    while i < payload.len()
        invariant
            i <= payload@.len(),
            frame@ =~= head + payload@.take(i as int),
        decreases payload@.len() - i,
    {
        frame.push(payload[i]);
        i = i + 1;
    }
    proof {
        assert(head =~= length_prefix(payload@.len()));
        assert(payload@.take(payload@.len() as int) =~= payload@);
    }
    Ok(frame)
}

/// Reads the length of the payload that follows a length prefix, unless it is too large.
pub fn frame_length(prefix: [u8; 4]) -> (r: Result<u32, WsCkptError>)
    ensures
        match r {
            Ok(n) => n == prefix_length(prefix@) && n <= MAX_FRAME_SIZE,
            Err(e) => prefix_length(prefix@) > MAX_FRAME_SIZE && is_too_large(
                e,
                prefix_length(prefix@),
            ),
        },
{
    let a: u64 = prefix[0] as u64;
    let b: u64 = prefix[1] as u64;
    let c: u64 = prefix[2] as u64;
    let d: u64 = prefix[3] as u64;
    let n: u64 = a + b * 256 + c * 65536 + d * 16777216;
    if n > MAX_FRAME_SIZE as u64 {
        return Err(WsCkptError::FrameTooLarge { size: n, max: MAX_FRAME_SIZE });
    }
    Ok(n as u32)
}

/// The prefix of a frame denotes the length of its payload, and what follows the prefix is the
/// payload.
pub proof fn lemma_frame_reads_back(payload: Seq<u8>)
    requires
        payload.len() <= MAX_FRAME_SIZE,
    ensures
        prefix_length((length_prefix(payload.len()) + payload).take(4)) == payload.len(),
        (length_prefix(payload.len()) + payload).skip(4) == payload,
{
    let n = payload.len();
    let f = length_prefix(n) + payload;
    assert(f.take(4) =~= length_prefix(n));
    assert(f.skip(4) =~= payload);
}

/// What is sent in place of a response that cannot be framed: the reason, and what to do.
/// Clients of every version can decode an internal error.
pub open spec fn unsendable_message(is_list: bool, e: WsCkptError) -> Seq<char> {
    "Failed to encode response: "@ + e.text() + ". "@ + if is_list {
        "Use paginated listing or request snapshot counts."@
    } else {
        "The request may already have completed; check its outcome before retrying."@
    }
}

/// The response to send in place of one whose framing failed with `error`.
pub fn unsendable_response(response: &Response, error: &WsCkptError) -> (r: Response)
    ensures
        r.is_error(ErrorCode::InternalError, unsendable_message(response is ListOk, *error)),
{
    let mut m = "Failed to encode response: ".to_owned();
    m.append(error.to_text().as_str());
    m.append(". ");
    match response {
        Response::ListOk { .. } => {
            m.append("Use paginated listing or request snapshot counts.");
        },
        _ => {
            m.append("The request may already have completed; check its outcome before retrying.");
        },
    }
    error_resp(ErrorCode::InternalError, m.as_str())
}

/// The message about a frame that is too large.
pub open spec fn oversized_message(what: Seq<char>, len: nat) -> Seq<char> {
    what + decimal(len) + " bytes (max "@ + decimal(MAX_FRAME_SIZE as nat) + ")"@
}

fn oversized(what: &str, len: u64) -> (r: String)
    ensures
        r@ == oversized_message(what@, len as nat),
{
    let mut m = what.to_owned();
    push_decimal(&mut m, len);
    m.append(" bytes (max ");
    push_decimal(&mut m, MAX_FRAME_SIZE as u64);
    m.append(")");
    m
}

/// Decides on the length prefix of a request: how many bytes to read, or the error to answer.
pub fn accept_request_length(prefix: [u8; 4]) -> (r: Result<u32, Response>)
    ensures
        match r {
            Ok(n) => n == prefix_length(prefix@) && n <= MAX_FRAME_SIZE,
            Err(e) => prefix_length(prefix@) > MAX_FRAME_SIZE && e.is_error(
                ErrorCode::InternalError,
                oversized_message("Frame too large: "@, prefix_length(prefix@)),
            ),
        },
{
    match frame_length(prefix) {
        Ok(n) => Ok(n),
        Err(WsCkptError::FrameTooLarge { size, .. }) => Err(
            error_resp(ErrorCode::InternalError, oversized("Frame too large: ", size).as_str()),
        ),
        Err(_) => {
            proof {
                assert(false);
            }
            Err(error_resp(ErrorCode::InternalError, "Frame too large"))
        },
    }
}

/// Decides on the length prefix of a response: how many bytes to read, or the error to report.
pub fn accept_response_length(prefix: [u8; 4]) -> (r: Result<u32, String>)
    ensures
        match r {
            Ok(n) => n == prefix_length(prefix@) && n <= MAX_FRAME_SIZE,
            Err(e) => prefix_length(prefix@) > MAX_FRAME_SIZE && e@ == oversized_message(
                "Response frame too large: "@,
                prefix_length(prefix@),
            ),
        },
{
    match frame_length(prefix) {
        Ok(n) => Ok(n),
        Err(WsCkptError::FrameTooLarge { size, .. }) => Err(
            oversized("Response frame too large: ", size),
        ),
        Err(_) => {
            proof {
                assert(false);
            }
            Err("Response frame too large".to_owned())
        },
    }
}

} // verus!
