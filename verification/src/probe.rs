//! One measurement attempt against an endpoint.
//!
//! The transport layer sends a fixed handshake payload over UDP and waits up
//! to a timeout for any datagram to come back.  This module owns the parts of
//! that exchange that compute: decoding the payload constant from its hex
//! form, and turning the raw transport event of an attempt into a
//! well-formed [`ProbeOutcome`].

use vstd::prelude::*;

verus! {

/// How long, in milliseconds, one attempt waits for a response datagram.
pub const DEFAULT_TIMEOUT_MS: u64 = 1000;

/// The handshake probe payload, as the hex string it is distributed as.
pub const HANDSHAKE_HEX: &'static str = "013cbdafb4135cac96a29484d7a0175ab152dd3e59be35049beadf758b8d48af14ca65f25a168934746fe8bc8867b1c17113d71c0fac5c141ef9f35783ffa5357c9871f4a006662b83ad71245a862495376a5fe3b4f2e1f06974d748416670e5f9b086297f652e6dfbf742fbfc63c3d8aeb175a3e9b7582fbc67c77577e4c0b32b05f92900000000000000000000000000000000";

/// The outcome of one probe attempt.
///
/// `Timeout` is the expected "nobody answered" outcome; `TransportError`
/// covers bind, send and receive failures.  Both count as a failed attempt
/// and nothing more.
#[derive(Clone, Copy, PartialEq, Eq, Structural, Debug)]
pub enum ProbeOutcome {
    Success { latency_ms: u64 },
    Timeout,
    TransportError,
}

/// What the transport layer observed during one attempt, before the library
/// interprets it.
#[derive(Clone, Copy, PartialEq, Eq, Structural, Debug)]
pub enum ProbeEvent {
    /// A datagram arrived after `elapsed_ms` milliseconds.
    Received { elapsed_ms: u64 },
    /// The timeout window closed with no datagram.
    TimedOut,
    /// Binding, sending or receiving failed outright.
    Failed,
}

/// A successful outcome never reports more latency than the timeout window
/// it was measured under.
pub open spec fn outcome_wf(o: ProbeOutcome, timeout_ms: u64) -> bool {
    match o {
        ProbeOutcome::Success { latency_ms } => latency_ms <= timeout_ms,
        _ => true,
    }
}

/// Interpret the transport event of one attempt.
///
/// A received datagram is a success whose latency is the elapsed time,
/// clamped to the timeout window that bounded the wait; the clamp keeps the
/// reported latency within `0..=timeout_ms` even when the clock read runs a
/// little past the window.
pub fn classify_attempt(event: ProbeEvent, timeout_ms: u64) -> (r: ProbeOutcome)
    ensures
        (match event {
            ProbeEvent::Received { elapsed_ms } => r == (ProbeOutcome::Success {
                latency_ms: if elapsed_ms <= timeout_ms {
                    elapsed_ms
                } else {
                    timeout_ms
                },
            }),
            ProbeEvent::TimedOut => r == ProbeOutcome::Timeout,
            ProbeEvent::Failed => r == ProbeOutcome::TransportError,
        }),
        outcome_wf(r, timeout_ms),
{
    match event {
        ProbeEvent::Received { elapsed_ms } => {
            let latency_ms: u64 = if elapsed_ms <= timeout_ms {
                elapsed_ms
            } else {
                timeout_ms
            };
            ProbeOutcome::Success { latency_ms }
        },
        ProbeEvent::TimedOut => ProbeOutcome::Timeout,
        ProbeEvent::Failed => ProbeOutcome::TransportError,
    }
}

/// True of the sixteen hexadecimal digit characters, either case.
pub open spec fn is_hex_digit(c: char) -> bool {
    ||| ('0' as int) <= c as int <= ('9' as int)
    ||| ('a' as int) <= c as int <= ('f' as int)
    ||| ('A' as int) <= c as int <= ('F' as int)
}

/// The numeric value of a hex digit character.
pub open spec fn hex_digit_value(c: char) -> int {
    if ('0' as int) <= c as int <= ('9' as int) {
        c as int - ('0' as int)
    } else if ('a' as int) <= c as int <= ('f' as int) {
        c as int - ('a' as int) + 10
    } else {
        c as int - ('A' as int) + 10
    }
}

/// A string decodes as hex when its length is even and every character is a
/// hex digit.
pub open spec fn hex_valid(s: Seq<char>) -> bool {
    s.len() % 2 == 0 && (forall|i: int| 0 <= i < s.len() ==> is_hex_digit(#[trigger] s[i]))
}

/// Byte `i` of the decoded form: the digit pair at positions `2i`, `2i + 1`,
/// high digit first.
pub open spec fn hex_byte(s: Seq<char>, i: int) -> int {
    16 * hex_digit_value(s[2 * i]) + hex_digit_value(s[2 * i + 1])
}

/// Relies on hex::decode (hex 0.4): an even-length string of hex digits
/// decodes to one byte per digit pair, high digit first, and any other
/// string is rejected.  The input is required to be ASCII so that the
/// character-level statement below coincides with the byte-level work the
/// crate does.
#[verifier::external_body]
fn decode_hex(s: &str) -> (r: Option<Vec<u8>>)
    requires
        vstd::string::is_ascii(s),
    ensures
        r is Some <==> hex_valid(s@),
        (r matches Some(p) ==> p@.len() == s@.len() / 2 && (forall|i: int|
            0 <= i < p@.len() ==> (#[trigger] p@[i]) as int == hex_byte(s@, i))),
{
    hex::decode(s).ok()
}

/// The handshake payload as raw bytes: [`HANDSHAKE_HEX`] decoded.
///
/// The constant is well-formed hex, so the decoded payload is always
/// returned: 148 bytes, one per digit pair.
pub fn handshake_payload() -> (r: Vec<u8>)
    ensures
        r@.len() == 148,
        forall|i: int| 0 <= i < r@.len() ==> (#[trigger] r@[i]) as int == hex_byte(
            HANDSHAKE_HEX@,
            i,
        ),
{
    proof {
        reveal_strlit(
            "013cbdafb4135cac96a29484d7a0175ab152dd3e59be35049beadf758b8d48af14ca65f25a168934746fe8bc8867b1c17113d71c0fac5c141ef9f35783ffa5357c9871f4a006662b83ad71245a862495376a5fe3b4f2e1f06974d748416670e5f9b086297f652e6dfbf742fbfc63c3d8aeb175a3e9b7582fbc67c77577e4c0b32b05f92900000000000000000000000000000000",
        );
    }
    let decoded = decode_hex(HANDSHAKE_HEX);
    match decoded {
        Some(p) => p,
        None => Vec::new(),
    }
}

} // verus!
