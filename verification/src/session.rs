//! One whole acquisition session over a captured byte stream.
//!
//! The producer pipeline is: synchronize on three consecutive marker bytes,
//! skip header lines until one contains `start`, then decode 2-byte
//! big-endian units until the stream ends. `run_session` runs that pipeline
//! over bytes already in hand, with the per-unit read times supplied by the
//! caller that owns the clock; the live application drives the same phase
//! functions one read at a time against the serial device.

use vstd::prelude::*;
use vstd::arithmetic::div_mod::lemma_div_is_ordered;
use vstd::slice::slice_subrange;
use vstd::slice::slice_to_vec;
use crate::decode::DecoderState;
use crate::decode::MeasurementEvent;
use crate::decode::code_value;
use crate::decode::decode_codes;
use crate::decode::decode_unit;
use crate::decode::initial_state;
use crate::decode::run_events;
use crate::decode::run_state;
use crate::header::header_end;
use crate::header::skip_header_bytes;
use crate::sync::find_sync;
use crate::sync::marker_run_end;

verus! {

/// Why a session could not reach binary mode.
#[derive(Clone, Copy, Debug, PartialEq, Eq, Structural)]
pub enum SessionError {
    /// The stream holds no run of three consecutive marker bytes.
    NoSync,
    /// No terminated header line after the preamble contains `start`.
    NoStartLine,
}

/// What one session produced.
#[derive(Debug, PartialEq, Eq)]
pub struct SessionOutput {
    /// The measurement events, in arrival order.
    pub events: Vec<MeasurementEvent>,
    /// The classification state when the stream ended.
    pub state: DecoderState,
    /// Index just past the three-marker preamble.
    pub sync_end: usize,
    /// Index where binary mode began: just past the sentinel header line.
    pub binary_start: usize,
}

/// The 16-bit codes of the complete units lying at and after `from`;
/// a trailing odd byte is not a unit.
pub open spec fn units_of(s: Seq<u8>, from: int) -> Seq<u16> {
    Seq::new(
        ((s.len() - from) / 2) as nat,
        |k: int| code_value(s[from + 2 * k], s[from + 2 * k + 1]),
    )
}

/// Run the producer pipeline over a whole captured byte stream.
/// `times[k]` is the elapsed time, in microseconds since binary mode began,
/// read with the `k`-th binary unit; the caller supplies at least one per
/// possible unit.
pub fn run_session(bytes: &Vec<u8>, times: &Vec<u64>) -> (r: Result<SessionOutput, SessionError>)
    requires
        times@.len() >= bytes@.len() / 2,
    ensures
        match r {
            Ok(out) => {
                &&& marker_run_end(bytes@, 0, out.sync_end as int)
                &&& forall|j: int| j < out.sync_end ==> !marker_run_end(bytes@, 0, j)
                &&& header_end(bytes@, out.sync_end as int) == Some(out.binary_start as int)
                &&& out.events@ == run_events(
                    initial_state(),
                    units_of(bytes@, out.binary_start as int),
                    times@.take(units_of(bytes@, out.binary_start as int).len() as int),
                )
                &&& out.state == run_state(
                    initial_state(),
                    units_of(bytes@, out.binary_start as int),
                )
            },
            Err(SessionError::NoSync) => forall|j: int| !marker_run_end(bytes@, 0, j),
            Err(SessionError::NoStartLine) => exists|i: int|
                {
                    &&& #[trigger] marker_run_end(bytes@, 0, i)
                    &&& forall|j: int| j < i ==> !marker_run_end(bytes@, 0, j)
                    &&& header_end(bytes@, i) is None
                },
        },
{
    let ghost s = bytes@;
    let sync_end = match find_sync(bytes, 0) {
        Some(i) => i,
        None => {
            return Err(SessionError::NoSync);
        },
    };
    let binary_start = match skip_header_bytes(bytes, sync_end) {
        Some(b) => b,
        None => {
            return Err(SessionError::NoStartLine);
        },
    };
    let ghost units = units_of(s, binary_start as int);
    let mut codes: Vec<u16> = Vec::new();
    let mut p: usize = binary_start;
    proof {
        assert(codes@ =~= units.take(0));
    }
    while bytes.len() - p >= 2
        invariant
            s == bytes@,
            binary_start <= p <= s.len(),
            (p - binary_start) % 2 == 0,
            units == units_of(s, binary_start as int),
            codes@.len() == (p - binary_start) / 2,
            codes@ == units.take(((p - binary_start) / 2) as int),
        decreases s.len() - p,
    {
        let code = decode_unit(bytes[p], bytes[p + 1]);
        codes.push(code);
        proof {
            let k = ((p - binary_start) / 2) as int;
            assert(2 * k == p - binary_start);
            assert(units[k] == code_value(s[p as int], s[p as int + 1]));
            assert(codes@ =~= units.take(k + 1));
        }
        p = p + 2;
    }
    proof {
        let done = ((p - binary_start) / 2) as int;
        assert(s.len() - p < 2);
        assert(2 * done == p - binary_start);
        assert((s.len() - binary_start) / 2 == done);
        assert(codes@ =~= units);
        lemma_div_is_ordered(s.len() - binary_start, s.len() as int, 2);
        assert(codes@.len() <= times@.len());
    }
    let times_used: Vec<u64> = slice_to_vec(slice_subrange(times.as_slice(), 0, codes.len()));
    proof {
        assert(times_used@ =~= times@.take(units.len() as int));
    }
    let mut state = DecoderState::new();
    let events = decode_codes(&mut state, &codes, &times_used);
    Ok(SessionOutput { events, state, sync_end, binary_start })
}

} // verus!
