//! Decoding and classification of 2-byte binary units.
//!
//! Once a session is synchronized and the header is skipped, the stream is a
//! run of fixed-width units: 2 bytes each, big-endian, yielding a 16-bit
//! code. Codes `0x0000..=0xFFEF` are measurement samples; `0xFFF0` and
//! `0xFFF1` signal a falling / rising edge on the monitored digital input;
//! `0xFFF2..=0xFFFF` are reserved and treated as malformed (ignored).

use vstd::prelude::*;

verus! {

/// Largest code that is a measurement sample.
pub const MAX_SAMPLE_CODE: u16 = 0xFFEF;

/// Code signalling a falling edge (digital input goes low).
pub const FALLING_EDGE_CODE: u16 = 0xFFF0;

/// Code signalling a rising edge (digital input goes high).
pub const RISING_EDGE_CODE: u16 = 0xFFF1;

/// What a 16-bit code means.
#[derive(Clone, Copy, Debug, PartialEq, Eq, Structural)]
pub enum UnitClass {
    /// A measurement sample carrying the code as its value.
    Sample,
    /// The digital input dropped low.
    FallingEdge,
    /// The digital input went high.
    RisingEdge,
    /// A reserved, out-of-spec code: ignored.
    Malformed,
}

/// Meaning of each code, as the protocol fixes it.
pub open spec fn classify_code(code: u16) -> UnitClass {
    if code <= MAX_SAMPLE_CODE {
        UnitClass::Sample
    } else if code == FALLING_EDGE_CODE {
        UnitClass::FallingEdge
    } else if code == RISING_EDGE_CODE {
        UnitClass::RisingEdge
    } else {
        UnitClass::Malformed
    }
}

/// Classify one decoded code.
pub fn classify(code: u16) -> (c: UnitClass)
    ensures
        c == classify_code(code),
{
    if code <= MAX_SAMPLE_CODE {
        UnitClass::Sample
    } else if code == FALLING_EDGE_CODE {
        UnitClass::FallingEdge
    } else if code == RISING_EDGE_CODE {
        UnitClass::RisingEdge
    } else {
        UnitClass::Malformed
    }
}

/// The 16-bit code held by two bytes in big-endian order.
pub open spec fn code_value(hi: u8, lo: u8) -> u16 {
    (hi * 256 + lo) as u16
}

/// Decode one 2-byte big-endian unit into its code.
pub fn decode_unit(hi: u8, lo: u8) -> (code: u16)
    ensures
        code == code_value(hi, lo),
{
    hi as u16 * 256 + lo as u16
}

/// One decoded measurement sample, ready for delivery to the consumer.
/// Immutable once constructed.
#[derive(Clone, Copy, Debug, PartialEq, Eq, Structural)]
pub struct MeasurementEvent {
    /// Elapsed microseconds since binary-mode streaming began.
    pub time_micros: u64,
    /// The sample value: the unit's code.
    pub value: u16,
    /// Snapshot of the digital input at classification time.
    pub digital_input: bool,
}

/// Session-scoped classification state, threaded through the decode loop.
#[derive(Clone, Copy, Debug, PartialEq, Eq, Structural)]
pub struct DecoderState {
    /// Level of the monitored digital input; false at session start.
    pub digital_input: bool,
    /// Falling edges observed so far; never resets within a session.
    pub falling_edges: u64,
}

/// The state every session starts from.
pub open spec fn initial_state() -> DecoderState {
    DecoderState { digital_input: false, falling_edges: 0 }
}

/// The state after classifying one code: edges flip the input level (and a
/// falling edge bumps the counter); samples and malformed codes leave the
/// state untouched.
pub open spec fn step_state(s: DecoderState, code: u16) -> DecoderState {
    match classify_code(code) {
        UnitClass::FallingEdge => DecoderState {
            digital_input: false,
            falling_edges: (s.falling_edges + 1) as u64,
        },
        UnitClass::RisingEdge => DecoderState { digital_input: true, ..s },
        _ => s,
    }
}

/// The event one code emits: exactly one measurement per sample code,
/// carrying the time handed in and the current input snapshot; edge and
/// malformed codes emit nothing.
pub open spec fn step_event(s: DecoderState, code: u16, time_micros: u64) -> Option<
    MeasurementEvent,
> {
    if classify_code(code) is Sample {
        Some(MeasurementEvent { time_micros, value: code, digital_input: s.digital_input })
    } else {
        None
    }
}

impl DecoderState {
    /// Fresh state: input low, no falling edges seen.
    pub fn new() -> (s: DecoderState)
        ensures
            s == initial_state(),
    {
        DecoderState { digital_input: false, falling_edges: 0 }
    }

    /// Classify one code: update the state and return the event to deliver,
    /// if any. `time_micros` is the elapsed time the caller read at the
    /// moment the unit arrived.
    pub fn step(&mut self, code: u16, time_micros: u64) -> (ev: Option<MeasurementEvent>)
        requires
            old(self).falling_edges < u64::MAX,
        ensures
            *final(self) == step_state(*old(self), code),
            ev == step_event(*old(self), code, time_micros),
    {
        if code <= MAX_SAMPLE_CODE {
            Some(
                MeasurementEvent {
                    time_micros,
                    value: code,
                    digital_input: self.digital_input,
                },
            )
        } else if code == FALLING_EDGE_CODE {
            self.digital_input = false;
            self.falling_edges = self.falling_edges + 1;
            None
        } else if code == RISING_EDGE_CODE {
            self.digital_input = true;
            None
        } else {
            None
        }
    }
}

/// The state after classifying a whole run of codes, in order.
pub open spec fn run_state(s: DecoderState, codes: Seq<u16>) -> DecoderState
    decreases codes.len(),
{
    if codes.len() == 0 {
        s
    } else {
        run_state(step_state(s, codes[0]), codes.drop_first())
    }
}

/// The events a run of codes emits, in arrival order; `times[k]` is the
/// elapsed time read with `codes[k]`.
pub open spec fn run_events(s: DecoderState, codes: Seq<u16>, times: Seq<u64>) -> Seq<
    MeasurementEvent,
>
    decreases codes.len(),
{
    if codes.len() == 0 || times.len() == 0 {
        Seq::empty()
    } else {
        let rest = run_events(step_state(s, codes[0]), codes.drop_first(), times.drop_first());
        match step_event(s, codes[0], times[0]) {
            Some(ev) => seq![ev] + rest,
            None => rest,
        }
    }
}

/// Classify a whole batch of codes against their read times, collecting the
/// emitted events in order and advancing the state.
pub fn decode_codes(state: &mut DecoderState, codes: &Vec<u16>, times: &Vec<u64>) -> (events: Vec<
    MeasurementEvent,
>)
    requires
        codes@.len() == times@.len(),
        old(state).falling_edges + codes@.len() <= u64::MAX,
    ensures
        *final(state) == run_state(*old(state), codes@),
        events@ == run_events(*old(state), codes@, times@),
{
    let ghost s0 = *state;
    let mut events: Vec<MeasurementEvent> = Vec::new();
    let mut k: usize = 0;
    proof {
        assert(codes@.skip(0) =~= codes@);
        assert(times@.skip(0) =~= times@);
        assert(events@ + run_events(*state, codes@, times@) =~= run_events(*state, codes@, times@));
    }
    while k < codes.len()
        invariant
            codes@.len() == times@.len(),
            k <= codes@.len(),
            state.falling_edges <= s0.falling_edges + k,
            s0.falling_edges + codes@.len() <= u64::MAX,
            run_state(s0, codes@) == run_state(*state, codes@.skip(k as int)),
            run_events(s0, codes@, times@) == events@ + run_events(
                *state,
                codes@.skip(k as int),
                times@.skip(k as int),
            ),
        decreases codes@.len() - k,
    {
        let ghost st = *state;
        let ghost cs = codes@.skip(k as int);
        let ghost ts = times@.skip(k as int);
        let ev = state.step(codes[k], times[k]);
        proof {
            assert(cs[0] == codes@[k as int]);
            assert(ts[0] == times@[k as int]);
            assert(cs.drop_first() =~= codes@.skip(k as int + 1));
            assert(ts.drop_first() =~= times@.skip(k as int + 1));
        }
        if let Some(e) = ev {
            events.push(e);
            proof {
                assert(run_events(s0, codes@, times@) =~= events@ + run_events(
                    *state,
                    codes@.skip(k as int + 1),
                    times@.skip(k as int + 1),
                ));
            }
        }
        k = k + 1;
    }
    proof {
        assert(codes@.skip(codes@.len() as int) =~= Seq::<u16>::empty());
        assert(events@ =~= run_events(s0, codes@, times@));
    }
    events
}

/// Number of falling-edge codes in a run.
pub open spec fn count_falling(codes: Seq<u16>) -> nat
    decreases codes.len(),
{
    if codes.len() == 0 {
        0
    } else {
        (if codes[0] == FALLING_EDGE_CODE {
            1nat
        } else {
            0nat
        }) + count_falling(codes.drop_first())
    }
}

/// Law: each falling-edge code increments the counter exactly once, and no
/// other code touches it — after any run the counter has grown by exactly
/// the number of falling-edge codes in the run.
pub proof fn lemma_falling_edge_count(s: DecoderState, codes: Seq<u16>)
    requires
        s.falling_edges + count_falling(codes) <= u64::MAX,
    ensures
        run_state(s, codes).falling_edges == s.falling_edges + count_falling(codes),
    decreases codes.len(),
{
    if codes.len() > 0 {
        lemma_falling_edge_count(step_state(s, codes[0]), codes.drop_first());
    }
}

/// Law: a run of nothing but sample codes leaves the state untouched and
/// emits exactly one event per code, in arrival order, each carrying its own
/// read time, its code as the value, and the unchanged input snapshot.
pub proof fn lemma_samples_in_order(s: DecoderState, codes: Seq<u16>, times: Seq<u64>)
    requires
        codes.len() == times.len(),
        forall|k: int| 0 <= k < codes.len() ==> classify_code(codes[k]) is Sample,
    ensures
        run_state(s, codes) == s,
        run_events(s, codes, times).len() == codes.len(),
        forall|k: int|
            0 <= k < codes.len() ==> run_events(s, codes, times)[k] == (MeasurementEvent {
                time_micros: times[k],
                value: codes[k],
                digital_input: s.digital_input,
            }),
    decreases codes.len(),
{
    if codes.len() > 0 {
        assert(classify_code(codes[0]) is Sample);
        assert(step_state(s, codes[0]) == s);
        assert(forall|k: int|
            0 <= k < codes.drop_first().len() ==> classify_code(codes.drop_first()[k])
                is Sample) by {
            assert(forall|k: int|
                0 <= k < codes.drop_first().len() ==> codes.drop_first()[k] == codes[k + 1]);
        }
        lemma_samples_in_order(s, codes.drop_first(), times.drop_first());
        let evs = run_events(s, codes, times);
        let rest = run_events(s, codes.drop_first(), times.drop_first());
        assert(evs == seq![
            MeasurementEvent {
                time_micros: times[0],
                value: codes[0],
                digital_input: s.digital_input,
            },
        ] + rest);
        assert forall|k: int| 0 <= k < codes.len() implies evs[k] == (MeasurementEvent {
            time_micros: times[k],
            value: codes[k],
            digital_input: s.digital_input,
        }) by {
            if k > 0 {
                assert(evs[k] == rest[k - 1]);
                assert(codes.drop_first()[k - 1] == codes[k]);
                assert(times.drop_first()[k - 1] == times[k]);
            }
        }
    }
}

/// Law: reserved codes emit no event and alter neither the input level nor
/// the falling-edge counter, however many of them arrive.
pub proof fn lemma_malformed_changes_nothing(s: DecoderState, codes: Seq<u16>, times: Seq<u64>)
    requires
        forall|k: int| 0 <= k < codes.len() ==> classify_code(codes[k]) is Malformed,
    ensures
        run_state(s, codes) == s,
        run_events(s, codes, times) == Seq::<MeasurementEvent>::empty(),
    decreases codes.len(),
{
    if codes.len() > 0 {
        assert(classify_code(codes[0]) is Malformed);
        assert(forall|k: int|
            0 <= k < codes.drop_first().len() ==> codes.drop_first()[k] == codes[k + 1]);
        lemma_malformed_changes_nothing(s, codes.drop_first(), times.drop_first());
    }
}

/// True when a sequence of read times never goes backwards.
pub open spec fn nondecreasing_u64(ts: Seq<u64>) -> bool {
    forall|a: int, b: int| 0 <= a <= b < ts.len() ==> ts[a] <= ts[b]
}

/// True when emitted timestamps never go backwards.
pub open spec fn event_times_nondecreasing(evs: Seq<MeasurementEvent>) -> bool {
    forall|a: int, b: int| 0 <= a <= b < evs.len() ==> evs[a].time_micros <= evs[b].time_micros
}

/// Law: with a non-decreasing clock, the emitted timestamps are
/// non-decreasing in emission order, and no event predates the first
/// binary-mode read.
pub proof fn lemma_event_times_nondecreasing(s: DecoderState, codes: Seq<u16>, times: Seq<u64>)
    requires
        codes.len() == times.len(),
        nondecreasing_u64(times),
    ensures
        event_times_nondecreasing(run_events(s, codes, times)),
        forall|k: int|
            0 <= k < run_events(s, codes, times).len() ==> times.len() > 0 && times[0]
                <= run_events(s, codes, times)[k].time_micros,
    decreases codes.len(),
{
    if codes.len() > 0 {
        let s1 = step_state(s, codes[0]);
        let ctail = codes.drop_first();
        let ttail = times.drop_first();
        assert(nondecreasing_u64(ttail)) by {
            assert(forall|a: int, b: int|
                0 <= a <= b < ttail.len() ==> ttail[a] == times[a + 1] && ttail[b] == times[b + 1]
                    && times[a + 1] <= times[b + 1]);
        }
        lemma_event_times_nondecreasing(s1, ctail, ttail);
        let evs = run_events(s, codes, times);
        let rest = run_events(s1, ctail, ttail);
        assert(forall|k: int|
            0 <= k < rest.len() ==> times[0] <= rest[k].time_micros) by {
            if rest.len() > 0 {
                assert(ttail[0] == times[1]);
                assert(times[0] <= times[1]);
            }
        }
        match step_event(s, codes[0], times[0]) {
            Some(ev0) => {
                assert(evs == seq![ev0] + rest);
                assert(ev0.time_micros == times[0]);
                assert(forall|k: int| 0 <= k < rest.len() ==> evs[k + 1] == rest[k]);
                assert forall|a: int, b: int|
                    0 <= a <= b < evs.len() implies evs[a].time_micros <= evs[b].time_micros by {
                    if a > 0 {
                        assert(evs[a] == rest[a - 1]);
                    }
                    if b > 0 {
                        assert(evs[b] == rest[b - 1]);
                        assert(times[0] <= rest[b - 1].time_micros);
                    }
                }
            },
            None => {
                assert(evs == rest);
            },
        }
    }
}

} // verus!
