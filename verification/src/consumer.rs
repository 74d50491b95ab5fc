//! Consumer-side rendering: each delivered event becomes one line of the
//! persisted log, `<seconds>.<micros>,<value>,<0|1>`, under the header
//! `time_s,power_mw,input_pin`. Timestamps are printed as seconds with a
//! six-digit microsecond fraction. The actual file writing is I/O and lives
//! with the application; this module produces the exact bytes to write.

use vstd::prelude::*;
use crate::decode::MeasurementEvent;

verus! {

/// Microseconds in one second, for splitting a timestamp.
pub const MICROS_PER_SECOND: u64 = 1000000;

/// Digits in the printed microsecond fraction.
pub const FRACTION_DIGITS: u64 = 6;

/// The ASCII digit of `n`'s lowest decimal place.
pub open spec fn dec_digit(n: nat) -> u8 {
    (48 + n % 10) as u8
}

/// The decimal digits of `n`, most significant first, no leading zeros
/// (a single `0` for zero itself).
pub open spec fn dec_bytes(n: nat) -> Seq<u8>
    decreases n,
{
    if n < 10 {
        seq![dec_digit(n)]
    } else {
        dec_bytes(n / 10).push(dec_digit(n))
    }
}

/// The lowest `width` decimal digits of `n`, zero-padded on the left.
pub open spec fn dec_bytes_pad(n: nat, width: nat) -> Seq<u8>
    decreases width,
{
    if width <= 1 {
        seq![dec_digit(n)]
    } else {
        dec_bytes_pad(n / 10, (width - 1) as nat).push(dec_digit(n))
    }
}

/// Append the decimal digits of `n`.
fn push_dec(n: u64, out: &mut Vec<u8>)
    ensures
        final(out)@ == old(out)@ + dec_bytes(n as nat),
    decreases n,
{
    if n >= 10 {
        push_dec(n / 10, out);
    }
    out.push(48 + (n % 10) as u8);
    proof {
        assert(out@ =~= old(out)@ + dec_bytes(n as nat));
    }
}

/// Append the lowest `width` decimal digits of `n`, zero-padded.
fn push_dec_pad(n: u64, width: u64, out: &mut Vec<u8>)
    requires
        width >= 1,
    ensures
        final(out)@ == old(out)@ + dec_bytes_pad(n as nat, width as nat),
    decreases width,
{
    if width > 1 {
        push_dec_pad(n / 10, width - 1, out);
    }
    out.push(48 + (n % 10) as u8);
    proof {
        assert(out@ =~= old(out)@ + dec_bytes_pad(n as nat, width as nat));
    }
}

/// An elapsed time in microseconds printed as seconds: whole seconds, a
/// dot, then exactly six fraction digits.
pub open spec fn time_bytes(t: nat) -> Seq<u8> {
    dec_bytes(t / 1000000) + seq![46u8] + dec_bytes_pad(t % 1000000, 6)
}

/// `1` for a high digital input, `0` for low.
pub open spec fn bool_byte(b: bool) -> u8 {
    if b {
        49
    } else {
        48
    }
}

/// The persisted line for one event: time, value and input level,
/// comma-separated, newline-terminated.
pub open spec fn csv_line_of(ev: MeasurementEvent) -> Seq<u8> {
    time_bytes(ev.time_micros as nat) + seq![44u8] + dec_bytes(ev.value as nat) + seq![
        44u8,
        bool_byte(ev.digital_input),
        10u8,
    ]
}

/// Render one event as its log line.
pub fn csv_line(ev: &MeasurementEvent) -> (line: Vec<u8>)
    ensures
        line@ == csv_line_of(*ev),
{
    let mut out: Vec<u8> = Vec::new();
    push_dec(ev.time_micros / MICROS_PER_SECOND, &mut out);
    out.push(46);
    push_dec_pad(ev.time_micros % MICROS_PER_SECOND, FRACTION_DIGITS, &mut out);
    out.push(44);
    push_dec(ev.value as u64, &mut out);
    out.push(44);
    out.push(if ev.digital_input { 49 } else { 48 });
    out.push(10);
    proof {
        assert(out@ =~= csv_line_of(*ev));
    }
    out
}

/// The header line `time_s,power_mw,input_pin` with its newline, as bytes.
pub open spec fn csv_header_bytes() -> Seq<u8> {
    seq![
        116u8, 105, 109, 101, 95, 115,  // time_s
        44,  // ,
        112, 111, 119, 101, 114, 95, 109, 119,  // power_mw
        44,  // ,
        105, 110, 112, 117, 116, 95, 112, 105, 110,  // input_pin
        10,  // newline
    ]
}

/// The header line the log starts with.
pub fn csv_header() -> (line: Vec<u8>)
    ensures
        line@ == csv_header_bytes(),
{
    let out: Vec<u8> = vec![
        116u8, 105, 109, 101, 95, 115, 44, 112, 111, 119, 101, 114, 95, 109, 119, 44, 105, 110,
        112, 117, 116, 95, 112, 105, 110, 10,
    ];
    proof {
        assert(out@ =~= csv_header_bytes());
    }
    out
}

/// The lines of a whole run of events, in order.
pub open spec fn csv_lines_of(evs: Seq<MeasurementEvent>) -> Seq<u8>
    decreases evs.len(),
{
    if evs.len() == 0 {
        Seq::empty()
    } else {
        csv_lines_of(evs.drop_last()) + csv_line_of(evs.last())
    }
}

/// Render a whole run of events as the complete log: header first, then one
/// line per event, in delivery order.
pub fn render_csv(events: &Vec<MeasurementEvent>) -> (out: Vec<u8>)
    ensures
        out@ == csv_header_bytes() + csv_lines_of(events@),
{
    let mut out = csv_header();
    let mut k: usize = 0;
    proof {
        assert(events@.take(0) =~= Seq::<MeasurementEvent>::empty());
        assert(out@ =~= csv_header_bytes() + csv_lines_of(events@.take(0)));
    }
    while k < events.len()
        invariant
            k <= events@.len(),
            out@ == csv_header_bytes() + csv_lines_of(events@.take(k as int)),
        decreases events@.len() - k,
    {
        let mut line = csv_line(&events[k]);
        out.append(&mut line);
        proof {
            let taken = events@.take(k as int + 1);
            assert(taken.drop_last() =~= events@.take(k as int));
            assert(taken.last() == events@[k as int]);
            assert(out@ =~= csv_header_bytes() + csv_lines_of(taken));
        }
        k = k + 1;
    }
    proof {
        assert(events@.take(events@.len() as int) =~= events@);
    }
    out
}

/// The consumer end of the pipeline: drains the delivery channel and
/// persists each event to the output log. Only the rendering is done here;
/// opening and writing the file is the application's I/O.
pub struct OutputConsumer {
    output_path: String,
}

impl OutputConsumer {
    /// The destination the log is written to.
    pub closed spec fn path(&self) -> Seq<char> {
        self.output_path@
    }

    /// A consumer that will persist to `output_path`.
    pub fn new(output_path: String) -> (c: OutputConsumer)
        ensures
            c.path() == output_path@,
    {
        OutputConsumer { output_path }
    }

    /// The destination path, for the caller that opens the file.
    pub fn output_path(&self) -> (p: &String)
        ensures
            p@ == self.path(),
    {
        &self.output_path
    }
}

} // verus!
