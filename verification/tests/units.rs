use rsoxy::channel::{BoundedFifo, CHANNEL_CAPACITY};
use rsoxy::consumer::{csv_header, csv_line, render_csv, OutputConsumer};
use rsoxy::decode::{
    classify, decode_codes, decode_unit, DecoderState, MeasurementEvent, UnitClass,
};
use rsoxy::supervisor::{SupervisorState, Task};

#[test]
fn unit_is_big_endian() {
    assert_eq!(decode_unit(0x12, 0x34), 0x1234);
    assert_eq!(decode_unit(0x00, 0x00), 0x0000);
    assert_eq!(decode_unit(0xFF, 0xEF), 0xFFEF);
}

#[test]
fn classification_boundaries() {
    assert_eq!(classify(0x0000), UnitClass::Sample);
    assert_eq!(classify(0x1234), UnitClass::Sample);
    assert_eq!(classify(0xFFEF), UnitClass::Sample);
    assert_eq!(classify(0xFFF0), UnitClass::FallingEdge);
    assert_eq!(classify(0xFFF1), UnitClass::RisingEdge);
    assert_eq!(classify(0xFFF2), UnitClass::Malformed);
    assert_eq!(classify(0xFFFF), UnitClass::Malformed);
}

#[test]
fn sample_emits_event_with_snapshot() {
    let mut s = DecoderState::new();
    let ev = s.step(0x0005, 42);
    assert_eq!(
        ev,
        Some(MeasurementEvent { time_micros: 42, value: 5, digital_input: false })
    );
    assert_eq!(s.falling_edges, 0);

    // After a rising edge the snapshot in the next sample is high.
    assert_eq!(s.step(0xFFF1, 50), None);
    let ev2 = s.step(0x0006, 60);
    assert_eq!(
        ev2,
        Some(MeasurementEvent { time_micros: 60, value: 6, digital_input: true })
    );
}

#[test]
fn falling_edge_flips_input_and_counts_once() {
    let mut s = DecoderState::new();
    assert_eq!(s.step(0xFFF1, 0), None);
    assert!(s.digital_input);
    assert_eq!(s.step(0xFFF0, 1), None);
    assert!(!s.digital_input);
    assert_eq!(s.falling_edges, 1);
    assert_eq!(s.step(0xFFF0, 2), None);
    assert_eq!(s.falling_edges, 2);
}

#[test]
fn rising_edge_does_not_touch_counter() {
    let mut s = DecoderState::new();
    assert_eq!(s.step(0xFFF1, 0), None);
    assert!(s.digital_input);
    assert_eq!(s.falling_edges, 0);
}

#[test]
fn reserved_codes_change_nothing() {
    let mut s = DecoderState::new();
    s.step(0xFFF1, 0);
    for code in [0xFFF2u16, 0xFFF7, 0xFFFE, 0xFFFF] {
        let before = s;
        assert_eq!(s.step(code, 9), None);
        assert_eq!(s, before);
    }
}

#[test]
fn batch_decoding_keeps_order() {
    let mut s = DecoderState::new();
    let codes: Vec<u16> = vec![1, 2, 3];
    let times: Vec<u64> = vec![10, 20, 30];
    let events = decode_codes(&mut s, &codes, &times);
    assert_eq!(events.len(), 3);
    for (k, ev) in events.iter().enumerate() {
        assert_eq!(ev.value, codes[k]);
        assert_eq!(ev.time_micros, times[k]);
        assert_eq!(ev.digital_input, false);
    }
}

fn ev(t: u64, v: u16, d: bool) -> MeasurementEvent {
    MeasurementEvent { time_micros: t, value: v, digital_input: d }
}

#[test]
fn full_channel_refuses_without_losing() {
    let mut q = BoundedFifo::new(2);
    assert_eq!(q.try_push(ev(1, 1, false)), None);
    assert_eq!(q.try_push(ev(2, 2, false)), None);
    assert_eq!(q.len(), 2);
    // At capacity: the event comes back untouched, nothing is overwritten.
    assert_eq!(q.try_push(ev(3, 3, true)), Some(ev(3, 3, true)));
    assert_eq!(q.len(), 2);
    // After one dequeue there is room again.
    assert_eq!(q.pop(), Some(ev(1, 1, false)));
    assert_eq!(q.try_push(ev(3, 3, true)), None);
}

#[test]
fn channel_is_fifo() {
    let mut q = BoundedFifo::new(CHANNEL_CAPACITY);
    for k in 0..5u16 {
        assert_eq!(q.try_push(ev(k as u64, k, false)), None);
    }
    for k in 0..5u16 {
        assert_eq!(q.pop(), Some(ev(k as u64, k, false)));
    }
    assert_eq!(q.pop(), None);
}

#[test]
fn reference_channel_capacity() {
    assert_eq!(CHANNEL_CAPACITY, 10 * 1024);
}

#[test]
fn csv_header_line() {
    assert_eq!(csv_header(), b"time_s,power_mw,input_pin\n".to_vec());
}

#[test]
fn csv_line_formats_time_value_and_pin() {
    assert_eq!(
        csv_line(&ev(1500000, 42, true)),
        b"1.500000,42,1\n".to_vec()
    );
    assert_eq!(csv_line(&ev(0, 0, false)), b"0.000000,0,0\n".to_vec());
    assert_eq!(
        csv_line(&ev(999999, 65519, false)),
        b"0.999999,65519,0\n".to_vec()
    );
    assert_eq!(
        csv_line(&ev(12000034, 7, true)),
        b"12.000034,7,1\n".to_vec()
    );
}

#[test]
fn csv_rendering_of_a_whole_run() {
    let events = vec![ev(0, 5, false), ev(200, 6, true)];
    let expected = b"time_s,power_mw,input_pin\n0.000000,5,0\n0.000200,6,1\n".to_vec();
    assert_eq!(render_csv(&events), expected);
}

#[test]
fn consumer_keeps_its_output_path() {
    let c = OutputConsumer::new(String::from("capture.csv"));
    assert_eq!(c.output_path(), "capture.csv");
}

#[test]
fn supervisor_aborts_the_other_task() {
    let mut s = SupervisorState::new();
    assert_eq!(s.on_task_end(Task::Producer), Task::Consumer);
    assert_eq!(s, SupervisorState::Ended(Task::Producer));
    s.on_abort_done();
    assert_eq!(s, SupervisorState::ShutdownComplete);

    let mut s2 = SupervisorState::new();
    assert_eq!(s2.on_task_end(Task::Consumer), Task::Producer);
}
