use pwm_remote::apple2009::{Apple2009, RemoteButton};
use pwm_remote::ir::{decode_frame, interpret_phase, DecodeError, IrDecoder, IrEvent, NecPhase};

const ENTER_FRAME: u32 = 0xA35C_87EE;

fn frame_edges(bits: u32) -> Vec<(bool, u32)> {
    let mut v = vec![(true, 40_000), (false, 9000), (true, 4500)];
    for i in 0..32 {
        v.push((false, 560));
        v.push((true, if (bits >> i) & 1 == 1 { 1690 } else { 560 }));
    }
    v
}

fn run(d: &mut IrDecoder, edges: &[(bool, u32)]) -> Vec<IrEvent> {
    edges.iter().map(|(r, dt)| d.edge(*r, *dt)).collect()
}

#[test]
fn full_frame_decodes_to_enter() {
    let mut d = IrDecoder::new(100_000);
    let out = run(&mut d, &frame_edges(ENTER_FRAME));
    let (last, rest) = out.split_last().unwrap();
    assert!(rest.iter().all(|e| *e == IrEvent::Pending));
    assert_eq!(*last, IrEvent::Button(RemoteButton::Enter));
    assert!(!d.in_frame());
}

#[test]
fn interval_outside_tolerance_is_error() {
    let mut d = IrDecoder::new(100_000);
    let mut edges = frame_edges(ENTER_FRAME);
    // Bit 1 of the frame is a one: stretch its space by half.
    edges[6] = (true, 1690 + 1690 / 2);
    let out = run(&mut d, &edges[..7]);
    assert_eq!(out[6], IrEvent::Error(DecodeError::Timing));
    assert!(!d.in_frame());
    let again = run(&mut d, &frame_edges(ENTER_FRAME));
    assert_eq!(*again.last().unwrap(), IrEvent::Button(RemoteButton::Enter));
}

#[test]
fn repeat_header_is_reported_as_repeat() {
    let mut d = IrDecoder::new(100_000);
    run(&mut d, &frame_edges(ENTER_FRAME));
    let out = run(&mut d, &[(true, 40_000), (false, 9000), (true, 2250)]);
    assert_eq!(out, vec![IrEvent::Pending, IrEvent::Pending, IrEvent::Repeat]);
}

#[test]
fn overlong_frame_times_out() {
    let mut d = IrDecoder::new(20_000);
    let out = run(&mut d, &[(true, 40_000), (false, 9000), (true, 4500)]);
    assert_eq!(out[2], IrEvent::Pending);
    assert!(d.in_frame());
    assert_eq!(d.edge(false, 25_000), IrEvent::Error(DecodeError::Timeout));
    assert!(!d.in_frame());
}

#[test]
fn bad_complement_is_integrity_error() {
    let mut d = IrDecoder::new(100_000);
    let out = run(&mut d, &frame_edges(0xA45C_87EE));
    assert_eq!(*out.last().unwrap(), IrEvent::Error(DecodeError::Integrity));
}

#[test]
fn frame_decoding_table() {
    assert_eq!(decode_frame(ENTER_FRAME), IrEvent::Button(RemoteButton::Enter));
    assert_eq!(decode_frame(0xFC03_87EE), IrEvent::Button(RemoteButton::Setup));
    assert_eq!(decode_frame(0xFE01_87EE), IrEvent::Unknown { address: 238, command: 1 });
    assert_eq!(decode_frame(0xA35C_87EF), IrEvent::Unknown { address: 239, command: 92 });
}

#[test]
fn phase_interpretation() {
    assert_eq!(interpret_phase(NecPhase::Receiving(3), None), IrEvent::Pending);
    assert_eq!(interpret_phase(NecPhase::RepeatDone, None), IrEvent::Repeat);
    assert_eq!(interpret_phase(NecPhase::Failed, None), IrEvent::Error(DecodeError::Timing));
    assert_eq!(
        interpret_phase(NecPhase::Done, Some(ENTER_FRAME)),
        IrEvent::Button(RemoteButton::Enter)
    );
}

#[test]
fn apple_table_lookup() {
    assert_eq!(Apple2009::decode(238, 92), Some(RemoteButton::Enter));
    assert_eq!(Apple2009::decode(238, 95), Some(RemoteButton::PlayPause));
    assert_eq!(Apple2009::decode(238, 12), Some(RemoteButton::Down));
    assert_eq!(Apple2009::decode(237, 92), None);
    assert_eq!(Apple2009::decode(238, 93), None);
}

#[test]
fn header_space_out_of_tolerance_is_error() {
    let mut d = IrDecoder::new(100_000);
    let mut edges = frame_edges(ENTER_FRAME);
    edges[2] = (true, 4500 + 4500 / 2);
    let out = run(&mut d, &edges);
    assert_eq!(out[2], IrEvent::Error(DecodeError::Timing));
    assert!(out.iter().all(|e| !matches!(e, IrEvent::Button(_))));
    assert!(!d.in_frame());
}

#[test]
fn stray_pulse_while_idle_stays_pending() {
    let mut d = IrDecoder::new(100_000);
    let out = run(&mut d, &[(true, 40_000), (false, 3000), (true, 3000)]);
    assert_eq!(out, vec![IrEvent::Pending, IrEvent::Pending, IrEvent::Pending]);
}
