//! Infrared remote decoding: NEC pulse-distance frames from edge timings.
//!
//! The pulse-width state machine is `infrared`'s NEC receiver, run on raw
//! 32-bit frames; this module bounds the frame duration, checks the command
//! byte against its complement, tells repeats apart and looks buttons up.
use vstd::prelude::*;
use infrared::protocols::nec::{Nec, NecRawCommand, StandardTiming};
use infrared::recv::InfraredReceiver;
use infrared::protocols::nec::receiver::InternalState;
use crate::apple2009::{Apple2009, RemoteButton, apple_button};

verus! {

#[verifier::external_type_specification]
#[verifier::external_body]
#[verifier::reject_recursive_types(C)]
#[verifier::reject_recursive_types(T)]
pub struct ExNec<C, T>(Nec<C, T>);

#[verifier::external_type_specification]
#[verifier::external_body]
pub struct ExNecRawCommand(NecRawCommand);

#[verifier::external_type_specification]
#[verifier::external_body]
pub struct ExStandardTiming(StandardTiming);

/// Longest edge interval handed to the pulse-width state machine, in
/// microseconds; any longer gap is outside every pulse window anyway.
pub const MAX_EDGE_US: u32 = 0x7fff_ffff;

/// Where the NEC state machine stands after an edge.
#[derive(Clone, Copy, Debug, PartialEq, Eq, Structural)]
pub enum NecPhase {
    /// Waiting for a header.
    Idle,
    /// Header seen; this many data bits received.
    Receiving(u32),
    /// All 32 data bits received.
    Done,
    /// A repeat header was received.
    RepeatDone,
    /// A pulse fell outside every window while bits were expected.
    Failed,
}

/// Why a frame was discarded.
#[derive(Clone, Copy, Debug, PartialEq, Eq, Structural)]
pub enum DecodeError {
    /// An edge interval fit no pulse window.
    Timing,
    /// The command byte does not match its complement.
    Integrity,
    /// The frame took longer than the maximum frame duration.
    Timeout,
}

/// Outcome of one edge.
#[derive(Clone, Copy, Debug, PartialEq, Eq, Structural)]
pub enum IrEvent {
    /// No frame completed on this edge.
    Pending,
    /// A valid frame whose code maps to a button.
    Button(RemoteButton),
    /// A valid frame whose code maps to no button.
    Unknown { address: u8, command: u8 },
    /// A repeat header: the last command is held down.
    Repeat,
    /// The frame in progress was discarded.
    Error(DecodeError),
}

/// Class of one mark-plus-space pulse, by its total length.
#[derive(Clone, Copy, Debug, PartialEq, Eq, Structural)]
pub enum NecPulse {
    /// A frame header: 9000 us mark and 4500 us space, within 5%.
    Header,
    /// A repeat header: 9000 us mark and 2250 us space, within 5%.
    Repeat,
    /// A zero bit: 560 us mark and 560 us space, within 10%.
    Zero,
    /// A one bit: 560 us mark and 1690 us space, within 10%.
    One,
    /// Fits no window.
    Other,
}

/// The class of a pulse of `w` microseconds; each window is half-open.
pub open spec fn pulse_class(w: int) -> NecPulse {
    if 12825 <= w < 14175 {
        NecPulse::Header
    } else if 10688 <= w < 11812 {
        NecPulse::Repeat
    } else if 1008 <= w < 1232 {
        NecPulse::Zero
    } else if 2025 <= w < 2475 {
        NecPulse::One
    } else {
        NecPulse::Other
    }
}

/// The phase after a pulse of class `pulse` completes in phase `phase`.
pub open spec fn nec_next(phase: NecPhase, pulse: NecPulse) -> NecPhase {
    match phase {
        NecPhase::Idle => match pulse {
            NecPulse::Header => NecPhase::Receiving(0),
            NecPulse::Repeat => NecPhase::RepeatDone,
            _ => NecPhase::Idle,
        },
        NecPhase::Receiving(n) => match pulse {
            NecPulse::Zero | NecPulse::One => if n == 31 {
                NecPhase::Done
            } else {
                NecPhase::Receiving((n + 1) as u32)
            },
            _ => NecPhase::Failed,
        },
        _ => phase,
    }
}

/// The frame bits after a pulse of class `pulse` completes in phase `phase`:
/// a one while receiving bit `n` sets bit `n`.
pub open spec fn nec_bits_next(phase: NecPhase, pulse: NecPulse, bits: u32) -> u32 {
    match phase {
        NecPhase::Receiving(n) => if pulse == NecPulse::One {
            bits | (1u32 << n)
        } else {
            bits
        },
        _ => bits,
    }
}

/// Phase of an NEC receiver.
pub uninterp spec fn nec_phase(sm: Nec<NecRawCommand, StandardTiming>) -> NecPhase;

/// Frame bits an NEC receiver has collected.
pub uninterp spec fn nec_bitbuf(sm: Nec<NecRawCommand, StandardTiming>) -> u32;

/// Length of the last mark an NEC receiver saved, in microseconds; 0 after a
/// pulse completes.
pub uninterp spec fn nec_saved(sm: Nec<NecRawCommand, StandardTiming>) -> u32;

/// Relies on `Nec::<NecRawCommand>::create`: a receiver in `Init`, with no
/// bits and no saved mark.
#[verifier::external_body]
fn nec_create() -> (r: Nec<NecRawCommand, StandardTiming>)
    ensures
        nec_phase(r) == NecPhase::Idle,
        nec_bitbuf(r) == 0,
        nec_saved(r) == 0,
{
    <Nec<NecRawCommand, StandardTiming> as InfraredReceiver>::create()
}

/// Relies on `Nec::event`: a falling edge saves `dt` as the mark; a rising
/// edge closes a pulse of the saved mark plus `dt`, classifies it by the
/// standard timing windows, steps the state and clears the saved mark. It adds
/// the saved interval to `dt`, so both stay below 2^31; it shifts by the bit
/// count, which stays below 32.
#[verifier::external_body]
fn nec_event(sm: &mut Nec<NecRawCommand, StandardTiming>, rising: bool, dt: u32) -> (r: NecPhase)
    requires
        dt <= MAX_EDGE_US,
        nec_saved(*old(sm)) <= MAX_EDGE_US,
        nec_phase(*old(sm)) matches NecPhase::Receiving(n) ==> n < 32,
    ensures
        r == nec_phase(*final(sm)),
        !rising ==> nec_saved(*final(sm)) == dt && nec_phase(*final(sm)) == nec_phase(*old(sm))
            && nec_bitbuf(*final(sm)) == nec_bitbuf(*old(sm)),
        rising ==> nec_saved(*final(sm)) == 0 && nec_phase(*final(sm)) == nec_next(
            nec_phase(*old(sm)),
            pulse_class(nec_saved(*old(sm)) + dt),
        ) && nec_bitbuf(*final(sm)) == nec_bits_next(
            nec_phase(*old(sm)),
            pulse_class(nec_saved(*old(sm)) + dt),
            nec_bitbuf(*old(sm)),
        ),
{
    match sm.event(rising, dt) {
        InternalState::Init => NecPhase::Idle,
        InternalState::Receiving(n) => NecPhase::Receiving(n),
        InternalState::Done => NecPhase::Done,
        InternalState::RepeatDone => NecPhase::RepeatDone,
        InternalState::Err(_) => NecPhase::Failed,
    }
}

/// Relies on `Nec::command`: once all bits are in, the raw 32 bits of the
/// frame, least significant bit received first.
#[verifier::external_body]
fn nec_bits(sm: &Nec<NecRawCommand, StandardTiming>) -> (r: Option<u32>)
    ensures
        nec_phase(*sm) == NecPhase::Done ==> r == Some(nec_bitbuf(*sm)),
{
    sm.command().map(|c| c.bits)
}

/// Relies on `Nec::reset`: the receiver is back in `Init`, with no bits and no
/// saved mark.
#[verifier::external_body]
fn nec_reset(sm: &mut Nec<NecRawCommand, StandardTiming>)
    ensures
        nec_phase(*final(sm)) == NecPhase::Idle,
        nec_bitbuf(*final(sm)) == 0,
        nec_saved(*final(sm)) == 0,
{
    sm.reset()
}

/// Address byte of a raw frame.
pub open spec fn frame_address(bits: u32) -> u8 {
    (bits & 0xff) as u8
}

/// Command byte of a raw frame.
pub open spec fn frame_command(bits: u32) -> u8 {
    ((bits >> 16u32) & 0xff) as u8
}

/// Complement byte that must mirror the command byte.
pub open spec fn frame_check(bits: u32) -> u8 {
    ((bits >> 24u32) & 0xff) as u8
}

/// The event a completed raw frame gives.
pub open spec fn frame_event(bits: u32) -> IrEvent {
    if frame_command(bits) ^ frame_check(bits) != 0xff {
        IrEvent::Error(DecodeError::Integrity)
    } else {
        match apple_button(frame_address(bits), frame_command(bits)) {
            Some(b) => IrEvent::Button(b),
            None => IrEvent::Unknown {
                address: frame_address(bits),
                command: frame_command(bits),
            },
        }
    }
}

/// The event for a state-machine phase and, on completion, the frame bits.
pub open spec fn phase_event(phase: NecPhase, bits: Option<u32>) -> IrEvent {
    match phase {
        NecPhase::Idle | NecPhase::Receiving(_) => IrEvent::Pending,
        NecPhase::Done => match bits {
            Some(b) => frame_event(b),
            None => IrEvent::Error(DecodeError::Timing),
        },
        NecPhase::RepeatDone => IrEvent::Repeat,
        NecPhase::Failed => IrEvent::Error(DecodeError::Timing),
    }
}

/// Checks a completed raw frame and looks its code up.
pub fn decode_frame(bits: u32) -> (r: IrEvent)
    ensures
        r == frame_event(bits),
{
    let address = (bits & 0xff) as u8;
    let command = ((bits >> 16u32) & 0xff) as u8;
    let check = ((bits >> 24u32) & 0xff) as u8;
    if command ^ check != 0xff {
        return IrEvent::Error(DecodeError::Integrity);
    }
    match Apple2009::decode(address, command) {
        Some(b) => IrEvent::Button(b),
        None => IrEvent::Unknown { address, command },
    }
}

/// The event for a phase reported by the state machine and the bits it holds.
pub fn interpret_phase(phase: NecPhase, bits: Option<u32>) -> (r: IrEvent)
    ensures
        r == phase_event(phase, bits),
{
    match phase {
        NecPhase::Idle | NecPhase::Receiving(_) => IrEvent::Pending,
        NecPhase::Done => match bits {
            Some(b) => decode_frame(b),
            None => IrEvent::Error(DecodeError::Timing),
        },
        NecPhase::RepeatDone => IrEvent::Repeat,
        NecPhase::Failed => IrEvent::Error(DecodeError::Timing),
    }
}

/// Shortest header mark, in microseconds (9000 us less 5%).
pub const HEADER_MARK_MIN_US: u32 = 8550;

/// Bound above every header mark, in microseconds (9000 us plus 5%).
pub const HEADER_MARK_END_US: u32 = 9450;

/// `mark` lies in the header mark window.
pub open spec fn is_header_mark(mark: u32) -> bool {
    HEADER_MARK_MIN_US <= mark < HEADER_MARK_END_US
}

/// An edge interval as handed to the state machine.
pub open spec fn clamp_edge(dt: u32) -> u32 {
    if dt > MAX_EDGE_US {
        MAX_EDGE_US
    } else {
        dt
    }
}

/// A phase in which a frame is awaited or in progress.
pub open spec fn is_open(phase: NecPhase) -> bool {
    match phase {
        NecPhase::Idle => true,
        NecPhase::Receiving(n) => n < 32,
        _ => false,
    }
}

/// Abstract state of the decoder.
pub struct IrView {
    /// A header was seen and the frame is not complete yet.
    pub in_frame: bool,
    /// Microseconds since the header completed.
    pub frame_us: u32,
    /// Longest accepted frame, in microseconds.
    pub max_frame_us: u32,
    /// Phase of the NEC state machine.
    pub phase: NecPhase,
    /// Frame bits collected so far.
    pub bits: u32,
    /// Mark saved by the last falling edge, 0 after a rising one.
    pub saved: u32,
}

/// Receiver phase, bits and saved mark after an edge (interval `dt`, already
/// clamped) that does not end the frame.
pub open spec fn receiver_after(v: IrView, rising: bool, dt: u32) -> (NecPhase, u32, u32) {
    if rising {
        let pulse = pulse_class(v.saved + dt);
        (nec_next(v.phase, pulse), nec_bits_next(v.phase, pulse, v.bits), 0)
    } else {
        (v.phase, v.bits, dt)
    }
}

/// A header mark followed by a space that fits neither header: the decoder
/// reports it instead of silently waiting on.
pub open spec fn header_space_missed(v: IrView, rising: bool, dt: u32) -> bool {
    rising && v.phase == NecPhase::Idle && is_header_mark(v.saved) && receiver_after(v, rising, dt).0
        == NecPhase::Idle
}

/// The event of an edge (interval `dt`, already clamped) in state `v`.
pub open spec fn edge_event(v: IrView, rising: bool, dt: u32) -> IrEvent {
    let (p, b, _m) = receiver_after(v, rising, dt);
    if header_space_missed(v, rising, dt) {
        IrEvent::Error(DecodeError::Timing)
    } else {
        phase_event(
            p,
            if p == NecPhase::Done {
                Some(b)
            } else {
                None
            },
        )
    }
}

/// The edge comes after the frame in progress ran out of time.
pub open spec fn times_out(v: IrView, dt_us: u32) -> bool {
    v.in_frame && dt_us > v.max_frame_us - v.frame_us
}

/// NEC decoder fed with the time between successive input edges.
pub struct IrDecoder {
    sm: Nec<NecRawCommand, StandardTiming>,
    phase: NecPhase,
    mark_us: u32,
    in_frame: bool,
    frame_us: u32,
    max_frame_us: u32,
}

impl IrDecoder {
    pub closed spec fn view(&self) -> IrView {
        IrView {
            in_frame: self.in_frame,
            frame_us: self.frame_us,
            max_frame_us: self.max_frame_us,
            phase: nec_phase(self.sm),
            bits: nec_bitbuf(self.sm),
            saved: nec_saved(self.sm),
        }
    }

    /// The cached phase and mark agree with the receiver, a frame is awaited or
    /// in progress, and the frame time stays within its bound.
    pub closed spec fn wf(&self) -> bool {
        &&& self.frame_us <= self.max_frame_us
        &&& self.phase == nec_phase(self.sm)
        &&& self.mark_us == nec_saved(self.sm)
        &&& self.mark_us <= MAX_EDGE_US
        &&& is_open(self.phase)
        &&& self.in_frame == (self.phase is Receiving)
    }

    /// A decoder waiting for a header that gives up on frames longer than
    /// `max_frame_us` microseconds.
    pub fn new(max_frame_us: u32) -> (r: Self)
        ensures
            r.wf(),
            r@ == (IrView {
                in_frame: false,
                frame_us: 0,
                max_frame_us,
                phase: NecPhase::Idle,
                bits: 0,
                saved: 0,
            }),
    {
        IrDecoder {
            sm: nec_create(),
            phase: NecPhase::Idle,
            mark_us: 0,
            in_frame: false,
            frame_us: 0,
            max_frame_us,
        }
    }

    /// Whether a frame is in progress.
    pub fn in_frame(&self) -> (r: bool)
        ensures
            r == self@.in_frame,
    {
        self.in_frame
    }

    /// Discards any frame in progress.
    pub fn reset(&mut self)
        ensures
            final(self).wf(),
            final(self)@ == (IrView {
                in_frame: false,
                frame_us: 0,
                phase: NecPhase::Idle,
                bits: 0,
                saved: 0,
                ..old(self)@
            }),
    {
        nec_reset(&mut self.sm);
        self.phase = NecPhase::Idle;
        self.mark_us = 0;
        self.in_frame = false;
        self.frame_us = 0;
    }

    /// Registers one input edge, `dt_us` microseconds after the previous one.
    /// A frame that would outlast the maximum duration is discarded with a
    /// timeout. Otherwise the edge goes to the state machine: a completed,
    /// repeated or broken frame, or a header mark whose space fits no header,
    /// is reported and the decoder waits for a header again.
    pub fn edge(&mut self, rising: bool, dt_us: u32) -> (r: IrEvent)
        requires
            old(self).wf(),
        ensures
            final(self).wf(),
            final(self)@.max_frame_us == old(self)@.max_frame_us,
            times_out(old(self)@, dt_us) ==> r == IrEvent::Error(DecodeError::Timeout),
            !times_out(old(self)@, dt_us) ==> r == edge_event(old(self)@, rising, clamp_edge(dt_us)),
            !times_out(old(self)@, dt_us) && r == IrEvent::Pending ==> {
                let (p, b, m) = receiver_after(old(self)@, rising, clamp_edge(dt_us));
                &&& final(self)@.phase == p
                &&& final(self)@.bits == b
                &&& final(self)@.saved == m
            },
            r != IrEvent::Pending ==> {
                &&& final(self)@.phase == NecPhase::Idle
                &&& final(self)@.bits == 0
                &&& final(self)@.saved == 0
                &&& !final(self)@.in_frame
                &&& final(self)@.frame_us == 0
            },
    {
        if self.in_frame && dt_us > self.max_frame_us - self.frame_us {
            self.reset();
            return IrEvent::Error(DecodeError::Timeout);
        }
        let dt = if dt_us > MAX_EDGE_US {
            MAX_EDGE_US
        } else {
            dt_us
        };
        let was_idle = match self.phase {
            NecPhase::Idle => true,
            _ => false,
        };
        let mark = self.mark_us;
        let phase = nec_event(&mut self.sm, rising, dt);
        self.phase = phase;
        self.mark_us = if rising {
            0
        } else {
            dt
        };
        let now_idle = match phase {
            NecPhase::Idle => true,
            _ => false,
        };
        let missed = rising && was_idle && now_idle && HEADER_MARK_MIN_US <= mark && mark
            < HEADER_MARK_END_US;
        let bits = match phase {
            NecPhase::Done => nec_bits(&self.sm),
            _ => None,
        };
        let r = if missed {
            IrEvent::Error(DecodeError::Timing)
        } else {
            interpret_phase(phase, bits)
        };
        match r {
            IrEvent::Pending => {
                match phase {
                    NecPhase::Receiving(_) => {
                        if self.in_frame {
                            self.frame_us = self.frame_us + dt_us;
                        } else {
                            self.in_frame = true;
                            self.frame_us = 0;
                        }
                    },
                    _ => {},
                }
            },
            _ => {
                self.reset();
            },
        }
        r
    }
}

} // verus!
