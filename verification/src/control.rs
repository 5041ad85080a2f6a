use vstd::prelude::*;
use crate::buffer::SmoothingBuffer;
use crate::buffer::seq_max;
use crate::buffer::window;
use crate::classify::CurveKind;
use crate::classify::classify;
use crate::classify::curve_kind_spec;
use crate::curve::CurvePoint;
use crate::curve::FanCurve;
use crate::curve::lookup_spec;
use crate::errors::DriverError;
use crate::sample::parse_centidegrees;
use crate::sample::parse_spec;

verus! {

/// What the sensor channel yielded this cycle: one response line, or a broken
/// pipe before a line arrived.
pub enum SampleEvent {
    Line(Vec<u8>),
    ReadFailed,
}

/// The per-cycle decision of the control loop, as a function of the curve,
/// the push history, the window capacity and the cycle's event: the verdict
/// (a duty to apply, nothing to apply, or a fatal error) and the history the
/// buffer holds afterwards.
pub open spec fn cycle_spec(
    points: Seq<CurvePoint>,
    h: Seq<i16>,
    c: nat,
    ev: SampleEvent,
) -> (Result<Option<u16>, DriverError>, Seq<i16>) {
    match ev {
        SampleEvent::ReadFailed => (Err(DriverError::SampleIo), h),
        SampleEvent::Line(b) => match parse_spec(b@) {
            Some(v) => (Ok(lookup_spec(points, seq_max(window(h.push(v), c)))), h.push(v)),
            None => (Err(DriverError::SampleParse), h),
        },
    }
}

/// The transient state the control loop owns: the curve picked at startup and
/// the smoothing buffer. One `Controller` lives for the whole service
/// lifetime; nothing else reads or writes its state.
pub struct Controller {
    curve: FanCurve,
    buffer: SmoothingBuffer,
}

impl Controller {
    /// The breakpoint table the controller runs with, fixed at construction.
    pub closed spec fn curve_points(&self) -> Seq<CurvePoint> {
        self.curve@
    }

    /// Every sample the controller has consumed, oldest first.
    pub closed spec fn history(&self) -> Seq<i16> {
        self.buffer.history()
    }

    /// The smoothing window's capacity in samples.
    pub closed spec fn capacity(&self) -> nat {
        self.buffer.capacity()
    }

    pub closed spec fn wf(&self) -> bool {
        self.curve.wf() && self.buffer.wf()
    }

    /// A controller over `curve` whose spin-down window spans
    /// `spin_down_secs`, sampled every `poll_secs`: the buffer holds the
    /// polls of one window, their count rounded upward.
    pub fn new(curve: FanCurve, spin_down_secs: u64, poll_secs: u64) -> (r: Controller)
        requires
            curve.wf(),
            1 <= poll_secs,
            1 <= spin_down_secs,
            spin_down_secs + poll_secs <= u64::MAX,
            ((spin_down_secs + poll_secs - 1) as int) / (poll_secs as int) <= usize::MAX,
        ensures
            r.wf(),
            r.curve_points() == curve@,
            r.history() == Seq::<i16>::empty(),
            r.capacity() == ((spin_down_secs + poll_secs - 1) as int) / (poll_secs as int),
    {
        let points: u64 = (spin_down_secs + poll_secs - 1) / poll_secs;
        proof {
            assert(points >= 1) by (nonlinear_arith)
                requires
                    poll_secs >= 1,
                    spin_down_secs >= 1,
                    points == ((spin_down_secs + poll_secs - 1) as int) / (poll_secs as int),
            ;
        }
        Controller { curve, buffer: SmoothingBuffer::new(points as usize) }
    }

    /// A controller whose buffer holds exactly `capacity` samples.
    pub fn with_capacity(curve: FanCurve, capacity: usize) -> (r: Controller)
        requires
            curve.wf(),
            capacity >= 1,
        ensures
            r.wf(),
            r.curve_points() == curve@,
            r.history() == Seq::<i16>::empty(),
            r.capacity() == capacity,
    {
        Controller { curve, buffer: SmoothingBuffer::new(capacity) }
    }

    /// One cycle's computation once a sample is in hand: record it, smooth,
    /// and look the smoothed temperature up in the curve. `None` means the
    /// smoothed temperature lies below the curve, so this cycle skips
    /// actuation and the fans hold their current duty.
    pub fn step(&mut self, sample: i16) -> (duty: Option<u16>)
        requires
            old(self).wf(),
        ensures
            final(self).wf(),
            final(self).curve_points() == old(self).curve_points(),
            final(self).capacity() == old(self).capacity(),
            final(self).history() == old(self).history().push(sample),
            duty == lookup_spec(
                old(self).curve_points(),
                seq_max(window(old(self).history().push(sample), old(self).capacity())),
            ),
    {
        self.buffer.push(sample);
        let smoothed = self.buffer.current();
        self.curve.lookup(smoothed)
    }

    /// One full cycle from the sensor event: a failed read is fatal as it
    /// stands, a malformed line is fatal without touching the buffer, and a
    /// parsed sample goes through `step`.
    pub fn on_event(&mut self, ev: &SampleEvent) -> (r: Result<Option<u16>, DriverError>)
        requires
            old(self).wf(),
        ensures
            final(self).wf(),
            final(self).curve_points() == old(self).curve_points(),
            final(self).capacity() == old(self).capacity(),
            r == cycle_spec(
                old(self).curve_points(),
                old(self).history(),
                old(self).capacity(),
                *ev,
            ).0,
            final(self).history() == cycle_spec(
                old(self).curve_points(),
                old(self).history(),
                old(self).capacity(),
                *ev,
            ).1,
    {
        match ev {
            SampleEvent::ReadFailed => Err(DriverError::SampleIo),
            SampleEvent::Line(bytes) => {
                match parse_centidegrees(bytes.as_slice()) {
                    Ok(v) => Ok(self.step(v)),
                    Err(e) => Err(e),
                }
            },
        }
    }
}

/// The USB identity of a serial port, as device discovery reports it.
#[derive(Clone, Copy, Debug, PartialEq, Eq, Structural)]
pub struct PortId {
    pub vid: u16,
    pub pid: u16,
}

/// Whether a USB port is a fan-controller board: the board enumerates with
/// this fixed vendor/product pair.
pub open spec fn is_fan_controller(p: PortId) -> bool {
    p.vid == 0x1209 && p.pid == 0x1776
}

/// Whether this USB port is a fan-controller board.
pub fn is_fan_controller_port(p: PortId) -> (r: bool)
    ensures
        r == is_fan_controller(p),
{
    p.vid == 0x1209 && p.pid == 0x1776
}

/// The positions of the fan-controller boards among the scanned ports, in
/// scan order.
pub open spec fn matching_indices(ports: Seq<PortId>) -> Seq<usize>
    decreases ports.len(),
{
    if ports.len() == 0 {
        Seq::empty()
    } else if is_fan_controller(ports.last()) {
        matching_indices(ports.drop_last()).push((ports.len() - 1) as usize)
    } else {
        matching_indices(ports.drop_last())
    }
}

/// What startup decides from the firmware strings and the port scan:
/// classification is consulted first, and an unknown model refuses startup
/// before discovery is even looked at; known hardware with no board found
/// fails discovery; otherwise the curve kind and the boards to drive.
pub open spec fn startup_spec(vendor: Seq<char>, model: Seq<char>, ports: Seq<PortId>) -> Result<
    (CurveKind, Seq<usize>),
    DriverError,
> {
    match curve_kind_spec(vendor, model) {
        None => Err(DriverError::Classification),
        Some(kind) => if matching_indices(ports).len() == 0 {
            Err(DriverError::Discovery)
        } else {
            Ok((kind, matching_indices(ports)))
        },
    }
}

/// Everything startup fixes for the life of the loop: the curve kind and
/// which scanned ports to drive.
pub struct StartupPlan {
    pub kind: CurveKind,
    pub devices: Vec<usize>,
}

/// Decides startup: selects the curve for the (vendor, model) pair, then
/// picks the fan-controller boards out of the port scan, in that order, so
/// unsupported hardware is refused before discovery matters at all.
#[verifier::loop_isolation(false)]
pub fn plan_startup(vendor: &str, model: &str, ports: &Vec<PortId>) -> (r: Result<
    StartupPlan,
    DriverError,
>)
    ensures
        (match (r, startup_spec(vendor@, model@, ports@)) {
            (Ok(plan), Ok(s)) => plan.kind == s.0 && plan.devices@ == s.1,
            (Err(e), Err(se)) => e == se,
            _ => false,
        }),
{
    let kind = match classify(vendor, model) {
        Ok(kind) => kind,
        Err(e) => {
            return Err(e);
        },
    };
    let mut devices: Vec<usize> = Vec::new();
    let mut i: usize = 0;
    proof {
        assert(ports@.take(0) =~= Seq::<PortId>::empty());
    }
    while i < ports.len()
        invariant
            0 <= i <= ports@.len(),
            devices@ == matching_indices(ports@.take(i as int)),
        decreases ports@.len() - i,
    {
        proof {
            assert(ports@.take(i as int + 1).drop_last() =~= ports@.take(i as int));
            assert(ports@.take(i as int + 1).last() == ports@[i as int]);
        }
        if is_fan_controller_port(ports[i]) {
            devices.push(i);
        }
        i = i + 1;
    }
    proof {
        assert(ports@.take(ports@.len() as int) =~= ports@);
    }
    if devices.len() == 0 {
        Err(DriverError::Discovery)
    } else {
        Ok(StartupPlan { kind, devices })
    }
}

/// Fail-fast law: on an unrecognized (vendor, model) pair, startup refuses
/// with the classification error whatever the port scan holds — discovery is
/// never consulted, and two runs with different scans decide alike.
pub proof fn lemma_classification_preempts_discovery(
    vendor: Seq<char>,
    model: Seq<char>,
    ports1: Seq<PortId>,
    ports2: Seq<PortId>,
)
    requires
        curve_kind_spec(vendor, model) is None,
    ensures
        startup_spec(vendor, model, ports1) matches Err(e) && e == DriverError::Classification,
        startup_spec(vendor, model, ports1) == startup_spec(vendor, model, ports2),
{
}

} // verus!
