use vstd::prelude::*;
use crate::stboot::{
    get_start, handshake_start, identify_start, next, Action, Bootloader, DriverState, Event,
};

verus! {

/// Which of the three operations of an identification is under way.
#[derive(Clone, Copy, Debug, PartialEq, Eq, Structural)]
pub enum Leg {
    Handshake,
    Commands,
    Identity,
    Finished,
}

/// What an identification wants next.
#[derive(Clone, Copy, Debug, PartialEq, Eq, Structural)]
pub enum ProbeStep {
    /// A request to the transport.
    Ask(Action),
    /// The end: the chip id, or nothing where any operation failed.
    Found(Option<u16>),
}

/// An identification as contracts see it.
pub struct ProbeState {
    pub driver: DriverState,
    pub leg: Leg,
}

/// What follows once the driver, in leg `leg`, has reached state `d` and
/// named `a`: a finished operation starts the next one, a failure ends the
/// identification with nothing found.
pub open spec fn follow(leg: Leg, d: DriverState, a: Action) -> (ProbeState, ProbeStep) {
    match a {
        Action::Ready => match leg {
            Leg::Handshake => (
                ProbeState { driver: get_start(d).0, leg: Leg::Commands },
                ProbeStep::Ask(get_start(d).1),
            ),
            Leg::Commands => if identify_start(d).1 is Fail {
                (ProbeState { driver: identify_start(d).0, leg: Leg::Finished }, ProbeStep::Found(None))
            } else {
                (
                    ProbeState { driver: identify_start(d).0, leg: Leg::Identity },
                    ProbeStep::Ask(identify_start(d).1),
                )
            },
            _ => (ProbeState { driver: d, leg: Leg::Finished }, ProbeStep::Found(None)),
        },
        Action::ChipId(id) => (
            ProbeState { driver: d, leg: Leg::Finished },
            ProbeStep::Found(
                if leg == Leg::Identity {
                    Some(id)
                } else {
                    None
                },
            ),
        ),
        Action::Fail(_) => (ProbeState { driver: d, leg: Leg::Finished }, ProbeStep::Found(None)),
        _ => (ProbeState { driver: d, leg }, ProbeStep::Ask(a)),
    }
}

/// The transition function of an identification.
pub open spec fn probe_next(s: ProbeState, e: Event) -> (ProbeState, ProbeStep) {
    if s.leg == Leg::Finished {
        (s, ProbeStep::Found(None))
    } else {
        follow(s.leg, next(s.driver, e).0, next(s.driver, e).1)
    }
}

/// Identifies the chip behind one connection: handshake, then the supported
/// commands, then the chip id. A failure anywhere is not an error here: it
/// ends the identification with nothing found.
pub struct Probe {
    driver: Bootloader,
    leg: Leg,
}

impl View for Probe {
    type V = ProbeState;

    closed spec fn view(&self) -> ProbeState {
        ProbeState { driver: self.driver@, leg: self.leg }
    }
}

impl Probe {
    /// An identification about to start, with a fresh driver, and its first
    /// request.
    pub fn start() -> (r: (Probe, ProbeStep))
        ensures
            r.0@ == (ProbeState {
                driver: handshake_start(DriverState::fresh()).0,
                leg: Leg::Handshake,
            }),
            r.1 == ProbeStep::Ask(Action::Clear),
    {
        let mut driver = Bootloader::new();
        let action = driver.init();
        (Probe { driver, leg: Leg::Handshake }, ProbeStep::Ask(action))
    }

    /// Whether the identification has ended.
    pub fn is_finished(&self) -> (done: bool)
        ensures
            done == (self@.leg == Leg::Finished),
    {
        self.leg == Leg::Finished
    }

    /// Takes what came of the outstanding request and names the next one, or
    /// the result.
    pub fn advance(&mut self, event: Event) -> (step: ProbeStep)
        ensures
            (final(self)@, step) == probe_next(old(self)@, event),
    {
        if self.leg == Leg::Finished {
            return ProbeStep::Found(None);
        }
        let action = self.driver.advance(event);
        match action {
            Action::Ready => match self.leg {
                Leg::Handshake => {
                    self.leg = Leg::Commands;
                    ProbeStep::Ask(self.driver.cmd_get())
                },
                Leg::Commands => match self.driver.get_device_id() {
                    Action::Fail(_) => {
                        self.leg = Leg::Finished;
                        ProbeStep::Found(None)
                    },
                    ask => {
                        self.leg = Leg::Identity;
                        ProbeStep::Ask(ask)
                    },
                },
                _ => {
                    self.leg = Leg::Finished;
                    ProbeStep::Found(None)
                },
            },
            Action::ChipId(id) => {
                let found = if self.leg == Leg::Identity {
                    Some(id)
                } else {
                    None
                };
                self.leg = Leg::Finished;
                ProbeStep::Found(found)
            },
            Action::Fail(_) => {
                self.leg = Leg::Finished;
                ProbeStep::Found(None)
            },
            ask => ProbeStep::Ask(ask),
        }
    }
}

/// An identification never hands a result of its driver on as a request,
/// and whatever goes wrong it ends with nothing found rather than an error.
pub proof fn lemma_probe_asks_only_requests(s: ProbeState, e: Event)
    ensures
        probe_next(s, e).1 matches ProbeStep::Ask(a) ==> !(a is Ready) && !(a is ChipId) && !(a is Fail),
        next(s.driver, e).1 is Fail && s.leg != Leg::Finished ==> probe_next(s, e).1
            == ProbeStep::Found(None) && probe_next(s, e).0.leg == Leg::Finished,
{
}

} // verus!
