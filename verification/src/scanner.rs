use vstd::prelude::*;
use crate::error::Error;
use crate::switch::{Selection, SETTLE_MS};

verus! {

/// The highest channel a switch can have.
pub const LAST_CHANNEL: u8 = 255;

/// Where in the scan of one channel the scanner stands: the request it is
/// waiting on.
#[derive(Clone, Copy, Debug, PartialEq, Eq, Structural)]
pub enum ScanStage {
    /// The clean powered-off state is being applied.
    PoweringOff,
    /// The rail is settling after power-off.
    Settling,
    /// The channel is being selected; a refusal ends the scan.
    Selecting,
    /// Power is being enabled.
    PoweringOn,
    /// Boot mode and reset are being asserted together.
    ResetAsserting,
    /// Reset alone is being released.
    ResetReleasing,
    /// The bootloader is given time to come up.
    Booting,
    /// The chip on the channel is being identified.
    Probing,
    /// The scan has ended; its table is final.
    Complete,
    /// The switch failed where it must not; the scan is void.
    Aborted,
}

/// What the scanner asks for.
#[derive(Clone, Copy, Debug, PartialEq, Eq, Structural)]
pub enum ScanAction {
    /// Apply this selection on the switch.
    Select(Selection),
    /// Wait this many milliseconds.
    Settle(u64),
    /// Identify the chip on this channel, over the channel's serial line.
    Probe(u8),
    /// The scan has ended.
    Complete,
    /// The scan cannot go on, and why.
    Abort(Error),
}

/// What came of the scanner's request.
#[derive(Clone, Copy, Debug, PartialEq, Eq, Structural)]
pub enum ScanEvent {
    /// The switch applied the selection.
    Accepted,
    /// The switch refused the selection.
    Rejected,
    /// The wait is over.
    Elapsed,
    /// The identification ended, with a chip id or with nothing found.
    Probed(Option<u16>),
}

/// The scanner as contracts see it.
pub struct ScanState {
    pub stage: ScanStage,
    /// The selection last asked for.
    pub selection: Selection,
    /// The channel under scan.
    pub channel: u8,
    /// The chip ids found so far, by channel; 0 where none was found.
    pub ids: Seq<u16>,
}

/// The id recorded for an identification: 0 stands for nothing found.
pub open spec fn recorded(found: Option<u16>) -> u16 {
    match found {
        Some(id) => id,
        None => 0,
    }
}

/// Why a scan is given up on `e`: the switch refused a selection that it
/// must accept, or the event does not answer the outstanding request.
pub open spec fn abort_reason(e: ScanEvent) -> Error {
    if e is Rejected {
        Error::ChannelRejected
    } else {
        Error::Transport
    }
}

/// The scanner's state once it asks for `selection` in `stage`.
pub open spec fn asking(s: ScanState, stage: ScanStage, selection: Selection) -> (
    ScanState,
    ScanAction,
) {
    (ScanState { stage, selection, ..s }, ScanAction::Select(selection))
}

/// The state and first request of a scan that starts from `current`.
pub open spec fn scan_start(current: Selection) -> (ScanState, ScanAction) {
    (
        ScanState {
            stage: ScanStage::PoweringOff,
            selection: current.powered_off(),
            channel: 0,
            ids: Seq::empty(),
        },
        ScanAction::Select(current.powered_off()),
    )
}

/// The transition function of the scanner. A refusal ends the scan only
/// where the channel is being selected; anywhere else it, like any event
/// that does not answer the outstanding request, aborts the scan.
pub open spec fn scan_next(s: ScanState, e: ScanEvent) -> (ScanState, ScanAction) {
    let abort = (
        ScanState { stage: ScanStage::Aborted, ..s },
        ScanAction::Abort(abort_reason(e)),
    );
    match (s.stage, e) {
        (ScanStage::PoweringOff, ScanEvent::Accepted) => (
            ScanState { stage: ScanStage::Settling, ..s },
            ScanAction::Settle(SETTLE_MS),
        ),
        (ScanStage::Settling, ScanEvent::Elapsed) => asking(
            s,
            ScanStage::Selecting,
            s.selection.on_channel(s.channel),
        ),
        (ScanStage::Selecting, ScanEvent::Accepted) => asking(
            s,
            ScanStage::PoweringOn,
            s.selection.powered(true),
        ),
        (ScanStage::Selecting, ScanEvent::Rejected) => (
            ScanState { stage: ScanStage::Complete, ..s },
            ScanAction::Complete,
        ),
        (ScanStage::PoweringOn, ScanEvent::Accepted) => asking(
            s,
            ScanStage::ResetAsserting,
            s.selection.boot0(true).reset(true),
        ),
        (ScanStage::ResetAsserting, ScanEvent::Accepted) => asking(
            s,
            ScanStage::ResetReleasing,
            s.selection.reset(false),
        ),
        (ScanStage::ResetReleasing, ScanEvent::Accepted) => (
            ScanState { stage: ScanStage::Booting, ..s },
            ScanAction::Settle(SETTLE_MS),
        ),
        (ScanStage::Booting, ScanEvent::Elapsed) => (
            ScanState { stage: ScanStage::Probing, ..s },
            ScanAction::Probe(s.channel),
        ),
        (ScanStage::Probing, ScanEvent::Probed(found)) => if s.channel == LAST_CHANNEL {
            (
                ScanState { stage: ScanStage::Complete, ids: s.ids.push(recorded(found)), ..s },
                ScanAction::Complete,
            )
        } else {
            (
                ScanState {
                    stage: ScanStage::PoweringOff,
                    selection: s.selection.powered_off(),
                    channel: (s.channel + 1) as u8,
                    ids: s.ids.push(recorded(found)),
                },
                ScanAction::Select(s.selection.powered_off()),
            )
        },
        (ScanStage::Complete, _) => (s, ScanAction::Complete),
        _ => abort,
    }
}

/// Discovers which chip sits on which channel, one channel after the other
/// from channel 0, until the switch refuses a channel.
pub struct Scanner {
    stage: ScanStage,
    selection: Selection,
    channel: u8,
    ids: Vec<u16>,
}

impl View for Scanner {
    type V = ScanState;

    closed spec fn view(&self) -> ScanState {
        ScanState {
            stage: self.stage,
            selection: self.selection,
            channel: self.channel,
            ids: self.ids@,
        }
    }
}

impl Scanner {
    /// A scan about to start from the switch's current selection, and its
    /// first request.
    pub fn start(current: Selection) -> (r: (Scanner, ScanAction))
        ensures
            (r.0@, r.1) == scan_start(current),
    {
        let selection = current.power_off();
        (
            Scanner { stage: ScanStage::PoweringOff, selection, channel: 0, ids: Vec::new() },
            ScanAction::Select(selection),
        )
    }

    /// Whether the scan has ended with a table.
    pub fn is_complete(&self) -> (done: bool)
        ensures
            done == (self@.stage == ScanStage::Complete),
    {
        self.stage == ScanStage::Complete
    }

    /// The chip ids found so far, by channel.
    pub fn ids(&self) -> (ids: &Vec<u16>)
        ensures
            ids@ == self@.ids,
    {
        &self.ids
    }

    /// Gives up the scanner for its table.
    pub fn into_ids(self) -> (ids: Vec<u16>)
        ensures
            ids@ == self@.ids,
    {
        self.ids
    }

    fn ask(&mut self, stage: ScanStage, selection: Selection) -> (action: ScanAction)
        ensures
            (final(self)@, action) == asking(old(self)@, stage, selection),
    {
        self.stage = stage;
        self.selection = selection;
        ScanAction::Select(selection)
    }

    /// Takes what came of the outstanding request and names the next one.
    pub fn advance(&mut self, event: ScanEvent) -> (action: ScanAction)
        ensures
            (final(self)@, action) == scan_next(old(self)@, event),
    {
        match (self.stage, event) {
            (ScanStage::PoweringOff, ScanEvent::Accepted) => {
                self.stage = ScanStage::Settling;
                ScanAction::Settle(SETTLE_MS)
            },
            (ScanStage::Settling, ScanEvent::Elapsed) => {
                let selection = self.selection.set_channel(self.channel);
                self.ask(ScanStage::Selecting, selection)
            },
            (ScanStage::Selecting, ScanEvent::Accepted) => {
                let selection = self.selection.set_power_enabled(true);
                self.ask(ScanStage::PoweringOn, selection)
            },
            (ScanStage::Selecting, ScanEvent::Rejected) => {
                self.stage = ScanStage::Complete;
                ScanAction::Complete
            },
            (ScanStage::PoweringOn, ScanEvent::Accepted) => {
                let selection = self.selection.set_boot0(true).set_reset(true);
                self.ask(ScanStage::ResetAsserting, selection)
            },
            (ScanStage::ResetAsserting, ScanEvent::Accepted) => {
                let selection = self.selection.set_reset(false);
                self.ask(ScanStage::ResetReleasing, selection)
            },
            (ScanStage::ResetReleasing, ScanEvent::Accepted) => {
                self.stage = ScanStage::Booting;
                ScanAction::Settle(SETTLE_MS)
            },
            (ScanStage::Booting, ScanEvent::Elapsed) => {
                self.stage = ScanStage::Probing;
                ScanAction::Probe(self.channel)
            },
            (ScanStage::Probing, ScanEvent::Probed(found)) => {
                let id: u16 = match found {
                    Some(id) => id,
                    None => 0,
                };
                self.ids.push(id);
                if self.channel == LAST_CHANNEL {
                    self.stage = ScanStage::Complete;
                    ScanAction::Complete
                } else {
                    self.channel = self.channel + 1;
                    let selection = self.selection.power_off();
                    self.ask(ScanStage::PoweringOff, selection)
                }
            },
            (ScanStage::Complete, _) => ScanAction::Complete,
            (_, ScanEvent::Rejected) => {
                self.stage = ScanStage::Aborted;
                ScanAction::Abort(Error::ChannelRejected)
            },
            _ => {
                self.stage = ScanStage::Aborted;
                ScanAction::Abort(Error::Transport)
            },
        }
    }
}

/// What a switch with `probes.len()` wired channels answers: it applies a
/// selection exactly when the channel is wired, and the identification on
/// channel `c` ends as `probes[c]` says.
pub open spec fn answer(probes: Seq<Option<u16>>, a: ScanAction) -> ScanEvent {
    match a {
        ScanAction::Select(selection) => if selection.channel < probes.len() {
            ScanEvent::Accepted
        } else {
            ScanEvent::Rejected
        },
        ScanAction::Probe(channel) => if channel < probes.len() {
            ScanEvent::Probed(probes[channel as int])
        } else {
            ScanEvent::Probed(None)
        },
        _ => ScanEvent::Elapsed,
    }
}

/// A scan under way against such a switch: the scanner, its outstanding
/// request, and the channels identified so far, in order.
pub struct ScanTrace {
    pub state: ScanState,
    pub pending: ScanAction,
    pub probed: Seq<u8>,
}

/// One exchange between scanner and switch.
pub open spec fn trace_step(probes: Seq<Option<u16>>, t: ScanTrace) -> ScanTrace {
    let event = answer(probes, t.pending);
    ScanTrace {
        state: scan_next(t.state, event).0,
        pending: scan_next(t.state, event).1,
        probed: match t.pending {
            ScanAction::Probe(channel) => t.probed.push(channel),
            _ => t.probed,
        },
    }
}

/// Up to `steps` exchanges, stopping where the scan ends.
pub open spec fn trace_run(probes: Seq<Option<u16>>, t: ScanTrace, steps: nat) -> ScanTrace
    decreases steps,
{
    if steps == 0 || t.pending is Complete || t.pending is Abort {
        t
    } else {
        trace_run(probes, trace_step(probes, t), (steps - 1) as nat)
    }
}

/// The scan that starts from `current`, before its first exchange.
pub open spec fn trace_start(current: Selection) -> ScanTrace {
    ScanTrace {
        state: scan_start(current).0,
        pending: scan_start(current).1,
        probed: Seq::empty(),
    }
}

/// The table a complete scan of `probes` leaves: one entry per wired
/// channel, 0 where nothing was found.
pub open spec fn table_of(probes: Seq<Option<u16>>) -> Seq<u16> {
    Seq::new(probes.len(), |i: int| recorded(probes[i]))
}

/// The channels below `n`, in order.
pub open spec fn channels_below(n: nat) -> Seq<u8> {
    Seq::new(n, |i: int| i as u8)
}

proof fn lemma_scan_from(probes: Seq<Option<u16>>, t: ScanTrace, steps: nat)
    requires
        probes.len() <= 256,
        t.state.stage == ScanStage::PoweringOff,
        t.pending == ScanAction::Select(t.state.selection),
        t.state.selection == t.state.selection.powered_off(),
        t.state.selection.channel < probes.len(),
        t.state.channel == t.state.ids.len(),
        t.state.ids.len() <= probes.len(),
        t.state.ids == table_of(probes).subrange(0, t.state.ids.len() as int),
        t.probed == channels_below(t.state.ids.len()),
        steps >= 8 * (probes.len() - t.state.ids.len()) + 3,
    ensures
        trace_run(probes, t, steps).state.stage == ScanStage::Complete,
        trace_run(probes, t, steps).pending == ScanAction::Complete,
        trace_run(probes, t, steps).state.ids == table_of(probes),
        trace_run(probes, t, steps).probed == channels_below(probes.len()),
    decreases probes.len() - t.state.ids.len(),
{
    let n = t.state.ids.len();
    let t1 = trace_step(probes, t);
    let t2 = trace_step(probes, t1);
    let t3 = trace_step(probes, t2);
    assert(trace_run(probes, t, steps) == trace_run(probes, t1, (steps - 1) as nat));
    assert(trace_run(probes, t1, (steps - 1) as nat) == trace_run(probes, t2, (steps - 2) as nat));
    assert(trace_run(probes, t2, (steps - 2) as nat) == trace_run(probes, t3, (steps - 3) as nat));
    if n == probes.len() {
        assert(t3.pending == ScanAction::Complete);
        assert(t3.state.ids =~= table_of(probes));
        assert(trace_run(probes, t3, (steps - 3) as nat) == t3);
    } else {
        let t4 = trace_step(probes, t3);
        let t5 = trace_step(probes, t4);
        let t6 = trace_step(probes, t5);
        let t7 = trace_step(probes, t6);
        let t8 = trace_step(probes, t7);
        assert(trace_run(probes, t3, (steps - 3) as nat) == trace_run(probes, t4, (steps - 4) as nat));
        assert(trace_run(probes, t4, (steps - 4) as nat) == trace_run(probes, t5, (steps - 5) as nat));
        assert(trace_run(probes, t5, (steps - 5) as nat) == trace_run(probes, t6, (steps - 6) as nat));
        assert(trace_run(probes, t6, (steps - 6) as nat) == trace_run(probes, t7, (steps - 7) as nat));
        assert(t7.pending == ScanAction::Probe(n as u8));
        assert(trace_run(probes, t7, (steps - 7) as nat) == trace_run(probes, t8, (steps - 8) as nat));
        assert(t8.state.ids == t.state.ids.push(recorded(probes[n as int])));
        assert(t8.state.ids =~= table_of(probes).subrange(0, n as int + 1));
        assert(t8.probed =~= channels_below(n + 1));
        if n == 255 {
            assert(t8.pending == ScanAction::Complete);
            assert(t8.state.ids =~= table_of(probes));
            assert(trace_run(probes, t8, (steps - 8) as nat) == t8);
        } else {
            lemma_scan_from(probes, t8, (steps - 8) as nat);
        }
    }
}

/// Against a switch whose channels below `probes.len()` are wired and whose
/// other channels are refused, a scan ends with exactly one table entry per
/// wired channel, in channel order: the chip id where the identification
/// found one and 0 where it failed. It identifies each wired channel once,
/// in order, and no other channel.
pub proof fn lemma_scan_discovers_wired_channels(
    probes: Seq<Option<u16>>,
    current: Selection,
    steps: nat,
)
    requires
        current.channel < probes.len() <= 256,
        steps >= 8 * probes.len() + 3,
    ensures
        trace_run(probes, trace_start(current), steps).state.stage == ScanStage::Complete,
        trace_run(probes, trace_start(current), steps).state.ids == table_of(probes),
        trace_run(probes, trace_start(current), steps).state.ids.len() == probes.len(),
        trace_run(probes, trace_start(current), steps).probed == channels_below(probes.len()),
        forall|i: int|
            0 <= i < probes.len() && probes[i] is None ==> trace_run(
                probes,
                trace_start(current),
                steps,
            ).state.ids[i] == 0,
{
    let t = trace_start(current);
    assert(t.state.ids =~= table_of(probes).subrange(0, 0));
    assert(t.probed =~= channels_below(0));
    lemma_scan_from(probes, t, steps);
}

} // verus!
