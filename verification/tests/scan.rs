use hil_harness::error::Error;
use hil_harness::frame::decode_command;
use hil_harness::harness::{
    flash_arguments, flash_firmware, join_features, run_and_connect, select_chip, shutdown,
    tool_outcome,
};
use hil_harness::probe::{Probe, ProbeStep};
use hil_harness::scanner::{ScanAction, ScanEvent, Scanner};
use hil_harness::stboot::{Action, Event};
use hil_harness::switch::{Selection, SwitchStep, SETTLE_MS};
use hil_harness::topology::{Resolution, TopologyCache};

/// A target that speaks the bootloader protocol, or stays silent.
struct MockTarget {
    chip: Option<u16>,
    commands: Vec<u8>,
    queue: Vec<u8>,
    writes: usize,
}

impl MockTarget {
    fn new(chip: Option<u16>, commands: &[u8]) -> Self {
        MockTarget { chip, commands: commands.to_vec(), queue: Vec::new(), writes: 0 }
    }

    fn write(&mut self, bytes: &[u8]) {
        self.writes += 1;
        let chip = match self.chip {
            Some(chip) => chip,
            None => return,
        };
        if bytes == [0x7F] {
            self.queue.push(0x79);
            return;
        }
        match decode_command(bytes) {
            Ok(0x00) => {
                self.queue.push(0x79);
                self.queue.push(self.commands.len() as u8);
                self.queue.push(0x22);
                self.queue.extend_from_slice(&self.commands);
                self.queue.push(0x79);
            }
            Ok(0x02) => {
                self.queue.push(0x79);
                self.queue.push(1);
                self.queue.push((chip >> 8) as u8);
                self.queue.push((chip & 0xFF) as u8);
                self.queue.push(0x79);
            }
            _ => self.queue.push(0x1F),
        }
    }

    fn perform(&mut self, action: Action) -> Event {
        match action {
            Action::Clear => {
                self.queue.clear();
                Event::Done
            }
            Action::SetTimeout(_) => Event::Done,
            Action::SendWake | Action::SendCommand(_) => {
                self.write(&action.bytes());
                Event::Done
            }
            Action::ReadByte => {
                if self.queue.is_empty() {
                    Event::TimedOut
                } else {
                    Event::Byte(self.queue.remove(0))
                }
            }
            _ => panic!("not a request"),
        }
    }
}

fn identify(target: &mut MockTarget) -> Option<u16> {
    let (mut probe, mut step) = Probe::start();
    for _ in 0..10_000 {
        match step {
            ProbeStep::Ask(action) => {
                let event = target.perform(action);
                step = probe.advance(event);
            }
            ProbeStep::Found(found) => {
                assert!(probe.is_finished());
                return found;
            }
        }
    }
    panic!("identification did not end");
}

/// A switch with one target per wired channel.
struct MockSwitch {
    targets: Vec<Option<u16>>,
    selects: Vec<Selection>,
    probed: Vec<u8>,
    settled: Vec<u64>,
}

impl MockSwitch {
    fn new(targets: &[Option<u16>]) -> Self {
        MockSwitch {
            targets: targets.to_vec(),
            selects: Vec::new(),
            probed: Vec::new(),
            settled: Vec::new(),
        }
    }

    fn scan(&mut self, current: Selection) -> Result<Vec<u16>, Error> {
        let (mut scanner, mut action) = Scanner::start(current);
        for _ in 0..10_000 {
            let event = match action {
                ScanAction::Select(selection) => {
                    self.selects.push(selection);
                    if (selection.channel as usize) < self.targets.len() {
                        ScanEvent::Accepted
                    } else {
                        ScanEvent::Rejected
                    }
                }
                ScanAction::Settle(ms) => {
                    self.settled.push(ms);
                    ScanEvent::Elapsed
                }
                ScanAction::Probe(channel) => {
                    self.probed.push(channel);
                    let mut target =
                        MockTarget::new(self.targets[channel as usize], &[0x00, 0x01, 0x02]);
                    ScanEvent::Probed(identify(&mut target))
                }
                ScanAction::Complete => {
                    assert!(scanner.is_complete());
                    return Ok(scanner.into_ids());
                }
                ScanAction::Abort(error) => return Err(error),
            };
            action = scanner.advance(event);
        }
        panic!("scan did not end");
    }

    fn select_chip(
        &mut self,
        cache: &mut TopologyCache,
        id: u16,
        current: Selection,
    ) -> Result<Selection, Error> {
        loop {
            match select_chip(cache, id, current) {
                Resolution::Discover => {
                    let ids = self.scan(current)?;
                    cache.populate(ids);
                }
                Resolution::Connect(selection) => {
                    self.selects.push(selection);
                    return Ok(selection);
                }
                Resolution::Fail(error) => return Err(error),
            }
        }
    }
}

fn idle() -> Selection {
    Selection {
        channel: 0,
        power_enabled: true,
        usb_enabled: true,
        reset_asserted: false,
        boot0_asserted: true,
    }
}

fn off(channel: u8) -> Selection {
    Selection {
        channel,
        power_enabled: false,
        usb_enabled: false,
        reset_asserted: true,
        boot0_asserted: false,
    }
}

#[test]
fn dummy() {
    let mut switch = MockSwitch::new(&[Some(0x410)]);
    let mut cache = TopologyCache::new();
    let selection = switch.select_chip(&mut cache, 0x410, idle()).unwrap();
    assert_eq!(selection, off(0));
}

#[test]
fn test_class() {
    let mut switch = MockSwitch::new(&[Some(0x410)]);
    let mut cache = TopologyCache::new();
    let selected = switch.select_chip(&mut cache, 0x410, idle()).unwrap();
    let plan = flash_firmware(selected, "test_class", &Vec::new());
    assert_eq!(plan.arguments, vec!["run", "--release", "--example", "test_class"]);
    let flashed = match plan.steps[2] {
        SwitchStep::Apply(selection) => selection,
        SwitchStep::Settle(_) => panic!("not a selection"),
    };
    assert_eq!(tool_outcome(true), Ok(()));
    let running = run_and_connect(flashed);
    let connected = match running[6] {
        SwitchStep::Apply(selection) => selection,
        SwitchStep::Settle(_) => panic!("not a selection"),
    };
    assert!(connected.usb_enabled && connected.power_enabled);
    assert_eq!(tool_outcome(true), Ok(()));
    assert_eq!(shutdown(connected), vec![SwitchStep::Apply(off(0))]);
}

#[test]
fn identify_finds_the_chip() {
    let mut target = MockTarget::new(Some(0x0412), &[0x00, 0x01, 0x02]);
    assert_eq!(identify(&mut target), Some(0x0412));
    assert_eq!(target.writes, 3);
}

#[test]
fn identify_silent_target_finds_nothing() {
    let mut target = MockTarget::new(None, &[]);
    assert_eq!(identify(&mut target), None);
    assert_eq!(target.writes, 2);
}

#[test]
fn identify_without_the_command_finds_nothing_and_writes_nothing_more() {
    let mut target = MockTarget::new(Some(0x0410), &[0x00, 0x01]);
    assert_eq!(identify(&mut target), None);
    assert_eq!(target.writes, 2);
}

#[test]
fn finished_identification_stays_finished() {
    let mut target = MockTarget::new(None, &[]);
    let (mut probe, mut step) = Probe::start();
    assert_eq!(step, ProbeStep::Ask(Action::Clear));
    while let ProbeStep::Ask(action) = step {
        step = probe.advance(target.perform(action));
    }
    assert_eq!(probe.advance(Event::Byte(0x79)), ProbeStep::Found(None));
}

#[test]
fn scan_steps_of_one_channel() {
    let (mut scanner, first) = Scanner::start(idle());
    assert_eq!(first, ScanAction::Select(off(0)));
    assert_eq!(scanner.advance(ScanEvent::Accepted), ScanAction::Settle(500));
    assert_eq!(scanner.advance(ScanEvent::Elapsed), ScanAction::Select(off(0)));
    let powered = Selection { power_enabled: true, ..off(0) };
    assert_eq!(scanner.advance(ScanEvent::Accepted), ScanAction::Select(powered));
    let held = Selection { boot0_asserted: true, reset_asserted: true, ..powered };
    assert_eq!(scanner.advance(ScanEvent::Accepted), ScanAction::Select(held));
    let released = Selection { reset_asserted: false, ..held };
    assert_eq!(scanner.advance(ScanEvent::Accepted), ScanAction::Select(released));
    assert_eq!(scanner.advance(ScanEvent::Accepted), ScanAction::Settle(500));
    assert_eq!(scanner.advance(ScanEvent::Elapsed), ScanAction::Probe(0));
    assert_eq!(scanner.advance(ScanEvent::Probed(Some(0x410))), ScanAction::Select(off(0)));
    assert_eq!(scanner.ids(), &vec![0x410]);
    assert_eq!(scanner.advance(ScanEvent::Accepted), ScanAction::Settle(500));
    assert_eq!(scanner.advance(ScanEvent::Elapsed), ScanAction::Select(off(1)));
    assert_eq!(scanner.advance(ScanEvent::Rejected), ScanAction::Complete);
    assert!(scanner.is_complete());
    assert_eq!(scanner.advance(ScanEvent::Accepted), ScanAction::Complete);
    assert_eq!(scanner.into_ids(), vec![0x410]);
    assert_eq!(SETTLE_MS, 500);
}

#[test]
fn scan_is_deterministic_and_stops_at_the_rejected_channel() {
    let mut switch = MockSwitch::new(&[Some(0x410), Some(0x412), Some(0x413)]);
    let ids = switch.scan(idle()).unwrap();
    assert_eq!(ids, vec![0x410, 0x412, 0x413]);
    assert_eq!(switch.probed, vec![0, 1, 2]);
    assert_eq!(switch.settled.len(), 7);
    let mut again = MockSwitch::new(&[Some(0x410), Some(0x412), Some(0x413)]);
    assert_eq!(again.scan(idle()).unwrap(), ids);
}

#[test]
fn scan_records_zero_for_a_failing_channel_and_goes_on() {
    let mut switch = MockSwitch::new(&[Some(0x410), None, Some(0x413)]);
    let ids = switch.scan(idle()).unwrap();
    assert_eq!(ids, vec![0x410, 0, 0x413]);
    assert_eq!(switch.probed, vec![0, 1, 2]);
}

#[test]
fn scan_of_a_full_switch_ends_after_the_last_channel() {
    let targets = vec![Some(7u16); 256];
    let mut switch = MockSwitch::new(&targets);
    let ids = switch.scan(idle()).unwrap();
    assert_eq!(ids.len(), 256);
    assert_eq!(switch.probed.len(), 256);
    assert_eq!(*switch.probed.last().unwrap(), 255);
}

#[test]
fn scan_aborts_when_power_off_is_refused() {
    let (mut scanner, _) = Scanner::start(idle());
    assert_eq!(
        scanner.advance(ScanEvent::Rejected),
        ScanAction::Abort(Error::ChannelRejected)
    );
    assert!(!scanner.is_complete());
    assert_eq!(scanner.advance(ScanEvent::Accepted), ScanAction::Abort(Error::Transport));
}

#[test]
fn scan_aborts_on_an_event_out_of_turn() {
    let (mut scanner, _) = Scanner::start(idle());
    assert_eq!(scanner.advance(ScanEvent::Elapsed), ScanAction::Abort(Error::Transport));
}

#[test]
fn two_selections_scan_once() {
    let mut switch = MockSwitch::new(&[Some(0x410), Some(0x412)]);
    let mut cache = TopologyCache::new();
    assert!(!cache.is_populated());
    assert_eq!(select_chip(&cache, 0x410, idle()), Resolution::Discover);
    switch.select_chip(&mut cache, 0x410, idle()).unwrap();
    assert!(cache.is_populated());
    assert_eq!(switch.probed, vec![0, 1]);
    switch.select_chip(&mut cache, 0x412, idle()).unwrap();
    assert_eq!(switch.probed, vec![0, 1]);
}

#[test]
fn populate_counts_only_once() {
    let mut cache = TopologyCache::new();
    cache.populate(vec![0x410, 0x412]);
    cache.populate(vec![0x999]);
    assert_eq!(cache.ids(), &vec![0x410, 0x412]);
    assert_eq!(cache.find(0x412), Some(1));
    assert_eq!(cache.find(0x999), None);
}

#[test]
fn empty_scan_still_populates() {
    let mut cache = TopologyCache::new();
    cache.populate(Vec::new());
    assert!(cache.is_populated());
    assert_eq!(
        select_chip(&cache, 0x410, idle()),
        Resolution::Fail(Error::ChipNotFound(0x410))
    );
}

#[test]
fn find_gives_the_first_channel() {
    let mut cache = TopologyCache::new();
    cache.populate(vec![0, 0x410, 0x412, 0x410]);
    assert_eq!(cache.find(0x410), Some(1));
    assert_eq!(cache.find(0), Some(0));
}

#[test]
fn end_to_end_selects_channel_one() {
    let mut switch = MockSwitch::new(&[Some(0x410), Some(0x412)]);
    let mut cache = TopologyCache::new();
    let selection = switch.select_chip(&mut cache, 0x412, idle()).unwrap();
    assert_eq!(selection, off(1));
    assert_eq!(*switch.selects.last().unwrap(), off(1));
    assert_eq!(cache.ids(), &vec![0x410, 0x412]);
}

#[test]
fn end_to_end_unknown_chip_is_not_found() {
    let mut switch = MockSwitch::new(&[Some(0x410), Some(0x412)]);
    let mut cache = TopologyCache::new();
    assert_eq!(
        switch.select_chip(&mut cache, 0x999, idle()),
        Err(Error::ChipNotFound(0x999))
    );
    assert_eq!(switch.probed, vec![0, 1]);
}

#[test]
fn flash_plan_enters_the_bootloader() {
    let current = off(3);
    let plan = flash_firmware(current, "test_class", &vec!["a".to_string(), "b".to_string()]);
    let held = Selection { power_enabled: true, reset_asserted: true, ..current };
    let boot = Selection { boot0_asserted: true, ..held };
    let released = Selection { reset_asserted: false, ..boot };
    assert_eq!(
        plan.steps,
        vec![
            SwitchStep::Apply(held),
            SwitchStep::Apply(boot),
            SwitchStep::Apply(released),
            SwitchStep::Settle(500),
        ]
    );
    assert_eq!(
        plan.arguments,
        vec!["run", "--release", "--example", "test_class", "--features", "a,b"]
    );
}

#[test]
fn features_are_joined_by_commas() {
    assert_eq!(join_features(&Vec::new()), "");
    assert_eq!(join_features(&vec!["usb".to_string()]), "usb");
    let three = vec!["a".to_string(), "bc".to_string(), "d".to_string()];
    assert_eq!(join_features(&three), "a,bc,d");
    assert_eq!(
        flash_arguments("blinky", &Vec::new()),
        vec!["run", "--release", "--example", "blinky"]
    );
}

#[test]
fn run_and_connect_boots_with_usb() {
    let current = idle();
    let on = Selection { power_enabled: true, ..off(0) };
    let running = Selection { reset_asserted: false, ..on };
    let connected = Selection { usb_enabled: true, ..running };
    assert_eq!(
        run_and_connect(current),
        vec![
            SwitchStep::Apply(off(0)),
            SwitchStep::Settle(500),
            SwitchStep::Apply(on),
            SwitchStep::Settle(500),
            SwitchStep::Apply(running),
            SwitchStep::Settle(500),
            SwitchStep::Apply(connected),
        ]
    );
}

#[test]
fn shutdown_powers_everything_off() {
    let current = Selection { channel: 9, ..idle() };
    assert_eq!(shutdown(current), vec![SwitchStep::Apply(off(9))]);
}

#[test]
fn failed_tool_is_an_error() {
    assert_eq!(tool_outcome(false), Err(Error::ExternalToolFailure));
    assert_eq!(tool_outcome(true), Ok(()));
}
