use vstd::prelude::*;
use crate::error::{Error, Violation};
use crate::frame::{
    check_status, chip_id_of, encode_command, frame_of, parse_chip_id, status_of, ACK, CMD_GET,
    CMD_GET_ID, DRAIN_TIMEOUT_MS, NACK, PROBE_TIMEOUT_MS, RESPONSE_TIMEOUT_MS, WAKE,
};

verus! {

/// What the transport reports back after it was asked to do something.
#[derive(Clone, Copy, Debug, PartialEq, Eq, Structural)]
pub enum Event {
    /// A request that yields no data (clear, set timeout, send) completed.
    Done,
    /// A read delivered this byte.
    Byte(u8),
    /// The request ran into the timeout in force.
    TimedOut,
    /// The request failed for any other reason.
    Failed,
}

/// What the driver wants next: a request to the transport, or the end of the
/// operation with its result.
#[derive(Clone, Copy, Debug, PartialEq, Eq, Structural)]
pub enum Action {
    /// Discard whatever the transport has buffered, both directions.
    Clear,
    /// Set the transport's timeout, in milliseconds.
    SetTimeout(u64),
    /// Send the wake byte.
    SendWake,
    /// Send this command byte followed by its checksum.
    SendCommand(u8),
    /// Read one byte.
    ReadByte,
    /// The operation succeeded and yields no value.
    Ready,
    /// The identify command succeeded with this chip id.
    ChipId(u16),
    /// The operation failed.
    Fail(Error),
}

/// Where in an operation the driver stands: the request it is waiting on.
#[derive(Clone, Copy, Debug, PartialEq, Eq, Structural)]
pub enum Stage {
    /// No operation under way.
    Idle,
    /// Handshake: buffers are being cleared.
    Clearing,
    /// Handshake: the short drain timeout is being set.
    DrainTimeout,
    /// Handshake: stale input is being read away.
    Draining,
    /// Handshake: the probe timeout is being set.
    ProbeTimeout,
    /// Handshake: the first wake byte is being sent.
    FirstWake,
    /// Handshake: the answer to the first wake byte is awaited.
    FirstReply,
    /// Handshake: the second wake byte is being sent.
    SecondWake,
    /// Handshake: the answer to the second wake byte is awaited.
    SecondReply,
    /// Command: the frame is being sent.
    Sending,
    /// Command: the response timeout is being set before the status byte.
    StatusTimeout,
    /// Command: the status byte is awaited.
    Status,
    /// Command: the length byte is awaited.
    Length,
    /// Command: payload bytes are awaited.
    Payload,
    /// Command: the response timeout is being set before the closing status.
    TrailTimeout,
    /// Command: the closing status byte is awaited.
    Trail,
}

/// The command whose reply is being read.
#[derive(Clone, Copy, Debug, PartialEq, Eq, Structural)]
pub enum Op {
    Get,
    GetId,
}

/// The driver as contracts see it.
pub struct DriverState {
    pub stage: Stage,
    pub op: Op,
    /// The commands the target supports, as last reported.
    pub commands: Seq<u8>,
    /// The payload bytes received so far.
    pub payload: Seq<u8>,
    /// How many payload bytes are still to come.
    pub pending: nat,
}

impl DriverState {
    pub open spec fn at(self, stage: Stage) -> DriverState {
        DriverState { stage, ..self }
    }

    pub open spec fn stop(self) -> DriverState {
        self.at(Stage::Idle)
    }

    /// The state of a driver that has not spoken to its target yet.
    pub open spec fn fresh() -> DriverState {
        DriverState {
            stage: Stage::Idle,
            op: Op::Get,
            commands: seq![CMD_GET],
            payload: Seq::empty(),
            pending: 0,
        }
    }
}

/// The error that an event stands for when it is not the answer hoped for.
pub open spec fn fault_of(event: Event) -> Error {
    if event is TimedOut {
        Error::Timeout
    } else {
        Error::Transport
    }
}

/// The command ids in a GET payload: everything after the version byte.
pub open spec fn ids_of(payload: Seq<u8>) -> Seq<u8> {
    if payload.len() >= 1 {
        payload.subrange(1, payload.len() as int)
    } else {
        Seq::empty()
    }
}

/// The state and first request of the handshake.
pub open spec fn handshake_start(s: DriverState) -> (DriverState, Action) {
    (s.at(Stage::Clearing), Action::Clear)
}

/// The state and first request of the GET command.
pub open spec fn get_start(s: DriverState) -> (DriverState, Action) {
    (DriverState { stage: Stage::Sending, op: Op::Get, ..s }, Action::SendCommand(CMD_GET))
}

/// The state and first request of the identify operation. Where the
/// command is not among the supported ones, the operation has failed before
/// anything is asked of the transport.
pub open spec fn identify_start(s: DriverState) -> (DriverState, Action) {
    if s.commands.contains(CMD_GET_ID) {
        (
            DriverState { stage: Stage::Sending, op: Op::GetId, ..s },
            Action::SendCommand(CMD_GET_ID),
        )
    } else {
        (s.stop(), Action::Fail(Error::UnsupportedCommand(CMD_GET_ID)))
    }
}

/// The bytes that an action puts on the wire: none, unless it sends.
pub open spec fn wire_of(a: Action) -> Seq<u8> {
    match a {
        Action::SendWake => seq![WAKE],
        Action::SendCommand(command) => frame_of(command),
        _ => Seq::empty(),
    }
}

/// After a request that yields no data: go on if it completed, else fail.
pub open spec fn after_request(s: DriverState, e: Event, then: Stage, ask: Action) -> (
    DriverState,
    Action,
) {
    if e is Done {
        (s.at(then), ask)
    } else {
        (s.stop(), Action::Fail(fault_of(e)))
    }
}

/// What a completed command leaves behind and yields.
pub open spec fn finish(s: DriverState) -> (DriverState, Action) {
    match s.op {
        Op::Get => (DriverState { stage: Stage::Idle, commands: ids_of(s.payload), ..s }, Action::Ready),
        Op::GetId => match chip_id_of(s.payload) {
            Ok(id) => (s.stop(), Action::ChipId(id)),
            Err(err) => (s.stop(), Action::Fail(err)),
        },
    }
}

/// The transition function of the driver: the state and action that follow
/// when `e` answers the request outstanding in `s`. An event that cannot
/// answer that request counts as a transport fault.
pub open spec fn next(s: DriverState, e: Event) -> (DriverState, Action) {
    match s.stage {
        Stage::Idle => (s, Action::Fail(Error::Transport)),
        Stage::Clearing => after_request(
            s,
            e,
            Stage::DrainTimeout,
            Action::SetTimeout(DRAIN_TIMEOUT_MS),
        ),
        Stage::DrainTimeout => after_request(s, e, Stage::Draining, Action::ReadByte),
        Stage::Draining => match e {
            Event::Byte(_) => (s, Action::ReadByte),
            Event::Done => (s.stop(), Action::Fail(Error::Transport)),
            _ => (s.at(Stage::ProbeTimeout), Action::SetTimeout(PROBE_TIMEOUT_MS)),
        },
        Stage::ProbeTimeout => after_request(s, e, Stage::FirstWake, Action::SendWake),
        Stage::FirstWake => after_request(s, e, Stage::FirstReply, Action::ReadByte),
        Stage::FirstReply => match e {
            Event::Byte(b) => if b == ACK || b == NACK {
                (s.stop(), Action::Ready)
            } else {
                (s.stop(), Action::Fail(Error::ProtocolViolation(Violation::UnexpectedByte(b))))
            },
            Event::TimedOut => (s.at(Stage::SecondWake), Action::SendWake),
            _ => (s.stop(), Action::Fail(Error::Transport)),
        },
        Stage::SecondWake => after_request(s, e, Stage::SecondReply, Action::ReadByte),
        Stage::SecondReply => match e {
            Event::Byte(b) => if b == NACK {
                (s.stop(), Action::Ready)
            } else {
                (s.stop(), Action::Fail(Error::ProtocolViolation(Violation::UnexpectedByte(b))))
            },
            _ => (s.stop(), Action::Fail(fault_of(e))),
        },
        Stage::Sending => after_request(
            s,
            e,
            Stage::StatusTimeout,
            Action::SetTimeout(RESPONSE_TIMEOUT_MS),
        ),
        Stage::StatusTimeout => after_request(s, e, Stage::Status, Action::ReadByte),
        Stage::Status => match e {
            Event::Byte(b) => match status_of(b) {
                Ok(_) => (s.at(Stage::Length), Action::ReadByte),
                Err(err) => (s.stop(), Action::Fail(err)),
            },
            _ => (s.stop(), Action::Fail(fault_of(e))),
        },
        Stage::Length => match e {
            Event::Byte(n) => (
                DriverState {
                    stage: Stage::Payload,
                    payload: Seq::empty(),
                    pending: (n + 1) as nat,
                    ..s
                },
                Action::ReadByte,
            ),
            _ => (s.stop(), Action::Fail(fault_of(e))),
        },
        Stage::Payload => match e {
            Event::Byte(b) => if s.pending <= 1 {
                (
                    DriverState {
                        stage: Stage::TrailTimeout,
                        payload: s.payload.push(b),
                        pending: 0,
                        ..s
                    },
                    Action::SetTimeout(RESPONSE_TIMEOUT_MS),
                )
            } else {
                (
                    DriverState {
                        payload: s.payload.push(b),
                        pending: (s.pending - 1) as nat,
                        ..s
                    },
                    Action::ReadByte,
                )
            },
            _ => (s.stop(), Action::Fail(fault_of(e))),
        },
        Stage::TrailTimeout => after_request(s, e, Stage::Trail, Action::ReadByte),
        Stage::Trail => match e {
            Event::Byte(b) => match status_of(b) {
                Ok(_) => finish(s),
                Err(err) => (s.stop(), Action::Fail(err)),
            },
            _ => (s.stop(), Action::Fail(fault_of(e))),
        },
    }
}

/// The protocol driver for one connection to a target's bootloader. It
/// performs no input or output itself: each operation names the next request
/// to the transport, and `advance` takes what came of it.
pub struct Bootloader {
    stage: Stage,
    op: Op,
    supported_commands: Vec<u8>,
    payload: Vec<u8>,
    pending: usize,
}

impl View for Bootloader {
    type V = DriverState;

    closed spec fn view(&self) -> DriverState {
        DriverState {
            stage: self.stage,
            op: self.op,
            commands: self.supported_commands@,
            payload: self.payload@,
            pending: self.pending as nat,
        }
    }
}

impl Action {
    /// The bytes to write for this action: none, unless it sends.
    pub fn bytes(&self) -> (wire: Vec<u8>)
        ensures
            wire@ == wire_of(*self),
    {
        let mut wire: Vec<u8> = Vec::new();
        match self {
            Action::SendWake => {
                wire.push(WAKE);
            },
            Action::SendCommand(command) => {
                let frame = encode_command(*command);
                wire.push(frame[0]);
                wire.push(frame[1]);
            },
            _ => {},
        }
        assert(wire@ =~= wire_of(*self));
        wire
    }

    /// Whether this action asks something of the transport, rather than
    /// ending the operation.
    pub fn is_request(&self) -> (request: bool)
        ensures
            request == !(*self is Ready || *self is ChipId || *self is Fail),
    {
        match self {
            Action::Ready => false,
            Action::ChipId(_) => false,
            Action::Fail(_) => false,
            _ => true,
        }
    }
}

fn fault(event: Event) -> (e: Error)
    ensures
        e == fault_of(event),
{
    match event {
        Event::TimedOut => Error::Timeout,
        _ => Error::Transport,
    }
}

impl Bootloader {
    /// A driver for a target that has not been spoken to: only GET is taken
    /// to be supported.
    pub fn new() -> (driver: Bootloader)
        ensures
            driver@ == DriverState::fresh(),
    {
        let mut supported_commands: Vec<u8> = Vec::new();
        supported_commands.push(CMD_GET);
        assert(supported_commands@ =~= seq![CMD_GET]);
        Bootloader { stage: Stage::Idle, op: Op::Get, supported_commands, payload: Vec::new(), pending: 0 }
    }

    /// Whether no operation is under way.
    pub fn is_idle(&self) -> (idle: bool)
        ensures
            idle == (self@.stage == Stage::Idle),
    {
        self.stage == Stage::Idle
    }

    /// The commands the target supports, as last reported.
    pub fn supported_commands(&self) -> (commands: &Vec<u8>)
        ensures
            commands@ == self@.commands,
    {
        &self.supported_commands
    }

    /// Whether `command` is among the supported commands.
    pub fn supports(&self, command: u8) -> (found: bool)
        ensures
            found == self@.commands.contains(command),
    {
        let mut i: usize = 0;
        while i < self.supported_commands.len()
            invariant
                i <= self.supported_commands.len(),
                forall|j: int| 0 <= j < i ==> self.supported_commands@[j] != command,
            decreases self.supported_commands.len() - i,
        {
            if self.supported_commands[i] == command {
                return true;
            }
            i += 1;
        }
        false
    }

    /// Fails unless `command` is among the supported commands.
    pub fn check_suppored_command(&self, command: u8) -> (r: Result<(), Error>)
        ensures
            r is Ok <==> self@.commands.contains(command),
            r is Err ==> r == Err::<(), Error>(Error::UnsupportedCommand(command)),
    {
        if self.supports(command) {
            Ok(())
        } else {
            Err(Error::UnsupportedCommand(command))
        }
    }

    /// Starts the handshake. The first request is to clear the transport's
    /// buffers; an operation that was under way is abandoned.
    pub fn init(&mut self) -> (action: Action)
        ensures
            (final(self)@, action) == handshake_start(old(self)@),
    {
        self.stage = Stage::Clearing;
        Action::Clear
    }

    /// Starts the GET command, which refreshes the supported commands.
    pub fn cmd_get(&mut self) -> (action: Action)
        ensures
            (final(self)@, action) == get_start(old(self)@),
    {
        self.stage = Stage::Sending;
        self.op = Op::Get;
        Action::SendCommand(CMD_GET)
    }

    /// Starts the identify command. Where the target has not reported the
    /// command as supported, the operation fails at once and asks nothing of
    /// the transport.
    pub fn get_device_id(&mut self) -> (action: Action)
        ensures
            (final(self)@, action) == identify_start(old(self)@),
    {
        match self.check_suppored_command(CMD_GET_ID) {
            Ok(_) => {
                self.stage = Stage::Sending;
                self.op = Op::GetId;
                Action::SendCommand(CMD_GET_ID)
            },
            Err(err) => {
                self.stage = Stage::Idle;
                Action::Fail(err)
            },
        }
    }

    fn stop_with(&mut self, error: Error) -> (action: Action)
        ensures
            final(self)@ == old(self)@.stop(),
            action == Action::Fail(error),
    {
        self.stage = Stage::Idle;
        Action::Fail(error)
    }

    fn proceed(&mut self, event: Event, then: Stage, ask: Action) -> (action: Action)
        ensures
            (final(self)@, action) == after_request(old(self)@, event, then, ask),
    {
        match event {
            Event::Done => {
                self.stage = then;
                ask
            },
            _ => self.stop_with(fault(event)),
        }
    }

    fn complete(&mut self) -> (action: Action)
        ensures
            (final(self)@, action) == finish(old(self)@),
    {
        self.stage = Stage::Idle;
        match self.op {
            Op::Get => {
                let mut ids: Vec<u8> = Vec::new();
                let mut i: usize = 1;
                while i < self.payload.len()
                    invariant
                        1 <= i,
                        i <= self.payload.len() || self.payload.len() == 0,
                        self.payload.len() >= 1 ==> ids@ == self.payload@.subrange(1, i as int),
                        self.payload.len() == 0 ==> ids@ == Seq::<u8>::empty(),
                    decreases self.payload.len() - i,
                {
                    ids.push(self.payload[i]);
                    i += 1;
                    assert(ids@ =~= self.payload@.subrange(1, i as int));
                }
                assert(ids@ =~= ids_of(self.payload@));
                self.supported_commands = ids;
                Action::Ready
            },
            Op::GetId => match parse_chip_id(self.payload.as_slice()) {
                Ok(id) => Action::ChipId(id),
                Err(err) => Action::Fail(err),
            },
        }
    }

    /// Takes what came of the outstanding request and names the next one, or
    /// the operation's result.
    pub fn advance(&mut self, event: Event) -> (action: Action)
        ensures
            (final(self)@, action) == next(old(self)@, event),
    {
        match self.stage {
            Stage::Idle => Action::Fail(Error::Transport),
            Stage::Clearing => self.proceed(
                event,
                Stage::DrainTimeout,
                Action::SetTimeout(DRAIN_TIMEOUT_MS),
            ),
            Stage::DrainTimeout => self.proceed(event, Stage::Draining, Action::ReadByte),
            Stage::Draining => match event {
                Event::Byte(_) => Action::ReadByte,
                Event::Done => self.stop_with(Error::Transport),
                _ => {
                    self.stage = Stage::ProbeTimeout;
                    Action::SetTimeout(PROBE_TIMEOUT_MS)
                },
            },
            Stage::ProbeTimeout => self.proceed(event, Stage::FirstWake, Action::SendWake),
            Stage::FirstWake => self.proceed(event, Stage::FirstReply, Action::ReadByte),
            Stage::FirstReply => match event {
                Event::Byte(b) => {
                    self.stage = Stage::Idle;
                    if b == ACK || b == NACK {
                        Action::Ready
                    } else {
                        Action::Fail(Error::ProtocolViolation(Violation::UnexpectedByte(b)))
                    }
                },
                Event::TimedOut => {
                    self.stage = Stage::SecondWake;
                    Action::SendWake
                },
                _ => self.stop_with(Error::Transport),
            },
            Stage::SecondWake => self.proceed(event, Stage::SecondReply, Action::ReadByte),
            Stage::SecondReply => match event {
                Event::Byte(b) => {
                    self.stage = Stage::Idle;
                    if b == NACK {
                        Action::Ready
                    } else {
                        Action::Fail(Error::ProtocolViolation(Violation::UnexpectedByte(b)))
                    }
                },
                _ => self.stop_with(fault(event)),
            },
            Stage::Sending => self.proceed(
                event,
                Stage::StatusTimeout,
                Action::SetTimeout(RESPONSE_TIMEOUT_MS),
            ),
            Stage::StatusTimeout => self.proceed(event, Stage::Status, Action::ReadByte),
            Stage::Status => match event {
                Event::Byte(b) => match check_status(b) {
                    Ok(_) => {
                        self.stage = Stage::Length;
                        Action::ReadByte
                    },
                    Err(err) => self.stop_with(err),
                },
                _ => self.stop_with(fault(event)),
            },
            Stage::Length => match event {
                Event::Byte(n) => {
                    self.stage = Stage::Payload;
                    self.payload = Vec::new();
                    let count: usize = n as usize;
                    self.pending = count + 1;
                    Action::ReadByte
                },
                _ => self.stop_with(fault(event)),
            },
            Stage::Payload => match event {
                Event::Byte(b) => {
                    self.payload.push(b);
                    if self.pending <= 1 {
                        self.stage = Stage::TrailTimeout;
                        self.pending = 0;
                        Action::SetTimeout(RESPONSE_TIMEOUT_MS)
                    } else {
                        self.pending = self.pending - 1;
                        Action::ReadByte
                    }
                },
                _ => self.stop_with(fault(event)),
            },
            Stage::TrailTimeout => self.proceed(event, Stage::Trail, Action::ReadByte),
            Stage::Trail => match event {
                Event::Byte(b) => match check_status(b) {
                    Ok(_) => self.complete(),
                    Err(err) => self.stop_with(err),
                },
                _ => self.stop_with(fault(event)),
            },
        }
    }
}

/// The driver after `events` have answered its requests one after the
/// other, starting with the request `a` outstanding in `s`.
pub open spec fn drive(s: DriverState, a: Action, events: Seq<Event>) -> (DriverState, Action)
    decreases events.len(),
{
    if events.len() == 0 {
        (s, a)
    } else {
        drive(next(s, events[0]).0, next(s, events[0]).1, events.skip(1))
    }
}

/// The events of reading `bytes` one by one.
pub open spec fn byte_events(bytes: Seq<u8>) -> Seq<Event> {
    Seq::new(bytes.len(), |i: int| Event::Byte(bytes[i]))
}

/// The events of a command answered in full: frame sent, response timeout
/// set, acknowledgment, the length byte that announces `bytes`, the payload
/// `bytes`, response timeout set, closing acknowledgment.
pub open spec fn reply_events(bytes: Seq<u8>) -> Seq<Event> {
    seq![Event::Done, Event::Done, Event::Byte(ACK), Event::Byte((bytes.len() - 1) as u8)]
        + byte_events(bytes) + seq![Event::Done, Event::Byte(ACK)]
}

proof fn lemma_payload_is_collected(s: DriverState, bytes: Seq<u8>)
    requires
        s.stage == Stage::Payload,
        s.pending == bytes.len(),
        bytes.len() >= 1,
    ensures
        drive(s, Action::ReadByte, byte_events(bytes)) == (
            DriverState {
                stage: Stage::TrailTimeout,
                payload: s.payload + bytes,
                pending: 0,
                ..s
            },
            Action::SetTimeout(RESPONSE_TIMEOUT_MS),
        ),
    decreases bytes.len(),
{
    let events = byte_events(bytes);
    let step = next(s, events[0]);
    assert(events[0] == Event::Byte(bytes[0]));
    assert(events.skip(1) =~= byte_events(bytes.skip(1)));
    if bytes.len() == 1 {
        assert(step.0.payload =~= s.payload + bytes);
        assert(events.skip(1).len() == 0);
        assert(drive(step.0, step.1, events.skip(1)) == step);
    } else {
        lemma_payload_is_collected(step.0, bytes.skip(1));
        assert(step.0.payload + bytes.skip(1) =~= s.payload + bytes);
    }
}

proof fn lemma_reply_is_collected(s: DriverState, a: Action, bytes: Seq<u8>)
    requires
        s.stage == Stage::Sending,
        1 <= bytes.len() <= 256,
    ensures
        drive(s, a, reply_events(bytes)) == finish(
            DriverState { stage: Stage::Trail, payload: bytes, pending: 0, ..s },
        ),
{
    let length = Event::Byte((bytes.len() - 1) as u8);
    let none = Seq::<Event>::empty();
    let head = seq![Event::Done, Event::Done, Event::Byte(ACK), length];
    let tail = seq![Event::Done, Event::Byte(ACK)];
    assert(head =~= none.push(Event::Done).push(Event::Done).push(Event::Byte(ACK)).push(length));
    lemma_drive_append(s, a, none, Event::Done);
    lemma_drive_append(s, a, none.push(Event::Done), Event::Done);
    lemma_drive_append(s, a, none.push(Event::Done).push(Event::Done), Event::Byte(ACK));
    lemma_drive_append(
        s,
        a,
        none.push(Event::Done).push(Event::Done).push(Event::Byte(ACK)),
        length,
    );
    let at_payload = drive(s, a, head).0;
    assert(at_payload.stage == Stage::Payload);
    assert(drive(s, a, head).1 == Action::ReadByte);
    lemma_payload_is_collected(at_payload, bytes);
    assert(at_payload.payload + bytes =~= bytes);
    let read = drive(at_payload, Action::ReadByte, byte_events(bytes));
    lemma_drive_two(read.0, read.1, Event::Done, Event::Byte(ACK));
    lemma_drive_concat(s, a, head, byte_events(bytes));
    lemma_drive_concat(s, a, head + byte_events(bytes), tail);
}

/// A full reply to a command ends the operation as its payload says, and
/// the payload is exactly the bytes the length byte announced. For GET, the
/// supported commands become the payload without its first byte. For the
/// identify command, on a driver that supports it, the result is a chip id
/// where the payload has two bytes, most significant first, and a protocol
/// violation for any other length.
pub proof fn lemma_reply_is_judged_whole(s: DriverState, bytes: Seq<u8>)
    requires
        1 <= bytes.len() <= 256,
    ensures
        drive(get_start(s).0, get_start(s).1, reply_events(bytes)).1 == Action::Ready,
        drive(get_start(s).0, get_start(s).1, reply_events(bytes)).0.commands == bytes.skip(1),
        s.commands.contains(CMD_GET_ID) && bytes.len() == 2 ==> drive(
            identify_start(s).0,
            identify_start(s).1,
            reply_events(bytes),
        ).1 == Action::ChipId((bytes[0] * 256 + bytes[1]) as u16),
        s.commands.contains(CMD_GET_ID) && bytes.len() != 2 ==> drive(
            identify_start(s).0,
            identify_start(s).1,
            reply_events(bytes),
        ).1 == Action::Fail(
            Error::ProtocolViolation(Violation::UnexpectedLength(bytes.len() as usize)),
        ),
{
    lemma_reply_is_collected(get_start(s).0, get_start(s).1, bytes);
    assert(ids_of(bytes) =~= bytes.skip(1));
    if s.commands.contains(CMD_GET_ID) {
        lemma_reply_is_collected(identify_start(s).0, identify_start(s).1, bytes);
    }
}

/// The events of a handshake: buffers cleared, drain timeout set, the
/// bytes `stale` read away until the line falls silent, probe timeout set,
/// wake byte sent, and then `replies`.
pub open spec fn handshake_events(stale: Seq<u8>, replies: Seq<Event>) -> Seq<Event> {
    seq![Event::Done, Event::Done] + byte_events(stale) + seq![
        Event::TimedOut,
        Event::Done,
        Event::Done,
    ] + replies
}

/// The result of a handshake started in `s` and answered by those events.
pub open spec fn handshake(s: DriverState, stale: Seq<u8>, replies: Seq<Event>) -> Action {
    drive(handshake_start(s).0, handshake_start(s).1, handshake_events(stale, replies)).1
}

proof fn lemma_drive_append(s: DriverState, a: Action, events: Seq<Event>, e: Event)
    ensures
        drive(s, a, events.push(e)) == next(drive(s, a, events).0, e),
    decreases events.len(),
{
    let longer = events.push(e);
    if events.len() == 0 {
        assert(longer[0] == e);
        assert(longer.skip(1).len() == 0);
        assert(drive(next(s, e).0, next(s, e).1, longer.skip(1)) == next(s, e));
    } else {
        assert(longer[0] == events[0]);
        assert(longer.skip(1) =~= events.skip(1).push(e));
        lemma_drive_append(next(s, events[0]).0, next(s, events[0]).1, events.skip(1), e);
    }
}

proof fn lemma_drive_concat(s: DriverState, a: Action, front: Seq<Event>, back: Seq<Event>)
    ensures
        drive(s, a, front + back) == drive(drive(s, a, front).0, drive(s, a, front).1, back),
    decreases front.len(),
{
    if front.len() == 0 {
        assert(front + back =~= back);
    } else {
        assert((front + back)[0] == front[0]);
        assert((front + back).skip(1) =~= front.skip(1) + back);
        lemma_drive_concat(next(s, front[0]).0, next(s, front[0]).1, front.skip(1), back);
    }
}

proof fn lemma_stale_input_is_drained(s: DriverState, stale: Seq<u8>)
    requires
        s.stage == Stage::Draining,
    ensures
        drive(s, Action::ReadByte, byte_events(stale)) == (s, Action::ReadByte),
    decreases stale.len(),
{
    if stale.len() > 0 {
        assert(byte_events(stale)[0] == Event::Byte(stale[0]));
        assert(byte_events(stale).skip(1) =~= byte_events(stale.skip(1)));
        lemma_stale_input_is_drained(s, stale.skip(1));
    }
}

proof fn lemma_drive_two(s: DriverState, a: Action, e1: Event, e2: Event)
    ensures
        drive(s, a, seq![e1, e2]) == next(next(s, e1).0, e2),
{
    let none = Seq::<Event>::empty();
    assert(seq![e1, e2] =~= none.push(e1).push(e2));
    lemma_drive_append(s, a, none, e1);
    lemma_drive_append(s, a, none.push(e1), e2);
}

proof fn lemma_drive_three(s: DriverState, a: Action, e1: Event, e2: Event, e3: Event)
    ensures
        drive(s, a, seq![e1, e2, e3]) == next(next(next(s, e1).0, e2).0, e3),
{
    let none = Seq::<Event>::empty();
    assert(seq![e1, e2, e3] =~= none.push(e1).push(e2).push(e3));
    lemma_drive_append(s, a, none, e1);
    lemma_drive_append(s, a, none.push(e1), e2);
    lemma_drive_append(s, a, none.push(e1).push(e2), e3);
}

/// Whatever state the driver is in and whatever stale input is pending, a
/// handshake reaches the point where the first wake byte is out, and from
/// there only the replies count.
pub proof fn lemma_handshake_ignores_stale_input(
    s: DriverState,
    stale: Seq<u8>,
    replies: Seq<Event>,
)
    ensures
        drive(handshake_start(s).0, handshake_start(s).1, handshake_events(stale, replies))
            == drive(s.at(Stage::FirstReply), Action::ReadByte, replies),
{
    let opening = seq![Event::Done, Event::Done];
    let waking = seq![Event::TimedOut, Event::Done, Event::Done];
    let s0 = handshake_start(s).0;
    let a0 = handshake_start(s).1;
    lemma_drive_two(s0, a0, Event::Done, Event::Done);
    lemma_stale_input_is_drained(s.at(Stage::Draining), stale);
    lemma_drive_three(s.at(Stage::Draining), Action::ReadByte, Event::TimedOut, Event::Done, Event::Done);
    lemma_drive_concat(s0, a0, opening, byte_events(stale));
    lemma_drive_concat(s0, a0, opening + byte_events(stale), waking);
    lemma_drive_concat(s0, a0, opening + byte_events(stale) + waking, replies);
}

/// The handshake tells a freshly reset target from one left in a session.
/// Either acknowledgment to the first wake byte succeeds. After silence the
/// wake byte goes out once more, and then only a negative acknowledgment
/// succeeds. Any other byte is a protocol violation that carries the byte,
/// and a second silence is a timeout.
pub proof fn lemma_handshake_outcomes(s: DriverState, stale: Seq<u8>, b: u8)
    ensures
        handshake(s, stale, seq![Event::Byte(ACK)]) == Action::Ready,
        handshake(s, stale, seq![Event::Byte(NACK)]) == Action::Ready,
        b != ACK && b != NACK ==> handshake(s, stale, seq![Event::Byte(b)]) == Action::Fail(
            Error::ProtocolViolation(Violation::UnexpectedByte(b)),
        ),
        handshake(s, stale, seq![Event::TimedOut]) == Action::SendWake,
        handshake(s, stale, seq![Event::TimedOut, Event::Done, Event::Byte(NACK)])
            == Action::Ready,
        b != NACK ==> handshake(s, stale, seq![Event::TimedOut, Event::Done, Event::Byte(b)])
            == Action::Fail(Error::ProtocolViolation(Violation::UnexpectedByte(b))),
        handshake(s, stale, seq![Event::TimedOut, Event::Done, Event::TimedOut]) == Action::Fail(
            Error::Timeout,
        ),
{
    lemma_handshake_reply(s, stale, Event::Byte(ACK));
    lemma_handshake_reply(s, stale, Event::Byte(NACK));
    lemma_handshake_reply(s, stale, Event::Byte(b));
    lemma_handshake_reply(s, stale, Event::TimedOut);
    lemma_handshake_second_reply(s, stale, Event::Byte(NACK));
    lemma_handshake_second_reply(s, stale, Event::Byte(b));
    lemma_handshake_second_reply(s, stale, Event::TimedOut);
}

proof fn lemma_handshake_reply(s: DriverState, stale: Seq<u8>, e: Event)
    ensures
        handshake(s, stale, seq![e]) == next(s.at(Stage::FirstReply), e).1,
{
    let none = Seq::<Event>::empty();
    assert(seq![e] =~= none.push(e));
    lemma_drive_append(s.at(Stage::FirstReply), Action::ReadByte, none, e);
    lemma_handshake_ignores_stale_input(s, stale, seq![e]);
}

proof fn lemma_handshake_second_reply(s: DriverState, stale: Seq<u8>, e: Event)
    ensures
        handshake(s, stale, seq![Event::TimedOut, Event::Done, e]) == next(
            next(next(s.at(Stage::FirstReply), Event::TimedOut).0, Event::Done).0,
            e,
        ).1,
{
    lemma_drive_three(s.at(Stage::FirstReply), Action::ReadByte, Event::TimedOut, Event::Done, e);
    lemma_handshake_ignores_stale_input(s, stale, seq![Event::TimedOut, Event::Done, e]);
}

/// A driver whose supported commands lack the identify command fails the
/// identify operation with nothing put on the wire and nothing else
/// changed; a driver that has not run GET is such a driver.
pub proof fn lemma_identify_is_gated(s: DriverState)
    ensures
        !s.commands.contains(CMD_GET_ID) ==> identify_start(s) == (
            s.stop(),
            Action::Fail(Error::UnsupportedCommand(CMD_GET_ID)),
        ) && wire_of(identify_start(s).1).len() == 0,
        s.commands.contains(CMD_GET_ID) ==> wire_of(identify_start(s).1) == frame_of(CMD_GET_ID),
        identify_start(DriverState::fresh()).1 == Action::Fail(
            Error::UnsupportedCommand(CMD_GET_ID),
        ),
{
}

} // verus!
