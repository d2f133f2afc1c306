//! The life of one client connection: which slot it owns, what it has sent
//! so far, and how each request is answered.

use vstd::prelude::*;
use vstd::utf8::{decode_utf8, valid_utf8};
use crate::applet::{AppletView, Command, CommandError, CommandView, Opcode, Separator};
use crate::framing::{before_nul, frames, leftover, FrameBuffer};
use crate::slots::{apply_at, SlotTable, TableView};
use crate::status::Status;

verus! {

/// Where a connection stands.
#[derive(Clone, Copy, Debug, PartialEq, Eq, Structural)]
pub enum ConnectionState {
    /// No slot claimed yet.
    Unbound,
    /// The connection created the applet in this slot and owns it.
    Bound(u8),
    /// The peer is gone or broke the protocol. Nothing more is processed.
    Terminated,
}

/// What the transport reported for one read.
pub enum ReadEvent {
    /// The bytes that were read. None at all means the peer closed the stream.
    Data(Vec<u8>),
    /// The peer reset the connection.
    Reset,
    /// The read failed for any other reason.
    Failed,
}

/// The mathematical content of a [`ReadEvent`].
pub ghost enum ReadEventView {
    Data(Seq<u8>),
    Reset,
    Failed,
}

impl View for ReadEvent {
    type V = ReadEventView;

    open spec fn view(&self) -> ReadEventView {
        match self {
            ReadEvent::Data(bytes) => ReadEventView::Data(bytes@),
            ReadEvent::Reset => ReadEventView::Reset,
            ReadEvent::Failed => ReadEventView::Failed,
        }
    }
}

/// What a read led to.
pub enum Intake {
    /// The complete requests that are now waiting to be decoded, in arrival
    /// order. The connection stays open.
    Frames(Vec<String>),
    /// The connection is over. The status, if any, is sent before closing.
    Closed(Option<Status>),
}

/// The mathematical content of an [`Intake`].
pub ghost enum IntakeView {
    Frames(Seq<Seq<char>>),
    Closed(Option<Status>),
}

impl View for Intake {
    type V = IntakeView;

    open spec fn view(&self) -> IntakeView {
        match self {
            Intake::Frames(candidates) => IntakeView::Frames(candidates.deep_view()),
            Intake::Closed(status) => IntakeView::Closed(*status),
        }
    }
}

/// The separator kind a creation asks for: its only parameter, if that is
/// one of 0 to 3.
pub open spec fn creation_kind(parameters: Seq<u8>) -> Option<Separator> {
    if parameters.len() == 1 {
        Separator::of_code(parameters[0])
    } else {
        None
    }
}

/// The table once the connection has let go of its slot, if it owns one.
pub open spec fn released(state: ConnectionState, table: TableView) -> TableView {
    match state {
        ConnectionState::Bound(k) => table.update(k as int, None),
        _ => table,
    }
}

/// The answer to a decoded command, or `None` where nothing is sent.
///
/// The checks come in this order: a terminated connection answers nothing;
/// the slot index must be 0 to 3; a bound connection must name its own slot;
/// a creation needs an empty slot and then a valid separator kind; a grid
/// update must not aim at slot 0; an update of an empty slot is dropped
/// without an answer; any other update is answered as the applet decides.
pub open spec fn verdict(state: ConnectionState, table: TableView, cmd: CommandView) -> Option<
    Status,
> {
    if state is Terminated {
        None
    } else if cmd.app_num > 3 {
        Some(Status::SlotOutOfRange)
    } else if state matches ConnectionState::Bound(k) && k != cmd.app_num {
        Some(Status::SlotMismatch)
    } else if cmd.opcode == Opcode::CreateApplet {
        if table[cmd.app_num as int] is Some {
            Some(Status::SlotOccupied)
        } else if creation_kind(cmd.parameters) is None {
            Some(Status::BadSeparator)
        } else {
            Some(Status::Success)
        }
    } else {
        match apply_at(table, cmd.app_num, cmd) {
            Ok(_) => Some(Status::Success),
            Err(CommandError::StatusBarGridForbidden) => Some(Status::StatusBarGrid),
            Err(CommandError::NoSuchApplet) => None,
            Err(_) => Some(Status::CommandFailed),
        }
    }
}

/// State, table and answer after one request.
pub ghost struct Step {
    pub state: ConnectionState,
    pub table: TableView,
    pub status: Option<Status>,
}

/// What a decoded command does. A fatal answer ends the connection and
/// frees its slot; a successful creation installs a fresh applet and binds
/// the connection to the slot; a successful update changes the applet;
/// anything else changes nothing.
pub open spec fn step(state: ConnectionState, table: TableView, cmd: CommandView) -> Step {
    let status = verdict(state, table, cmd);
    if status matches Some(s) && s.fatal() {
        Step { state: ConnectionState::Terminated, table: released(state, table), status }
    } else if status != Some(Status::Success) {
        Step { state, table, status }
    } else if cmd.opcode == Opcode::CreateApplet {
        Step {
            state: ConnectionState::Bound(cmd.app_num),
            table: table.update(
                cmd.app_num as int,
                Some(AppletView::fresh(creation_kind(cmd.parameters)->0)),
            ),
            status,
        }
    } else {
        Step { state, table: apply_at(table, cmd.app_num, cmd)->Ok_0, status }
    }
}

/// What one frame does once the codec has had it: a decoded command acts as
/// `step` says; an undecodable frame is answered as malformed and changes
/// nothing.
pub open spec fn step_frame(
    state: ConnectionState,
    table: TableView,
    decoded: Option<CommandView>,
) -> Step {
    match decoded {
        Some(cmd) => step(state, table, cmd),
        None => Step {
            state,
            table,
            status: if state is Terminated {
                None
            } else {
                Some(Status::Malformed)
            },
        },
    }
}

/// State, table and answers after a run of frames.
pub ghost struct Run {
    pub state: ConnectionState,
    pub table: TableView,
    pub sent: Seq<Status>,
}

/// What the frames of one read do, taken in order. Each frame adds its
/// answer, if it has one. After the last frame, a cut-off request still
/// waiting in the buffer adds one malformed answer, unless the connection
/// has ended.
pub open spec fn run_frames(
    state: ConnectionState,
    table: TableView,
    decoded: Seq<Option<CommandView>>,
    partial: bool,
) -> Run
    decreases decoded.len(),
{
    if decoded.len() == 0 {
        Run {
            state,
            table,
            sent: if partial && !(state is Terminated) {
                seq![Status::Malformed]
            } else {
                Seq::empty()
            },
        }
    } else {
        let first = step_frame(state, table, decoded[0]);
        let rest = run_frames(first.state, first.table, decoded.drop_first(), partial);
        Run {
            state: rest.state,
            table: rest.table,
            sent: match first.status {
                Some(s) => seq![s] + rest.sent,
                None => rest.sent,
            },
        }
    }
}

/// The buffer once a read has arrived: what was pending, then the received
/// text up to its first NUL.
pub open spec fn arrival(pending: Seq<char>, bytes: Seq<u8>) -> Seq<char> {
    pending + before_nul(decode_utf8(bytes))
}

/// What a read leads to. On a terminated connection nothing happens. An
/// empty read or a reset ends the connection without an answer; a failed
/// read ends it with `ReadFailure`; bytes that are not text end it with
/// `NotText`. Anything else yields the complete frames now in the buffer.
pub open spec fn intake_of(
    state: ConnectionState,
    pending: Seq<char>,
    event: ReadEventView,
) -> IntakeView {
    if state is Terminated {
        IntakeView::Closed(None)
    } else {
        match event {
            ReadEventView::Data(bytes) => if bytes.len() == 0 {
                IntakeView::Closed(None)
            } else if !valid_utf8(bytes) {
                IntakeView::Closed(Some(Status::NotText))
            } else {
                IntakeView::Frames(frames(arrival(pending, bytes)))
            },
            ReadEventView::Reset => IntakeView::Closed(None),
            ReadEventView::Failed => IntakeView::Closed(Some(Status::ReadFailure)),
        }
    }
}

/// The commands of a batch as mathematical values.
pub open spec fn decoded_view(decoded: Seq<Option<Command>>) -> Seq<Option<CommandView>> {
    Seq::new(
        decoded.len(),
        |i: int|
            match decoded[i] {
                Some(c) => Some(c@),
                None => None,
            },
    )
}

/// The mathematical content of a [`Connection`].
pub ghost struct ConnectionView {
    pub state: ConnectionState,
    pub pending: Seq<char>,
}

/// One client connection.
pub struct Connection {
    state: ConnectionState,
    inbox: FrameBuffer,
}

impl View for Connection {
    type V = ConnectionView;

    closed spec fn view(&self) -> ConnectionView {
        ConnectionView { state: self.state, pending: self.inbox@ }
    }
}

impl Connection {
    /// A bound connection owns one of the four slots.
    pub open spec fn wf(&self) -> bool {
        self@.state matches ConnectionState::Bound(k) ==> k <= 3
    }

    /// A connection that has claimed no slot and received nothing.
    pub fn new() -> (connection: Connection)
        ensures
            connection@.state == ConnectionState::Unbound,
            connection@.pending == Seq::<char>::empty(),
            connection.wf(),
    {
        Connection { state: ConnectionState::Unbound, inbox: FrameBuffer::new() }
    }

    /// Where the connection stands.
    pub fn state(&self) -> (state: ConnectionState)
        ensures
            state == self@.state,
    {
        self.state
    }

    /// Whether the connection has ended.
    pub fn is_terminated(&self) -> (ended: bool)
        ensures
            ended == (self@.state is Terminated),
    {
        match self.state {
            ConnectionState::Terminated => true,
            _ => false,
        }
    }

    /// Ends the connection and frees the slot it owns, if any.
    fn terminate(&mut self, table: &mut SlotTable)
        requires
            old(self).wf(),
            old(table).wf(),
        ensures
            final(self)@.state == ConnectionState::Terminated,
            final(self)@.pending == old(self)@.pending,
            final(table)@ == released(old(self)@.state, old(table)@),
            final(self).wf(),
            final(table).wf(),
    {
        match self.state {
            ConnectionState::Bound(k) => {
                let _ = table.clear(k);
            },
            _ => {},
        }
        self.state = ConnectionState::Terminated;
    }

    /// Takes in what one read brought. Either the connection ends, and its
    /// slot is freed, or the received text joins the buffer and the
    /// complete frames come out, leaving a cut-off request behind.
    pub fn receive(&mut self, table: &mut SlotTable, event: &ReadEvent) -> (intake: Intake)
        requires
            old(self).wf(),
            old(table).wf(),
        ensures
            final(self).wf(),
            final(table).wf(),
            intake@ == intake_of(old(self)@.state, old(self)@.pending, event@),
            intake is Closed ==> {
                &&& final(self)@.state == ConnectionState::Terminated
                &&& final(self)@.pending == old(self)@.pending
                &&& final(table)@ == released(old(self)@.state, old(table)@)
            },
            intake is Frames ==> {
                &&& event@ is Data
                &&& final(self)@.state == old(self)@.state
                &&& final(self)@.pending == leftover(arrival(old(self)@.pending, event@->Data_0))
                &&& final(table)@ == old(table)@
            },
    {
        if self.is_terminated() {
            return Intake::Closed(None);
        }
        match event {
            ReadEvent::Data(bytes) => {
                if bytes.len() == 0 {
                    self.terminate(table);
                    return Intake::Closed(None);
                }
                if !self.inbox.push_bytes(bytes.as_slice()) {
                    self.terminate(table);
                    return Intake::Closed(Some(Status::NotText));
                }
                Intake::Frames(self.inbox.drain_frames())
            },
            ReadEvent::Reset => {
                self.terminate(table);
                Intake::Closed(None)
            },
            ReadEvent::Failed => {
                self.terminate(table);
                Intake::Closed(Some(Status::ReadFailure))
            },
        }
    }

    /// Answers one decoded command and carries it out.
    pub fn dispatch(&mut self, table: &mut SlotTable, command: &Command) -> (status: Option<Status>)
        requires
            old(self).wf(),
            old(table).wf(),
        ensures
            final(self).wf(),
            final(table).wf(),
            status == step(old(self)@.state, old(table)@, command@).status,
            final(self)@.state == step(old(self)@.state, old(table)@, command@).state,
            final(table)@ == step(old(self)@.state, old(table)@, command@).table,
            final(self)@.pending == old(self)@.pending,
    {
        if self.is_terminated() {
            return None;
        }
        let slot = command.app_num;
        if slot > 3 {
            self.terminate(table);
            return Some(Status::SlotOutOfRange);
        }
        match self.state {
            ConnectionState::Bound(k) => {
                if k != slot {
                    self.terminate(table);
                    return Some(Status::SlotMismatch);
                }
            },
            _ => {},
        }
        match command.opcode {
            Opcode::CreateApplet => {
                if table.is_occupied(slot) {
                    self.terminate(table);
                    return Some(Status::SlotOccupied);
                }
                let kind = if command.parameters.len() == 1 {
                    Separator::from_code(command.parameters[0])
                } else {
                    None
                };
                match kind {
                    Some(kind) => {
                        let _ = table.try_create(slot, kind);
                        self.state = ConnectionState::Bound(slot);
                        Some(Status::Success)
                    },
                    None => {
                        self.terminate(table);
                        Some(Status::BadSeparator)
                    },
                }
            },
            _ => {
                match table.apply_command(slot, command) {
                    Ok(()) => Some(Status::Success),
                    Err(CommandError::StatusBarGridForbidden) => {
                        self.terminate(table);
                        Some(Status::StatusBarGrid)
                    },
                    Err(CommandError::NoSuchApplet) => None,
                    Err(_) => Some(Status::CommandFailed),
                }
            },
        }
    }

    /// Answers the frames of one read in order. `decoded` holds, for each
    /// frame, the command the codec made of it, or `None` where it could
    /// not. The answers come back in the order in which they are to be sent.
    /// If a cut-off request is still waiting in the buffer and the connection
    /// has not ended, one `Malformed` closes the list.
    pub fn run(&mut self, table: &mut SlotTable, decoded: &Vec<Option<Command>>) -> (sent: Vec<
        Status,
    >)
        requires
            old(self).wf(),
            old(table).wf(),
        ensures
            final(self).wf(),
            final(table).wf(),
            ({
                let outcome = run_frames(
                    old(self)@.state,
                    old(table)@,
                    decoded_view(decoded@),
                    old(self)@.pending.len() > 0,
                );
                &&& sent@ == outcome.sent
                &&& final(self)@.state == outcome.state
                &&& final(table)@ == outcome.table
            }),
            final(self)@.pending == old(self)@.pending,
    {
        let ghost frames = decoded_view(decoded@);
        let ghost partial = old(self)@.pending.len() > 0;
        let ghost goal = run_frames(old(self)@.state, old(table)@, frames, partial);
        let mut sent: Vec<Status> = Vec::new();
        let mut i: usize = 0;
        assert(frames.skip(0) =~= frames);
        while i < decoded.len()
            invariant
                i <= decoded.len(),
                self.wf(),
                table.wf(),
                frames == decoded_view(decoded@),
                self@.pending == old(self)@.pending,
                partial == (old(self)@.pending.len() > 0),
                goal.state == run_frames(self@.state, table@, frames.skip(i as int), partial).state,
                goal.table == run_frames(self@.state, table@, frames.skip(i as int), partial).table,
                goal.sent == sent@ + run_frames(
                    self@.state,
                    table@,
                    frames.skip(i as int),
                    partial,
                ).sent,
            decreases decoded.len() - i,
        {
            let ghost rest = frames.skip(i as int);
            assert(rest[0] == frames[i as int]);
            assert(rest.drop_first() =~= frames.skip(i + 1));
            let ghost before = sent@;
            let status = match &decoded[i] {
                Some(command) => self.dispatch(table, command),
                None => if self.is_terminated() {
                    None
                } else {
                    Some(Status::Malformed)
                },
            };
            match status {
                Some(s) => {
                    sent.push(s);
                    assert(sent@ + run_frames(self@.state, table@, frames.skip(i + 1), partial).sent
                        =~= before + (seq![s] + run_frames(
                        self@.state,
                        table@,
                        frames.skip(i + 1),
                        partial,
                    ).sent));
                },
                None => {},
            }
            i += 1;
        }
        assert(frames.skip(i as int).len() == 0);
        if !self.inbox.is_empty() && !self.is_terminated() {
            sent.push(Status::Malformed);
        }
        assert(sent@ =~= goal.sent);
        sent
    }
}

} // verus!
