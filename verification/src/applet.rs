//! One applet region: a 10x9 brightness grid and a 9-pixel separator bar.

use vstd::prelude::*;

verus! {

/// How an applet's separator bar is drawn. Fixed when the applet is created.
#[derive(Clone, Copy, Debug, PartialEq, Eq, Structural)]
pub enum Separator {
    Empty,
    Solid,
    Dotted,
    Variable,
}

impl Separator {
    /// The kind a creation parameter stands for: 0 to 3, in declaration order.
    pub open spec fn of_code(code: u8) -> Option<Separator> {
        if code == 0 {
            Some(Separator::Empty)
        } else if code == 1 {
            Some(Separator::Solid)
        } else if code == 2 {
            Some(Separator::Dotted)
        } else if code == 3 {
            Some(Separator::Variable)
        } else {
            None
        }
    }

    /// The kind a creation parameter stands for, if it is one of 0 to 3.
    pub fn from_code(code: u8) -> (kind: Option<Separator>)
        ensures
            kind == Separator::of_code(code),
    {
        match code {
            0 => Some(Separator::Empty),
            1 => Some(Separator::Solid),
            2 => Some(Separator::Dotted),
            3 => Some(Separator::Variable),
            _ => None,
        }
    }
}

/// What a command asks for.
#[derive(Clone, Copy, Debug, PartialEq, Eq, Structural)]
pub enum Opcode {
    CreateApplet,
    UpdateGrid,
    UpdateBar,
}

/// Why a command was refused, by an applet or by the slot table.
#[derive(Clone, Copy, Debug, PartialEq, Eq, Structural)]
pub enum CommandError {
    /// The parameter count does not fit the opcode.
    InvalidLength,
    /// A bar update was sent to an applet whose separator is fixed.
    SeparatorNotVariable,
    /// A creation was aimed at an applet or slot that already exists.
    AlreadyExists,
    /// An update was aimed at an empty slot.
    NoSuchApplet,
    /// A grid update was aimed at the status bar, which has no grid.
    StatusBarGridForbidden,
    /// The slot index is not one of 0, 1, 2, 3.
    SlotOutOfRange,
}

/// A request as it arrives from a client.
pub struct Command {
    pub opcode: Opcode,
    pub app_num: u8,
    pub parameters: Vec<u8>,
}

/// The mathematical content of a [`Command`].
pub ghost struct CommandView {
    pub opcode: Opcode,
    pub app_num: u8,
    pub parameters: Seq<u8>,
}

impl View for Command {
    type V = CommandView;

    open spec fn view(&self) -> CommandView {
        CommandView { opcode: self.opcode, app_num: self.app_num, parameters: self.parameters@ }
    }
}

/// The mathematical content of an [`Applet`]: ten rows of nine bytes, the
/// separator kind, and the nine bytes of the bar.
pub ghost struct AppletView {
    pub grid: Seq<Seq<u8>>,
    pub kind: Separator,
    pub bar: Seq<u8>,
}

/// The bar an applet of the given kind starts with.
pub open spec fn initial_bar(kind: Separator) -> Seq<u8> {
    match kind {
        Separator::Empty => Seq::new(9, |i: int| 0u8),
        Separator::Solid => Seq::new(9, |i: int| 255u8),
        Separator::Dotted => Seq::new(9, |i: int| if i % 2 == 0 { 255u8 } else { 0u8 }),
        Separator::Variable => Seq::new(9, |i: int| 0u8),
    }
}

/// A matrix of `rows` rows of nine zero bytes.
pub open spec fn dark(rows: nat) -> Seq<Seq<u8>> {
    Seq::new(rows, |i: int| Seq::new(9, |j: int| 0u8))
}

/// Ninety bytes cut row-major into ten rows of nine.
pub open spec fn reshape(bytes: Seq<u8>) -> Seq<Seq<u8>> {
    Seq::new(10, |i: int| Seq::new(9, |j: int| bytes[i * 9 + j]))
}

/// The rows of a fixed-size byte matrix as sequences.
pub open spec fn rows<const R: usize>(m: [[u8; 9]; R]) -> Seq<Seq<u8>> {
    Seq::new(R as nat, |i: int| m[i]@)
}

impl AppletView {
    /// A freshly created applet of the given kind.
    pub open spec fn fresh(kind: Separator) -> AppletView {
        AppletView { grid: dark(10), kind, bar: initial_bar(kind) }
    }

    /// Shape and separator invariant: the grid is 10x9, the bar has nine
    /// bytes, and a bar that is not variable still shows its initial pattern.
    pub open spec fn wf(self) -> bool {
        &&& self.grid.len() == 10
        &&& forall|i: int| 0 <= i < 10 ==> (#[trigger] self.grid[i]).len() == 9
        &&& self.bar.len() == 9
        &&& self.kind != Separator::Variable ==> self.bar == initial_bar(self.kind)
    }

    /// The outcome of a command on this applet: the new content, or the
    /// reason for refusal.
    pub open spec fn apply(self, cmd: CommandView) -> Result<AppletView, CommandError> {
        match cmd.opcode {
            Opcode::UpdateGrid => if cmd.parameters.len() == 90 {
                Ok(AppletView { grid: reshape(cmd.parameters), ..self })
            } else {
                Err(CommandError::InvalidLength)
            },
            Opcode::UpdateBar => if self.kind != Separator::Variable {
                Err(CommandError::SeparatorNotVariable)
            } else if cmd.parameters.len() == 9 {
                Ok(AppletView { bar: cmd.parameters, ..self })
            } else {
                Err(CommandError::InvalidLength)
            },
            Opcode::CreateApplet => Err(CommandError::AlreadyExists),
        }
    }

    /// The 11x9 block this applet contributes to the panel: the bar, then
    /// the grid.
    pub open spec fn block(self) -> Seq<Seq<u8>> {
        seq![self.bar] + self.grid
    }
}

/// Pixel state of one applet.
pub struct Applet {
    grid: [[u8; 9]; 10],
    separator_type: Separator,
    separator: [u8; 9],
}

impl View for Applet {
    type V = AppletView;

    closed spec fn view(&self) -> AppletView {
        AppletView { grid: rows(self.grid), kind: self.separator_type, bar: self.separator@ }
    }
}

impl Applet {
    /// The invariant every applet built by this library satisfies.
    pub open spec fn wf(&self) -> bool {
        self@.wf()
    }

    /// Creates an applet with a dark grid and the bar its kind starts with.
    pub fn new(separator_type: Separator) -> (applet: Applet)
        ensures
            applet@ == AppletView::fresh(separator_type),
            applet.wf(),
    {
        let applet = Applet {
            separator: match separator_type {
                Separator::Empty => [0; 9],
                Separator::Solid => [255; 9],
                Separator::Dotted => [255, 0, 255, 0, 255, 0, 255, 0, 255],
                Separator::Variable => [0; 9],
            },
            separator_type: separator_type,
            grid: [[0; 9]; 10],
        };
        assert(applet@.grid =~~= dark(10));
        assert(applet@.bar =~= initial_bar(separator_type));
        applet
    }

    /// Applies a grid or bar update. On refusal the applet is unchanged.
    pub fn command_applet(&mut self, command: &Command) -> (result: Result<(), CommandError>)
        requires
            old(self).wf(),
        ensures
            final(self).wf(),
            match old(self)@.apply(command@) {
                Ok(after) => result is Ok && final(self)@ == after,
                Err(e) => result == Err::<(), CommandError>(e) && final(self)@ == old(self)@,
            },
    {
        match command.opcode {
            Opcode::UpdateGrid => {
                if command.parameters.len() != 90 {
                    return Err(CommandError::InvalidLength);
                }
                for i in 0..10usize
                    invariant
                        command.parameters@.len() == 90,
                        self.separator_type == old(self).separator_type,
                        self.separator == old(self).separator,
                        forall|r: int, c: int|
                            0 <= r < i && 0 <= c < 9 ==> self.grid[r][c]
                                == command.parameters@[r * 9 + c],
                {
                    for j in 0..9usize
                        invariant
                            i < 10,
                            command.parameters@.len() == 90,
                            self.separator_type == old(self).separator_type,
                            self.separator == old(self).separator,
                            forall|r: int, c: int|
                                0 <= r < i && 0 <= c < 9 ==> self.grid[r][c]
                                    == command.parameters@[r * 9 + c],
                            forall|c: int|
                                0 <= c < j ==> self.grid[i as int][c] == command.parameters@[i * 9
                                    + c],
                    {
                        self.grid[i][j] = command.parameters[i * 9 + j];
                    }
                }
                assert(self@.grid =~~= reshape(command.parameters@));
                Ok(())
            },
            Opcode::UpdateBar => {
                match self.separator_type {
                    Separator::Variable => {
                        if command.parameters.len() != 9 {
                            return Err(CommandError::InvalidLength);
                        }
                        for i in 0..9usize
                            invariant
                                command.parameters@.len() == 9,
                                self.separator_type == old(self).separator_type,
                                self.grid == old(self).grid,
                                forall|c: int|
                                    0 <= c < i ==> self.separator[c] == command.parameters@[c],
                        {
                            self.separator[i] = command.parameters[i];
                        }
                        assert(self@.bar =~= command.parameters@);
                        Ok(())
                    },
                    _ => Err(CommandError::SeparatorNotVariable),
                }
            },
            Opcode::CreateApplet => Err(CommandError::AlreadyExists),
        }
    }

    /// The 11x9 block of this applet: row 0 is the bar, rows 1 to 10 the grid.
    pub fn get_board(&self) -> (board: [[u8; 9]; 11])
        ensures
            rows(board) == self@.block(),
    {
        let mut output: [[u8; 9]; 11] = [[0; 9]; 11];
        output[0] = self.separator;
        for i in 1..11usize
            invariant
                output[0] == self.separator,
                forall|r: int| 1 <= r < i ==> output[r] == self.grid[r - 1],
        {
            output[i] = self.grid[i - 1];
        }
        assert(rows(output) =~~= self@.block());
        output
    }
}

} // verus!
