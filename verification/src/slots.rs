//! The table of four applet slots that connections write and the compositor reads.

use vstd::prelude::*;
use crate::applet::{dark, rows, Applet, AppletView, Command, CommandError, CommandView, Opcode, Separator};

verus! {

/// The mathematical content of a [`SlotTable`]: four entries, each empty or
/// holding one applet. Entry 0 is the status bar; entries 1 to 3 are full
/// applets.
pub type TableView = Seq<Option<AppletView>>;

/// Every occupied entry of a four-entry table is a well-formed applet.
pub open spec fn table_wf(table: TableView) -> bool {
    &&& table.len() == 4
    &&& forall|i: int| 0 <= i < 4 ==> ((#[trigger] table[i]) matches Some(a) ==> a.wf())
}

/// The table with no applet in it.
pub open spec fn empty_table() -> TableView {
    Seq::new(4, |i: int| None::<AppletView>)
}

/// The 11x9 block an entry contributes to the panel; an empty entry is dark.
pub open spec fn slot_block(entry: Option<AppletView>) -> Seq<Seq<u8>> {
    match entry {
        Some(a) => a.block(),
        None => dark(11),
    }
}

/// Outcome of a creation: the table with a fresh applet in `slot`, or the
/// reason for refusal.
pub open spec fn create_at(table: TableView, slot: u8, kind: Separator) -> Result<
    TableView,
    CommandError,
> {
    if slot > 3 {
        Err(CommandError::SlotOutOfRange)
    } else if table[slot as int] is Some {
        Err(CommandError::AlreadyExists)
    } else {
        Ok(table.update(slot as int, Some(AppletView::fresh(kind))))
    }
}

/// Outcome of a command on the applet in `slot`. A grid update on slot 0 is
/// refused whatever the slot holds; otherwise an empty slot refuses, and an
/// occupied one answers as its applet does.
pub open spec fn apply_at(table: TableView, slot: u8, cmd: CommandView) -> Result<
    TableView,
    CommandError,
> {
    if slot > 3 {
        Err(CommandError::SlotOutOfRange)
    } else if slot == 0 && cmd.opcode == Opcode::UpdateGrid {
        Err(CommandError::StatusBarGridForbidden)
    } else {
        match table[slot as int] {
            None => Err(CommandError::NoSuchApplet),
            Some(a) => match a.apply(cmd) {
                Ok(b) => Ok(table.update(slot as int, Some(b))),
                Err(e) => Err(e),
            },
        }
    }
}

/// Outcome of clearing `slot`.
pub open spec fn clear_at(table: TableView, slot: u8) -> Result<TableView, CommandError> {
    if slot > 3 {
        Err(CommandError::SlotOutOfRange)
    } else {
        Ok(table.update(slot as int, None))
    }
}

/// The four applet slots.
pub struct SlotTable {
    slots: [Option<Applet>; 4],
}

impl View for SlotTable {
    type V = TableView;

    closed spec fn view(&self) -> TableView {
        Seq::new(
            4,
            |i: int|
                match self.slots[i] {
                    Some(a) => Some(a@),
                    None => None,
                },
        )
    }
}

impl SlotTable {
    /// The invariant every table built by this library satisfies.
    pub open spec fn wf(&self) -> bool {
        table_wf(self@)
    }

    /// A table with all four slots empty.
    pub fn new() -> (table: SlotTable)
        ensures
            table@ == empty_table(),
            table.wf(),
    {
        let table = SlotTable { slots: [None, None, None, None] };
        assert(table@ =~= empty_table());
        table
    }

    /// Whether `slot` is one of the four slots and holds an applet.
    pub fn is_occupied(&self, slot: u8) -> (occupied: bool)
        ensures
            occupied == (slot <= 3 && self@[slot as int] is Some),
    {
        slot <= 3 && self.slots[slot as usize].is_some()
    }

    /// Installs a fresh applet in an empty slot.
    pub fn try_create(&mut self, slot: u8, kind: Separator) -> (result: Result<(), CommandError>)
        requires
            old(self).wf(),
        ensures
            final(self).wf(),
            match create_at(old(self)@, slot, kind) {
                Ok(after) => result is Ok && final(self)@ == after,
                Err(e) => result == Err::<(), CommandError>(e) && final(self)@ == old(self)@,
            },
    {
        if slot > 3 {
            return Err(CommandError::SlotOutOfRange);
        }
        if self.slots[slot as usize].is_some() {
            return Err(CommandError::AlreadyExists);
        }
        self.slots[slot as usize] = Some(Applet::new(kind));
        assert(self@ =~= old(self)@.update(slot as int, Some(AppletView::fresh(kind))));
        Ok(())
    }

    /// Hands a command to the applet in `slot`. On refusal the table is unchanged.
    pub fn apply_command(&mut self, slot: u8, command: &Command) -> (result: Result<
        (),
        CommandError,
    >)
        requires
            old(self).wf(),
        ensures
            final(self).wf(),
            match apply_at(old(self)@, slot, command@) {
                Ok(after) => result is Ok && final(self)@ == after,
                Err(e) => result == Err::<(), CommandError>(e) && final(self)@ == old(self)@,
            },
    {
        if slot > 3 {
            return Err(CommandError::SlotOutOfRange);
        }
        if slot == 0 {
            if let Opcode::UpdateGrid = command.opcode {
                return Err(CommandError::StatusBarGridForbidden);
            }
        }
        let result = match &mut self.slots[slot as usize] {
            None => Err(CommandError::NoSuchApplet),
            Some(applet) => applet.command_applet(command),
        };
        assert(self@ =~= match apply_at(old(self)@, slot, command@) {
            Ok(after) => after,
            Err(_) => old(self)@,
        });
        result
    }

    /// Empties `slot`. Clearing an empty slot changes nothing.
    pub fn clear(&mut self, slot: u8) -> (result: Result<(), CommandError>)
        requires
            old(self).wf(),
        ensures
            final(self).wf(),
            match clear_at(old(self)@, slot) {
                Ok(after) => result is Ok && final(self)@ == after,
                Err(e) => result == Err::<(), CommandError>(e) && final(self)@ == old(self)@,
            },
    {
        if slot > 3 {
            return Err(CommandError::SlotOutOfRange);
        }
        self.slots[slot as usize] = None;
        assert(self@ =~= old(self)@.update(slot as int, None));
        Ok(())
    }

    /// A copy of what each slot shows: its applet's block, or a dark block
    /// for an empty slot.
    pub fn snapshot(&self) -> (blocks: [[[u8; 9]; 11]; 4])
        ensures
            forall|i: int| 0 <= i < 4 ==> rows(#[trigger] blocks[i]) == slot_block(self@[i]),
    {
        let mut blocks: [[[u8; 9]; 11]; 4] = [[[0; 9]; 11]; 4];
        assert forall|k: int| 0 <= k < 4 implies rows(#[trigger] blocks[k]) == dark(11) by {
            assert(rows(blocks[k]) =~~= dark(11));
        }
        for i in 0..4usize
            invariant
                forall|k: int| 0 <= k < i ==> rows(#[trigger] blocks[k]) == slot_block(self@[k]),
                forall|k: int| i <= k < 4 ==> rows(#[trigger] blocks[k]) == dark(11),
        {
            match &self.slots[i] {
                Some(applet) => {
                    blocks[i] = applet.get_board();
                },
                None => {},
            }
        }
        blocks
    }
}

} // verus!
