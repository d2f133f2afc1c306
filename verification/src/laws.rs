//! Properties of the protocol, stated over its mathematical model and proved.

use vstd::prelude::*;
use crate::applet::{
    dark, initial_bar, reshape, rows, AppletView, CommandView, Opcode, Separator,
};
use crate::connection::{released, run_frames, step, step_frame, ConnectionState, Step};
use crate::framing::{
    after_frame, first_at, frames, has_frame, head_frame, leftover, lemma_first_at,
    lemma_first_at_unique, FRAME_END,
};
use crate::panel::{assemble, blocks_of, panel_of, uniform_of};
use crate::slots::{empty_table, slot_block, table_wf, TableView};
use crate::status::Status;

verus! {

/// Whether a connection in `state` may address `slot`: it is still open and
/// has either claimed nothing yet or claimed this very slot.
pub open spec fn may_address(state: ConnectionState, slot: u8) -> bool {
    state is Unbound || state == ConnectionState::Bound(slot)
}

/// A creation with one parameter from 0 to 3, aimed at an empty slot, is
/// answered with 0. It binds the connection to the slot and leaves there an
/// applet with a dark grid whose bar is all 0 for kinds 0 and 3, all 255 for
/// kind 1, and 255, 0, 255, ... for kind 2.
pub proof fn law_create_installs_initial_bar(
    state: ConnectionState,
    table: TableView,
    cmd: CommandView,
)
    requires
        table_wf(table),
        may_address(state, cmd.app_num),
        cmd.opcode == Opcode::CreateApplet,
        cmd.app_num <= 3,
        table[cmd.app_num as int] is None,
        cmd.parameters.len() == 1,
        cmd.parameters[0] <= 3,
    ensures
        step(state, table, cmd).status == Some(Status::Success),
        Status::Success.wire() == 0,
        step(state, table, cmd).state == ConnectionState::Bound(cmd.app_num),
        step(state, table, cmd).table[cmd.app_num as int] matches Some(a) && {
            &&& a.wf()
            &&& a.grid == dark(10)
            &&& a.bar.len() == 9
            &&& forall|i: int|
                0 <= i < 9 ==> #[trigger] a.bar[i] == if cmd.parameters[0] == 1 {
                    255u8
                } else if cmd.parameters[0] == 2 && i % 2 == 0 {
                    255u8
                } else {
                    0u8
                }
        },
        forall|j: int|
            0 <= j < 4 && j != cmd.app_num ==> step(state, table, cmd).table[j] == table[j],
{
}

/// A creation aimed at an occupied slot is answered with 34 and ends the
/// connection, whatever its parameters.
pub proof fn law_create_on_occupied_slot(
    state: ConnectionState,
    table: TableView,
    cmd: CommandView,
)
    requires
        table_wf(table),
        may_address(state, cmd.app_num),
        cmd.opcode == Opcode::CreateApplet,
        cmd.app_num <= 3,
        table[cmd.app_num as int] is Some,
    ensures
        step(state, table, cmd).status == Some(Status::SlotOccupied),
        Status::SlotOccupied.wire() == 34,
        step(state, table, cmd).state == ConnectionState::Terminated,
        step(state, table, cmd).table == released(state, table),
{
}

/// A grid update with exactly 90 parameters, aimed at an occupied slot
/// other than slot 0, is answered with 0. Rows 1 to 10 of the applet's
/// block are then the parameters cut row-major into ten rows of nine; its
/// bar and kind are as before.
pub proof fn law_grid_update_fills_block(
    state: ConnectionState,
    table: TableView,
    cmd: CommandView,
)
    requires
        table_wf(table),
        may_address(state, cmd.app_num),
        cmd.opcode == Opcode::UpdateGrid,
        1 <= cmd.app_num <= 3,
        table[cmd.app_num as int] is Some,
        cmd.parameters.len() == 90,
    ensures
        step(state, table, cmd).status == Some(Status::Success),
        step(state, table, cmd).state == state,
        step(state, table, cmd).table[cmd.app_num as int] matches Some(a) && {
            &&& a.wf()
            &&& a.block().len() == 11
            &&& a.block().subrange(1, 11) == reshape(cmd.parameters)
            &&& forall|r: int, c: int|
                1 <= r <= 10 && 0 <= c < 9 ==> #[trigger] a.block()[r][c] == cmd.parameters[(r - 1)
                    * 9 + c]
            &&& a.bar == table[cmd.app_num as int]->0.bar
            &&& a.kind == table[cmd.app_num as int]->0.kind
        },
        forall|j: int|
            0 <= j < 4 && j != cmd.app_num ==> step(state, table, cmd).table[j] == table[j],
{
    let a = step(state, table, cmd).table[cmd.app_num as int]->0;
    assert(a.block().subrange(1, 11) =~= reshape(cmd.parameters));
}

/// A grid update aimed at slot 0 is answered with 32 and ends the
/// connection, whether or not slot 0 is occupied and whatever the
/// parameters.
pub proof fn law_grid_update_on_status_bar(
    state: ConnectionState,
    table: TableView,
    cmd: CommandView,
)
    requires
        table_wf(table),
        may_address(state, 0),
        cmd.opcode == Opcode::UpdateGrid,
        cmd.app_num == 0,
    ensures
        step(state, table, cmd).status == Some(Status::StatusBarGrid),
        Status::StatusBarGrid.wire() == 32,
        step(state, table, cmd).state == ConnectionState::Terminated,
        step(state, table, cmd).table == released(state, table),
{
}

/// A bar update with exactly nine parameters, aimed at an applet with a
/// variable separator, is answered with 0 and makes the parameters the
/// bar. Aimed at any other applet, a bar update is answered with 33 and
/// changes nothing, whatever its parameters.
pub proof fn law_bar_update(state: ConnectionState, table: TableView, cmd: CommandView)
    requires
        table_wf(table),
        may_address(state, cmd.app_num),
        cmd.opcode == Opcode::UpdateBar,
        cmd.app_num <= 3,
        table[cmd.app_num as int] is Some,
    ensures
        table[cmd.app_num as int]->0.kind == Separator::Variable && cmd.parameters.len() == 9 ==> {
            &&& step(state, table, cmd).status == Some(Status::Success)
            &&& step(state, table, cmd).state == state
            &&& step(state, table, cmd).table == table.update(
                cmd.app_num as int,
                Some(AppletView { bar: cmd.parameters, ..table[cmd.app_num as int]->0 }),
            )
        },
        table[cmd.app_num as int]->0.kind != Separator::Variable ==> {
            &&& step(state, table, cmd).status == Some(Status::CommandFailed)
            &&& step(state, table, cmd).state == state
            &&& step(state, table, cmd).table == table
        },
        Status::CommandFailed.wire() == 33,
{
}

/// An update with the wrong number of parameters, aimed at an occupied
/// slot, is answered with 33 and changes nothing. The count is wrong when a
/// grid update has not 90 parameters or a bar update has not nine. (A grid
/// update of slot 0 is refused before its parameters are looked at.)
pub proof fn law_wrong_parameter_count(state: ConnectionState, table: TableView, cmd: CommandView)
    requires
        table_wf(table),
        may_address(state, cmd.app_num),
        cmd.app_num <= 3,
        table[cmd.app_num as int] is Some,
        (cmd.opcode == Opcode::UpdateGrid && cmd.app_num != 0 && cmd.parameters.len() != 90) || (
        cmd.opcode == Opcode::UpdateBar && cmd.parameters.len() != 9),
    ensures
        step(state, table, cmd).status == Some(Status::CommandFailed),
        Status::CommandFailed.wire() == 33,
        !Status::CommandFailed.fatal(),
        step(state, table, cmd).state == state,
        step(state, table, cmd).table == table,
{
}

/// A connection bound to slot `k` that names another of the four slots is
/// answered with 31 and ends, whatever the command; its own slot is freed.
pub proof fn law_slot_mismatch(k: u8, table: TableView, cmd: CommandView)
    requires
        table_wf(table),
        k <= 3,
        cmd.app_num <= 3,
        cmd.app_num != k,
    ensures
        step(ConnectionState::Bound(k), table, cmd).status == Some(Status::SlotMismatch),
        Status::SlotMismatch.wire() == 31,
        step(ConnectionState::Bound(k), table, cmd).state == ConnectionState::Terminated,
        step(ConnectionState::Bound(k), table, cmd).table == table.update(k as int, None),
{
}

/// A command whose slot index is above 3 is answered with 30 and ends the
/// connection, whatever its opcode and parameters.
pub proof fn law_slot_out_of_range(state: ConnectionState, table: TableView, cmd: CommandView)
    requires
        !(state is Terminated),
        cmd.app_num > 3,
    ensures
        step(state, table, cmd).status == Some(Status::SlotOutOfRange),
        Status::SlotOutOfRange.wire() == 30,
        step(state, table, cmd).state == ConnectionState::Terminated,
        step(state, table, cmd).table == released(state, table),
{
}

/// With all four slots empty the panel is dark: 34 rows of nine zeros.
pub proof fn law_empty_table_is_dark()
    ensures
        panel_of(empty_table()) == uniform_of(0),
{
    assert(panel_of(empty_table()) =~~= uniform_of(0));
}

/// Composing a snapshot of a table gives the image of that table.
pub proof fn law_snapshot_composes(table: TableView, snapshot: [[[u8; 9]; 11]; 4])
    requires
        forall|i: int| 0 <= i < 4 ==> rows(#[trigger] snapshot[i]) == slot_block(table[i]),
    ensures
        assemble(blocks_of(snapshot)) == panel_of(table),
{
    assert(blocks_of(snapshot) =~= Seq::new(4, |i: int| slot_block(table[i])));
}

/// A separator keeps its kind, and a bar that is not variable keeps its
/// pattern: whatever command an applet accepts, its kind is as before, and
/// unless the kind is variable, so is its bar.
pub proof fn law_separator_is_fixed(applet: AppletView, cmd: CommandView)
    requires
        applet.wf(),
    ensures
        applet.apply(cmd) matches Ok(after) ==> {
            &&& after.wf()
            &&& after.kind == applet.kind
            &&& applet.kind != Separator::Variable ==> after.bar == initial_bar(applet.kind)
        },
{
}

/// Writing and composing changes no byte. A connection creates an applet
/// in an empty slot 1, 2 or 3, writes a full grid and, if the separator is
/// variable, a full bar. Every request is answered with 0, and the panel
/// then shows in the slot's eleven rows the bar (the written one, or the
/// initial one of a fixed separator) and below it the ninety grid bytes,
/// nine to a row.
pub proof fn law_round_trip(table: TableView, slot: u8, kind_code: u8, grid: Seq<u8>, bar: Seq<u8>)
    requires
        table_wf(table),
        1 <= slot <= 3,
        table[slot as int] is None,
        kind_code <= 3,
        grid.len() == 90,
        bar.len() == 9,
    ensures
        ({
            let created = step(
                ConnectionState::Unbound,
                table,
                CommandView {
                    opcode: Opcode::CreateApplet,
                    app_num: slot,
                    parameters: seq![kind_code],
                },
            );
            let drawn = step(
                created.state,
                created.table,
                CommandView { opcode: Opcode::UpdateGrid, app_num: slot, parameters: grid },
            );
            let marked = step(
                drawn.state,
                drawn.table,
                CommandView { opcode: Opcode::UpdateBar, app_num: slot, parameters: bar },
            );
            let shown = if kind_code == 3 {
                panel_of(marked.table)
            } else {
                panel_of(drawn.table)
            };
            let top = 11 * (slot - 1) + 1;
            &&& created.status == Some(Status::Success)
            &&& drawn.status == Some(Status::Success)
            &&& kind_code == 3 ==> marked.status == Some(Status::Success)
            &&& shown.len() == 34
            &&& shown[top] == if kind_code == 3 {
                bar
            } else {
                initial_bar(Separator::of_code(kind_code)->0)
            }
            &&& forall|r: int, c: int|
                top < r <= top + 10 && 0 <= c < 9 ==> #[trigger] shown[r][c] == grid[(r - top - 1)
                    * 9 + c]
            &&& forall|r: int| top < r <= top + 10 ==> (#[trigger] shown[r]).len() == 9
        }),
{
    let create = CommandView {
        opcode: Opcode::CreateApplet,
        app_num: slot,
        parameters: seq![kind_code],
    };
    let created = step(ConnectionState::Unbound, table, create);
    law_create_installs_initial_bar(ConnectionState::Unbound, table, create);
    let draw = CommandView { opcode: Opcode::UpdateGrid, app_num: slot, parameters: grid };
    let drawn = step(created.state, created.table, draw);
    law_grid_update_fills_block(created.state, created.table, draw);
    let mark = CommandView { opcode: Opcode::UpdateBar, app_num: slot, parameters: bar };
    let marked = step(drawn.state, drawn.table, mark);
    law_bar_update(drawn.state, drawn.table, mark);
    let shown = if kind_code == 3 {
        panel_of(marked.table)
    } else {
        panel_of(drawn.table)
    };
    let last = if kind_code == 3 {
        marked.table
    } else {
        drawn.table
    };
    let a = last[slot as int]->0;
    let top = 11 * (slot - 1) + 1;
    assert(slot_block(last[slot as int]) == a.block());
    assert(a.block().len() == 11);
    assert forall|r: int| 0 <= r < 11 implies #[trigger] shown[top + r] == a.block()[r] by {
        assert(slot_block(last[1]).len() == 11);
        assert(slot_block(last[2]).len() == 11);
        assert(slot_block(last[3]).len() == 11);
    }
    assert(shown[top + 0] == a.block()[0]);
    assert forall|r: int, c: int| top < r <= top + 10 && 0 <= c < 9 implies #[trigger] shown[r][c]
        == grid[(r - top - 1) * 9 + c] by {
        assert(shown[top + (r - top)] == a.block()[r - top]);
        assert(a.block()[r - top] == a.grid[r - top - 1]);
    }
    assert forall|r: int| top < r <= top + 10 implies (#[trigger] shown[r]).len() == 9 by {
        assert(shown[top + (r - top)] == a.block()[r - top]);
        assert(a.block()[r - top] == a.grid[r - top - 1]);
    }
}

/// Whether `text` is exactly one frame: it ends with a closing brace and
/// holds no other.
pub open spec fn is_frame(text: Seq<char>) -> bool {
    text.len() > 0 && first_at(text, FRAME_END) == text.len() - 1
}

/// A frame followed by more text is cut off in front of that text.
pub proof fn law_first_frame(frame: Seq<char>, rest: Seq<char>)
    requires
        is_frame(frame),
    ensures
        has_frame(frame + rest),
        head_frame(frame + rest) == frame,
        after_frame(frame + rest) == rest,
        frames(frame + rest) == seq![frame] + frames(rest),
        leftover(frame + rest) == leftover(rest),
{
    let text = frame + rest;
    lemma_first_at(frame, FRAME_END);
    assert forall|j: int| 0 <= j < frame.len() - 1 implies text[j] != FRAME_END by {
        assert(text[j] == frame[j]);
    }
    assert(text[frame.len() - 1] == frame[frame.len() - 1]);
    lemma_first_at_unique(text, FRAME_END, frame.len() - 1);
    assert(head_frame(text) =~= frame);
    assert(after_frame(text) =~= rest);
}

/// Two requests that arrive in one read are told apart: the frames of
/// their concatenation are the first and then the second, and nothing is
/// left over.
pub proof fn law_two_requests_two_frames(first: Seq<char>, second: Seq<char>)
    requires
        is_frame(first),
        is_frame(second),
    ensures
        frames(first + second) == seq![first, second],
        leftover(first + second) == Seq::<char>::empty(),
{
    let none = Seq::<char>::empty();
    law_first_frame(first, second);
    law_first_frame(second, none);
    assert(second + none =~= second);
    assert(frames(none) =~= Seq::<Seq<char>>::empty());
    assert(seq![first] + (seq![second] + frames(none)) =~= seq![first, second]);
}

/// Two decoded commands of one read are both carried out, the second on
/// what the first left behind, and their answers are sent in arrival order.
pub proof fn law_two_commands_in_order(
    state: ConnectionState,
    table: TableView,
    first: CommandView,
    second: CommandView,
)
    ensures
        ({
            let one = step(state, table, first);
            let two = step(one.state, one.table, second);
            let all = run_frames(state, table, seq![Some(first), Some(second)], false);
            &&& all.state == two.state
            &&& all.table == two.table
            &&& all.sent == match (one.status, two.status) {
                (Some(a), Some(b)) => seq![a, b],
                (Some(a), None) => seq![a],
                (None, Some(b)) => seq![b],
                (None, None) => Seq::<Status>::empty(),
            }
        }),
{
    let batch = seq![Some(first), Some(second)];
    let one = step_frame(state, table, batch[0]);
    let tail = batch.drop_first();
    assert(tail =~= seq![Some(second)]);
    let two = step_frame(one.state, one.table, tail[0]);
    assert(tail.drop_first() =~= Seq::<Option<CommandView>>::empty());
    let end = run_frames(two.state, two.table, tail.drop_first(), false);
    assert(end.sent =~= Seq::<Status>::empty());
    let after_one = run_frames(one.state, one.table, tail, false);
    assert(after_one.sent =~= match two.status {
        Some(b) => seq![b],
        None => Seq::<Status>::empty(),
    });
    let all = run_frames(state, table, batch, false);
    assert(all.sent =~= match (one.status, two.status) {
        (Some(a), Some(b)) => seq![a, b],
        (Some(a), None) => seq![a],
        (None, Some(b)) => seq![b],
        (None, None) => Seq::<Status>::empty(),
    });
}

/// Cutting loses and invents nothing: the frames of a text, put end to
/// end, followed by the leftover, are the text. The leftover holds no
/// closing brace, and every frame is exactly one frame.
pub proof fn law_frames_partition(text: Seq<char>)
    ensures
        frames(text).flatten() + leftover(text) == text,
        !has_frame(leftover(text)),
        forall|i: int| 0 <= i < frames(text).len() ==> is_frame(#[trigger] frames(text)[i]),
    decreases text.len(),
{
    lemma_first_at(text, FRAME_END);
    if has_frame(text) {
        let head = head_frame(text);
        let rest = after_frame(text);
        law_frames_partition(rest);
        assert(head + rest =~= text);
        assert forall|j: int| 0 <= j < head.len() - 1 implies head[j] != FRAME_END by {
            assert(head[j] == text[j]);
        }
        lemma_first_at_unique(head, FRAME_END, head.len() - 1);
        assert(is_frame(head));
        assert forall|i: int| 0 <= i < frames(text).len() implies is_frame(
            #[trigger] frames(text)[i],
        ) by {
            if i > 0 {
                assert(frames(text)[i] == frames(rest)[i - 1]);
            }
        }
        let pieces = seq![head] + frames(rest);
        assert(pieces.first() == head);
        assert(pieces.drop_first() =~= frames(rest));
        assert(pieces.flatten() =~= head + frames(rest).flatten());
        assert(frames(text).flatten() + leftover(text) =~= head + (frames(rest).flatten()
            + leftover(rest)));
    } else {
        assert(frames(text).flatten() =~= Seq::<char>::empty());
        assert(frames(text).flatten() + leftover(text) =~= text);
    }
}

/// Only its owner frees a slot: after any request, an applet in a slot the
/// connection does not own is still there.
pub proof fn law_only_owner_frees(
    state: ConnectionState,
    table: TableView,
    decoded: Option<CommandView>,
    slot: int,
)
    requires
        table_wf(table),
        state matches ConnectionState::Bound(k) ==> k <= 3,
        0 <= slot < 4,
        table[slot] is Some,
        state != ConnectionState::Bound(slot as u8),
    ensures
        step_frame(state, table, decoded).table.len() == 4,
        step_frame(state, table, decoded).table[slot] is Some,
{
}

/// A connection keeps its slot: once bound, it stays bound to the same
/// slot until it ends, and once ended, it stays so and touches nothing.
pub proof fn law_binding_is_final(
    state: ConnectionState,
    table: TableView,
    decoded: Option<CommandView>,
)
    ensures
        state matches ConnectionState::Bound(k) ==> {
            let next = step_frame(state, table, decoded).state;
            next == state || next is Terminated
        },
        state is Terminated ==> step_frame(state, table, decoded) == (Step {
            state,
            table,
            status: None,
        }),
        step_frame(state, table, decoded).status != Some(Status::Internal),
{
}

} // verus!
