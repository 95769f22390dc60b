//! What holds of the model: properties of runs, and the laws of the
//! instructions and the two loops.

use vstd::prelude::*;
use crate::model::{
    closing_bracket, cursor_down, decremented, incremented, Fault, MachineState, Status,
    TAPE_SIZE,
};
use crate::symbol::{
    is_text_byte, BYTE_DECREMENT, BYTE_FOR_CLOSE, BYTE_FOR_OPEN, BYTE_INCREMENT,
    BYTE_LOOP_CLOSE, BYTE_LOOP_OPEN,
};

verus! {

/// A run can be made in two parts: `first` steps, then `then_more` steps from
/// where the first part ended.
pub proof fn lemma_run_in_parts(state: MachineState, first: nat, then_more: nat)
    ensures
        state.run(first + then_more) == state.run(first).run(then_more),
    decreases first,
{
    if first == 0 || state.status != Status::Running {
        if state.status != Status::Running {
            lemma_run_of_stopped(state, then_more);
            lemma_run_of_stopped(state, first + then_more);
        }
    } else {
        lemma_run_in_parts(state.step(), (first - 1) as nat, then_more);
    }
}

/// A machine that is not running stays as it is, however long it is run.
pub proof fn lemma_run_of_stopped(state: MachineState, steps: nat)
    requires
        state.status != Status::Running,
    ensures
        state.run(steps) == state,
        state.steps_taken(steps) == 0,
{
}

/// A run never takes more steps than it is allowed, and one that is still
/// running at its end has taken them all.
pub proof fn lemma_steps_taken(state: MachineState, steps: nat)
    ensures
        state.steps_taken(steps) <= steps,
        state.run(steps).status == Status::Running ==> state.steps_taken(steps) == steps,
    decreases steps,
{
    if steps == 0 || state.status != Status::Running {
    } else {
        lemma_steps_taken(state.step(), (steps - 1) as nat);
    }
}

/// A machine that has ended or faulted is not moved by a fed execution.
pub proof fn lemma_drive_of_finished(state: MachineState, input: Seq<u8>, moves: nat)
    requires
        state.status != Status::Running,
        state.status != Status::AwaitingInput,
    ensures
        state.drive(input, moves) == state,
    decreases moves,
{
    if moves > 0 {
        lemma_drive_of_finished(state, input, (moves - 1) as nat);
    }
}

/// A fed execution may begin with a plain run: the steps that the run takes
/// are moves of the fed execution, and they read no input.
pub proof fn lemma_drive_begins_with_run(
    state: MachineState,
    input: Seq<u8>,
    moves: nat,
    steps: nat,
)
    requires
        steps <= moves,
    ensures
        state.steps_taken(steps) <= moves,
        state.drive(input, moves) == state.run(steps).drive(
            input,
            (moves - state.steps_taken(steps)) as nat,
        ),
    decreases steps,
{
    if steps == 0 || state.status != Status::Running {
    } else {
        lemma_drive_begins_with_run(state.step(), input, (moves - 1) as nat, (steps - 1) as nat);
    }
}

/// A machine that runs after some steps ran after every smaller number of
/// steps too.
pub proof fn lemma_running_before(state: MachineState, earlier: nat, later: nat)
    requires
        earlier <= later,
        state.run(later).status == Status::Running,
    ensures
        state.run(earlier).status == Status::Running,
{
    lemma_run_in_parts(state, earlier, (later - earlier) as nat);
    if state.run(earlier).status != Status::Running {
        lemma_run_of_stopped(state.run(earlier), (later - earlier) as nat);
    }
}

/// True where the `count` program bytes from index `from` on are all `byte`.
pub open spec fn repeats(program: Seq<u8>, from: nat, count: nat, byte: u8) -> bool {
    &&& from + count <= program.len()
    &&& forall|i: int| from <= i < from + count ==> program[i] == byte
}

/// A cell to which `count` was added, modulo 256.
pub open spec fn cell_plus(cell: u8, count: int) -> u8 {
    ((cell + count) % 256) as u8
}

/// A cursor moved up by `count` cells, modulo 65536.
pub open spec fn cursor_plus(cursor: u16, count: int) -> u16 {
    ((cursor + count) % 65536) as u16
}

/// `+` after `-` gives the cell back as it was, and so does `-` after `+`,
/// whatever the cell holds.
pub proof fn lemma_increment_decrement_cancel(cell: u8)
    ensures
        incremented(decremented(cell)) == cell,
        decremented(incremented(cell)) == cell,
{
}

/// A run of `count` instructions `+` adds `count` to the current cell modulo
/// 256 and changes nothing else.
pub proof fn lemma_increments_add(state: MachineState, count: nat)
    requires
        state.status == Status::Running,
        state.ptr < TAPE_SIZE,
        state.tape.len() == TAPE_SIZE,
        count >= 1,
        repeats(state.program, state.ip, count, BYTE_INCREMENT),
    ensures
        state.run(count) == state.store(
            state.ptr,
            cell_plus(state.tape[state.ptr as int], count as int),
        ).at(state.ip + count),
    decreases count,
{
    let cell = state.tape[state.ptr as int];
    let next = state.step();
    assert(state.program[state.ip as int] == BYTE_INCREMENT);
    assert(next == state.store(state.ptr, incremented(cell)).at(state.ip + 1));
    assert(state.run(count) == next.run((count - 1) as nat));
    if count == 1 {
        assert(incremented(cell) == cell_plus(cell, 1));
    } else {
        assert(repeats(next.program, next.ip, (count - 1) as nat, BYTE_INCREMENT));
        lemma_increments_add(next, (count - 1) as nat);
        assert(cell_plus(incremented(cell), count - 1) == cell_plus(cell, count as int));
        assert(next.tape.update(state.ptr as int, cell_plus(cell, count as int))
            =~= state.tape.update(state.ptr as int, cell_plus(cell, count as int)));
    }
}

/// A run of `count` instructions `-` takes `count` from the current cell
/// modulo 256 and changes nothing else.
pub proof fn lemma_decrements_subtract(state: MachineState, count: nat)
    requires
        state.status == Status::Running,
        state.ptr < TAPE_SIZE,
        state.tape.len() == TAPE_SIZE,
        count >= 1,
        repeats(state.program, state.ip, count, BYTE_DECREMENT),
    ensures
        state.run(count) == state.store(
            state.ptr,
            cell_plus(state.tape[state.ptr as int], -(count as int)),
        ).at(state.ip + count),
    decreases count,
{
    let cell = state.tape[state.ptr as int];
    let next = state.step();
    assert(state.program[state.ip as int] == BYTE_DECREMENT);
    assert(next == state.store(state.ptr, decremented(cell)).at(state.ip + 1));
    assert(state.run(count) == next.run((count - 1) as nat));
    if count == 1 {
        assert(decremented(cell) == cell_plus(cell, -1));
    } else {
        assert(repeats(next.program, next.ip, (count - 1) as nat, BYTE_DECREMENT));
        lemma_decrements_subtract(next, (count - 1) as nat);
        assert(cell_plus(decremented(cell), -(count - 1)) == cell_plus(cell, -(count as int)));
        assert(next.tape.update(state.ptr as int, cell_plus(cell, -(count as int)))
            =~= state.tape.update(state.ptr as int, cell_plus(cell, -(count as int))));
    }
}

/// Wraparound closure: 256 instructions `+` in a row leave every cell as it
/// was, and so do 256 instructions `-`. The machine has only moved on behind
/// them.
pub proof fn lemma_256_times_restores(state: MachineState, byte: u8)
    requires
        state.status == Status::Running,
        state.ptr < TAPE_SIZE,
        state.tape.len() == TAPE_SIZE,
        byte == BYTE_INCREMENT || byte == BYTE_DECREMENT,
        repeats(state.program, state.ip, 256, byte),
    ensures
        state.run(256) == state.at(state.ip + 256),
{
    let cell = state.tape[state.ptr as int];
    if byte == BYTE_INCREMENT {
        lemma_increments_add(state, 256);
    } else {
        lemma_decrements_subtract(state, 256);
    }
    assert(state.tape.update(state.ptr as int, cell) =~= state.tape);
}

/// `+` followed by `-`, or `-` followed by `+`, leaves the machine as it
/// was but for the instruction pointer, whatever the current cell holds.
pub proof fn lemma_increment_decrement_restore(state: MachineState)
    requires
        state.status == Status::Running,
        state.ptr < TAPE_SIZE,
        state.tape.len() == TAPE_SIZE,
        state.ip + 2 <= state.program.len(),
        ({
            let first = state.program[state.ip as int];
            let second = state.program[(state.ip + 1) as int];
            ||| first == BYTE_INCREMENT && second == BYTE_DECREMENT
            ||| first == BYTE_DECREMENT && second == BYTE_INCREMENT
        }),
    ensures
        state.run(2) == state.at(state.ip + 2),
{
    let cell = state.tape[state.ptr as int];
    let next = state.step();
    assert(state.run(2) == next.run(1));
    assert(next.run(1) == next.step().run(0));
    lemma_increment_decrement_cancel(cell);
    assert(next.step().tape =~= state.tape);
}

/// True where `state` is a machine on `program` that stands on the `[` at
/// index `bracket` and will find its cell nonzero.
pub open spec fn enters_loop(state: MachineState, program: Seq<u8>, bracket: nat) -> bool {
    &&& state.program == program
    &&& state.status == Status::Running
    &&& state.ip == bracket
    &&& bracket < program.len()
    &&& program[bracket as int] == BYTE_LOOP_OPEN
    &&& state.ptr < TAPE_SIZE
    &&& state.tape[state.ptr as int] != 0
}

/// True where `state`, after one step or more, is as `described`.
pub open spec fn becomes(state: MachineState, described: spec_fn(MachineState) -> bool) -> bool {
    exists|k: nat| k >= 1 && described(#[trigger] state.run(k))
}

/// A loop whose body never hands the tested cell back at 0 runs for ever.
///
/// `comes_back` describes the machine whenever it stands on the `[`: it is
/// about to enter the body, and after some steps it stands there again as
/// `comes_back` describes. Then the machine is still running after any number
/// of steps.
pub proof fn lemma_loop_never_ends(
    state: MachineState,
    comes_back: spec_fn(MachineState) -> bool,
    steps: nat,
)
    requires
        comes_back(state),
        forall|s: MachineState| #[trigger]
            comes_back(s) ==> enters_loop(s, state.program, state.ip),
        forall|s: MachineState| comes_back(s) ==> #[trigger] becomes(s, comes_back),
    ensures
        state.run(steps).status == Status::Running,
    decreases steps,
{
    if steps > 0 {
        assert(becomes(state, comes_back));
        let k = choose|k: nat| k >= 1 && comes_back(#[trigger] state.run(k));
        let back = state.run(k);
        assert(enters_loop(back, state.program, state.ip));
        if steps <= k {
            lemma_running_before(state, steps, k);
        } else {
            lemma_run_in_parts(state, k, (steps - k) as nat);
            lemma_loop_never_ends(back, comes_back, (steps - k) as nat);
        }
    }
}

/// The loop `[]`, met with its cell nonzero, runs for ever: two steps bring
/// the machine back as it was.
pub proof fn lemma_empty_loop_never_ends(state: MachineState, steps: nat)
    requires
        enters_loop(state, state.program, state.ip),
        state.ip + 1 < state.program.len(),
        state.program[state.ip + 1 as int] == BYTE_LOOP_CLOSE,
    ensures
        state.run(2) == state,
        state.run(steps).status == Status::Running,
{
    let inside = state.step();
    assert(inside == state.enter());
    assert(state.run(2) == inside.run(1));
    assert(inside.run(1) == inside.step().run(0));
    assert(inside.step() == inside.leave());
    assert(inside.leave().frames =~= state.frames);
    assert(state.run(2) == state);
    let comes_back = |s: MachineState| s == state;
    assert forall|s: MachineState| comes_back(s) implies #[trigger] becomes(s, comes_back) by {
        assert(comes_back(s.run(2)));
    }
    lemma_loop_never_ends(state, comes_back, steps);
}

/// A loop met with its cell at 0 is not entered: one step takes the machine
/// behind the closing bracket, and nothing else has changed. No instruction
/// of the body is dispatched, nothing is written.
pub proof fn lemma_zero_cell_skips_loop(state: MachineState, closing: nat)
    requires
        state.status == Status::Running,
        state.ip < state.program.len(),
        state.program[state.ip as int] == BYTE_LOOP_OPEN,
        state.ptr < TAPE_SIZE,
        state.tape[state.ptr as int] == 0,
        closing_bracket(state.program, state.ip + 1, 1, BYTE_LOOP_OPEN, BYTE_LOOP_CLOSE) == Ok::<
            nat,
            Fault,
        >(closing),
    ensures
        state.step() == state.at(closing + 1),
        state.step().output == state.output,
        state.step().tape == state.tape,
        state.step().ptr == state.ptr,
        state.step().frames == state.frames,
{
}

/// The counted loop `{}`, met with `count` in the iterator's cell, runs its
/// body `count` times: it takes two steps for each time and one to leave,
/// counts the cell down to 0, and leaves the data pointer `count` cells
/// further up. The iterator, which stayed on its cell all the while, is left
/// one cell further down.
pub proof fn lemma_counted_loop_counts_down(state: MachineState, count: nat)
    requires
        state.status == Status::Running,
        state.ip + 1 < state.program.len(),
        state.program[state.ip as int] == BYTE_FOR_OPEN,
        state.program[state.ip + 1 as int] == BYTE_FOR_CLOSE,
        state.tape.len() == TAPE_SIZE,
        state.counted_cell() < TAPE_SIZE,
        state.tape[state.counted_cell() as int] == count,
    ensures
        state.run(2 * count + 1) == (MachineState {
            tape: state.tape.update(state.counted_cell() as int, 0),
            ptr: cursor_plus(state.ptr, count as int),
            iterator: cursor_down(state.counted_cell()),
            iterator_set: true,
            ..state
        }).at(state.ip + 2),
    decreases count,
{
    let cell = state.counted_cell();
    if count == 0 {
        assert(closing_bracket(state.program, state.ip + 1, 1, BYTE_FOR_OPEN, BYTE_FOR_CLOSE)
            == Ok::<nat, Fault>(state.ip + 1));
        assert(state.run(1) == state.step().run(0));
        assert(state.tape.update(cell as int, 0) =~= state.tape);
    } else {
        let inside = state.step();
        assert(inside == state.for_open());
        let back = inside.step();
        assert(back == inside.for_close());
        assert(back.frames =~= state.frames);
        assert(state.run(2) == inside.run(1));
        assert(inside.run(1) == back.run(0));
        lemma_run_in_parts(state, 2, (2 * (count - 1) + 1) as nat);
        lemma_counted_loop_counts_down(back, (count - 1) as nat);
        assert(back.tape.update(cell as int, 0) =~= state.tape.update(cell as int, 0));
        assert(cursor_plus(back.ptr, count - 1) == cursor_plus(state.ptr, count as int));
    }
}

/// The bracket that a search finds lies in the program, at the place where
/// the search began or behind it.
pub proof fn lemma_closing_bracket_in_program(
    program: Seq<u8>,
    from: nat,
    depth: nat,
    open: u8,
    close: u8,
)
    ensures
        closing_bracket(program, from, depth, open, close) matches Ok(bracket) ==> from <= bracket
            < program.len() && program[bracket as int] == close,
    decreases program.len() - from,
{
    if from < program.len() && is_text_byte(program[from as int]) {
        if program[from as int] == close {
            if depth > 1 {
                lemma_closing_bracket_in_program(
                    program,
                    from + 1,
                    (depth - 1) as nat,
                    open,
                    close,
                );
            }
        } else if program[from as int] == open {
            lemma_closing_bracket_in_program(program, from + 1, depth + 1, open, close);
        } else {
            lemma_closing_bracket_in_program(program, from + 1, depth, open, close);
        }
    }
}

/// A fresh machine is well-formed.
pub proof fn lemma_initial_is_well_formed(program: Seq<u8>)
    ensures
        MachineState::initial(program).well_formed(),
{
}

/// A step keeps a machine well-formed, and so does the answer to a `,`.
pub proof fn lemma_step_keeps_well_formed(state: MachineState, byte: Option<u8>)
    requires
        state.well_formed(),
    ensures
        state.step().well_formed(),
        state.supply(byte).well_formed(),
{
    lemma_closing_bracket_in_program(
        state.program,
        state.ip + 1,
        1,
        BYTE_LOOP_OPEN,
        BYTE_LOOP_CLOSE,
    );
    lemma_closing_bracket_in_program(state.program, state.ip + 1, 1, BYTE_FOR_OPEN, BYTE_FOR_CLOSE);
}

/// Every machine that a fed execution comes to is well-formed.
pub proof fn lemma_drive_keeps_well_formed(state: MachineState, input: Seq<u8>, moves: nat)
    requires
        state.well_formed(),
    ensures
        state.drive(input, moves).well_formed(),
    decreases moves,
{
    if moves > 0 {
        lemma_step_keeps_well_formed(state, Some(input[0]));
        lemma_step_keeps_well_formed(state, None);
        lemma_drive_keeps_well_formed(
            state.advance(input),
            state.unread(input),
            (moves - 1) as nat,
        );
    }
}

/// Every machine that a run comes to is well-formed.
pub proof fn lemma_run_keeps_well_formed(state: MachineState, steps: nat)
    requires
        state.well_formed(),
    ensures
        state.run(steps).well_formed(),
    decreases steps,
{
    if steps > 0 && state.status == Status::Running {
        lemma_step_keeps_well_formed(state, None);
        lemma_run_keeps_well_formed(state.step(), (steps - 1) as nat);
    }
}

/// Brackets that lie one behind the other in front of `limit` are at most
/// `limit` many.
proof fn lemma_rising_is_short(frames: Seq<nat>, limit: nat)
    requires
        forall|i: int| 0 <= i < frames.len() ==> #[trigger] frames[i] < limit,
        forall|i: int, j: int|
            0 <= i < j < frames.len() ==> #[trigger] frames[i] < #[trigger] frames[j],
    ensures
        frames.len() <= limit,
    decreases frames.len(),
{
    if frames.len() > 0 {
        let rest = frames.drop_last();
        assert forall|i: int| 0 <= i < rest.len() implies #[trigger] rest[i] < frames.last() by {
            assert(rest[i] == frames[i]);
        }
        assert forall|i: int, j: int| 0 <= i < j < rest.len() implies #[trigger] rest[i]
            < #[trigger] rest[j] by {
            assert(rest[i] == frames[i] && rest[j] == frames[j]);
        }
        lemma_rising_is_short(rest, frames.last());
    }
}

/// The stack of frames is never deeper than the program is long, however
/// long the loops run: the frames are those of brackets nested in one
/// another, and there is one frame for each.
pub proof fn lemma_depth_is_bounded(state: MachineState)
    requires
        state.well_formed(),
    ensures
        state.frames.len() <= state.ip <= state.program.len(),
{
    lemma_rising_is_short(state.frames, state.ip);
}

} // verus!
