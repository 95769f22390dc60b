//! Running a machine: for a number of steps, and for a whole program with
//! its input.

use vstd::prelude::*;
use vstd::string::StrSliceExecFns;
use vstd::utf8::encode_utf8;
use crate::laws::{lemma_drive_begins_with_run, lemma_drive_of_finished, lemma_steps_taken};
use crate::machine::Machine;
use crate::model::{Fault, MachineState, Status};

verus! {

/// Why an execution gave no output.
#[derive(Clone, Copy, Debug, PartialEq, Eq, Structural)]
pub enum ExecutionError {
    /// The machine faulted.
    Fault(Fault),
    /// The execution was still going on when its allowance of moves was used
    /// up. Nothing says whether it would have ended.
    StepLimit,
}

/// What an execution that has come to `state` amounts to: the output of a
/// machine that has ended, the fault of one that was aborted.
pub open spec fn result_of(state: MachineState) -> Result<Seq<u8>, ExecutionError> {
    match state.status {
        Status::Halted => Ok(state.output),
        Status::Faulted(fault) => Err(ExecutionError::Fault(fault)),
        _ => Err(ExecutionError::StepLimit),
    }
}

/// What the execution of `program` on `input` amounts to when it is allowed
/// `moves` moves, a move being one dispatched instruction or one answer to a
/// `,`.
pub open spec fn execution(program: Seq<u8>, input: Seq<u8>, moves: nat) -> Result<
    Seq<u8>,
    ExecutionError,
> {
    result_of(MachineState::initial(program).drive(input, moves))
}

/// The dispatch loop: steps the machine until it is no longer running, but
/// for at most `max_steps` steps. Returns how many steps were taken.
///
/// The loop ends where the machine has ended or faulted, and also where it
/// waits for input: the caller answers with [`Machine::supply_input`] and
/// calls again.
pub fn execute_loop(machine: &mut Machine, max_steps: u64) -> (steps: u64)
    ensures
        final(machine)@ == old(machine)@.run(max_steps as nat),
        steps == old(machine)@.steps_taken(max_steps as nat),
{
    let mut steps: u64 = 0;
    while steps < max_steps && machine.status() == Status::Running
        invariant
            steps <= max_steps,
            machine@.run((max_steps - steps) as nat) == old(machine)@.run(max_steps as nat),
            steps + machine@.steps_taken((max_steps - steps) as nat) == old(machine)@.steps_taken(
                max_steps as nat,
            ),
        decreases max_steps - steps,
    {
        machine.step();
        steps = steps + 1;
    }
    steps
}

/// Executes `program_code` from its first byte on a fresh tape, with `input`
/// as all the input there is, and returns the output once the execution has
/// ended.
///
/// The execution is allowed `max_steps` moves: one for each dispatched
/// instruction and one for each answer to a `,`.
pub fn execute_program(program_code: String, input: Vec<u8>, max_steps: u64) -> (result: Result<
    Vec<u8>,
    ExecutionError,
>)
    ensures
        match result {
            Ok(output) => execution(encode_utf8(program_code@), input@, max_steps as nat) == Ok::<
                Seq<u8>,
                ExecutionError,
            >(output@),
            Err(error) => execution(encode_utf8(program_code@), input@, max_steps as nat) == Err::<
                Seq<u8>,
                ExecutionError,
            >(error),
        },
{
    let program = program_code.as_str().as_bytes_vec();
    let mut machine = Machine::new(program);
    let ghost start = machine@;
    let mut left: u64 = max_steps;
    let mut read: usize = 0;
    proof {
        lemma_drive_begins_with_run(machine@, input@, left as nat, left as nat);
        lemma_steps_taken(machine@, left as nat);
        assert(input@.skip(0) =~= input@);
    }
    let taken = execute_loop(&mut machine, left);
    left = left - taken;
    while left > 0 && machine.status() == Status::AwaitingInput
        invariant
            read <= input.len(),
            machine@.status == Status::Running ==> left == 0,
            machine@.drive(input@.skip(read as int), left as nat) == start.drive(
                input@,
                max_steps as nat,
            ),
        decreases left,
    {
        let ghost unread = input@.skip(read as int);
        if read < input.len() {
            machine.supply_input(Some(input[read]));
            read = read + 1;
            proof {
                assert(unread.drop_first() =~= input@.skip(read as int));
            }
        } else {
            machine.supply_input(None);
        }
        left = left - 1;
        proof {
            lemma_drive_begins_with_run(
                machine@,
                input@.skip(read as int),
                left as nat,
                left as nat,
            );
            lemma_steps_taken(machine@, left as nat);
        }
        let taken = execute_loop(&mut machine, left);
        left = left - taken;
    }
    proof {
        if machine@.status != Status::Running && machine@.status != Status::AwaitingInput {
            lemma_drive_of_finished(machine@, input@.skip(read as int), left as nat);
        }
    }
    match machine.status() {
        Status::Halted => Ok(machine.into_output()),
        Status::Faulted(fault) => Err(ExecutionError::Fault(fault)),
        _ => Err(ExecutionError::StepLimit),
    }
}

} // verus!
