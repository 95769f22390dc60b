use brainfrick::engine::{execute_loop, execute_program, ExecutionError};
use brainfrick::machine::Machine;
use brainfrick::model::{Fault, Status};

fn run(program: &str, input: &[u8]) -> Result<Vec<u8>, ExecutionError> {
    execute_program(program.to_string(), input.to_vec(), 1_000_000)
}

fn machine_after(program: &str, steps: u64) -> Machine {
    let mut machine = Machine::new(program.as_bytes().to_vec());
    execute_loop(&mut machine, steps);
    machine
}

#[test]
fn four_increments_then_output() {
    assert_eq!(run("++++.", &[]), Ok(vec![4]));
}

#[test]
fn zeroing_idiom_terminates_with_cell_zero() {
    let machine = machine_after("+[-]", 1_000);
    assert_eq!(machine.status(), Status::Halted);
    assert_eq!(machine.cell(0), Some(0));
    assert_eq!(machine.pointer(), 0);
    assert_eq!(machine.depth(), 0);
    assert_eq!(run("+[-].", &[]), Ok(vec![0]));
}

#[test]
fn zeroing_idiom_from_larger_value() {
    let machine = machine_after("+++++[-]", 1_000);
    assert_eq!(machine.status(), Status::Halted);
    assert_eq!(machine.cell(0), Some(0));
}

#[test]
fn input_is_echoed_unchanged() {
    assert_eq!(run(",.", &[0x41]), Ok(vec![0x41]));
}

#[test]
fn input_bytes_are_read_in_order() {
    assert_eq!(run(",.,.,.", &[1, 2, 3, 4]), Ok(vec![1, 2, 3]));
    assert_eq!(run(",>,<.>.", &[0xff, 0x00]), Ok(vec![0xff, 0x00]));
}

#[test]
fn stray_close_at_start_halts_at_once() {
    assert_eq!(run("]++++.", &[]), Ok(vec![]));
    let machine = machine_after("]++++.", 100);
    assert_eq!(machine.status(), Status::Halted);
    assert_eq!(machine.instruction_pointer(), 0);
    assert_eq!(machine.cell(0), Some(0));
}

#[test]
fn stray_close_keeps_earlier_output() {
    assert_eq!(run("+.]+.", &[]), Ok(vec![1]));
    assert_eq!(run("+[-]+.]+.", &[]), Ok(vec![1]));
}

#[test]
fn nested_loops_open_two_frames_before_any_close() {
    let mut machine = Machine::new(b"+[[+]-]".to_vec());
    assert_eq!(execute_loop(&mut machine, 3), 3);
    assert_eq!(machine.depth(), 2);
    assert_eq!(machine.instruction_pointer(), 3);
    assert_eq!(machine.cell(0), Some(1));
    // `+` and `]` of the inner body: back on the inner `[` with one frame.
    assert_eq!(execute_loop(&mut machine, 2), 2);
    assert_eq!(machine.depth(), 1);
    assert_eq!(machine.instruction_pointer(), 2);
    assert_eq!(machine.cell(0), Some(2));
}

#[test]
fn nested_loops_match_manual_trace() {
    // `+`, outer `[`, then 255 rounds of `[`, `+`, `]` wrap the cell to 0;
    // the inner `[` is skipped, `-` makes 255, the outer `]` goes back.
    let machine = machine_after("+[[+]-]", 1 + 1 + 255 * 3 + 1 + 1 + 1);
    assert_eq!(machine.status(), Status::Running);
    assert_eq!(machine.instruction_pointer(), 1);
    assert_eq!(machine.depth(), 0);
    assert_eq!(machine.cell(0), Some(255));
    assert_eq!(machine.pointer(), 0);
}

#[test]
fn nested_loops_that_end() {
    // Outer loop runs twice; the inner loop empties cell 1 each time.
    let machine = machine_after("++[>+++[-]<-]", 10_000);
    assert_eq!(machine.status(), Status::Halted);
    assert_eq!(machine.cell(0), Some(0));
    assert_eq!(machine.cell(1), Some(0));
    assert_eq!(machine.pointer(), 0);
    assert_eq!(run("++[>++[>+<-]<-]>>.", &[]), Ok(vec![4]));
}

#[test]
fn increment_256_times_restores_cell() {
    let plus = "+".repeat(256);
    assert_eq!(run(&format!("{}.", plus), &[]), Ok(vec![0]));
    assert_eq!(run(&format!("+++{}.", plus), &[]), Ok(vec![3]));
    assert_eq!(run(&format!(",{}.", plus), &[200]), Ok(vec![200]));
}

#[test]
fn decrement_256_times_restores_cell() {
    let minus = "-".repeat(256);
    assert_eq!(run(&format!("{}.", minus), &[]), Ok(vec![0]));
    assert_eq!(run(&format!(",{}.", minus), &[77]), Ok(vec![77]));
}

#[test]
fn increment_and_decrement_wrap() {
    assert_eq!(run("-.", &[]), Ok(vec![255]));
    assert_eq!(run("-+.", &[]), Ok(vec![0]));
    assert_eq!(run(&format!("{}.", "+".repeat(255)), &[]), Ok(vec![255]));
    assert_eq!(run(&format!("{}.", "+".repeat(257)), &[]), Ok(vec![1]));
}

#[test]
fn increment_then_decrement_is_identity() {
    for value in [0u8, 1, 127, 128, 254, 255] {
        assert_eq!(run(",+-.", &[value]), Ok(vec![value]));
        assert_eq!(run(",-+.", &[value]), Ok(vec![value]));
    }
}

#[test]
fn loop_with_unchanging_cell_never_ends() {
    assert_eq!(run("+[]", &[]), Err(ExecutionError::StepLimit));
    assert_eq!(run("+[>+<]", &[]), Err(ExecutionError::StepLimit));
    let machine = machine_after("+[]", 100_001);
    assert_eq!(machine.status(), Status::Running);
    assert_eq!(machine.cell(0), Some(1));
}

#[test]
fn loop_entered_with_zero_is_skipped() {
    assert_eq!(run("[.]++.", &[]), run("++.", &[]));
    assert_eq!(run("[.]++.", &[]), Ok(vec![2]));
    assert_eq!(run("+.>[.+.]<.", &[]), run("+.><.", &[]));
    let machine = machine_after("[+++.>]", 1);
    assert_eq!(machine.status(), Status::Halted);
    assert_eq!(machine.instruction_pointer(), 7);
    assert_eq!(machine.cell(0), Some(0));
    assert_eq!(machine.pointer(), 0);
    assert!(machine.output().is_empty());
}

#[test]
fn skipped_loop_finds_matching_bracket() {
    assert_eq!(run("[[.]].", &[]), Ok(vec![0]));
    assert_eq!(run("[].", &[]), Ok(vec![0]));
    assert_eq!(run("[[][[]]]+.", &[]), Ok(vec![1]));
    // Braces do not count when a `[` is skipped, nor brackets for a `{`.
    assert_eq!(run("[{]+.", &[]), Ok(vec![1]));
    assert_eq!(run("{[}+.", &[]), Ok(vec![1]));
}

#[test]
fn counted_loop_runs_three_times() {
    let machine = machine_after("+++{}", 1_000);
    assert_eq!(machine.status(), Status::Halted);
    assert_eq!(machine.cell(0), Some(0));
    assert_eq!(machine.pointer(), 3);
    assert_eq!(machine.iterator(), Some(0xffff));
    // Three `+`, two steps for each round, one to leave.
    let mut counted = Machine::new(b"+++{}".to_vec());
    assert_eq!(execute_loop(&mut counted, 1_000), 3 + 2 * 3 + 1);
}

#[test]
fn counted_loop_body_runs_once_per_count() {
    assert_eq!(run("+++{.}", &[]), Ok(vec![0, 0, 0]));
    let machine = machine_after("+++{>+<}", 1_000);
    assert_eq!(machine.status(), Status::Halted);
    assert_eq!(machine.cell(0), Some(0));
    assert_eq!(machine.cell(1), Some(0));
    assert_eq!(machine.cell(2), Some(1));
    assert_eq!(machine.cell(3), Some(1));
    assert_eq!(machine.cell(4), Some(1));
    assert_eq!(machine.pointer(), 3);
}

#[test]
fn counted_loop_away_from_cell_zero() {
    let machine = machine_after(">>++{}", 1_000);
    assert_eq!(machine.status(), Status::Halted);
    assert_eq!(machine.cell(2), Some(0));
    assert_eq!(machine.pointer(), 4);
    assert_eq!(machine.iterator(), Some(1));
}

#[test]
fn counted_loop_with_zero_count_is_skipped() {
    let machine = machine_after("{+.}>", 1_000);
    assert_eq!(machine.status(), Status::Halted);
    assert_eq!(machine.cell(0), Some(0));
    assert_eq!(machine.pointer(), 1);
    assert_eq!(machine.iterator(), Some(0xffff));
    assert!(machine.output().is_empty());
}

#[test]
fn iterator_is_assigned_once() {
    // The second loop finds the iterator assigned and one cell below the
    // first loop's: cell 0, which holds nothing.
    let machine = machine_after(">++{}>+++{}", 1_000);
    assert_eq!(machine.status(), Status::Halted);
    assert_eq!(machine.cell(1), Some(0));
    assert_eq!(machine.cell(4), Some(3));
    assert_eq!(machine.iterator(), Some(0xffff));
    assert_eq!(machine.pointer(), 4);
}

#[test]
fn empty_program_ends_at_once() {
    assert_eq!(run("", &[]), Ok(vec![]));
    assert_eq!(execute_program(String::new(), vec![], 0), Ok(vec![]));
    let machine = Machine::new(Vec::new());
    assert_eq!(machine.status(), Status::Halted);
}

#[test]
fn comments_have_no_effect() {
    assert_eq!(run("add two: + + then print .\n", &[]), Ok(vec![2]));
}

#[test]
fn step_limit_is_exact() {
    assert_eq!(execute_program("++++.".to_string(), vec![], 5), Ok(vec![4]));
    assert_eq!(
        execute_program("++++.".to_string(), vec![], 4),
        Err(ExecutionError::StepLimit)
    );
    // A `,` takes two moves: the instruction and its answer.
    assert_eq!(execute_program(",.".to_string(), vec![9], 3), Ok(vec![9]));
    assert_eq!(
        execute_program(",.".to_string(), vec![9], 2),
        Err(ExecutionError::StepLimit)
    );
    assert_eq!(
        execute_program(",".to_string(), vec![], 1),
        Err(ExecutionError::StepLimit)
    );
}

#[test]
fn fault_on_exhausted_input() {
    assert_eq!(
        run(",", &[]),
        Err(ExecutionError::Fault(Fault::InputExhausted))
    );
    assert_eq!(
        run(",.,.", &[5]),
        Err(ExecutionError::Fault(Fault::InputExhausted))
    );
}

#[test]
fn fault_on_access_below_the_tape() {
    assert_eq!(
        run("<+", &[]),
        Err(ExecutionError::Fault(Fault::TapeOutOfBounds))
    );
    assert_eq!(
        run("<.", &[]),
        Err(ExecutionError::Fault(Fault::TapeOutOfBounds))
    );
    assert_eq!(
        run("<[", &[]),
        Err(ExecutionError::Fault(Fault::TapeOutOfBounds))
    );
    assert_eq!(
        run("<,", &[1]),
        Err(ExecutionError::Fault(Fault::TapeOutOfBounds))
    );
    let machine = machine_after("<", 10);
    assert_eq!(machine.status(), Status::Halted);
    assert_eq!(machine.pointer(), 0xffff);
}

#[test]
fn pointer_is_checked_when_a_cell_is_accessed() {
    assert_eq!(run("<>+.", &[]), Ok(vec![1]));
    assert_eq!(run("<", &[]), Ok(vec![]));
}

#[test]
fn fault_on_access_above_the_tape() {
    let last = ">".repeat(4095);
    assert_eq!(run(&format!("{}+.", last), &[]), Ok(vec![1]));
    let beyond = ">".repeat(4096);
    assert_eq!(
        run(&format!("{}+", beyond), &[]),
        Err(ExecutionError::Fault(Fault::TapeOutOfBounds))
    );
    assert_eq!(run(&beyond, &[]), Ok(vec![]));
}

#[test]
fn pointer_wraps_at_sixteen_bits() {
    let around = ">".repeat(65536);
    assert_eq!(run(&format!("+{}.", around), &[]), Ok(vec![1]));
}

#[test]
fn fault_on_byte_that_is_no_text() {
    assert_eq!(
        run("+\u{e9}.", &[]),
        Err(ExecutionError::Fault(Fault::Decode))
    );
    // Not reached, not decoded.
    assert_eq!(run("+.]\u{e9}", &[]), Ok(vec![1]));
    // Met while a loop is skipped.
    assert_eq!(
        run("[\u{e9}]", &[]),
        Err(ExecutionError::Fault(Fault::Decode))
    );
    assert_eq!(run("[-]\u{7f}", &[]), Ok(vec![]));
}

#[test]
fn fault_on_unclosed_skipped_loop() {
    assert_eq!(
        run("[+.", &[]),
        Err(ExecutionError::Fault(Fault::UnclosedLoop))
    );
    assert_eq!(
        run("[[]", &[]),
        Err(ExecutionError::Fault(Fault::UnclosedLoop))
    );
    assert_eq!(
        run("{", &[]),
        Err(ExecutionError::Fault(Fault::UnclosedLoop))
    );
    // An unclosed loop that is entered runs to the end of the program.
    assert_eq!(run("+[.", &[]), Ok(vec![1]));
}

#[test]
fn fault_on_counting_below_zero() {
    assert_eq!(
        run("}", &[]),
        Err(ExecutionError::Fault(Fault::CellUnderflow))
    );
    assert_eq!(
        run("+{<-}", &[]),
        Err(ExecutionError::Fault(Fault::CellUnderflow))
    );
    // Entering moved the pointer up: the body's `-` does not touch the count.
    assert_eq!(run("+{-}", &[]), Ok(vec![]));
    // A lone `}` counts cell 0 down and ends the execution.
    let machine = machine_after("++}+", 100);
    assert_eq!(machine.status(), Status::Halted);
    assert_eq!(machine.cell(0), Some(1));
}

#[test]
fn fault_on_iterator_beyond_the_tape() {
    assert_eq!(
        run("<{", &[]),
        Err(ExecutionError::Fault(Fault::TapeOutOfBounds))
    );
    // The first loop leaves the iterator at 65535.
    assert_eq!(
        run("{}}", &[]),
        Err(ExecutionError::Fault(Fault::TapeOutOfBounds))
    );
}

#[test]
fn faulted_machine_stays_faulted() {
    let mut machine = Machine::new(b"<+++".to_vec());
    assert_eq!(execute_loop(&mut machine, 10), 2);
    assert_eq!(machine.status(), Status::Faulted(Fault::TapeOutOfBounds));
    assert_eq!(machine.instruction_pointer(), 1);
    assert_eq!(execute_loop(&mut machine, 10), 0);
    machine.step();
    machine.supply_input(Some(1));
    assert_eq!(machine.status(), Status::Faulted(Fault::TapeOutOfBounds));
}

#[test]
fn machine_waits_for_input_and_resumes() {
    let mut machine = Machine::new(b"+.,.".to_vec());
    assert_eq!(execute_loop(&mut machine, 100), 3);
    assert_eq!(machine.status(), Status::AwaitingInput);
    assert_eq!(machine.output(), &vec![1]);
    // Running on does not move a waiting machine.
    assert_eq!(execute_loop(&mut machine, 100), 0);
    assert_eq!(machine.status(), Status::AwaitingInput);
    machine.supply_input(Some(0x5a));
    assert_eq!(machine.status(), Status::Running);
    assert_eq!(machine.cell(0), Some(0x5a));
    assert_eq!(execute_loop(&mut machine, 100), 1);
    assert_eq!(machine.status(), Status::Halted);
    assert_eq!(machine.into_output(), vec![1, 0x5a]);
}

#[test]
fn answer_without_a_question_is_ignored() {
    let mut machine = Machine::new(b"+.".to_vec());
    machine.supply_input(Some(7));
    machine.supply_input(None);
    assert_eq!(machine.status(), Status::Running);
    assert_eq!(machine.cell(0), Some(0));
    execute_loop(&mut machine, 10);
    assert_eq!(machine.into_output(), vec![1]);
}

#[test]
fn input_read_last_ends_the_program() {
    let mut machine = Machine::new(b",".to_vec());
    execute_loop(&mut machine, 10);
    assert_eq!(machine.status(), Status::AwaitingInput);
    machine.supply_input(Some(3));
    assert_eq!(machine.status(), Status::Halted);
    assert_eq!(machine.cell(0), Some(3));
}

#[test]
fn cell_beyond_tape_is_none() {
    let machine = Machine::new(b"+".to_vec());
    assert_eq!(machine.cell(4095), Some(0));
    assert_eq!(machine.cell(4096), None);
    assert_eq!(machine.iterator(), None);
}

#[test]
fn long_loop_needs_no_deep_stack() {
    // 255 * 255 rounds of the inner body on a stack that is two frames deep.
    let program = "-[>-[-]<-]";
    let mut machine = Machine::new(program.as_bytes().to_vec());
    let mut deepest = 0;
    while machine.status() == Status::Running {
        machine.step();
        if machine.depth() > deepest {
            deepest = machine.depth();
        }
    }
    assert_eq!(machine.status(), Status::Halted);
    assert_eq!(deepest, 2);
    assert_eq!(machine.cell(0), Some(0));
}

#[test]
fn hello_output() {
    let program = "++++++++[>+++++++++<-]>.";
    assert_eq!(run(program, &[]), Ok(vec![72]));
}
