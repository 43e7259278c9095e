use tape_interp::EngineError;
use tape_interp::InterpreterState;
use tape_interp::LoopFrame;
use tape_interp::OutputEvent;
use tape_interp::TAPE_LEN;

fn engine_with(source: &str, input: &[u8]) -> InterpreterState {
    let mut i = InterpreterState::new();
    i.load_source(source.as_bytes().to_vec());
    i.set_input(input.to_vec());
    i
}

#[test]
fn goto_next_call_at_end() {
    let mut i = InterpreterState::new();
    i.cell_index = 29999;

    i.goto_next_cell();

    assert_eq!(i.cell_index, 0);
}

#[test]
fn goto_next_call_at_beginning() {
    let mut i = InterpreterState::new();
    i.goto_next_cell();

    assert_eq!(i.cell_index, 1);
}

#[test]
fn goto_previous_cell_at_beginning() {
    let mut i = InterpreterState::new();
    i.goto_previous_cell();

    assert_eq!(i.cell_index, 29999);
}

#[test]
fn goto_previous_cell_at_end() {
    let mut i = InterpreterState::new();
    i.cell_index = 29999;

    i.goto_previous_cell();

    assert_eq!(i.cell_index, 29998);
}

#[test]
fn increment_is_a_saturating_set() {
    let mut i = InterpreterState::new();
    i.increment();
    assert_eq!(i.cells[0], 255);

    i.increment();
    assert_eq!(i.cells[0], 0);

    i.cells[0] = 7;
    i.increment();
    assert_eq!(i.cells[0], 255);
}

#[test]
fn decrement_wraps_at_zero_and_steps_down() {
    let mut i = InterpreterState::new();
    i.decrement();
    assert_eq!(i.cells[0], 255);

    i.decrement();
    assert_eq!(i.cells[0], 254);

    i.cells[0] = 1;
    i.decrement();
    assert_eq!(i.cells[0], 0);
}

#[test]
fn tape_starts_zeroed_with_fixed_length() {
    let i = InterpreterState::new();
    assert_eq!(i.cells.len(), TAPE_LEN);
    assert_eq!(i.cell_index, 0);
    assert!(i.cells.iter().all(|&c| c == 0));
}

#[test]
fn comments_only_program_is_inert() {
    let mut i = engine_with("hello world - wait; no: these are comments?!", &[]);
    // the hyphen and nothing else in that text is an operator
    let mut j = engine_with("hello world  wait; no: these are comments?!", &[]);
    let r = j.run();
    assert!(r.is_ok());
    assert_eq!(j.cell_index, 0);
    assert!(j.cells.iter().all(|&c| c == 0));
    assert!(j.output.is_empty());
    assert_eq!(j.stray_closes, 0);
    assert_eq!(j.loops_opened, 0);
    assert!(j.loops_data.is_empty());

    // while the text with the hyphen does touch a cell
    let r2 = i.run();
    assert!(r2.is_ok());
    assert_eq!(i.cells[0], 255);
}

#[test]
fn stray_close_is_reported_and_execution_continues() {
    let mut i = engine_with("]+", &[]);
    let r = i.run();
    assert!(r.is_ok());
    assert_eq!(i.stray_closes, 1);
    assert_eq!(i.cells[0], 255);
}

#[test]
fn well_formed_loop_runs_until_cell_reads_zero() {
    let mut i = engine_with("+[-]", &[]);
    let r = i.run();
    assert!(r.is_ok());
    assert_eq!(i.cells[0], 0);
    assert!(i.loops_data.is_empty());
    assert_eq!(i.loops_opened, 0);
}

#[test]
fn back_to_back_loops_each_start_fresh() {
    let mut i = engine_with("+[-]>+[-]", &[]);
    let r = i.run();
    assert!(r.is_ok());
    assert_eq!(i.cells[0], 0);
    assert_eq!(i.cells[1], 0);
    assert_eq!(i.cell_index, 1);
    assert!(i.loops_data.is_empty());
    assert_eq!(i.loops_opened, 0);
}

#[test]
fn four_increments_then_output_emit_byte_zero() {
    let mut i = engine_with("++++.", &[]);
    let r = i.run();
    assert!(r.is_ok());
    assert_eq!(i.output, vec![OutputEvent::Byte(0)]);
}

#[test]
fn input_byte_is_stored_then_echoed() {
    let mut i = engine_with(",.", &[65]);
    let r = i.run();
    assert!(r.is_ok());
    assert_eq!(i.cells[0], 65);
    assert_eq!(i.output, vec![OutputEvent::Byte(65)]);
}

#[test]
fn non_encodable_cell_yields_a_diagnostic_event() {
    let mut i = engine_with(",.", &[200]);
    let r = i.run();
    assert!(r.is_ok());
    assert_eq!(i.cells[0], 200);
    assert_eq!(i.output, vec![OutputEvent::NonEncodable]);
}

#[test]
fn exhausted_input_is_fatal() {
    let mut i = engine_with(",", &[]);
    let r = i.run();
    assert_eq!(r, Err(EngineError::InputStreamFailure));
}

#[test]
fn input_failure_stops_the_run_at_once() {
    let mut i = engine_with("+.,+.", &[]);
    let r = i.run();
    assert_eq!(r, Err(EngineError::InputStreamFailure));
    // the first output happened, the one after the failed read did not
    assert_eq!(i.output, vec![OutputEvent::NonEncodable]);
    assert_eq!(i.cells[0], 255);
}

#[test]
fn unresolved_frame_end_is_fatal() {
    // a frame whose end was never recorded marks an unmatched opening
    // bracket the moment a construct tries to execute through it
    let mut i = InterpreterState::new();
    i.load_source(b"]".to_vec());
    i.loops_opened = 1;
    i.loops_data = vec![LoopFrame { start: 5, end: 3 }];
    // the closing bracket at position 0 records end 0 on the frame,
    // which the construct then reads as "never closed"
    let r = i.run();
    assert_eq!(r, Err(EngineError::UnmatchedOpenLoop));
}

#[test]
fn close_with_no_frame_left_is_fatal() {
    let mut i = InterpreterState::new();
    i.load_source(b"]".to_vec());
    i.loops_opened = 1;
    let r = i.run();
    assert_eq!(r, Err(EngineError::LoopStackCorrupted));
}

#[test]
fn nested_construct_clears_the_stack_under_the_outer_bracket() {
    // the inner construct executes and discards the whole stack, so the
    // outer closing bracket finds no frame to complete: fatal, mirroring
    // the stack-clear-after-execution design
    let mut i = engine_with("[[-]]", &[]);
    let r = i.run();
    assert_eq!(r, Err(EngineError::LoopStackCorrupted));
}

#[test]
fn loop_after_pointer_moves_uses_original_positions() {
    // two saturating increments cancel on cell 0; the construct then runs
    // at cell 1, whose scan pass wrapped it to 255, and drives it to zero
    let mut i = engine_with("++>[-]", &[]);
    let r = i.run();
    assert!(r.is_ok());
    assert_eq!(i.cells[0], 0);
    assert_eq!(i.cells[1], 0);
    assert_eq!(i.cell_index, 1);
    assert!(i.loops_data.is_empty());
}

#[test]
fn spent_iteration_budget_is_fatal() {
    // the budget is a machine limit; forcing it to zero shows the failure
    // a never-ending construct would reach
    let mut i = engine_with("+[-]", &[]);
    i.iteration_budget = 0;
    let r = i.run();
    assert_eq!(r, Err(EngineError::IterationBudgetExhausted));
}

#[test]
fn input_bytes_are_consumed_in_order() {
    let mut i = engine_with(",>,.", &[1, 2]);
    let r = i.run();
    assert!(r.is_ok());
    assert_eq!(i.cells[0], 1);
    assert_eq!(i.cells[1], 2);
    assert_eq!(i.output, vec![OutputEvent::Byte(2)]);
}
