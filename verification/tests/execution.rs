use crusterfuck::interpreter::ast::Token;
use crusterfuck::interpreter::io::IO;
use crusterfuck::interpreter::Interpreter;
use crusterfuck::interpreter::ProgramError;
use crusterfuck::interpreter::parser::Parser;

/// A generous loop budget for programs that are known to halt quickly.
const STEPS: u64 = 1 << 20;

#[test]
fn increment_wraps_after_256_steps() {
    // Round trip: 256 increments leave the cell at the initial cursor at 0.
    let mut tokens: Vec<Token> = Vec::new();
    for _ in 0..256 {
        tokens.push(Token::Inc);
    }
    let mut interpreter = Interpreter::new();
    assert_eq!(interpreter.run(tokens, 0), Some(Ok(())));
    assert_eq!(interpreter.current_cell(), 0);
}

#[test]
fn increment_reaches_255_before_wrapping() {
    let mut tokens: Vec<Token> = Vec::new();
    for _ in 0..255 {
        tokens.push(Token::Inc);
    }
    let mut interpreter = Interpreter::new();
    assert_eq!(interpreter.run(tokens, 0), Some(Ok(())));
    assert_eq!(interpreter.current_cell(), 255);
}

#[test]
fn decrement_on_zero_wraps_to_255() {
    // The wraparound policy is canonical here: decrementing a zero cell
    // wraps to 255 rather than faulting, as some dialects would.
    let mut interpreter = Interpreter::new();
    assert_eq!(interpreter.run(vec![Token::Dec], 0), Some(Ok(())));
    assert_eq!(interpreter.current_cell(), 255);
}

#[test]
fn move_left_from_index_zero_is_out_of_bounds() {
    let mut interpreter = Interpreter::new();
    assert_eq!(
        interpreter.run(vec![Token::MoveLeft], 0),
        Some(Err(ProgramError::OutOfBounds))
    );
    // No clamping and no wrapping: the cursor stays where it was.
    assert_eq!(interpreter.cursor(), 0);
}

#[test]
fn move_right_from_last_index_is_out_of_bounds() {
    let mut tokens: Vec<Token> = Vec::new();
    for _ in 0..30000 {
        tokens.push(Token::MoveRight);
    }
    let mut interpreter = Interpreter::new();
    assert_eq!(
        interpreter.run(tokens, 0),
        Some(Err(ProgramError::OutOfBounds))
    );
    // The first 29999 moves succeed; the cursor stays at the last index.
    assert_eq!(interpreter.cursor(), 29999);
}

#[test]
fn read_with_no_input_is_an_io_fault() {
    let mut interpreter = Interpreter::new();
    assert_eq!(
        interpreter.run(vec![Token::Read], 0),
        Some(Err(ProgramError::IOError))
    );
}

#[test]
fn fault_short_circuits_remaining_instructions() {
    // The cell is incremented once, then the fault stops the run: the
    // trailing increments are never executed.
    let tokens = vec![Token::Inc, Token::MoveLeft, Token::Inc, Token::Inc];
    let mut interpreter = Interpreter::new();
    assert_eq!(
        interpreter.run(tokens, 0),
        Some(Err(ProgramError::OutOfBounds))
    );
    assert_eq!(interpreter.current_cell(), 1);
}

#[test]
fn three_increments_and_print_emit_byte_three() {
    // End to end: "+++." with empty input prints exactly one byte of value 3.
    let parser = Parser::new();
    let tokens = parser.parse("+++.".to_string()).unwrap();
    let mut interpreter = Interpreter::new();
    assert_eq!(interpreter.run(tokens, STEPS), Some(Ok(())));
    assert_eq!(interpreter.io().output, vec![3]);
}

#[test]
fn countdown_loop_prints_three_two_one() {
    // End to end: ",[.-]" with input byte 3 prints 3, 2, 1 and halts once the
    // cell reaches 0; only the one scripted byte is ever consumed.
    let parser = Parser::new();
    let tokens = parser.parse(",[.-]".to_string()).unwrap();
    let mut interpreter = Interpreter::with_io(IO::with_input(vec![3]));
    assert_eq!(interpreter.run(tokens, STEPS), Some(Ok(())));
    assert_eq!(interpreter.io().output, vec![3, 2, 1]);
    assert_eq!(interpreter.io().input, Vec::<u8>::new());
    assert_eq!(interpreter.current_cell(), 0);
}

#[test]
fn loop_with_zero_cell_runs_no_iteration() {
    let parser = Parser::new();
    let tokens = parser.parse("[+].".to_string()).unwrap();
    let mut interpreter = Interpreter::new();
    assert_eq!(interpreter.run(tokens, STEPS), Some(Ok(())));
    assert_eq!(interpreter.io().output, vec![0]);
}

#[test]
fn echo_copies_input_to_output() {
    let parser = Parser::new();
    let tokens = parser.parse(",.".to_string()).unwrap();
    let mut interpreter = Interpreter::with_io(IO::with_input(vec![65]));
    assert_eq!(interpreter.run(tokens, STEPS), Some(Ok(())));
    assert_eq!(interpreter.io().output, vec![65]);
}

#[test]
fn spinning_loop_exhausts_the_budget() {
    // "+[]" never halts; the run reports the exhausted budget as None.
    let parser = Parser::new();
    let tokens = parser.parse("+[]".to_string()).unwrap();
    let mut interpreter = Interpreter::new();
    assert_eq!(interpreter.run(tokens, 100), None);
}

#[test]
fn nested_loop_multiplication() {
    // 3 * 4 by repeated addition: "+++[>++++<-]>." prints 12.
    let parser = Parser::new();
    let tokens = parser.parse("+++[>++++<-]>.".to_string()).unwrap();
    let mut interpreter = Interpreter::new();
    assert_eq!(interpreter.run(tokens, STEPS), Some(Ok(())));
    assert_eq!(interpreter.io().output, vec![12]);
}
