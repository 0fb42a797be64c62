use crusterfuck::interpreter::ast::Token;
use crusterfuck::interpreter::parser::ParseError;
use crusterfuck::interpreter::parser::Parser;

/// The number of leaf instructions in a tree, loops contributing their bodies.
fn flat_count(tokens: &Vec<Token>) -> usize {
    let mut n = 0;
    for t in tokens {
        match t {
            Token::Loop(body) => n += flat_count(body),
            _ => n += 1,
        }
    }
    n
}

#[test]
fn parse_six_commands() {
    let parser = Parser::new();
    let tokens = parser.parse("+-><.,".to_string()).unwrap();
    assert_eq!(
        tokens,
        vec![
            Token::Inc,
            Token::Dec,
            Token::MoveRight,
            Token::MoveLeft,
            Token::Print,
            Token::Read,
        ]
    );
}

#[test]
fn parse_empty_source() {
    let parser = Parser::new();
    assert_eq!(parser.parse(String::new()).unwrap(), vec![]);
}

#[test]
fn parse_ignores_comments() {
    let parser = Parser::new();
    let tokens = parser.parse("a+b\nc- hello".to_string()).unwrap();
    assert_eq!(tokens, vec![Token::Inc, Token::Dec]);
}

#[test]
fn parse_nested_loops() {
    let parser = Parser::new();
    let tokens = parser.parse("+[>[-]<]".to_string()).unwrap();
    assert_eq!(
        tokens,
        vec![
            Token::Inc,
            Token::Loop(vec![
                Token::MoveRight,
                Token::Loop(vec![Token::Dec]),
                Token::MoveLeft,
            ]),
        ]
    );
}

#[test]
fn balanced_source_keeps_command_count() {
    // Balanced nesting: the flattened instruction count equals the number of
    // command characters (five `+` here, brackets and comments not counted).
    let parser = Parser::new();
    let tokens = parser.parse("+[+[+ x]+]+".to_string()).unwrap();
    assert_eq!(flat_count(&tokens), 5);
}

#[test]
fn deep_nesting_parses() {
    let parser = Parser::new();
    let mut source = String::new();
    for _ in 0..200 {
        source.push('[');
    }
    source.push('+');
    for _ in 0..200 {
        source.push(']');
    }
    let tokens = parser.parse(source).unwrap();
    assert_eq!(flat_count(&tokens), 1);
}

#[test]
fn lone_close_bracket_faults_at_line_one_col_one() {
    let parser = Parser::new();
    let result = parser.parse("]".to_string());
    assert_eq!(result, Err(ParseError::SyntaxError(1, 1, ']')));
}

#[test]
fn unmatched_close_carries_true_column() {
    // The unmatched `]` is the fifth character of line 1, just after a
    // complete loop.
    let parser = Parser::new();
    let result = parser.parse("+[-]]".to_string());
    assert_eq!(result, Err(ParseError::SyntaxError(1, 5, ']')));
}

#[test]
fn unmatched_close_carries_true_line() {
    // Lines advance on newlines and the column restarts at 1.
    let parser = Parser::new();
    let result = parser.parse("ab\n+]".to_string());
    assert_eq!(result, Err(ParseError::SyntaxError(2, 2, ']')));
}

#[test]
fn unmatched_close_inside_nested_loop_is_absolute() {
    // The fault comes out of two levels of nesting with absolute coordinates.
    let parser = Parser::new();
    let result = parser.parse("[[x]\n]]".to_string());
    assert_eq!(result, Err(ParseError::SyntaxError(2, 2, ']')));
}

#[test]
fn unmatched_open_references_end_of_input() {
    let parser = Parser::new();
    let result = parser.parse("+[".to_string());
    assert_eq!(result, Err(ParseError::SyntaxError(1, 3, '\0')));
}

#[test]
fn unmatched_open_after_newline_references_end_of_input() {
    let parser = Parser::new();
    let result = parser.parse("[\n".to_string());
    assert_eq!(result, Err(ParseError::SyntaxError(2, 1, '\0')));
}

#[test]
fn process_op_maps_command_characters() {
    let parser = Parser::new();
    assert_eq!(parser.process_op('+'), Some(Token::Inc));
    assert_eq!(parser.process_op('-'), Some(Token::Dec));
    assert_eq!(parser.process_op('>'), Some(Token::MoveRight));
    assert_eq!(parser.process_op('<'), Some(Token::MoveLeft));
    assert_eq!(parser.process_op('.'), Some(Token::Print));
    assert_eq!(parser.process_op(','), Some(Token::Read));
    assert_eq!(parser.process_op('x'), None);
    assert_eq!(parser.process_op('['), None);
}
