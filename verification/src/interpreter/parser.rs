//! The parser: a recursive-descent scanner turning raw source text into an
//! instruction tree, matching nested loop delimiters and tracking source
//! positions for diagnostics.
//!
//! The scanner makes a single left-to-right pass. Six characters map directly
//! to a leaf token; `[` starts a nested helper that accumulates a loop body
//! until the matching `]`; every other character is ignored as a comment,
//! except a newline, which advances the line counter. An unmatched `]` is a
//! syntax fault at its own line and column; reaching end of input inside an
//! open loop is a syntax fault at the position just past the last character.
//!
//! [`parse_model`] is the mathematical account of this pass, written as a
//! scan over the character sequence with an explicit stack of open loop
//! bodies; [`Parser::parse`] is proved to return exactly what it says.

use vstd::prelude::*;

use crate::interpreter::ast::Instr;
use crate::interpreter::ast::Token;
use crate::interpreter::ast::flat_count_instr;
use crate::interpreter::ast::flat_count_seq;
use crate::interpreter::ast::tokens_model;

verus! {

broadcast use crate::interpreter::ast::lemma_tokens_model_props;

/// A parser responsible for consuming source input as text and returning a
/// structured representation of the code.
pub struct Parser {}

/// Structured representation of a parsed program.
pub type ParseResult = Vec<Token>;

/// Error returned when parsing source text.
#[derive(Debug, PartialEq, Eq)]
pub enum ParseError {
    /// Attempted to read a source file that does not exist or is not accessible.
    SourceFileNotFound(String),
    /// The source contains a syntactical error: an unmatched `]`, reported at
    /// its line and column with the character `]`, or an unmatched trailing
    /// `[`, reported at the position just past the end of input with the
    /// character `'\0'`. Lines and columns start at 1.
    SyntaxError(usize, usize, char),
}

/// Whether `c` maps directly to a leaf instruction.
pub open spec fn is_cmd(c: char) -> bool {
    c == '+' || c == '-' || c == '>' || c == '<' || c == '.' || c == ','
}

/// The leaf instruction a command character maps to.
pub open spec fn instr_of(c: char) -> Instr
    recommends
        is_cmd(c),
{
    if c == '+' {
        Instr::Inc
    } else if c == '-' {
        Instr::Dec
    } else if c == '>' {
        Instr::MoveRight
    } else if c == '<' {
        Instr::MoveLeft
    } else if c == '.' {
        Instr::Print
    } else {
        Instr::Read
    }
}

/// The 1-based line on which the character at index `i` stands (or, for
/// `i == s.len()`, the line just past the end of input): line 1 plus the
/// number of newlines strictly before `i`.
pub open spec fn pos_line(s: Seq<char>, i: int) -> int
    decreases i,
{
    if i <= 0 {
        1
    } else if s[i - 1] == '\n' {
        pos_line(s, i - 1) + 1
    } else {
        pos_line(s, i - 1)
    }
}

/// The 1-based column at which the character at index `i` stands (or, for
/// `i == s.len()`, the column just past the end of input): a newline resets
/// the column, every other character advances it by one.
pub open spec fn pos_col(s: Seq<char>, i: int) -> int
    decreases i,
{
    if i <= 0 {
        1
    } else if s[i - 1] == '\n' {
        1
    } else {
        pos_col(s, i - 1) + 1
    }
}

/// Positions are at least 1 and grow at most one per character.
pub proof fn lemma_pos_bounds(s: Seq<char>, i: int)
    requires
        0 <= i,
    ensures
        1 <= pos_line(s, i) <= i + 1,
        1 <= pos_col(s, i) <= i + 1,
    decreases i,
{
    if i > 0 {
        lemma_pos_bounds(s, i - 1);
    }
}

/// The mathematical outcome of parsing: a program tree, or a syntax fault
/// with its line, column and offending character (`'\0'` for end of input).
pub enum ParseModel {
    Tree(Seq<Instr>),
    Fault(int, int, char),
}

/// Appends one instruction to the top entry of a stack of open loop bodies.
pub open spec fn push_top(stack: Seq<Seq<Instr>>, i: Instr) -> Seq<Seq<Instr>>
    recommends
        stack.len() >= 1,
{
    stack.update(stack.len() - 1, stack.last().push(i))
}

/// Closes the innermost open loop: its body is wrapped in a `Loop`
/// instruction and appended to the body below it.
pub open spec fn pop_wrap(stack: Seq<Seq<Instr>>) -> Seq<Seq<Instr>>
    recommends
        stack.len() >= 2,
{
    stack.drop_last().drop_last().push(
        stack[stack.len() - 2].push(Instr::Loop(stack.last())),
    )
}

/// One scan step per character from index `i`, over a stack of open loop
/// bodies whose bottom entry is the top-level program.
pub open spec fn parse_from(s: Seq<char>, i: int, stack: Seq<Seq<Instr>>) -> ParseModel
    recommends
        0 <= i <= s.len(),
        stack.len() >= 1,
    decreases s.len() - i,
{
    if i < 0 || i >= s.len() {
        if stack.len() == 1 {
            ParseModel::Tree(stack[0])
        } else {
            ParseModel::Fault(pos_line(s, s.len() as int), pos_col(s, s.len() as int), '\0')
        }
    } else {
        let c = s[i];
        if is_cmd(c) {
            parse_from(s, i + 1, push_top(stack, instr_of(c)))
        } else if c == '[' {
            parse_from(s, i + 1, stack.push(Seq::empty()))
        } else if c == ']' {
            if stack.len() <= 1 {
                ParseModel::Fault(pos_line(s, i), pos_col(s, i), ']')
            } else {
                parse_from(s, i + 1, pop_wrap(stack))
            }
        } else {
            parse_from(s, i + 1, stack)
        }
    }
}

/// What parsing a whole source yields.
pub open spec fn parse_model(s: Seq<char>) -> ParseModel {
    parse_from(s, 0, seq![Seq::empty()])
}

impl Parser {
    /// Constructs a new parser.
    pub fn new() -> (r: Self)
        ensures
            r == (Parser {  }),
    {
        Parser {  }
    }

    /// Processes a basic operation character and generates the associated token.
    pub fn process_op(&self, token: char) -> (r: Option<Token>)
        ensures
            token == '+' ==> r == Some(Token::Inc),
            token == '-' ==> r == Some(Token::Dec),
            token == '>' ==> r == Some(Token::MoveRight),
            token == '<' ==> r == Some(Token::MoveLeft),
            token == '.' ==> r == Some(Token::Print),
            token == ',' ==> r == Some(Token::Read),
            !is_cmd(token) ==> r is None,
            r matches Some(t) ==> (is_cmd(token) && t.model() == instr_of(token)),
    {
        match token {
            '+' => Some(Token::Inc),
            '-' => Some(Token::Dec),
            '>' => Some(Token::MoveRight),
            '<' => Some(Token::MoveLeft),
            '.' => Some(Token::Print),
            ',' => Some(Token::Read),
            _ => None,
        }
    }

    /// Parses a string of source code.
    ///
    /// Returns the program tree exactly as [`parse_model`] describes it, or
    /// the syntax fault that [`parse_model`] places at the offending
    /// character. The character count must be addressable, which every string
    /// held in memory satisfies.
    #[verifier::loop_isolation(false)]
    pub fn parse(&self, contents: String) -> (r: Result<ParseResult, ParseError>)
        requires
            contents@.len() < usize::MAX,
        ensures
            r matches Ok(tokens) ==> parse_model(contents@) == ParseModel::Tree(
                tokens_model(tokens@),
            ),
            r matches Err(ParseError::SyntaxError(l, c, ch)) ==> parse_model(contents@)
                == ParseModel::Fault(l as int, c as int, ch),
            !(r matches Err(ParseError::SourceFileNotFound(_))),
    {
        let chars = chars_of(contents.as_str());
        let ghost s = contents@;
        let mut tokens: Vec<Token> = Vec::new();
        let mut line: usize = 1;
        let mut col: usize = 1;
        let mut i: usize = 0;
        while i < chars.len()
            invariant
                i <= s.len(),
                chars@ == s,
                line == pos_line(s, i as int),
                col == pos_col(s, i as int),
                parse_model(s) == parse_from(s, i as int, seq![tokens_model(tokens@)]),
            decreases s.len() - i,
        {
            let ghost accm = tokens_model(tokens@);
            proof {
                lemma_pos_bounds(s, i as int);
            }
            let c = chars[i];
            match self.process_op(c) {
                Some(op_token) => {
                    proof {
                        assert(push_top(seq![accm], instr_of(c)) =~= seq![
                            accm.push(instr_of(c)),
                        ]);
                        assert(tokens_model(tokens@.push(op_token)) =~= accm.push(
                            op_token.model(),
                        ));
                    }
                    tokens.push(op_token);
                },
                None => {
                    if c == '[' {
                        proof {
                            assert(seq![accm].push(Seq::<Instr>::empty()) == seq![
                                accm,
                                Seq::<Instr>::empty(),
                            ]);
                        }
                        match self.parse_loop(&chars, i + 1, line, col + 1) {
                            Ok((loop_tokens, j, l2, c2)) => {
                                proof {
                                    let st: Seq<Seq<Instr>> = seq![accm];
                                    assert(parse_from(s, i as int + 1, st.push(Seq::empty()))
                                        == parse_from(
                                        s,
                                        j as int,
                                        push_top(st, Instr::Loop(tokens_model(loop_tokens@))),
                                    ));
                                    assert(push_top(st, Instr::Loop(tokens_model(loop_tokens@)))
                                        =~= seq![
                                        accm.push(Instr::Loop(tokens_model(loop_tokens@))),
                                    ]);
                                    assert(tokens_model(
                                        tokens@.push(Token::Loop(loop_tokens)),
                                    ) =~= accm.push(Instr::Loop(tokens_model(loop_tokens@))));
                                }
                                tokens.push(Token::Loop(loop_tokens));
                                i = j;
                                line = l2;
                                col = c2;
                                continue;
                            },
                            Err(e) => {
                                proof {
                                    let st: Seq<Seq<Instr>> = seq![accm];
                                    assert(parse_from(s, i as int + 1, st.push(Seq::empty()))
                                        == parse_model(s));
                                }
                                return Err(e);
                            },
                        }
                    } else if c == ']' {
                        return Err(ParseError::SyntaxError(line, col, ']'));
                    } else if c == '\n' {
                        line = line + 1;
                        col = 1;
                        i = i + 1;
                        continue;
                    }
                },
            }
            col = col + 1;
            i = i + 1;
        }
        proof {
            assert(parse_from(s, i as int, seq![tokens_model(tokens@)]) == ParseModel::Tree(
                tokens_model(tokens@),
            ));
        }
        Ok(tokens)
    }

    /// The specialized, recursive helper used to parse loops with any level
    /// of nesting: accumulates the body opened by a `[` until its matching
    /// `]`, and returns the body tokens, the index just past the `]`, and the
    /// line and column standing there.
    #[verifier::loop_isolation(false)]
    fn parse_loop(&self, chars: &Vec<char>, start: usize, line: usize, col: usize) -> (r: Result<
        (Vec<Token>, usize, usize, usize),
        ParseError,
    >)
        requires
            start <= chars@.len(),
            chars@.len() < usize::MAX,
            line == pos_line(chars@, start as int),
            col == pos_col(chars@, start as int),
        ensures
            r matches Ok((toks, j, l2, c2)) ==> {
                &&& start < j <= chars@.len()
                &&& l2 == pos_line(chars@, j as int)
                &&& c2 == pos_col(chars@, j as int)
                &&& forall|st: Seq<Seq<Instr>>|
                    st.len() >= 1 ==> #[trigger] parse_from(
                        chars@,
                        start as int,
                        st.push(Seq::empty()),
                    ) == parse_from(chars@, j as int, push_top(st, Instr::Loop(tokens_model(toks@))))
            },
            r matches Err(e) ==> {
                &&& e matches ParseError::SyntaxError(l, c, ch)
                &&& forall|st: Seq<Seq<Instr>>|
                    st.len() >= 1 ==> #[trigger] parse_from(
                        chars@,
                        start as int,
                        st.push(Seq::empty()),
                    ) == ParseModel::Fault(l as int, c as int, ch)
            },
        decreases chars@.len() - start,
    {
        let ghost s = chars@;
        let mut loop_tokens: Vec<Token> = Vec::new();
        let mut line = line;
        let mut col = col;
        let mut i: usize = start;
        loop
            invariant
                start <= i <= s.len(),
                chars@ == s,
                s.len() < usize::MAX,
                line == pos_line(s, i as int),
                col == pos_col(s, i as int),
                forall|st: Seq<Seq<Instr>>|
                    st.len() >= 1 ==> #[trigger] parse_from(s, start as int, st.push(Seq::empty()))
                        == parse_from(s, i as int, st.push(tokens_model(loop_tokens@))),
            decreases s.len() - i,
        {
            let ghost accm = tokens_model(loop_tokens@);
            proof {
                lemma_pos_bounds(s, i as int);
            }
            if i >= chars.len() {
                // End of input inside an open loop.
                proof {
                    assert forall|st: Seq<Seq<Instr>>| st.len() >= 1 implies #[trigger] parse_from(
                        s,
                        start as int,
                        st.push(Seq::empty()),
                    ) == ParseModel::Fault(
                        pos_line(s, s.len() as int),
                        pos_col(s, s.len() as int),
                        '\0',
                    ) by {
                        assert(parse_from(s, start as int, st.push(Seq::empty())) == parse_from(
                            s,
                            i as int,
                            st.push(accm),
                        ));
                        assert(st.push(accm).len() >= 2);
                    }
                }
                return Err(ParseError::SyntaxError(line, col, '\0'));
            }
            let c = chars[i];
            match self.process_op(c) {
                Some(op_token) => {
                    proof {
                        assert forall|st: Seq<Seq<Instr>>| st.len() >= 1 implies #[trigger] parse_from(
                            s,
                            start as int,
                            st.push(Seq::empty()),
                        ) == parse_from(
                            s,
                            i as int + 1,
                            st.push(tokens_model(loop_tokens@.push(op_token))),
                        ) by {
                            assert(parse_from(s, start as int, st.push(Seq::empty()))
                                == parse_from(s, i as int, st.push(accm)));
                            assert(push_top(st.push(accm), instr_of(c)) =~= st.push(
                                accm.push(instr_of(c)),
                            ));
                            assert(tokens_model(loop_tokens@.push(op_token)) =~= accm.push(
                                op_token.model(),
                            ));
                        }
                    }
                    loop_tokens.push(op_token);
                },
                None => {
                    if c == '[' {
                        match self.parse_loop(chars, i + 1, line, col + 1) {
                            Ok((sub_tokens, j, l2, c2)) => {
                                proof {
                                    assert forall|st: Seq<Seq<Instr>>| st.len() >= 1 implies #[trigger] parse_from(
                                        s,
                                        start as int,
                                        st.push(Seq::empty()),
                                    ) == parse_from(
                                        s,
                                        j as int,
                                        st.push(
                                            tokens_model(
                                                loop_tokens@.push(Token::Loop(sub_tokens)),
                                            ),
                                        ),
                                    ) by {
                                        assert(parse_from(s, start as int, st.push(Seq::empty()))
                                            == parse_from(s, i as int, st.push(accm)));
                                        let st2 = st.push(accm);
                                        assert(parse_from(
                                            s,
                                            i as int + 1,
                                            st2.push(Seq::empty()),
                                        ) == parse_from(
                                            s,
                                            j as int,
                                            push_top(st2, Instr::Loop(tokens_model(sub_tokens@))),
                                        ));
                                        assert(push_top(
                                            st2,
                                            Instr::Loop(tokens_model(sub_tokens@)),
                                        ) =~= st.push(
                                            accm.push(Instr::Loop(tokens_model(sub_tokens@))),
                                        ));
                                        assert(tokens_model(
                                            loop_tokens@.push(Token::Loop(sub_tokens)),
                                        ) =~= accm.push(Instr::Loop(tokens_model(sub_tokens@))));
                                    }
                                }
                                loop_tokens.push(Token::Loop(sub_tokens));
                                i = j;
                                line = l2;
                                col = c2;
                                continue;
                            },
                            Err(e) => {
                                proof {
                                    assert forall|st: Seq<Seq<Instr>>| st.len() >= 1 implies #[trigger] parse_from(
                                        s,
                                        start as int,
                                        st.push(Seq::empty()),
                                    ) == parse_from(s, i as int + 1, st.push(accm).push(
                                        Seq::empty(),
                                    )) by {
                                        assert(parse_from(s, start as int, st.push(Seq::empty()))
                                            == parse_from(s, i as int, st.push(accm)));
                                    }
                                }
                                return Err(e);
                            },
                        }
                    } else if c == ']' {
                        // The matching close bracket: this loop is complete.
                        proof {
                            assert forall|st: Seq<Seq<Instr>>| st.len() >= 1 implies #[trigger] parse_from(
                                s,
                                start as int,
                                st.push(Seq::empty()),
                            ) == parse_from(
                                s,
                                i as int + 1,
                                push_top(st, Instr::Loop(tokens_model(loop_tokens@))),
                            ) by {
                                assert(parse_from(s, start as int, st.push(Seq::empty()))
                                    == parse_from(s, i as int, st.push(accm)));
                                assert(st.push(accm).len() >= 2);
                                assert(pop_wrap(st.push(accm)) =~= push_top(
                                    st,
                                    Instr::Loop(accm),
                                ));
                            }
                        }
                        return Ok((loop_tokens, i + 1, line, col + 1));
                    } else if c == '\n' {
                        line = line + 1;
                        col = 1;
                        i = i + 1;
                        continue;
                    }
                },
            }
            col = col + 1;
            i = i + 1;
        }
    }
}

/// The bracket contribution of one character.
pub open spec fn bracket_delta(c: char) -> int {
    if c == '[' {
        1
    } else if c == ']' {
        -1
    } else {
        0
    }
}

/// The nesting excess of a character sequence: opening brackets minus
/// closing brackets.
pub open spec fn bracket_depth(s: Seq<char>) -> int
    decreases s,
{
    if s.len() == 0 {
        0
    } else {
        bracket_delta(s[0]) + bracket_depth(s.drop_first())
    }
}

/// The number of command characters from index `i` on.
pub open spec fn cmd_count(s: Seq<char>, i: int) -> nat
    decreases s.len() - i,
{
    if i < 0 || i >= s.len() {
        0
    } else {
        (if is_cmd(s[i]) {
            1nat
        } else {
            0nat
        }) + cmd_count(s, i + 1)
    }
}

/// Scanning from index `i` with `d` loops already open: the index of the
/// closing bracket that would end at depth 0, if the scan reaches one.
pub open spec fn finds_close(s: Seq<char>, i: int, d: nat) -> Option<int>
    decreases s.len() - i,
{
    if i < 0 || i >= s.len() {
        None
    } else if s[i] == ']' {
        if d == 0 {
            Some(i)
        } else {
            finds_close(s, i + 1, (d - 1) as nat)
        }
    } else if s[i] == '[' {
        finds_close(s, i + 1, d + 1)
    } else {
        finds_close(s, i + 1, d)
    }
}

/// The nesting excess left at the end of input when scanning from index `i`
/// with excess `d`.
pub open spec fn rest_depth(s: Seq<char>, i: int, d: int) -> int
    decreases s.len() - i,
{
    if i < 0 || i >= s.len() {
        d
    } else {
        rest_depth(s, i + 1, d + bracket_delta(s[i]))
    }
}

/// The leaf instructions held across a whole stack of open loop bodies.
pub open spec fn stack_flat(stack: Seq<Seq<Instr>>) -> nat
    decreases stack,
{
    if stack.len() == 0 {
        0
    } else {
        stack_flat(stack.drop_last()) + flat_count_seq(stack.last())
    }
}

/// Appending one instruction adds its leaf count.
proof fn lemma_flat_push(s: Seq<Instr>, x: Instr)
    ensures
        flat_count_seq(s.push(x)) == flat_count_seq(s) + flat_count_instr(x),
{
    assert(s.push(x).drop_last() =~= s);
}

/// The full characterization of the scan from index `i` over a stack with
/// `stack.len() - 1` open loops: it faults at the closing bracket that
/// [`finds_close`] names; otherwise it faults at end of input exactly when
/// loops stay open; otherwise it yields a tree holding every command
/// character scanned.
pub proof fn lemma_parse_from_characterize(s: Seq<char>, i: int, stack: Seq<Seq<Instr>>)
    requires
        0 <= i <= s.len(),
        stack.len() >= 1,
    ensures
        finds_close(s, i, (stack.len() - 1) as nat) matches Some(j) ==> parse_from(s, i, stack)
            == ParseModel::Fault(pos_line(s, j), pos_col(s, j), ']'),
        finds_close(s, i, (stack.len() - 1) as nat) is None ==> {
            let d_end = rest_depth(s, i, stack.len() - 1);
            &&& d_end >= 0
            &&& (d_end > 0 ==> parse_from(s, i, stack) == ParseModel::Fault(
                pos_line(s, s.len() as int),
                pos_col(s, s.len() as int),
                '\0',
            ))
            &&& (d_end == 0 ==> (parse_from(s, i, stack) matches ParseModel::Tree(toks)
                && flat_count_seq(toks) == stack_flat(stack) + cmd_count(s, i)))
        },
    decreases s.len() - i,
{
    reveal_with_fuel(stack_flat, 3);
    if i >= s.len() {
        if stack.len() == 1 {
            assert(stack.drop_last() =~= Seq::<Seq<Instr>>::empty());
            assert(stack.last() == stack[0]);
            assert(stack_flat(Seq::<Seq<Instr>>::empty()) == 0);
        }
    } else {
        let c = s[i];
        if is_cmd(c) {
            let stack2 = push_top(stack, instr_of(c));
            lemma_parse_from_characterize(s, i + 1, stack2);
            assert(stack2.len() == stack.len());
            assert(stack2.drop_last() =~= stack.drop_last());
            assert(stack2.last() == stack.last().push(instr_of(c)));
            lemma_flat_push(stack.last(), instr_of(c));
            assert(flat_count_instr(instr_of(c)) == 1);
            assert(stack_flat(stack2) == stack_flat(stack) + 1);
            assert(cmd_count(s, i) == 1 + cmd_count(s, i + 1));
        } else if c == '[' {
            let stack2 = stack.push(Seq::<Instr>::empty());
            lemma_parse_from_characterize(s, i + 1, stack2);
            assert(stack2.drop_last() =~= stack);
        } else if c == ']' {
            if stack.len() > 1 {
                let stack2 = pop_wrap(stack);
                lemma_parse_from_characterize(s, i + 1, stack2);
                let a = stack[stack.len() - 2];
                let b = stack.last();
                assert(stack2.len() == stack.len() - 1);
                assert(stack2.last() == a.push(Instr::Loop(b)));
                assert(stack2.drop_last() =~= stack.drop_last().drop_last());
                lemma_flat_push(a, Instr::Loop(b));
                assert(flat_count_instr(Instr::Loop(b)) == flat_count_seq(b));
                assert(stack.drop_last().last() == a);
                assert(stack_flat(stack) == stack_flat(stack.drop_last().drop_last())
                    + flat_count_seq(a) + flat_count_seq(b));
                assert(stack_flat(stack2) == stack_flat(stack));
                assert((stack2.len() - 1) as nat == ((stack.len() - 1) as nat - 1) as nat);
            }
        } else {
            lemma_parse_from_characterize(s, i + 1, stack);
        }
    }
}

/// When every suffix position keeps the nesting excess non-negative, the scan
/// never meets an unmatched closing bracket, and ends with the excess the
/// bracket counts give.
proof fn lemma_no_close(s: Seq<char>, i: int, d: int)
    requires
        0 <= i <= s.len(),
        d >= 0,
        forall|k: int| i <= k <= s.len() ==> d + bracket_depth(#[trigger] s.subrange(i, k)) >= 0,
    ensures
        finds_close(s, i, d as nat) is None,
        rest_depth(s, i, d) == d + bracket_depth(s.subrange(i, s.len() as int)),
    decreases s.len() - i,
{
    reveal_with_fuel(bracket_depth, 2);
    if i < s.len() {
        let d2 = d + bracket_delta(s[i]);
        assert forall|k: int| i + 1 <= k <= s.len() implies d2 + bracket_depth(
            #[trigger] s.subrange(i + 1, k),
        ) >= 0 by {
            assert(s.subrange(i, k).drop_first() =~= s.subrange(i + 1, k));
            assert(d + bracket_depth(s.subrange(i, k)) >= 0);
        }
        assert(s.subrange(i, i + 1).len() == 1);
        assert(s.subrange(i, i + 1)[0] == s[i]);
        assert(s.subrange(i, i + 1).drop_first() =~= Seq::<char>::empty());
        assert(bracket_depth(s.subrange(i, i + 1)) == bracket_delta(s[i]));
        assert(d + bracket_depth(s.subrange(i, i + 1)) >= 0);
        assert(d2 >= 0);
        lemma_no_close(s, i + 1, d2);
        if s[i] == ']' {
            assert(d >= 1);
            assert((d - 1) as nat == d2 as nat);
        }
        assert(s.subrange(i, s.len() as int)[0] == s[i]);
        assert(s.subrange(i, s.len() as int).drop_first() =~= s.subrange(i + 1, s.len() as int));
    } else {
        assert(s.subrange(i, i) =~= Seq::<char>::empty());
    }
}

/// When the excess first returns to zero exactly at the closing bracket at
/// index `j`, the scan finds that bracket.
proof fn lemma_close_found(s: Seq<char>, j: int, i: int, d: int)
    requires
        0 <= i <= j < s.len(),
        s[j] == ']',
        d + bracket_depth(s.subrange(i, j)) == 0,
        forall|k: int| i <= k <= j ==> d + bracket_depth(#[trigger] s.subrange(i, k)) >= 0,
    ensures
        d >= 0,
        finds_close(s, i, d as nat) == Some(j),
    decreases j - i,
{
    reveal_with_fuel(bracket_depth, 2);
    assert(s.subrange(i, i) =~= Seq::<char>::empty());
    if i == j {
        assert(d == 0);
    } else {
        let d2 = d + bracket_delta(s[i]);
        assert forall|k: int| i + 1 <= k <= j implies d2 + bracket_depth(
            #[trigger] s.subrange(i + 1, k),
        ) >= 0 by {
            assert(s.subrange(i, k).drop_first() =~= s.subrange(i + 1, k));
            assert(d + bracket_depth(s.subrange(i, k)) >= 0);
        }
        assert(s.subrange(i, i + 1).len() == 1);
        assert(s.subrange(i, i + 1)[0] == s[i]);
        assert(s.subrange(i, i + 1).drop_first() =~= Seq::<char>::empty());
        assert(bracket_depth(s.subrange(i, i + 1)) == bracket_delta(s[i]));
        assert(d + bracket_depth(s.subrange(i, i + 1)) >= 0);
        assert(s.subrange(i, j)[0] == s[i]);
        assert(s.subrange(i, j).drop_first() =~= s.subrange(i + 1, j));
        lemma_close_found(s, j, i + 1, d2);
        if s[i] == ']' {
            assert(d >= 1);
            assert((d - 1) as nat == d2 as nat);
        }
    }
}

/// For every source whose brackets nest and balance, parsing succeeds, and
/// the flattened instruction count of the tree equals the number of command
/// characters in the source.
pub proof fn lemma_parse_balanced(s: Seq<char>)
    requires
        bracket_depth(s) == 0,
        forall|k: int| 0 <= k <= s.len() ==> bracket_depth(#[trigger] s.take(k)) >= 0,
    ensures
        (parse_model(s) matches ParseModel::Tree(toks) && flat_count_seq(toks) == cmd_count(s, 0)),
{
    assert forall|k: int| 0 <= k <= s.len() implies 0 + bracket_depth(
        #[trigger] s.subrange(0, k),
    ) >= 0 by {
        assert(s.subrange(0, k) =~= s.take(k));
    }
    lemma_no_close(s, 0, 0);
    assert(s.subrange(0, s.len() as int) =~= s);
    lemma_parse_from_characterize(s, 0, seq![Seq::<Instr>::empty()]);
    assert(stack_flat(seq![Seq::<Instr>::empty()]) == 0) by {
        reveal_with_fuel(stack_flat, 2);
        let st: Seq<Seq<Instr>> = seq![Seq::<Instr>::empty()];
        assert(st.len() == 1);
        assert(st.drop_last() =~= Seq::<Seq<Instr>>::empty());
        assert(st.last() =~= Seq::<Instr>::empty());
        assert(flat_count_seq(Seq::<Instr>::empty()) == 0);
    }
}

/// For every source whose first unmatched `]` stands at index `j`, parsing
/// fails with a syntax fault at that character's own line and column.
pub proof fn lemma_parse_unmatched_close(s: Seq<char>, j: int)
    requires
        0 <= j < s.len(),
        s[j] == ']',
        bracket_depth(s.take(j)) == 0,
        forall|k: int| 0 <= k <= j ==> bracket_depth(#[trigger] s.take(k)) >= 0,
    ensures
        parse_model(s) == ParseModel::Fault(pos_line(s, j), pos_col(s, j), ']'),
{
    assert forall|k: int| 0 <= k <= j implies 0 + bracket_depth(
        #[trigger] s.subrange(0, k),
    ) >= 0 by {
        assert(s.subrange(0, k) =~= s.take(k));
    }
    assert(s.subrange(0, j) =~= s.take(j));
    lemma_close_found(s, j, 0, 0);
    lemma_parse_from_characterize(s, 0, seq![Seq::<Instr>::empty()]);
}

/// For every source with no unmatched `]` but an unmatched trailing `[`,
/// parsing fails with a syntax fault referencing the end of input.
pub proof fn lemma_parse_unmatched_open(s: Seq<char>)
    requires
        bracket_depth(s) > 0,
        forall|k: int| 0 <= k <= s.len() ==> bracket_depth(#[trigger] s.take(k)) >= 0,
    ensures
        parse_model(s) == ParseModel::Fault(
            pos_line(s, s.len() as int),
            pos_col(s, s.len() as int),
            '\0',
        ),
{
    assert forall|k: int| 0 <= k <= s.len() implies 0 + bracket_depth(
        #[trigger] s.subrange(0, k),
    ) >= 0 by {
        assert(s.subrange(0, k) =~= s.take(k));
    }
    lemma_no_close(s, 0, 0);
    assert(s.subrange(0, s.len() as int) =~= s);
    lemma_parse_from_characterize(s, 0, seq![Seq::<Instr>::empty()]);
}

/// Collects the characters of a string slice, in order.
fn chars_of(s: &str) -> (r: Vec<char>)
    ensures
        r@ == s@,
{
    broadcast use vstd::string::next_postcondition;

    let mut it = s.chars();
    let mut out: Vec<char> = Vec::new();
    loop
        invariant
            vstd::std_specs::iter::IteratorSpec::remaining(&it) =~= s@.skip(out@.len() as int),
            out@ =~= s@.take(out@.len() as int),
            out@.len() <= s@.len(),
        decreases s@.len() - out@.len(),
    {
        match it.next() {
            Some(c) => {
                proof {
                    assert(s@.skip(out@.len() as int)[0] == s@[out@.len() as int]);
                    assert(s@.skip(out@.len() as int).drop_first() =~= s@.skip(
                        out@.len() as int + 1,
                    ));
                    assert(s@.take(out@.len() as int).push(c) =~= s@.take(out@.len() as int + 1));
                }
                out.push(c);
            },
            None => {
                proof {
                    assert(out@ =~= s@);
                }
                return out;
            },
        }
    }
}

} // verus!
