//! The instruction tree: the token vocabulary produced by the parser and
//! consumed by the interpreter, together with its mathematical model.

use vstd::prelude::*;

use vstd::string::StringExecFns;

verus! {

/// Token that is parsed from source input and can be consumed by an interpreter run.
///
/// A `Loop` owns its body exclusively; the tree has no sharing and no cycles.
/// Tokens are immutable once constructed.
#[derive(Debug, PartialEq, Eq)]
pub enum Token {
    /// Increase the value at the currently pointed-at location by 1, wrapping at 256.
    Inc,
    /// Decrease the value at the currently pointed-at location by 1, wrapping below 0 to 255.
    Dec,
    /// Move the cursor one place to the right.
    MoveRight,
    /// Move the cursor one place to the left.
    MoveLeft,
    /// Run the given list of tokens repeatedly while the pointed-at value is non-zero.
    Loop(Vec<Token>),
    /// Emit the value at the currently pointed-at location through the I/O adapter.
    Print,
    /// Read one byte from the I/O adapter and store it at the currently pointed-at location.
    Read,
}

/// The mathematical model of one instruction: the shape of a [`Token`] with
/// loop bodies abstracted to sequences.
pub enum Instr {
    Inc,
    Dec,
    MoveRight,
    MoveLeft,
    Loop(Seq<Instr>),
    Print,
    Read,
}

impl Token {
    /// The mathematical model of this token.
    pub open spec fn model(&self) -> Instr
        decreases self,
    {
        match self {
            Token::Inc => Instr::Inc,
            Token::Dec => Instr::Dec,
            Token::MoveRight => Instr::MoveRight,
            Token::MoveLeft => Instr::MoveLeft,
            Token::Loop(body) => Instr::Loop(tokens_model(body@)),
            Token::Print => Instr::Print,
            Token::Read => Instr::Read,
        }
    }
}

/// The mathematical model of a token sequence, element by element.
pub open spec fn tokens_model(s: Seq<Token>) -> Seq<Instr>
    decreases s,
{
    if s.len() == 0 {
        Seq::empty()
    } else {
        tokens_model(s.drop_last()).push(s.last().model())
    }
}

/// The model of a token sequence has the same length and models each token
/// at its own position.
pub broadcast proof fn lemma_tokens_model_props(s: Seq<Token>)
    ensures
        (#[trigger] tokens_model(s)).len() == s.len(),
        forall|i: int| 0 <= i < s.len() ==> tokens_model(s)[i] == s[i].model(),
    decreases s,
{
    if s.len() > 0 {
        lemma_tokens_model_props(s.drop_last());
        assert forall|i: int| 0 <= i < s.len() implies tokens_model(s)[i] == s[i].model() by {
            if i < s.len() - 1 {
                assert(s.drop_last()[i] == s[i]);
            }
        }
    }
}

/// The number of leaf instructions in one instruction: a `Loop` contributes
/// the count of its body, every other instruction counts as one.
pub open spec fn flat_count_instr(i: Instr) -> nat
    decreases i,
{
    match i {
        Instr::Loop(body) => flat_count_seq(body),
        _ => 1,
    }
}

/// The number of leaf instructions in an instruction sequence.
pub open spec fn flat_count_seq(s: Seq<Instr>) -> nat
    decreases s,
{
    if s.len() == 0 {
        0
    } else {
        flat_count_seq(s.drop_last()) + flat_count_instr(s.last())
    }
}

/// The character sequence [`Token::render`] yields for one instruction.
pub open spec fn render_model(i: Instr) -> Seq<char>
    decreases i,
{
    match i {
        Instr::Inc => "Inc"@,
        Instr::Dec => "Dec"@,
        Instr::MoveRight => "MoveRght"@,
        Instr::MoveLeft => "MoveLeft"@,
        Instr::Print => "Print"@,
        Instr::Read => "Read"@,
        Instr::Loop(body) => "Loop["@ + render_items(body) + "]"@,
    }
}

/// The rendering of a loop body: every instruction followed by a comma.
pub open spec fn render_items(s: Seq<Instr>) -> Seq<char>
    decreases s,
{
    if s.len() == 0 {
        Seq::empty()
    } else {
        render_items(s.drop_last()) + render_model(s.last()) + ","@
    }
}

impl Token {
    /// Renders this token for diagnostics, with a loop shown as `Loop[...]`
    /// holding its comma-terminated body items.
    #[verifier::loop_isolation(false)]
    pub fn render(&self) -> (r: String)
        ensures
            r@ == render_model(self.model()),
        decreases self,
    {
        match self {
            Token::Inc => "Inc".to_owned(),
            Token::Dec => "Dec".to_owned(),
            Token::MoveRight => "MoveRght".to_owned(),
            Token::MoveLeft => "MoveLeft".to_owned(),
            Token::Print => "Print".to_owned(),
            Token::Read => "Read".to_owned(),
            Token::Loop(vec) => {
                let ghost m = tokens_model(vec@);
                let mut out: String = "Loop[".to_owned();
                let mut j: usize = 0;
                proof {
                    lemma_tokens_model_props(vec@);
                    assert(m.take(0) =~= Seq::<Instr>::empty());
                    assert(out@ =~= "Loop["@ + render_items(m.take(0)));
                }
                while j < vec.len()
                    invariant
                        j <= vec@.len(),
                        m.len() == vec@.len(),
                        forall|k: int| 0 <= k < m.len() ==> m[k] == vec@[k].model(),
                        out@ == "Loop["@ + render_items(m.take(j as int)),
                    decreases vec@.len() - j,
                {
                    let piece = vec[j].render();
                    out.append(piece.as_str());
                    out.append(",");
                    proof {
                        assert(m.take(j as int + 1).drop_last() =~= m.take(j as int));
                        assert(m.take(j as int + 1).last() == vec@[j as int].model());
                        assert(out@ =~= "Loop["@ + render_items(m.take(j as int + 1)));
                    }
                    j += 1;
                }
                out.append("]");
                proof {
                    assert(m.take(j as int) =~= m);
                    assert(out@ =~= "Loop["@ + render_items(m) + "]"@);
                }
                out
            },
        }
    }
}

} // verus!
