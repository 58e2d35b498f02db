//! Formulas in reverse Polish notation, read into programs for a stack
//! machine.
//!
//! A formula is a line of words. Read from left to right, a number or a
//! variable puts a value on the stack, an operator takes two values off and
//! puts one back, a function replaces the top value. A word that is none of
//! these is passed over, and so is an operator or function that does not find
//! its operands. What is left is the program: the steps that take effect, in
//! order. Running a program therefore never finds the stack too short.

use crate::hat::number::{is_number, number};
use crate::hat::text::{chars_of, lemma_words_within, split_words, words, Span};
use vstd::prelude::*;

verus! {

/// One step of a program.
#[derive(Debug, Clone, Copy, PartialEq, Eq, Structural)]
pub enum Op {
    /// Push the number that is written at this place in the formula.
    Number(Span),
    /// Push the horizontal position.
    X,
    /// Push the vertical position.
    Y,
    /// Push the time.
    T,
    /// `a b +`
    Add,
    /// `a b -`
    Sub,
    /// `a b *`
    Mul,
    /// `a b /`, and 0 where `b` is 0.
    Div,
    /// `a b %`, and 0 where `b` is 0.
    Rem,
    /// `a b ^` or `a b pow`: `a` to the power of `b`.
    Pow,
    /// Cosine of the argument in half turns.
    Cos,
    /// Sine of the argument in half turns.
    Sin,
    /// Tangent of the argument in half turns.
    Tan,
    /// Arc cosine, in half turns.
    Acos,
    /// Arc sine, in half turns.
    Asin,
    /// Arc tangent, in half turns.
    Atan,
    /// Square root.
    Sqrt,
    /// Exponential.
    Exp,
    /// Absolute value.
    Abs,
}

pub open spec fn spells1(w: Seq<char>, a: char) -> bool {
    w.len() == 1 && w[0] == a
}

pub open spec fn spells3(w: Seq<char>, a: char, b: char, c: char) -> bool {
    w.len() == 3 && w[0] == a && w[1] == b && w[2] == c
}

pub open spec fn spells4(w: Seq<char>, a: char, b: char, c: char, d: char) -> bool {
    w.len() == 4 && w[0] == a && w[1] == b && w[2] == c && w[3] == d
}

/// What the variable, operator or function named `w` does; `None` where `w`
/// names none.
pub open spec fn named_op(w: Seq<char>) -> Option<Op> {
    if spells1(w, 'x') {
        Some(Op::X)
    } else if spells1(w, 'y') {
        Some(Op::Y)
    } else if spells1(w, 't') {
        Some(Op::T)
    } else if spells1(w, '+') {
        Some(Op::Add)
    } else if spells1(w, '-') {
        Some(Op::Sub)
    } else if spells1(w, '*') {
        Some(Op::Mul)
    } else if spells1(w, '/') {
        Some(Op::Div)
    } else if spells1(w, '%') {
        Some(Op::Rem)
    } else if spells1(w, '^') || spells3(w, 'p', 'o', 'w') {
        Some(Op::Pow)
    } else if spells3(w, 'c', 'o', 's') {
        Some(Op::Cos)
    } else if spells3(w, 's', 'i', 'n') {
        Some(Op::Sin)
    } else if spells3(w, 't', 'a', 'n') {
        Some(Op::Tan)
    } else if spells4(w, 'a', 'c', 'o', 's') {
        Some(Op::Acos)
    } else if spells4(w, 'a', 's', 'i', 'n') {
        Some(Op::Asin)
    } else if spells4(w, 'a', 't', 'a', 'n') {
        Some(Op::Atan)
    } else if spells4(w, 's', 'q', 'r', 't') {
        Some(Op::Sqrt)
    } else if spells3(w, 'e', 'x', 'p') {
        Some(Op::Exp)
    } else if spells3(w, 'a', 'b', 's') {
        Some(Op::Abs)
    } else {
        None
    }
}

/// What the word at `at` in `s` asks for: a number where it is a numeric
/// literal, else what its name stands for, else nothing.
pub open spec fn word_op(s: Seq<char>, at: Span) -> Option<Op> {
    let w = s.subrange(at.start as int, at.end as int);
    if is_number(w) {
        Some(Op::Number(at))
    } else {
        named_op(w)
    }
}

/// How many values `op` takes off the stack. Each step puts one value on.
pub open spec fn operands(op: Op) -> int {
    match op {
        Op::Number(_) | Op::X | Op::Y | Op::T => 0,
        Op::Add | Op::Sub | Op::Mul | Op::Div | Op::Rem | Op::Pow => 2,
        _ => 1,
    }
}

/// How many values are on the stack after the first `n` steps of `ops`.
pub open spec fn depth(ops: Seq<Op>, n: int) -> int
    decreases n,
{
    if n <= 0 {
        0
    } else {
        depth(ops, n - 1) - operands(ops[n - 1]) + 1
    }
}

/// How many values are on the stack after all of `ops`.
pub open spec fn final_depth(ops: Seq<Op>) -> int {
    depth(ops, ops.len() as int)
}

/// Whether every step of `ops` finds its operands on the stack.
pub open spec fn runs(ops: Seq<Op>) -> bool {
    forall|k: int| 0 <= k < ops.len() ==> #[trigger] depth(ops, k) >= operands(ops[k])
}

/// The steps that take effect among the first `n` of `found`, the words of
/// `s`: each word that asks for a step whose operands are there.
pub open spec fn steps(s: Seq<char>, found: Seq<Span>, n: int) -> Seq<Op>
    decreases n,
{
    if n <= 0 {
        Seq::empty()
    } else {
        let before = steps(s, found, n - 1);
        match word_op(s, found[n - 1]) {
            Some(op) => if final_depth(before) >= operands(op) {
                before.push(op)
            } else {
                before
            },
            None => before,
        }
    }
}

/// The program that the formula `s` stands for.
pub open spec fn program(s: Seq<char>) -> Seq<Op> {
    let found = words(s, s.len() as int);
    steps(s, found, found.len() as int)
}

/// The depth after the steps of a prefix does not depend on what follows.
pub proof fn lemma_depth_prefix(ops: Seq<Op>, op: Op, n: int)
    requires
        0 <= n <= ops.len(),
    ensures
        depth(ops.push(op), n) == depth(ops, n),
    decreases n,
{
    if n > 0 {
        lemma_depth_prefix(ops, op, n - 1);
        assert(ops.push(op)[n - 1] == ops[n - 1]);
    }
}

/// A program that runs still runs with one more step whose operands are
/// there.
pub proof fn lemma_runs_push(ops: Seq<Op>, op: Op)
    requires
        runs(ops),
        final_depth(ops) >= operands(op),
    ensures
        runs(ops.push(op)),
        final_depth(ops.push(op)) == final_depth(ops) - operands(op) + 1,
{
    let longer = ops.push(op);
    assert forall|k: int| 0 <= k < longer.len() implies #[trigger] depth(longer, k) >= operands(
        longer[k],
    ) by {
        lemma_depth_prefix(ops, op, k);
        if k < ops.len() {
            assert(longer[k] == ops[k]);
        }
    }
    lemma_depth_prefix(ops, op, ops.len() as int);
    assert(longer[ops.len() as int] == op);
}

/// Every program read from a formula runs: no step is left without its
/// operands.
pub proof fn lemma_steps_run(s: Seq<char>, found: Seq<Span>, n: int)
    requires
        0 <= n <= found.len(),
    ensures
        runs(steps(s, found, n)),
        final_depth(steps(s, found, n)) >= 0,
        steps(s, found, n).len() <= n,
    decreases n,
{
    if n > 0 {
        lemma_steps_run(s, found, n - 1);
        let before = steps(s, found, n - 1);
        match word_op(s, found[n - 1]) {
            Some(op) => {
                if final_depth(before) >= operands(op) {
                    lemma_runs_push(before, op);
                }
            },
            None => {},
        }
    }
}

/// Every program read from a formula runs: no step is left without its
/// operands.
pub proof fn lemma_program_runs(s: Seq<char>)
    ensures
        runs(program(s)),
{
    let found = words(s, s.len() as int);
    lemma_steps_run(s, found, found.len() as int);
}

fn word1(text: &Vec<char>, at: Span, a: char) -> (b: bool)
    requires
        at.start <= at.end <= text.len(),
    ensures
        b == spells1(text@.subrange(at.start as int, at.end as int), a),
{
    at.end - at.start == 1 && text[at.start] == a
}

fn word3(text: &Vec<char>, at: Span, a: char, b: char, c: char) -> (r: bool)
    requires
        at.start <= at.end <= text.len(),
    ensures
        r == spells3(text@.subrange(at.start as int, at.end as int), a, b, c),
{
    at.end - at.start == 3 && text[at.start] == a && text[at.start + 1] == b && text[at.start + 2]
        == c
}

fn word4(text: &Vec<char>, at: Span, a: char, b: char, c: char, d: char) -> (r: bool)
    requires
        at.start <= at.end <= text.len(),
    ensures
        r == spells4(text@.subrange(at.start as int, at.end as int), a, b, c, d),
{
    at.end - at.start == 4 && text[at.start] == a && text[at.start + 1] == b && text[at.start + 2]
        == c && text[at.start + 3] == d
}

/// The characters of the word at `at`.
fn word_at(text: &Vec<char>, at: Span) -> (w: Vec<char>)
    requires
        at.start <= at.end <= text.len(),
    ensures
        w@ == text@.subrange(at.start as int, at.end as int),
{
    let mut w: Vec<char> = Vec::new();
    let mut i: usize = at.start;
    while i < at.end
        invariant
            at.start <= i <= at.end <= text.len(),
            w@ == text@.subrange(at.start as int, i as int),
        decreases at.end - i,
    {
        w.push(text[i]);
        i = i + 1;
    }
    w
}

/// What the variable, operator or function named at `at` does.
fn named(text: &Vec<char>, at: Span) -> (op: Option<Op>)
    requires
        at.start <= at.end <= text.len(),
    ensures
        op == named_op(text@.subrange(at.start as int, at.end as int)),
{
    if word1(text, at, 'x') {
        Some(Op::X)
    } else if word1(text, at, 'y') {
        Some(Op::Y)
    } else if word1(text, at, 't') {
        Some(Op::T)
    } else if word1(text, at, '+') {
        Some(Op::Add)
    } else if word1(text, at, '-') {
        Some(Op::Sub)
    } else if word1(text, at, '*') {
        Some(Op::Mul)
    } else if word1(text, at, '/') {
        Some(Op::Div)
    } else if word1(text, at, '%') {
        Some(Op::Rem)
    } else if word1(text, at, '^') || word3(text, at, 'p', 'o', 'w') {
        Some(Op::Pow)
    } else if word3(text, at, 'c', 'o', 's') {
        Some(Op::Cos)
    } else if word3(text, at, 's', 'i', 'n') {
        Some(Op::Sin)
    } else if word3(text, at, 't', 'a', 'n') {
        Some(Op::Tan)
    } else if word4(text, at, 'a', 'c', 'o', 's') {
        Some(Op::Acos)
    } else if word4(text, at, 'a', 's', 'i', 'n') {
        Some(Op::Asin)
    } else if word4(text, at, 'a', 't', 'a', 'n') {
        Some(Op::Atan)
    } else if word4(text, at, 's', 'q', 'r', 't') {
        Some(Op::Sqrt)
    } else if word3(text, at, 'e', 'x', 'p') {
        Some(Op::Exp)
    } else if word3(text, at, 'a', 'b', 's') {
        Some(Op::Abs)
    } else {
        None
    }
}

/// What the word at `at` asks for.
fn classify(text: &Vec<char>, at: Span) -> (op: Option<Op>)
    requires
        at.start <= at.end <= text.len(),
    ensures
        op == word_op(text@, at),
{
    let w = word_at(text, at);
    if number(&w) {
        Some(Op::Number(at))
    } else {
        named(text, at)
    }
}

/// How many values `op` takes off the stack.
pub fn operand_count(op: &Op) -> (n: usize)
    ensures
        n == operands(*op),
{
    match op {
        Op::Number(_) | Op::X | Op::Y | Op::T => 0,
        Op::Add | Op::Sub | Op::Mul | Op::Div | Op::Rem | Op::Pow => 2,
        _ => 1,
    }
}

/// Reads the formula `raw` into its program.
///
/// The spans of the numbers count the characters of `raw`, not its bytes.
pub fn parse(raw: &str) -> (ops: Vec<Op>)
    ensures
        ops@ == program(raw@),
        runs(ops@),
{
    let text = chars_of(raw);
    let found = split_words(&text);
    let mut ops: Vec<Op> = Vec::new();
    let mut height: usize = 0;
    let mut i: usize = 0;
    proof {
        assert(text@.len() == text.len());
        lemma_words_within(text@, text@.len() as int);
        lemma_program_runs(raw@);
    }
    while i < found.len()
        invariant
            i <= found.len(),
            text@ == raw@,
            found@ == words(text@, text@.len() as int),
            forall|k: int|
                0 <= k < found@.len() ==> {
                    &&& (#[trigger] found@[k]).start < found@[k].end
                    &&& found@[k].end <= text@.len()
                },
            ops@ == steps(text@, found@, i as int),
            height == final_depth(ops@),
            height <= ops@.len() <= i,
        decreases found.len() - i,
    {
        let at = found[i];
        proof {
            lemma_steps_run(text@, found@, i as int);
        }
        match classify(&text, at) {
            Some(op) => {
                let needs = operand_count(&op);
                if height >= needs {
                    proof {
                        lemma_runs_push(ops@, op);
                    }
                    ops.push(op);
                    height = height - needs + 1;
                }
            },
            None => {},
        }
        i = i + 1;
    }
    ops
}

} // verus!
