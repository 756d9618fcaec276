//! Checks on the raw words of a command, made before any redirection is
//! taken out: every operator needs a file name after it, and `>` and `>>`
//! cannot both appear.
use vstd::prelude::*;
use crate::redirect::{is_op, op_of, operator_of, RedirectOp};

verus! {

/// Why a command was refused before launch.
#[derive(Clone, Copy, Debug, PartialEq, Eq, Structural)]
pub enum SyntaxError {
    /// An operator is last, or is followed by another operator.
    DanglingOperator(RedirectOp),
    /// Both `>` and `>>` appear.
    ConflictingOutput,
}

/// The operator at `i` has no file name after it: it is last, or the next
/// word is an operator too.
pub open spec fn dangling_at(ws: Seq<Seq<char>>, i: int) -> bool {
    &&& 0 <= i < ws.len()
    &&& is_op(ws[i])
    &&& (i + 1 >= ws.len() || is_op(ws[i + 1]))
}

/// The first dangling operator at `i` or after it.
pub open spec fn first_dangling_from(ws: Seq<Seq<char>>, i: int) -> Option<RedirectOp>
    decreases ws.len() - i,
{
    if i < 0 || i >= ws.len() {
        None
    } else if dangling_at(ws, i) {
        op_of(ws[i])
    } else {
        first_dangling_from(ws, i + 1)
    }
}

/// The first dangling operator of `ws`, if any.
pub open spec fn first_dangling(ws: Seq<Seq<char>>) -> Option<RedirectOp> {
    first_dangling_from(ws, 0)
}

/// Both `>` and `>>` appear somewhere in `ws`.
pub open spec fn has_conflicting_output(ws: Seq<Seq<char>>) -> bool {
    &&& exists|i: int| 0 <= i < ws.len() && op_of(#[trigger] ws[i]) == Some(RedirectOp::Output)
    &&& exists|j: int| 0 <= j < ws.len() && op_of(#[trigger] ws[j]) == Some(RedirectOp::Append)
}

/// The verdict on a command's words: a dangling operator first, then a
/// conflict between `>` and `>>`.
pub open spec fn syntax_check(ws: Seq<Seq<char>>) -> Result<(), SyntaxError> {
    match first_dangling(ws) {
        Some(op) => Err(SyntaxError::DanglingOperator(op)),
        None => if has_conflicting_output(ws) {
            Err(SyntaxError::ConflictingOutput)
        } else {
            Ok(())
        },
    }
}

/// `first_dangling_from` finds the first dangling operator at or after `i`.
pub proof fn lemma_first_dangling_from(ws: Seq<Seq<char>>, i: int)
    requires
        0 <= i <= ws.len(),
    ensures
        first_dangling_from(ws, i) is None <==> forall|j: int| i <= j ==> !dangling_at(ws, j),
        first_dangling_from(ws, i) is Some ==> exists|j: int|
            i <= j && dangling_at(ws, j) && op_of(ws[j]) == first_dangling_from(ws, i) && forall|
                k: int,
            | i <= k < j ==> !dangling_at(ws, k),
    decreases ws.len() - i,
{
    if i < ws.len() {
        lemma_first_dangling_from(ws, i + 1);
        if !dangling_at(ws, i) {
            if first_dangling_from(ws, i) is Some {
                let j = choose|j: int|
                    i + 1 <= j && dangling_at(ws, j) && op_of(ws[j]) == first_dangling_from(
                        ws,
                        i + 1,
                    ) && forall|k: int| i + 1 <= k < j ==> !dangling_at(ws, k);
                assert forall|k: int| i <= k < j implies !dangling_at(ws, k) by {
                    if k > i {
                    }
                }
            }
        } else {
            assert(forall|k: int| i <= k < i ==> !dangling_at(ws, k));
        }
    }
}

/// The first operator that has no file name after it (it is last, or the
/// next word is an operator), or `None` when every operator has one.
pub fn validate_command(command: &[&str]) -> (r: Option<RedirectOp>)
    ensures
        r == first_dangling(command.deep_view()),
        r is None <==> forall|i: int| !dangling_at(command.deep_view(), i),
{
    let ghost ws = command.deep_view();
    proof {
        lemma_first_dangling_from(ws, 0);
    }
    let n = command.len();
    let mut i: usize = 0;
    while i < n
        invariant
            n == command@.len(),
            ws == command.deep_view(),
            i <= n,
            first_dangling_from(ws, i as int) == first_dangling(ws),
        decreases n - i,
    {
        assert(ws[i as int] == command@[i as int]@);
        match operator_of(command[i]) {
            Some(op) => {
                if i + 1 >= n {
                    return Some(op);
                }
                assert(ws[i + 1] == command@[i + 1]@);
                if operator_of(command[i + 1]).is_some() {
                    return Some(op);
                }
            },
            None => {},
        }
        i = i + 1;
    }
    None
}

/// Whether both `>` and `>>` appear among the words, in any order.
pub fn validate_command2(command: &[&str]) -> (r: bool)
    ensures
        r == has_conflicting_output(command.deep_view()),
{
    let ghost ws = command.deep_view();
    let mut greater_than_present = false;
    let mut double_greater_than_present = false;
    let n = command.len();
    let mut i: usize = 0;
    while i < n
        invariant
            n == command@.len(),
            ws == command.deep_view(),
            i <= n,
            greater_than_present == exists|k: int|
                0 <= k < i && op_of(#[trigger] ws[k]) == Some(RedirectOp::Output),
            double_greater_than_present == exists|k: int|
                0 <= k < i && op_of(#[trigger] ws[k]) == Some(RedirectOp::Append),
        decreases n - i,
    {
        assert(ws[i as int] == command@[i as int]@);
        match operator_of(command[i]) {
            Some(RedirectOp::Output) => {
                greater_than_present = true;
            },
            Some(RedirectOp::Append) => {
                double_greater_than_present = true;
            },
            _ => {},
        }
        i = i + 1;
    }
    greater_than_present && double_greater_than_present
}

/// Both checks on a command's words: a dangling operator is reported first,
/// then a conflict between `>` and `>>`.
pub fn check_syntax(command: &[&str]) -> (r: Result<(), SyntaxError>)
    ensures
        r == syntax_check(command.deep_view()),
{
    match validate_command(command) {
        Some(op) => Err(SyntaxError::DanglingOperator(op)),
        None => if validate_command2(command) {
            Err(SyntaxError::ConflictingOutput)
        } else {
            Ok(())
        },
    }
}

/// A sequence of words whose last word is `>` or `>>` is always refused.
pub proof fn lemma_trailing_output_operator_rejected(ws: Seq<Seq<char>>)
    requires
        ws.len() > 0,
        op_of(ws.last()) == Some(RedirectOp::Output) || op_of(ws.last()) == Some(
            RedirectOp::Append,
        ),
    ensures
        syntax_check(ws) is Err,
{
    lemma_first_dangling_from(ws, 0);
    assert(dangling_at(ws, ws.len() - 1));
}

/// A sequence of words holding both `>` and `>>`, wherever they stand, is
/// always refused.
pub proof fn lemma_conflicting_output_rejected(ws: Seq<Seq<char>>, i: int, j: int)
    requires
        0 <= i < ws.len(),
        0 <= j < ws.len(),
        op_of(ws[i]) == Some(RedirectOp::Output),
        op_of(ws[j]) == Some(RedirectOp::Append),
    ensures
        syntax_check(ws) is Err,
{
    assert(has_conflicting_output(ws));
}

} // verus!
