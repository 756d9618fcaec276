//! Redirection operators: recognising them and taking them, with their file
//! names, out of a command's words.
use vstd::prelude::*;
use vstd::string::StrSliceExecFns;
use crate::validate::dangling_at;

verus! {

/// A redirection operator: `<`, `>` or `>>`.
#[derive(Clone, Copy, Debug, PartialEq, Eq, Structural)]
pub enum RedirectOp {
    /// `<`: standard input comes from a file.
    Input,
    /// `>`: standard output goes to a file, truncated or created.
    Output,
    /// `>>`: standard output is appended to a file, created if absent.
    Append,
}

/// The operator that a word spells, if any.
pub open spec fn op_of(w: Seq<char>) -> Option<RedirectOp> {
    if w == seq!['<'] {
        Some(RedirectOp::Input)
    } else if w == seq!['>'] {
        Some(RedirectOp::Output)
    } else if w == seq!['>', '>'] {
        Some(RedirectOp::Append)
    } else {
        None
    }
}

/// Whether a word is one of the three redirection operators.
pub open spec fn is_op(w: Seq<char>) -> bool {
    op_of(w) is Some
}

impl RedirectOp {
    /// How the operator is written on a command line.
    pub open spec fn spec_symbol(self) -> Seq<char> {
        match self {
            RedirectOp::Input => seq!['<'],
            RedirectOp::Output => seq!['>'],
            RedirectOp::Append => seq!['>', '>'],
        }
    }

    /// How the operator is written on a command line.
    pub fn symbol(&self) -> (r: &'static str)
        ensures
            r@ == self.spec_symbol(),
    {
        match self {
            RedirectOp::Input => {
                proof {
                    reveal_strlit("<");
                }
                "<"
            },
            RedirectOp::Output => {
                proof {
                    reveal_strlit(">");
                }
                ">"
            },
            RedirectOp::Append => {
                proof {
                    reveal_strlit(">>");
                }
                ">>"
            },
        }
    }
}

/// The operator that `w` spells, if any.
pub fn operator_of(w: &str) -> (r: Option<RedirectOp>)
    ensures
        r == op_of(w@),
{
    let n = w.unicode_len();
    if n == 1 {
        let c = w.get_char(0);
        if c == '<' {
            assert(w@ =~= seq!['<']);
            Some(RedirectOp::Input)
        } else if c == '>' {
            assert(w@ =~= seq!['>']);
            Some(RedirectOp::Output)
        } else {
            assert(w@ != seq!['<'] && w@ != seq!['>']);
            None
        }
    } else if n == 2 {
        let c0 = w.get_char(0);
        let c1 = w.get_char(1);
        if c0 == '>' && c1 == '>' {
            assert(w@ =~= seq!['>', '>']);
            Some(RedirectOp::Append)
        } else {
            assert(w@ != seq!['>', '>']);
            None
        }
    } else {
        None
    }
}

/// Where a command's standard streams are bound, as plain values.
pub struct RedirectionView {
    pub stdin_source: Option<Seq<char>>,
    pub stdout_target: Option<Seq<char>>,
    pub append: bool,
}

/// Where a command's standard streams are bound: a file to read standard
/// input from, a file to write standard output to, and whether that file is
/// appended to rather than truncated.
pub struct RedirectionSpec {
    pub stdin_source: Option<String>,
    pub stdout_target: Option<String>,
    pub append: bool,
}

impl View for RedirectionSpec {
    type V = RedirectionView;

    open spec fn view(&self) -> RedirectionView {
        RedirectionView {
            stdin_source: match self.stdin_source {
                Some(f) => Some(f@),
                None => None,
            },
            stdout_target: match self.stdout_target {
                Some(f) => Some(f@),
                None => None,
            },
            append: self.append,
        }
    }
}

/// No redirection: both streams are inherited.
pub open spec fn no_redirection() -> RedirectionView {
    RedirectionView { stdin_source: None, stdout_target: None, append: false }
}

/// `r` after the operator `op` with the file name `f`: a later operator of
/// the same direction replaces an earlier one.
pub open spec fn apply_op(r: RedirectionView, op: RedirectOp, f: Seq<char>) -> RedirectionView {
    match op {
        RedirectOp::Input => RedirectionView { stdin_source: Some(f), ..r },
        RedirectOp::Output => RedirectionView { stdout_target: Some(f), append: false, ..r },
        RedirectOp::Append => RedirectionView { stdout_target: Some(f), append: true, ..r },
    }
}

/// Scans `ws` from the left, with `kept` the plain words seen so far and `r`
/// the redirections seen so far. An operator takes the word after it as its
/// file name, and both leave the words; an operator with no word after it
/// is an error naming it.
pub open spec fn scan(ws: Seq<Seq<char>>, kept: Seq<Seq<char>>, r: RedirectionView) -> Result<
    (Seq<Seq<char>>, RedirectionView),
    RedirectOp,
>
    decreases ws.len(),
{
    if ws.len() == 0 {
        Ok((kept, r))
    } else {
        match op_of(ws[0]) {
            Some(op) => if ws.len() < 2 {
                Err(op)
            } else {
                scan(ws.skip(2), kept, apply_op(r, op, ws[1]))
            },
            None => scan(ws.skip(1), kept.push(ws[0]), r),
        }
    }
}

/// The words of a command without its redirections, and those redirections.
pub open spec fn extract_redirections(ws: Seq<Seq<char>>) -> Result<
    (Seq<Seq<char>>, RedirectionView),
    RedirectOp,
> {
    scan(ws, seq![], no_redirection())
}

/// An operator stood last, with no file name after it.
#[derive(Clone, Copy, Debug, PartialEq, Eq, Structural)]
pub struct MissingRedirectionTarget {
    pub operator: RedirectOp,
}

/// Takes the redirection operators and their file names out of `words` and
/// returns them. Where the same stream is redirected more than once, the
/// last operator wins, `>` or `>>` deciding the append mode along with the
/// file. Where an operator has no word after it, `words` is left as it was
/// and the error names that operator.
pub fn handle_redirection(words: &mut Vec<&str>) -> (r: Result<
    RedirectionSpec,
    MissingRedirectionTarget,
>)
    ensures
        match extract_redirections(old(words).deep_view()) {
            Ok((kept, spec)) => r matches Ok(s) && s@ == spec && final(words).deep_view() == kept,
            Err(op) => r == Err::<RedirectionSpec, _>(MissingRedirectionTarget { operator: op })
                && *final(words) == *old(words),
        },
{
    let ghost ws = words.deep_view();
    let mut kept: Vec<&str> = Vec::new();
    let mut spec = RedirectionSpec { stdin_source: None, stdout_target: None, append: false };
    let n = words.len();
    let mut i: usize = 0;
    proof {
        assert(ws.skip(0) =~= ws);
        assert(kept.deep_view() =~= seq![]);
    }
    while i < n
        invariant
            n == words.len(),
            ws == words.deep_view(),
            i <= n,
            scan(ws.skip(i as int), kept.deep_view(), spec@) == extract_redirections(ws),
        decreases n - i,
    {
        let w = words[i];
        let ghost rest = ws.skip(i as int);
        let ghost before = kept.deep_view();
        assert(rest[0] == w@);
        match operator_of(w) {
            Some(op) => {
                if i + 1 >= n {
                    return Err(MissingRedirectionTarget { operator: op });
                }
                let target = String::from_str(words[i + 1]);
                match op {
                    RedirectOp::Input => {
                        spec.stdin_source = Some(target);
                    },
                    RedirectOp::Output => {
                        spec.stdout_target = Some(target);
                        spec.append = false;
                    },
                    RedirectOp::Append => {
                        spec.stdout_target = Some(target);
                        spec.append = true;
                    },
                }
                proof {
                    assert(rest[1] == words[i + 1]@);
                    assert(rest.skip(2) =~= ws.skip(i + 2));
                }
                i = i + 2;
            },
            None => {
                kept.push(w);
                proof {
                    assert(kept.deep_view() =~= before.push(w@));
                    assert(rest.skip(1) =~= ws.skip(i + 1));
                }
                i = i + 1;
            },
        }
    }
    proof {
        assert(ws.skip(i as int).len() == 0);
    }
    *words = kept;
    Ok(spec)
}

/// Some word of `ws` is `<`.
pub open spec fn has_input_op(ws: Seq<Seq<char>>) -> bool {
    exists|i: int| 0 <= i < ws.len() && op_of(#[trigger] ws[i]) == Some(RedirectOp::Input)
}

/// Every operator of `ws` has a file name after it.
pub open spec fn operators_paired(ws: Seq<Seq<char>>) -> bool {
    forall|i: int| !dangling_at(ws, i)
}

/// Where every operator of `a` is paired, scanning `a + rest` scans `a`
/// first and goes on from where that left off.
pub proof fn lemma_scan_paired_prefix(
    a: Seq<Seq<char>>,
    rest: Seq<Seq<char>>,
    kept: Seq<Seq<char>>,
    r: RedirectionView,
)
    requires
        operators_paired(a),
    ensures
        scan(a, kept, r) is Ok,
        scan(a + rest, kept, r) == match scan(a, kept, r) {
            Ok((k2, r2)) => scan(rest, k2, r2),
            Err(op) => Err(op),
        },
    decreases a.len(),
{
    if a.len() == 0 {
        assert(a + rest =~= rest);
    } else if is_op(a[0]) {
        assert(!dangling_at(a, 0));
        let tail = a.skip(2);
        assert forall|i: int| !dangling_at(tail, i) by {
            assert(!dangling_at(a, i + 2));
        }
        assert((a + rest).skip(2) =~= tail + rest);
        assert((a + rest)[0] == a[0] && (a + rest)[1] == a[1]);
        lemma_scan_paired_prefix(tail, rest, kept, apply_op(r, op_of(a[0]).unwrap(), a[1]));
    } else {
        let tail = a.skip(1);
        assert forall|i: int| !dangling_at(tail, i) by {
            assert(!dangling_at(a, i + 1));
        }
        assert((a + rest).skip(1) =~= tail + rest);
        assert((a + rest)[0] == a[0]);
        lemma_scan_paired_prefix(tail, rest, kept.push(a[0]), r);
    }
}

/// Scanning paired words from two states that differ only in the input
/// source gives the same words and output; the input source agrees too
/// where the words hold a `<`, and is each state's own where they do not.
pub proof fn lemma_scan_input_source(
    b: Seq<Seq<char>>,
    kept: Seq<Seq<char>>,
    r1: RedirectionView,
    r2: RedirectionView,
)
    requires
        operators_paired(b),
        r1.stdout_target == r2.stdout_target,
        r1.append == r2.append,
    ensures
        match (scan(b, kept, r1), scan(b, kept, r2)) {
            (Ok((w1, s1)), Ok((w2, s2))) => {
                &&& w1 == w2
                &&& s1.stdout_target == s2.stdout_target
                &&& s1.append == s2.append
                &&& if has_input_op(b) {
                    s1.stdin_source == s2.stdin_source
                } else {
                    s1.stdin_source == r1.stdin_source && s2.stdin_source == r2.stdin_source
                }
            },
            _ => false,
        },
    decreases b.len(),
{
    if b.len() == 0 {
    } else if is_op(b[0]) {
        assert(!dangling_at(b, 0));
        let op = op_of(b[0]).unwrap();
        let tail = b.skip(2);
        assert forall|i: int| !dangling_at(tail, i) by {
            assert(!dangling_at(b, i + 2));
        }
        lemma_scan_input_source(tail, kept, apply_op(r1, op, b[1]), apply_op(r2, op, b[1]));
        if op != RedirectOp::Input {
            if has_input_op(b) {
                let i = choose|i: int| 0 <= i < b.len() && op_of(#[trigger] b[i]) == Some(RedirectOp::Input);
                assert(tail[i - 2] == b[i]);
            }
            if has_input_op(tail) {
                let i = choose|i: int| 0 <= i < tail.len() && op_of(#[trigger] tail[i]) == Some(RedirectOp::Input);
                assert(b[i + 2] == tail[i]);
            }
        } else {
            assert(op_of(b[0]) == Some(RedirectOp::Input));
        }
    } else {
        let tail = b.skip(1);
        assert forall|i: int| !dangling_at(tail, i) by {
            assert(!dangling_at(b, i + 1));
        }
        lemma_scan_input_source(tail, kept.push(b[0]), r1, r2);
        if has_input_op(b) {
            let i = choose|i: int| 0 <= i < b.len() && op_of(#[trigger] b[i]) == Some(RedirectOp::Input);
            assert(tail[i - 1] == b[i]);
        }
        if has_input_op(tail) {
            let i = choose|i: int| 0 <= i < tail.len() && op_of(#[trigger] tail[i]) == Some(RedirectOp::Input);
            assert(b[i + 1] == tail[i]);
        }
    }
}

/// In words whose operators are all paired, the pair `< f` is taken out
/// whole: the remaining words and the output redirection are those of the
/// words without the pair, and the input source is `f` unless a later `<`
/// replaces it.
pub proof fn lemma_input_redirection_extracted(a: Seq<Seq<char>>, f: Seq<char>, b: Seq<Seq<char>>)
    requires
        operators_paired(a + seq![seq!['<'], f] + b),
    ensures
        match (extract_redirections(a + seq![seq!['<'], f] + b), extract_redirections(a + b)) {
            (Ok((w1, s1)), Ok((w2, s2))) => {
                &&& w1 == w2
                &&& s1.stdout_target == s2.stdout_target
                &&& s1.append == s2.append
                &&& s1.stdin_source == if has_input_op(b) {
                    s2.stdin_source
                } else {
                    Some(f)
                }
            },
            _ => false,
        },
{
    let pair = seq![seq!['<'], f];
    let ws = a + pair + b;
    let la = a.len() as int;
    assert(ws =~= a + (pair + b));
    assert forall|i: int| !dangling_at(a, i) by {
        assert(!dangling_at(ws, i));
        if 0 <= i < la {
            assert(ws[i] == a[i]);
            if i + 1 < la {
                assert(ws[i + 1] == a[i + 1]);
            } else {
                assert(ws[i + 1] == seq!['<']);
            }
        }
    }
    assert forall|i: int| !dangling_at(b, i) by {
        assert(!dangling_at(ws, la + 2 + i));
        if 0 <= i < b.len() {
            assert(ws[la + 2 + i] == b[i]);
            if i + 1 < b.len() {
                assert(ws[la + 3 + i] == b[i + 1]);
            }
        }
    }
    assert(!dangling_at(ws, la));
    assert(ws[la] == seq!['<'] && ws[la + 1] == f);
    lemma_scan_paired_prefix(a, pair + b, seq![], no_redirection());
    lemma_scan_paired_prefix(a, b, seq![], no_redirection());
    let (k2, r2) = scan(a, seq![], no_redirection()).unwrap();
    assert((pair + b)[0] == seq!['<'] && (pair + b)[1] == f);
    assert((pair + b).skip(2) =~= b);
    lemma_scan_input_source(b, k2, apply_op(r2, RedirectOp::Input, f), r2);
}

} // verus!
