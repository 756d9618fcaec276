//! From a line of text to a command ready to launch, and the steps of its
//! launch: open the input file, open the output file, spawn the program.
use vstd::prelude::*;
use crate::redirect::{
    extract_redirections, handle_redirection, lemma_scan_paired_prefix, RedirectionSpec,
    RedirectionView,
};
use crate::tokenize::{parse_input, parse_line};
use crate::redirect::{op_of, RedirectOp};
use crate::validate::{
    check_syntax, first_dangling, lemma_conflicting_output_rejected, lemma_first_dangling_from,
    lemma_trailing_output_operator_rejected, syntax_check, SyntaxError,
};

verus! {

/// Why a line yields no command to launch.
#[derive(Clone, Copy, Debug, PartialEq, Eq, Structural)]
pub enum CommandError {
    /// The redirections are malformed.
    Syntax(SyntaxError),
    /// No program is left once the background marker and the redirections
    /// are taken out.
    EmptyCommand,
}

/// A command as plain values.
pub struct CommandView {
    pub program: Seq<char>,
    pub args: Seq<Seq<char>>,
    pub redirection: RedirectionView,
    pub background: bool,
}

/// A command ready to launch: the program, its arguments, where its
/// standard streams go and whether it runs in the background. The program
/// is never empty.
pub struct CommandSpec {
    pub program: String,
    pub args: Vec<String>,
    pub redirection: RedirectionSpec,
    pub background: bool,
}

impl View for CommandSpec {
    type V = CommandView;

    open spec fn view(&self) -> CommandView {
        CommandView {
            program: self.program@,
            args: self.args.deep_view(),
            redirection: self.redirection@,
            background: self.background,
        }
    }
}

/// What a line asks for: its words are checked, the redirections are taken
/// out, and the first word left is the program, the others its arguments.
pub open spec fn plan_line(line: Seq<char>) -> Result<CommandView, CommandError> {
    let (ws, background) = parse_line(line);
    match syntax_check(ws) {
        Err(e) => Err(CommandError::Syntax(e)),
        Ok(_) => match extract_redirections(ws) {
            Err(op) => Err(CommandError::Syntax(SyntaxError::DanglingOperator(op))),
            Ok((words, redirection)) => if words.len() == 0 {
                Err(CommandError::EmptyCommand)
            } else {
                Ok(
                    CommandView {
                        program: words[0],
                        args: words.skip(1),
                        redirection,
                        background,
                    },
                )
            },
        },
    }
}

/// Words that pass the checks always have their redirections taken out.
pub proof fn lemma_checked_words_extract(ws: Seq<Seq<char>>)
    requires
        syntax_check(ws) is Ok,
    ensures
        extract_redirections(ws) is Ok,
{
    lemma_first_dangling_from(ws, 0);
    assert(first_dangling(ws) is None);
    assert(ws + seq![] =~= ws);
    lemma_scan_paired_prefix(ws, seq![], seq![], crate::redirect::no_redirection());
}

/// A line whose last word, once a trailing `&` is taken off, is `>` or `>>`
/// is refused before any launch step.
pub proof fn lemma_trailing_output_operator_line_rejected(line: Seq<char>)
    requires
        parse_line(line).0.len() > 0,
        op_of(parse_line(line).0.last()) == Some(RedirectOp::Output) || op_of(
            parse_line(line).0.last(),
        ) == Some(RedirectOp::Append),
    ensures
        plan_line(line) is Err,
{
    lemma_trailing_output_operator_rejected(parse_line(line).0);
}

/// A line holding both `>` and `>>` as words, wherever they stand, is
/// refused before any launch step.
pub proof fn lemma_conflicting_output_line_rejected(line: Seq<char>, i: int, j: int)
    requires
        0 <= i < parse_line(line).0.len(),
        0 <= j < parse_line(line).0.len(),
        op_of(parse_line(line).0[i]) == Some(RedirectOp::Output),
        op_of(parse_line(line).0[j]) == Some(RedirectOp::Append),
    ensures
        plan_line(line) is Err,
{
    lemma_conflicting_output_rejected(parse_line(line).0, i, j);
}

/// Turns a line into a command to launch, or says why it cannot be one.
pub fn plan_command(input: &str) -> (r: Result<CommandSpec, CommandError>)
    ensures
        match plan_line(input@) {
            Ok(c) => r matches Ok(s) && s@ == c,
            Err(e) => r == Err::<CommandSpec, _>(e),
        },
{
    let (mut words, background) = parse_input(input);
    let ghost ws = words.deep_view();
    if let Err(e) = check_syntax(words.as_slice()) {
        return Err(CommandError::Syntax(e));
    }
    proof {
        lemma_checked_words_extract(ws);
    }
    let redirection = match handle_redirection(&mut words) {
        Ok(spec) => spec,
        Err(missing) => {
            return Err(CommandError::Syntax(SyntaxError::DanglingOperator(missing.operator)));
        },
    };
    let n = words.len();
    if n == 0 {
        return Err(CommandError::EmptyCommand);
    }
    let ghost kept = words.deep_view();
    let program = String::from_str(words[0]);
    let mut args: Vec<String> = Vec::new();
    let mut i: usize = 1;
    proof {
        assert(args.deep_view() =~= kept.subrange(1, 1));
    }
    while i < n
        invariant
            n == words.len(),
            kept == words.deep_view(),
            1 <= i <= n,
            args.deep_view() == kept.subrange(1, i as int),
        decreases n - i,
    {
        let ghost before = args.deep_view();
        args.push(String::from_str(words[i]));
        proof {
            assert(args.deep_view() =~= before.push(kept[i as int]));
            assert(kept.subrange(1, i + 1) =~= kept.subrange(1, i as int).push(kept[i as int]));
        }
        i = i + 1;
    }
    proof {
        assert(kept.subrange(1, n as int) =~= kept.skip(1));
    }
    Ok(CommandSpec { program, args, redirection, background })
}

/// Which standard stream a redirection file was meant for.
#[derive(Clone, Copy, Debug, PartialEq, Eq, Structural)]
pub enum StreamDirection {
    Stdin,
    Stdout,
}

/// One step of launching a command, as plain values.
pub enum LaunchStepView {
    OpenInput { path: Seq<char> },
    OpenOutput { path: Seq<char>, append: bool },
    Spawn { program: Seq<char>, args: Seq<Seq<char>> },
}

/// One step of launching a command.
pub enum LaunchStep {
    /// Open a file for reading, to become standard input.
    OpenInput { path: String },
    /// Open a file for writing, to become standard output: appended to and
    /// created if absent, or created and truncated.
    OpenOutput { path: String, append: bool },
    /// Start the program with its arguments on the streams opened so far;
    /// streams not opened are inherited.
    Spawn { program: String, args: Vec<String> },
}

impl View for LaunchStep {
    type V = LaunchStepView;

    open spec fn view(&self) -> LaunchStepView {
        match self {
            LaunchStep::OpenInput { path } => LaunchStepView::OpenInput { path: path@ },
            LaunchStep::OpenOutput { path, append } => LaunchStepView::OpenOutput {
                path: path@,
                append: *append,
            },
            LaunchStep::Spawn { program, args } => LaunchStepView::Spawn {
                program: program@,
                args: args.deep_view(),
            },
        }
    }
}

/// The steps that launch `c`, in order: the input file, then the output
/// file, each only where it is set, then the spawn.
pub open spec fn launch_plan(c: CommandView) -> Seq<LaunchStepView> {
    let input = match c.redirection.stdin_source {
        Some(f) => seq![LaunchStepView::OpenInput { path: f }],
        None => seq![],
    };
    let output = match c.redirection.stdout_target {
        Some(f) => seq![LaunchStepView::OpenOutput { path: f, append: c.redirection.append }],
        None => seq![],
    };
    input + output + seq![LaunchStepView::Spawn { program: c.program, args: c.args }]
}

/// A copy of a list of strings.
fn copy_strings(v: &Vec<String>) -> (r: Vec<String>)
    ensures
        r.deep_view() == v.deep_view(),
{
    let mut r: Vec<String> = Vec::new();
    let mut i: usize = 0;
    while i < v.len()
        invariant
            i <= v.len(),
            r.deep_view() == v.deep_view().subrange(0, i as int),
        decreases v.len() - i,
    {
        let ghost before = r.deep_view();
        r.push(v[i].clone());
        proof {
            assert(r.deep_view() =~= before.push(v.deep_view()[i as int]));
            assert(v.deep_view().subrange(0, i + 1) =~= v.deep_view().subrange(0, i as int).push(
                v.deep_view()[i as int],
            ));
        }
        i = i + 1;
    }
    proof {
        assert(v.deep_view().subrange(0, i as int) =~= v.deep_view());
    }
    r
}

/// The steps that launch `cmd`, in the order they are to be performed.
pub fn launch_steps(cmd: &CommandSpec) -> (r: Vec<LaunchStep>)
    ensures
        r@.map_values(|s: LaunchStep| s@) == launch_plan(cmd@),
{
    let mut steps: Vec<LaunchStep> = Vec::new();
    if let Some(f) = &cmd.redirection.stdin_source {
        steps.push(LaunchStep::OpenInput { path: f.clone() });
    }
    if let Some(f) = &cmd.redirection.stdout_target {
        steps.push(LaunchStep::OpenOutput { path: f.clone(), append: cmd.redirection.append });
    }
    steps.push(
        LaunchStep::Spawn { program: cmd.program.clone(), args: copy_strings(&cmd.args) },
    );
    proof {
        assert(steps@.map_values(|s: LaunchStep| s@) =~= launch_plan(cmd@));
    }
    steps
}

/// A launch that failed, as plain values.
pub enum LaunchErrorView {
    RedirectionOpen { filename: Seq<char>, direction: StreamDirection },
    Spawn { program: Seq<char> },
}

/// Why a launch failed: a redirection file could not be opened, or the
/// program could not be started.
pub enum LaunchError {
    RedirectionOpen { filename: String, direction: StreamDirection },
    Spawn { program: String },
}

impl View for LaunchError {
    type V = LaunchErrorView;

    open spec fn view(&self) -> LaunchErrorView {
        match self {
            LaunchError::RedirectionOpen { filename, direction } => LaunchErrorView::RedirectionOpen {
                filename: filename@,
                direction: *direction,
            },
            LaunchError::Spawn { program } => LaunchErrorView::Spawn { program: program@ },
        }
    }
}

/// The error that a failed step is reported as.
pub open spec fn failure_view(s: LaunchStepView) -> LaunchErrorView {
    match s {
        LaunchStepView::OpenInput { path } => LaunchErrorView::RedirectionOpen {
            filename: path,
            direction: StreamDirection::Stdin,
        },
        LaunchStepView::OpenOutput { path, .. } => LaunchErrorView::RedirectionOpen {
            filename: path,
            direction: StreamDirection::Stdout,
        },
        LaunchStepView::Spawn { program, .. } => LaunchErrorView::Spawn { program },
    }
}

impl LaunchStep {
    /// The error to report when this step fails: an open failure names the
    /// file and its stream, a spawn failure names the program.
    pub fn failure(&self) -> (r: LaunchError)
        ensures
            r@ == failure_view(self@),
    {
        match self {
            LaunchStep::OpenInput { path } => LaunchError::RedirectionOpen {
                filename: path.clone(),
                direction: StreamDirection::Stdin,
            },
            LaunchStep::OpenOutput { path, .. } => LaunchError::RedirectionOpen {
                filename: path.clone(),
                direction: StreamDirection::Stdout,
            },
            LaunchStep::Spawn { program, .. } => LaunchError::Spawn { program: program.clone() },
        }
    }
}

} // verus!
