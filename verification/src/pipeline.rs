//! From a parsed line to the plan of a pipeline: each stage resolved to its
//! arguments and redirection targets, and the standard streams of the
//! stages wired to files, to pipes between neighbours, or to the terminal.
//!
//! Two rules are fixed here. A word is looked up among the internal
//! commands only as the program of the first stage; in a later stage `exit`
//! names a program like any other. And a stream end that both a redirection
//! and a pipe between stages would claim, or one file named for both the
//! input and the output of a stage, is refused, not settled silently.

use crate::command::{exit_word, parse_command, InternalCommand, ShellCommand};
use crate::environment::Environment;
use crate::expand::{arguments, get_args, texts};
use crate::redirect::{
    first_target,
    get_input,
    get_output,
    optional_text,
    target_text,
    Direction,
};
use crate::syntax::{
    items_within,
    parse_command_line,
    parse_stage,
    stage_at,
    stage_lies_within,
    stages_after,
    stages_of,
    CommandLine,
    ItemView,
    ParseError,
    Stage,
};
use crate::text::chars_of;
use vstd::prelude::*;

verus! {

/// A resolved stage: its argument vector, of which the first is the
/// program's name, and the files that its first redirections name.
#[derive(Clone, PartialEq, Eq, Debug)]
pub struct Invocation {
    pub args: Vec<String>,
    pub input: Option<String>,
    pub output: Option<String>,
}

/// A resolved stage as the contracts see it.
pub ghost struct InvocationView {
    pub args: Seq<Seq<char>>,
    pub input: Option<Seq<char>>,
    pub output: Option<Seq<char>>,
}

impl View for Invocation {
    type V = InvocationView;

    open spec fn view(&self) -> InvocationView {
        InvocationView {
            args: texts(self.args@),
            input: optional_text(self.input),
            output: optional_text(self.output),
        }
    }
}

/// What a stage resolves to: its arguments expanded in `env`, and the
/// targets of its first input and first output redirection.
pub open spec fn resolved(items: Seq<ItemView>, src: Seq<char>, env: Environment)
    -> InvocationView {
    InvocationView {
        args: arguments(items, src, env),
        input: target_text(first_target(items, Direction::Input, 0), src),
        output: target_text(first_target(items, Direction::Output, 0), src),
    }
}

/// The stages of a whole line, each resolved.
pub open spec fn resolved_stages(stages: Seq<Seq<ItemView>>, src: Seq<char>, env: Environment)
    -> Seq<InvocationView> {
    stages.map_values(|items: Seq<ItemView>| resolved(items, src, env))
}

/// The resolved stages as the contracts see them.
pub open spec fn invocation_views(stages: Seq<Invocation>) -> Seq<InvocationView> {
    stages.map_values(|st: Invocation| st@)
}

/// The one stage that `s` is as a whole; `None` where `s` is not a stage.
pub open spec fn lone_stage(s: Seq<char>) -> Option<Seq<ItemView>> {
    match stage_at(s, 0) {
        Some((items, e)) => if e == s.len() {
            Some(items)
        } else {
            None
        },
        None => None,
    }
}

/// Resolves one stage of a parse tree.
pub fn resolve_stage(stage: &Stage, src: &Vec<char>, env: &Environment) -> (inv: Invocation)
    requires
        items_within(stage@, src@.len()),
    ensures
        inv@ == resolved(stage@, src@, *env),
{
    Invocation {
        args: get_args(stage, src, env),
        input: get_input(stage, src),
        output: get_output(stage, src),
    }
}

/// Resolves every stage of a command line, in order.
pub fn resolve(line: &CommandLine, env: &Environment) -> (stages: Vec<Invocation>)
    requires
        line.wf(),
    ensures
        invocation_views(stages@) == resolved_stages(line.stages_view(), line.source@, *env),
{
    let mut stages: Vec<Invocation> = Vec::new();
    let mut i: usize = 0;
    while i < line.stages.len()
        invariant
            line.wf(),
            i <= line.stages@.len(),
            stages@.len() == i,
            forall|k: int|
                0 <= k < i ==> (#[trigger] stages@[k])@ == resolved(
                    line.stages@[k]@,
                    line.source@,
                    *env,
                ),
        decreases line.stages@.len() - i,
    {
        let inv = resolve_stage(&line.stages[i], &line.source, env);
        stages.push(inv);
        i += 1;
    }
    assert(invocation_views(stages@) =~= resolved_stages(
        line.stages_view(),
        line.source@,
        *env,
    ));
    stages
}

/// Parses `line` as one stage and resolves it: its argument vector, and the
/// files named by its first input and first output redirection. The line is
/// refused exactly when it is not one stage as a whole.
pub fn parse(line: &str, env: &Environment) -> (r: Result<
    (Vec<String>, Option<String>, Option<String>),
    ParseError,
>)
    ensures
        match lone_stage(line@) {
            Some(items) => r matches Ok((args, input, output)) && (Invocation {
                args,
                input,
                output,
            })@ == resolved(items, line@, *env),
            None => r is Err,
        },
{
    let src: Vec<char> = chars_of(line);
    match parse_stage(&src, 0) {
        Some((stage, e)) => {
            if e == src.len() {
                let inv = resolve_stage(&stage, &src, env);
                Ok((inv.args, inv.input, inv.output))
            } else {
                Err(ParseError {  })
            }
        },
        None => Err(ParseError {  }),
    }
}

/// Where a stage's input comes from.
#[derive(Clone, Copy, PartialEq, Eq, Debug)]
pub enum Source {
    /// The interpreter's own input.
    Inherit,
    /// The file that the stage's input redirection names.
    File,
    /// The read end of the pipe that the stage of this index writes to.
    Pipe(usize),
}

/// Where a stage's output goes.
#[derive(Clone, Copy, PartialEq, Eq, Debug)]
pub enum Sink {
    /// The interpreter's own output.
    Inherit,
    /// The file that the stage's output redirection names.
    File,
    /// The write end of the pipe that this stage, of this index, opens
    /// towards the next.
    Pipe(usize),
}

/// The two streams of one stage. The error stream is always inherited.
#[derive(Clone, Copy, PartialEq, Eq, Debug)]
pub struct Wiring {
    pub stdin: Source,
    pub stdout: Sink,
}

/// Why a line that parses cannot be run.
#[derive(Clone, Copy, PartialEq, Eq, Debug)]
pub enum PlanError {
    /// There is no stage at all.
    NoStages,
    /// The stage has redirections only, and so no program.
    MissingProgram(usize),
    /// The stage redirects its input and also stands behind a pipe.
    InputConflict(usize),
    /// The stage redirects its output and also stands before a pipe.
    OutputConflict(usize),
    /// The stage names one file for its input and its output.
    SameFile(usize),
}

/// What to do for a line.
#[derive(Clone, PartialEq, Eq, Debug)]
pub enum Plan {
    /// Run an internal command; nothing is launched.
    Builtin(InternalCommand),
    /// Launch every stage, in order, with these streams.
    Launch(Vec<Wiring>),
}

/// A plan as the contracts see it.
pub ghost enum PlanView {
    Builtin(InternalCommand),
    Launch(Seq<Wiring>),
}

impl View for Plan {
    type V = PlanView;

    open spec fn view(&self) -> PlanView {
        match *self {
            Plan::Builtin(c) => PlanView::Builtin(c),
            Plan::Launch(ws) => PlanView::Launch(ws@),
        }
    }
}

/// The input of a stage: its redirection first, else what the stage before
/// handed on, else, for the first stage only, the interpreter's own input.
pub fn select_current_input(
    parsed_input: Option<Source>,
    passed_input: Option<Source>,
    first: bool,
) -> (r: Option<Source>)
    ensures
        r == match (parsed_input, passed_input) {
            (Some(s), _) => Some(s),
            (None, Some(s)) => Some(s),
            (None, None) => if first {
                Some(Source::Inherit)
            } else {
                None
            },
        },
{
    match parsed_input {
        Some(s) => Some(s),
        None => match passed_input {
            Some(s) => Some(s),
            None => if first {
                Some(Source::Inherit)
            } else {
                None
            },
        },
    }
}

/// The output of the stage `index`, and what it hands on to the next: its
/// redirection first, which hands on nothing; else, where a stage follows,
/// a new pipe whose read end is handed on; else the interpreter's own output.
pub fn select_current_output(parsed_output: Option<Sink>, index: usize, has_next: bool) -> (r: (
    Sink,
    Option<Source>,
))
    ensures
        r == match parsed_output {
            Some(s) => (s, None::<Source>),
            None => if has_next {
                (Sink::Pipe(index), Some(Source::Pipe(index)))
            } else {
                (Sink::Inherit, None::<Source>)
            },
        },
{
    match parsed_output {
        Some(s) => (s, None),
        None => if has_next {
            (Sink::Pipe(index), Some(Source::Pipe(index)))
        } else {
            (Sink::Inherit, None)
        },
    }
}

/// What is wrong with stage `i` of `stages`, if anything.
pub open spec fn fault_at(stages: Seq<InvocationView>, i: int) -> Option<PlanError> {
    let st = stages[i];
    if st.args.len() == 0 {
        Some(PlanError::MissingProgram(i as usize))
    } else if st.input is Some && i > 0 {
        Some(PlanError::InputConflict(i as usize))
    } else if st.output is Some && i + 1 < stages.len() {
        Some(PlanError::OutputConflict(i as usize))
    } else if st.input is Some && st.input == st.output {
        Some(PlanError::SameFile(i as usize))
    } else {
        None
    }
}

/// The fault of the first faulty stage among `stages[from..]`.
pub open spec fn first_fault(stages: Seq<InvocationView>, from: int) -> Option<PlanError>
    decreases stages.len() - from,
{
    if from < 0 || from >= stages.len() {
        None
    } else if fault_at(stages, from) is Some {
        fault_at(stages, from)
    } else {
        first_fault(stages, from + 1)
    }
}

/// The streams of stage `i` of `stages`, where no stage is faulty.
pub open spec fn wiring_of(stages: Seq<InvocationView>, i: int) -> Wiring {
    Wiring {
        stdin: if stages[i].input is Some {
            Source::File
        } else if i > 0 {
            Source::Pipe((i - 1) as usize)
        } else {
            Source::Inherit
        },
        stdout: if stages[i].output is Some {
            Sink::File
        } else if i + 1 < stages.len() {
            Sink::Pipe(i as usize)
        } else {
            Sink::Inherit
        },
    }
}

/// The plan for a pipeline. Where the first stage's program is `exit`,
/// that is all there is to do, whatever else the line holds. Else the first
/// faulty stage refuses the line, and without one every stage is launched.
pub open spec fn plan_of(stages: Seq<InvocationView>) -> Result<PlanView, PlanError> {
    if stages.len() == 0 {
        Err(PlanError::NoStages)
    } else if stages[0].args.len() > 0 && stages[0].args[0] == exit_word() {
        Ok(PlanView::Builtin(InternalCommand::Exit))
    } else {
        match first_fault(stages, 0) {
            Some(e) => Err(e),
            None => Ok(PlanView::Launch(Seq::new(stages.len(), |i: int| wiring_of(stages, i)))),
        }
    }
}

/// What is wrong with stage `i`, if anything.
pub fn stage_fault(stages: &Vec<Invocation>, i: usize) -> (r: Option<PlanError>)
    requires
        i < stages@.len(),
    ensures
        r == fault_at(invocation_views(stages@), i as int),
{
    let n: usize = stages.len();
    let st = &stages[i];
    assert(invocation_views(stages@)[i as int] == st@);
    if st.args.len() == 0 {
        return Some(PlanError::MissingProgram(i));
    }
    if st.input.is_some() && i > 0 {
        return Some(PlanError::InputConflict(i));
    }
    if st.output.is_some() && i + 1 < n {
        return Some(PlanError::OutputConflict(i));
    }
    match (&st.input, &st.output) {
        (Some(a), Some(b)) => {
            if *a == *b {
                return Some(PlanError::SameFile(i));
            }
        },
        _ => {},
    }
    None
}

/// Plans a pipeline of resolved stages.
pub fn plan_pipeline(stages: &Vec<Invocation>) -> (r: Result<Plan, PlanError>)
    ensures
        match plan_of(invocation_views(stages@)) {
            Ok(p) => r matches Ok(plan) && plan@ == p,
            Err(e) => r == Err::<Plan, PlanError>(e),
        },
{
    let ghost model = invocation_views(stages@);
    let n: usize = stages.len();
    if n == 0 {
        return Err(PlanError::NoStages);
    }
    assert(model[0] == stages@[0]@);
    if stages[0].args.len() > 0 {
        assert(model[0].args[0] == stages@[0].args@[0]@);
        match parse_command(stages[0].args[0].as_str()) {
            ShellCommand::InternalCommand(c) => {
                return Ok(Plan::Builtin(c));
            },
            ShellCommand::ProgramName(_) => {},
        }
    }
    let mut wirings: Vec<Wiring> = Vec::new();
    let mut pending: Option<Source> = None;
    let mut i: usize = 0;
    while i < n
        invariant
            n == stages@.len(),
            model == invocation_views(stages@),
            i <= n,
            !(model[0].args.len() > 0 && model[0].args[0] == exit_word()),
            first_fault(model, 0) == first_fault(model, i as int),
            wirings@.len() == i,
            forall|k: int| 0 <= k < i ==> #[trigger] wirings@[k] == wiring_of(model, k),
            pending == if 0 < i < n {
                Some(Source::Pipe((i - 1) as usize))
            } else {
                None::<Source>
            },
        decreases n - i,
    {
        match stage_fault(stages, i) {
            Some(e) => {
                assert(first_fault(model, i as int) == Some(e));
                return Err(e);
            },
            None => {},
        }
        assert(model[i as int] == stages@[i as int]@);
        let parsed_input = if stages[i].input.is_some() {
            Some(Source::File)
        } else {
            None
        };
        let parsed_output = if stages[i].output.is_some() {
            Some(Sink::File)
        } else {
            None
        };
        let stdin = match select_current_input(parsed_input, pending, i == 0) {
            Some(s) => s,
            None => Source::Inherit,
        };
        let (stdout, handed_on) = select_current_output(parsed_output, i, i + 1 < n);
        wirings.push(Wiring { stdin, stdout });
        pending = handed_on;
        i += 1;
    }
    let plan = Plan::Launch(wirings);
    assert(wirings@ =~= Seq::new(model.len(), |k: int| wiring_of(model, k)));
    Ok(plan)
}

/// Why a line cannot be run.
#[derive(Clone, Copy, PartialEq, Eq, Debug)]
pub enum ShellError {
    /// The line is not a command line of the grammar.
    Parse(ParseError),
    /// The line parses, but its pipeline is refused.
    Plan(PlanError),
}

/// All that is needed to run a line: its resolved stages and their plan.
#[derive(Clone, PartialEq, Eq, Debug)]
pub struct Job {
    pub stages: Vec<Invocation>,
    pub plan: Plan,
}

/// The resolved stages and the plan of the line `s` in `env`.
pub open spec fn job_of(s: Seq<char>, env: Environment) -> Result<
    (Seq<InvocationView>, PlanView),
    ShellError,
> {
    match stages_of(s) {
        None => Err(ShellError::Parse(ParseError {  })),
        Some(stages) => {
            let resolved = resolved_stages(stages, s, env);
            match plan_of(resolved) {
                Ok(plan) => Ok((resolved, plan)),
                Err(e) => Err(ShellError::Plan(e)),
            }
        },
    }
}

/// Parses a line, resolves its stages in `env` and plans its pipeline.
pub fn interpret(line: &str, env: &Environment) -> (r: Result<Job, ShellError>)
    ensures
        match job_of(line@, *env) {
            Ok((stages, plan)) => r matches Ok(job) && invocation_views(job.stages@) == stages
                && job.plan@ == plan,
            Err(e) => r == Err::<Job, ShellError>(e),
        },
{
    let tree = match parse_command_line(line) {
        Ok(tree) => tree,
        Err(e) => { return Err(ShellError::Parse(e)); },
    };
    let stages = resolve(&tree, env);
    match plan_pipeline(&stages) {
        Ok(plan) => Ok(Job { stages, plan }),
        Err(e) => Err(ShellError::Plan(e)),
    }
}

proof fn no_fault_from(stages: Seq<InvocationView>, from: int, k: int)
    requires
        0 <= from <= k < stages.len(),
        first_fault(stages, from) is None,
    ensures
        fault_at(stages, k) is None,
    decreases k - from,
{
    if from < k {
        no_fault_from(stages, from + 1, k);
    }
}

/// In a plan that launches, a pipeline of N stages has N wirings and N - 1
/// pipes: every stage but the last writes to a pipe of its own, which the
/// next stage reads, and no other stream is a pipe. A redirection of the
/// first stage's input or the last stage's output is honoured, and what
/// neither a pipe nor a file supplies is inherited.
pub proof fn launch_wires_neighbours(stages: Seq<InvocationView>, ws: Seq<Wiring>)
    requires
        plan_of(stages) == Ok::<PlanView, PlanError>(PlanView::Launch(ws)),
    ensures
        ws.len() == stages.len() >= 1,
        forall|i: int|
            0 <= i < ws.len() - 1 ==> (#[trigger] ws[i]).stdout == Sink::Pipe(i as usize)
                && ws[i + 1].stdin == Source::Pipe(i as usize),
        ws[0].stdin == if stages[0].input is Some {
            Source::File
        } else {
            Source::Inherit
        },
        ws.last().stdout == if stages.last().output is Some {
            Sink::File
        } else {
            Sink::Inherit
        },
        forall|i: int| 0 <= i < stages.len() ==> (#[trigger] stages[i]).args.len() >= 1,
{
    assert forall|i: int| 0 <= i < stages.len() implies fault_at(stages, i) is None by {
        no_fault_from(stages, 0, i);
    }
    assert forall|i: int| 0 <= i < ws.len() - 1 implies (#[trigger] ws[i]).stdout == Sink::Pipe(
        i as usize,
    ) && ws[i + 1].stdin == Source::Pipe(i as usize) by {
        assert(fault_at(stages, i) is None);
        assert(fault_at(stages, i + 1) is None);
        assert(ws[i] == wiring_of(stages, i));
        assert(ws[i + 1] == wiring_of(stages, i + 1));
    }
    assert(ws[0] == wiring_of(stages, 0));
    assert(ws.last() == wiring_of(stages, stages.len() - 1));
    assert forall|i: int| 0 <= i < stages.len() implies (#[trigger] stages[i]).args.len()
        >= 1 by {
        assert(fault_at(stages, i) is None);
    }
}

/// `exit` as the first word of a line ends the interpreter, whatever else
/// the line holds: nothing is launched and no stage is looked at for faults.
pub proof fn exit_comes_first(stages: Seq<InvocationView>)
    requires
        stages.len() >= 1,
        stages[0].args.len() >= 1,
        stages[0].args[0] == exit_word(),
    ensures
        plan_of(stages) == Ok::<PlanView, PlanError>(PlanView::Builtin(InternalCommand::Exit)),
{
}

/// A line that is one stage as a whole is a command line of that one
/// stage, and a command line of one stage is that stage as a whole.
pub proof fn lone_stage_is_a_line(s: Seq<char>)
    requires
        s.len() <= usize::MAX,
    ensures
        lone_stage(s) matches Some(items) ==> stages_of(s) == Some(seq![items]),
        stages_of(s) matches Some(stages) ==> (stages.len() == 1 ==> lone_stage(s) == Some(
            stages[0],
        )),
{
    if stage_at(s, 0) is Some {
        stage_lies_within(s, 0);
        let (items, e) = stage_at(s, 0)->0;
        if e == s.len() {
            assert(seq![items] + Seq::<Seq<ItemView>>::empty() =~= seq![items]);
        } else if stages_of(s) is Some {
            let rest = stages_after(s, e)->0;
            assert(s[e] == '|');
            let (next, end) = stage_at(s, e + 1)->0;
            let more = stages_after(s, end)->0;
            assert(rest == seq![next] + more);
            assert(stages_of(s)->0.len() == 1 + rest.len());
        }
    }
}

} // verus!
