use minishell::command::{
    execute_internal_program, exit_cmd, is_exit, parse_command, Effect, InternalCommand,
    ShellCommand,
};
use minishell::environment::Environment;
use minishell::pipeline::{
    interpret, plan_pipeline, resolve, select_current_input, select_current_output, Invocation,
    Plan, PlanError, ShellError, Sink, Source, Wiring,
};
use minishell::redirect::{get_input, get_output};
use minishell::syntax::{parse_command_line, ParseError};

fn words(ws: &[&str]) -> Vec<String> {
    ws.iter().map(|w| w.to_string()).collect()
}

fn stage(args: &[&str], input: Option<&str>, output: Option<&str>) -> Invocation {
    Invocation {
        args: words(args),
        input: input.map(|s| s.to_string()),
        output: output.map(|s| s.to_string()),
    }
}

fn launch(line: &str) -> Vec<Wiring> {
    match interpret(line, &Environment::new()).unwrap().plan {
        Plan::Launch(ws) => ws,
        Plan::Builtin(_) => panic!("an internal command"),
    }
}

#[test]
fn exit_is_the_one_internal_command() {
    assert_eq!(parse_command("exit"), ShellCommand::InternalCommand(InternalCommand::Exit));
    assert_eq!(parse_command("ls"), ShellCommand::ProgramName("ls".to_string()));
    assert_eq!(parse_command("exit "), ShellCommand::ProgramName("exit ".to_string()));
    assert_eq!(parse_command("Exit"), ShellCommand::ProgramName("Exit".to_string()));
    assert_eq!(parse_command("exi"), ShellCommand::ProgramName("exi".to_string()));
    assert_eq!(parse_command(""), ShellCommand::ProgramName(String::new()));
    assert!(is_exit("exit"));
    assert!(!is_exit("exot"));
    assert!(!is_exit("éxit"));
}

#[test]
fn exit_ends_with_success() {
    assert_eq!(exit_cmd(), Effect::Terminate(0));
    assert_eq!(execute_internal_program(InternalCommand::Exit), Effect::Terminate(0));
}

#[test]
fn input_comes_from_the_redirection_first() {
    let file = Some(Source::File);
    let pipe = Some(Source::Pipe(3));
    assert_eq!(select_current_input(file, pipe, false), Some(Source::File));
    assert_eq!(select_current_input(file, None, true), Some(Source::File));
    assert_eq!(select_current_input(None, pipe, false), Some(Source::Pipe(3)));
    assert_eq!(select_current_input(None, pipe, true), Some(Source::Pipe(3)));
    assert_eq!(select_current_input(None, None, true), Some(Source::Inherit));
    assert_eq!(select_current_input(None, None, false), None);
}

#[test]
fn output_goes_to_the_redirection_first() {
    assert_eq!(select_current_output(Some(Sink::File), 2, true), (Sink::File, None));
    assert_eq!(select_current_output(Some(Sink::File), 2, false), (Sink::File, None));
    assert_eq!(
        select_current_output(None, 2, true),
        (Sink::Pipe(2), Some(Source::Pipe(2)))
    );
    assert_eq!(select_current_output(None, 2, false), (Sink::Inherit, None));
}

#[test]
fn one_stage_inherits_both_streams() {
    assert_eq!(launch("ls -l"), vec![Wiring { stdin: Source::Inherit, stdout: Sink::Inherit }]);
}

#[test]
fn n_stages_have_n_wirings_and_n_minus_one_pipes() {
    let ws = launch("a | b | c | d");
    assert_eq!(
        ws,
        vec![
            Wiring { stdin: Source::Inherit, stdout: Sink::Pipe(0) },
            Wiring { stdin: Source::Pipe(0), stdout: Sink::Pipe(1) },
            Wiring { stdin: Source::Pipe(1), stdout: Sink::Pipe(2) },
            Wiring { stdin: Source::Pipe(2), stdout: Sink::Inherit },
        ]
    );
}

#[test]
fn two_stages_share_one_pipe() {
    let job = interpret("echo hello | grep h", &Environment::new()).unwrap();
    assert_eq!(job.stages.len(), 2);
    assert_eq!(job.stages[0].args, vec!["echo", "hello"]);
    assert_eq!(job.stages[1].args, vec!["grep", "h"]);
    assert_eq!(
        job.plan,
        Plan::Launch(vec![
            Wiring { stdin: Source::Inherit, stdout: Sink::Pipe(0) },
            Wiring { stdin: Source::Pipe(0), stdout: Sink::Inherit },
        ])
    );
}

#[test]
fn output_of_the_last_stage_goes_to_its_file() {
    let job = interpret("cmd > file", &Environment::new()).unwrap();
    assert_eq!(job.stages[0].args, vec!["cmd"]);
    assert_eq!(job.stages[0].output, Some("file".to_string()));
    assert_eq!(
        job.plan,
        Plan::Launch(vec![Wiring { stdin: Source::Inherit, stdout: Sink::File }])
    );
    let ws = launch("a < in | b | c > out");
    assert_eq!(
        ws,
        vec![
            Wiring { stdin: Source::File, stdout: Sink::Pipe(0) },
            Wiring { stdin: Source::Pipe(0), stdout: Sink::Pipe(1) },
            Wiring { stdin: Source::Pipe(1), stdout: Sink::File },
        ]
    );
}

#[test]
fn input_of_the_first_stage_comes_from_its_file() {
    let job = interpret("cmd < missing_file", &Environment::new()).unwrap();
    assert_eq!(job.stages[0].input, Some("missing_file".to_string()));
    assert_eq!(
        job.plan,
        Plan::Launch(vec![Wiring { stdin: Source::File, stdout: Sink::Inherit }])
    );
}

#[test]
fn exit_as_first_word_ends_the_interpreter() {
    let env = Environment::new();
    assert_eq!(interpret("exit", &env).unwrap().plan, Plan::Builtin(InternalCommand::Exit));
    assert_eq!(
        interpret("exit now please", &env).unwrap().plan,
        Plan::Builtin(InternalCommand::Exit)
    );
    assert_eq!(
        interpret("exit > f | < g | b < h", &env).unwrap().plan,
        Plan::Builtin(InternalCommand::Exit)
    );
    assert_eq!(interpret("'exit'", &env).unwrap().plan, Plan::Builtin(InternalCommand::Exit));
}

#[test]
fn exit_in_a_later_stage_is_a_program() {
    let ws = launch("ls | exit");
    assert_eq!(ws.len(), 2);
    let ws = launch("echo exit");
    assert_eq!(ws.len(), 1);
}

#[test]
fn expanded_first_word_is_looked_up_too() {
    let mut env = Environment::new();
    env.bind("Q", "exit");
    assert_eq!(interpret("$Q", &env).unwrap().plan, Plan::Builtin(InternalCommand::Exit));
}

#[test]
fn each_fault_is_named_with_its_stage() {
    assert_eq!(plan_pipeline(&vec![]), Err(PlanError::NoStages));
    assert_eq!(
        plan_pipeline(&vec![stage(&[], None, Some("f"))]),
        Err(PlanError::MissingProgram(0))
    );
    assert_eq!(
        plan_pipeline(&vec![stage(&["a"], None, None), stage(&[], None, None)]),
        Err(PlanError::MissingProgram(1))
    );
    assert_eq!(
        plan_pipeline(&vec![stage(&["a"], None, None), stage(&["b"], Some("f"), None)]),
        Err(PlanError::InputConflict(1))
    );
    assert_eq!(
        plan_pipeline(&vec![stage(&["a"], None, Some("f")), stage(&["b"], None, None)]),
        Err(PlanError::OutputConflict(0))
    );
    assert_eq!(
        plan_pipeline(&vec![stage(&["a"], Some("f"), Some("f"))]),
        Err(PlanError::SameFile(0))
    );
    assert_eq!(
        plan_pipeline(&vec![stage(&["a"], Some("f"), Some("g"))]),
        Ok(Plan::Launch(vec![Wiring { stdin: Source::File, stdout: Sink::File }]))
    );
}

#[test]
fn the_first_faulty_stage_decides() {
    let stages = vec![
        stage(&["a"], None, None),
        stage(&["b"], None, Some("f")),
        stage(&[], Some("g"), None),
    ];
    assert_eq!(plan_pipeline(&stages), Err(PlanError::OutputConflict(1)));
    let env = Environment::new();
    assert_eq!(
        interpret("a | b > f | < g", &env),
        Err(ShellError::Plan(PlanError::OutputConflict(1)))
    );
    assert_eq!(interpret("a | < f b", &env), Err(ShellError::Plan(PlanError::InputConflict(1))));
    assert_eq!(interpret("a <f >f", &env), Err(ShellError::Plan(PlanError::SameFile(0))));
    assert_eq!(interpret("> f", &env), Err(ShellError::Plan(PlanError::MissingProgram(0))));
    assert_eq!(interpret("a | 'b", &env), Err(ShellError::Parse(ParseError {})));
    assert_eq!(interpret("", &env), Err(ShellError::Parse(ParseError {})));
}

#[test]
fn stages_resolve_in_order() {
    let mut env = Environment::new();
    env.bind("HOME", "/home/me");
    let line = parse_command_line("cat $HOME < in.txt | sort -r | tee \"$HOME/out\" > log").unwrap();
    let stages = resolve(&line, &env);
    assert_eq!(stages.len(), 3);
    assert_eq!(stages[0], stage(&["cat", "/home/me"], Some("in.txt"), None));
    assert_eq!(stages[1], stage(&["sort", "-r"], None, None));
    assert_eq!(stages[2], stage(&["tee", "/home/me/out"], None, Some("log")));
    assert_eq!(get_input(&line.stages[0], &line.source), Some("in.txt".to_string()));
    assert_eq!(get_input(&line.stages[1], &line.source), None);
    assert_eq!(parse_command_line("cat < $HOME"), Err(ParseError {}));
    assert_eq!(get_output(&line.stages[2], &line.source), Some("log".to_string()));
}
