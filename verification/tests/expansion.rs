use minishell::environment::Environment;
use minishell::pipeline::parse;
use minishell::syntax::ParseError;

fn args_of(line: &str, env: &Environment) -> Vec<String> {
    parse(line, env).expect("the line is one stage").0
}

fn cool() -> Environment {
    let mut env = Environment::new();
    env.bind("COOLNAME", "cewl");
    env
}

#[test]
fn test_to_strings() {
    let empty = Environment::new();
    assert_eq!(vec!["word".to_string()], args_of("word", &empty));

    assert_eq!(vec!["word\\".to_string()], args_of("word\\\\", &empty));

    let env = cool();
    assert_eq!(vec!["cewl".to_string()], args_of("$COOLNAME", &env));

    assert_eq!(vec!["aaacewl".to_string()], args_of("aaa$COOLNAME", &env));

    assert_eq!(
        vec!["wow".to_string(), "aaa".to_string(), "cewl".to_string()],
        args_of(r#""wow" aaa $COOLNAME"#, &env)
    );

    assert_eq!(
        vec![
            "wow cewl".to_string(),
            "aaa".to_string(),
            "cewl".to_string()
        ],
        args_of(r#""wow $COOLNAME" aaa $COOLNAME"#, &env)
    );
}

#[test]
fn test_parse() {
    let env = Environment::new();
    assert_eq!(parse("1 2 3", &env).unwrap().0, vec!["1", "2", "3"]);
}

#[test]
fn blanks_split_arguments() {
    let env = Environment::new();
    assert_eq!(args_of("1 2 3", &env), vec!["1", "2", "3"]);
    assert_eq!(args_of("  1 \t 2   3  ", &env), vec!["1", "2", "3"]);
}

#[test]
fn double_quotes_keep_blanks() {
    let env = Environment::new();
    assert_eq!(args_of("\"a b\" c", &env), vec!["a b", "c"]);
    assert_eq!(args_of("\"a \t b\"", &env), vec!["a \t b"]);
    assert_eq!(args_of("\"\"", &env), vec![""]);
}

#[test]
fn single_quotes_never_expand() {
    let mut env = Environment::new();
    env.bind("VAR", "x");
    assert_eq!(args_of("'$VAR'", &env), vec!["$VAR"]);
    assert_eq!(args_of("'a\\b | < > \" c'", &env), vec!["a\\b | < > \" c"]);
    assert_eq!(args_of("''", &env), vec![""]);
}

#[test]
fn bare_and_double_quoted_variables_expand() {
    let mut env = Environment::new();
    env.bind("VAR", "x");
    assert_eq!(args_of("\"$VAR\" $VAR", &env), vec!["x", "x"]);
    assert_eq!(args_of("a$VAR.b", &env), vec!["ax.b"]);
}

#[test]
fn unset_variable_is_empty() {
    let env = Environment::new();
    assert_eq!(args_of("$UNSET", &env), vec![""]);
    assert_eq!(args_of("a$UNSET-b \"$UNSET\"", &env), vec!["a-b", ""]);
}

#[test]
fn escape_keeps_the_next_character() {
    let env = cool();
    assert_eq!(args_of("word\\\\", &env), vec!["word\\"]);
    assert_eq!(args_of("a\\ b", &env), vec!["a b"]);
    assert_eq!(args_of("\\$COOLNAME", &env), vec!["$COOLNAME"]);
    assert_eq!(args_of("\"say \\\"hi\\\"\"", &env), vec!["say \"hi\""]);
    assert_eq!(args_of("\\|", &env), vec!["|"]);
}

#[test]
fn variable_names_are_identifiers() {
    let mut env = Environment::new();
    env.bind("A", "1");
    env.bind("A_b9", "2");
    env.bind("_x", "3");
    assert_eq!(args_of("$A-$A_b9/$_x", &env), vec!["1-2/3"]);
    assert_eq!(args_of("$A$A", &env), vec!["11"]);
}

#[test]
fn later_binding_replaces_earlier() {
    let mut env = Environment::new();
    env.bind("V", "old");
    env.bind("W", "other");
    env.bind("V", "new");
    assert_eq!(args_of("$V $W", &env), vec!["new", "other"]);
}

#[test]
fn non_ascii_text_is_kept() {
    let mut env = Environment::new();
    env.bind("V", "héllo");
    assert_eq!(args_of("ça 'dé jà' \"$V wörld\"", &env), vec!["ça", "dé jà", "héllo wörld"]);
}

#[test]
fn redirections_are_no_arguments() {
    let env = Environment::new();
    let (args, input, output) = parse("sort < in.txt -r > out.txt", &env).unwrap();
    assert_eq!(args, vec!["sort", "-r"]);
    assert_eq!(input, Some("in.txt".to_string()));
    assert_eq!(output, Some("out.txt".to_string()));
}

#[test]
fn first_redirection_of_a_direction_wins() {
    let env = Environment::new();
    let (args, input, output) = parse("cat <a >b <c >d", &env).unwrap();
    assert_eq!(args, vec!["cat"]);
    assert_eq!(input, Some("a".to_string()));
    assert_eq!(output, Some("b".to_string()));
}

#[test]
fn redirection_alone_is_a_stage() {
    let env = Environment::new();
    let (args, input, output) = parse(">  out", &env).unwrap();
    assert!(args.is_empty());
    assert_eq!(input, None);
    assert_eq!(output, Some("out".to_string()));
}

#[test]
fn lines_that_are_no_stage_are_refused() {
    let env = Environment::new();
    for line in [
        "", "   ", "a | b", "a |", "\"open", "'open", "a\\", "$", "$1", "a $ b", "a >", "a > |",
        "a>b", "\"a\"b", "a'b'", "<", "a \"b'c\"",
    ] {
        assert_eq!(parse(line, &env), Err(ParseError {}), "line: {:?}", line);
    }
}
