use nsh::config::{apply_entry, substitute_aliases};
use nsh::machine::define_alias;
use nsh::escape::string;
use nsh::token::tokenize;
use nsh::{Action, Ast, Config, Event, Machine, Node, Nsh, NshError, NshErrorType, ReadLineError, Token, TokenKind, Value};

fn ident(text: &str) -> Token {
    Token::plain(TokenKind::Ident, text.to_string(), (1, 1))
}

fn keyword(text: &str) -> Token {
    Token::plain(TokenKind::Keyword, text.to_string(), (1, 1))
}

fn section(name: &str, text: &str) -> Token {
    Token::named(TokenKind::Enclosed, name.to_string(), text.to_string(), (1, 1))
}

fn symbol(tag: &str) -> Token {
    Token::named(TokenKind::Symbol, tag.to_string(), tag.to_string(), (1, 1))
}

fn texts(tokens: &[Token]) -> Vec<String> {
    tokens.iter().map(|t| t.text.clone()).collect()
}

fn env_of(pairs: &[(&str, &str)]) -> Vec<(String, String)> {
    pairs.iter().map(|(k, v)| (k.to_string(), v.to_string())).collect()
}

#[test]
fn escape_decodes_newline_and_esc() {
    assert_eq!(string("a\\nb"), "a\nb");
    assert_eq!(string("\\e[0m"), "\x1B[0m");
}

#[test]
fn escape_keeps_unknown_escape() {
    assert_eq!(string("a\\tb"), "a\\tb");
    assert_eq!(string("\\\\n"), "\\\\n");
}

#[test]
fn escape_trailing_backslash_unchanged() {
    assert_eq!(string("\\"), "\\");
    assert_eq!(string("abc\\"), "abc\\");
}

#[test]
fn escape_plain_text_idempotent() {
    let plain = "hello world\n\x1B";
    assert_eq!(string(plain), plain);
    assert_eq!(string(&string(plain)), plain);
    assert_eq!(string(""), "");
}

#[test]
fn escape_round_trip_of_control_characters() {
    let text = "line one\nline two\x1B[1m";
    let encoded = text.replace('\n', "\\n").replace('\x1B', "\\e");
    assert_eq!(string(&encoded), text);
}

#[test]
fn tokenize_splits_words() {
    let tokens = tokenize("ls -la\n").unwrap();
    assert_eq!(texts(&tokens), vec!["ls", "-la"]);
    assert_eq!(tokens[0].kind, TokenKind::Ident);
}

#[test]
fn tokenize_recognises_keywords_sections_and_symbols() {
    let tokens = tokenize("cd $HOME$ & alias \"x\" \"y\"\n").unwrap();
    assert_eq!(tokens[0].kind, TokenKind::Keyword);
    assert!(tokens[1].is_section("env"));
    assert_eq!(tokens[1].text, "HOME");
    assert!(tokens[2].is_symbol("And"));
    assert!(tokens[3].is_keyword("alias"));
    assert!(tokens[4].is_section("string"));
}

#[test]
fn substitution_replaces_first_match() {
    let mut config = Config::new();
    config.alias.push((ident("ll"), vec![ident("ls"), ident("-la")]));
    let out = substitute_aliases(&vec![ident("ll"), ident("ll")], &config);
    assert_eq!(texts(&out), vec!["ls", "-la", "ll"]);
}

#[test]
fn substitution_without_match_is_identity() {
    let mut config = Config::new();
    config.alias.push((ident("ll"), vec![ident("ls")]));
    let stmt = vec![ident("echo"), ident("hi")];
    let out = substitute_aliases(&stmt, &config);
    assert_eq!(texts(&out), texts(&stmt));
    assert_eq!(out.len(), stmt.len());
}

#[test]
fn substitution_chains_in_table_order() {
    let mut config = Config::new();
    config.alias.push((ident("a"), vec![ident("b")]));
    config.alias.push((ident("b"), vec![ident("c"), ident("d")]));
    let out = substitute_aliases(&vec![ident("a")], &config);
    assert_eq!(texts(&out), vec!["c", "d"]);
}

#[test]
fn substitution_compares_kind_not_only_text() {
    let entry = (ident("cd"), vec![ident("x")]);
    let out = apply_entry(vec![keyword("cd")], &entry);
    assert_eq!(out[0].kind, TokenKind::Keyword);
}

#[test]
fn substitution_to_nothing() {
    let mut config = Config::new();
    config.alias.push((ident("gone"), vec![]));
    let out = substitute_aliases(&vec![ident("gone"), ident("x")], &config);
    assert_eq!(texts(&out), vec!["x"]);
}

#[test]
fn parse_keeps_statement_count_under_aliases() {
    let tokens = vec![ident("ll"), symbol("And"), symbol("NewLine"), ident("echo"), ident("hi"), symbol("And")];
    let mut plain = Ast::new(tokens.clone());
    let nodes = plain.parse(&Config::new());
    assert_eq!(nodes.len(), 2);
    let mut config = Config::new();
    config.alias.push((ident("ll"), vec![]));
    let mut aliased = Ast::new(tokens);
    let nodes = aliased.parse(&config);
    assert_eq!(nodes.len(), 2);
    assert!(matches!(nodes[0], Node::Nop));
}

#[test]
fn parse_builtins() {
    let tokens = vec![
        keyword("cd"), section("env", "HOME"), symbol("And"),
        keyword("alias"), symbol("And"),
        section("env", "FOO"), symbol("Equal"), section("string", "bar"),
    ];
    let mut ast = Ast::new(tokens);
    let nodes = ast.parse(&Config::new());
    assert_eq!(nodes.len(), 3);
    assert!(matches!(&nodes[0], Node::Cd(Value::Env(n)) if n == "HOME"));
    assert!(matches!(nodes[1], Node::AliasList));
    assert!(matches!(&nodes[2], Node::SetEnv(n, Value::Str(v)) if n == "FOO" && v == "bar"));
    assert_eq!(ast.errors.len(), 0);
}

#[test]
fn parse_errors_degrade_to_nop() {
    let tokens = vec![
        keyword("cd"), symbol("And"),
        keyword("alias"), ident("x"), symbol("And"),
        section("env", "FOO"), ident("="), ident("v"), symbol("And"),
        Token::plain(TokenKind::Integer, "5".to_string(), (2, 7)), symbol("And"),
        ident("echo"), Token::plain(TokenKind::Integer, "3".to_string(), (1, 12)), ident("ok"),
    ];
    let mut ast = Ast::new(tokens);
    let nodes = ast.parse(&Config::new());
    assert_eq!(nodes.len(), 5);
    for n in &nodes[0..4] {
        assert!(matches!(n, Node::Nop));
    }
    match &nodes[4] {
        Node::Exec { file, args } => {
            assert_eq!(file, "echo");
            assert!(matches!(args[0], Value::Nov));
            assert!(matches!(&args[1], Value::Str(s) if s == "ok"));
        },
        _ => panic!("expected an exec instruction"),
    }
    let lines = ast.errors.handle();
    assert_eq!(lines, vec![
        "[ERROR]: Failed to parse -> `1:1: expected directory`",
        "[ERROR]: Failed to parse -> `1:1: alias expects 2 arguments`",
        "[ERROR]: Failed to parse -> `1:1: expected `=` but got `=``",
        "[ERROR]: Failed to parse -> `2:7: expected keyword but got `5``",
        "[ERROR]: Failed to parse -> `1:12: expected value but got `3``",
    ]);
}

#[test]
fn define_alias_with_two_token_pattern_fails() {
    let mut config = Config::new();
    let r = define_alias(&mut config, Ok(vec![ident("a"), ident("b")]), Ok(vec![ident("c")]));
    assert!(matches!(r, Err(NshError::Alias(ref m)) if m == "Alias can only accept 1 token as the match"));
    assert_eq!(config.alias.len(), 0);
}

#[test]
fn define_alias_with_empty_pattern_fails() {
    let mut config = Config::new();
    let r = define_alias(&mut config, Ok(vec![]), Ok(vec![ident("c")]));
    assert!(matches!(r, Err(NshError::Alias(_))));
    assert_eq!(config.alias.len(), 0);
}

#[test]
fn define_alias_lexical_failure() {
    let mut config = Config::new();
    let r = define_alias(&mut config, Err("bad".to_string()), Ok(vec![]));
    assert!(matches!(r, Err(NshError::Lexical(ref m)) if m == "failed to tokenize"));
    assert_eq!(config.alias.len(), 0);
}

#[test]
fn alias_definition_then_use() {
    let mut config = Config::new();
    let r = define_alias(&mut config, Ok(vec![ident("ll")]), Ok(vec![ident("ls"), ident("-la")]));
    assert!(r.is_ok());
    assert_eq!(config.alias.len(), 1);
    assert_eq!(config.alias[0].0.text, "ll");
    assert_eq!(texts(&config.alias[0].1), vec!["ls", "-la"]);
    let mut ast = Ast::new(vec![ident("ll")]);
    let nodes = ast.parse(&config);
    match &nodes[0] {
        Node::Exec { file, args } => {
            assert_eq!(file, "ls");
            assert_eq!(args.len(), 1);
            assert!(matches!(&args[0], Value::Str(s) if s == "-la"));
        },
        _ => panic!("expected an exec instruction"),
    }
}

#[test]
fn alias_defined_through_the_interpreter() {
    let mut vm = Machine::new();
    let mut config = Config::new();
    let nodes = vec![Node::Alias(Value::Str("ll ".to_string()), Value::Str("ls -la\\n".to_string()))];
    let mut run = vm.exec(nodes, false);
    let a = vm.step(&mut run, &mut config, &vec![]);
    assert!(matches!(a, Action::Nothing));
    assert_eq!(config.alias.len(), 1);
    assert_eq!(config.alias[0].0.text, "ll");
    assert_eq!(texts(&config.alias[0].1), vec!["ls", "-la"]);
    assert!(matches!(vm.step(&mut run, &mut config, &vec![]), Action::Finished));
}

#[test]
fn alias_arity_error_stops_the_line() {
    let mut vm = Machine::new();
    let mut config = Config::new();
    let nodes = vec![
        Node::Alias(Value::Str("a b ".to_string()), Value::Str("c ".to_string())),
        Node::SetEnv("X".to_string(), Value::Str("1".to_string())),
    ];
    let mut run = vm.exec(nodes, false);
    assert!(matches!(vm.step(&mut run, &mut config, &vec![]), Action::Nothing));
    assert!(run.halted);
    assert_eq!(config.alias.len(), 0);
    assert_eq!(vm.errors().len(), 1);
    assert!(matches!(vm.errors().get(0), NshError::Alias(_)));
    assert!(matches!(vm.step(&mut run, &mut config, &vec![]), Action::Finished));
}

#[test]
fn alias_listing_does_not_change_anything() {
    let mut vm = Machine::new();
    let mut config = Config::new();
    config.alias.push((ident("ll"), vec![ident("ls"), ident("-la")]));
    let mut run = vm.exec(vec![Node::AliasList], false);
    match vm.step(&mut run, &mut config, &vec![]) {
        Action::Print(lines) => assert_eq!(lines, vec!["ll:  ls -la"]),
        _ => panic!("expected a listing"),
    }
    assert_eq!(config.alias.len(), 1);
    assert_eq!(vm.errors().len(), 0);
    assert!(!run.halted);
}

#[test]
fn cd_failure_aborts_line_and_keeps_pwd() {
    let mut vm = Machine::new();
    let mut config = Config::new();
    let nodes = vec![Node::Cd(Value::Str("/does/not/exist".to_string())), Node::Exec { file: "ls".to_string(), args: vec![] }];
    let mut run = vm.exec(nodes, false);
    match vm.step(&mut run, &mut config, &vec![]) {
        Action::ChangeDir(d) => assert_eq!(d, "/does/not/exist"),
        _ => panic!("expected a directory change"),
    }
    vm.complete(&mut run, Event::Failed(NshError::Exec("No such file or directory".to_string())));
    assert!(matches!(vm.step(&mut run, &mut config, &vec![]), Action::Finished));
    assert_eq!(vm.errors().len(), 1);
    assert!(matches!(vm.errors().get(0), NshError::Exec(_)));
    assert!(run.pwd.is_none());
}

#[test]
fn cd_success_records_pwd() {
    let mut vm = Machine::new();
    let mut config = Config::new();
    let mut run = vm.exec(vec![Node::Cd(Value::Env("HOME".to_string()))], false);
    let env = env_of(&[("HOME", "/home/u")]);
    match vm.step(&mut run, &mut config, &env) {
        Action::ChangeDir(d) => assert_eq!(d, "/home/u"),
        _ => panic!("expected a directory change"),
    }
    vm.complete(&mut run, Event::DirChanged("/home/u".to_string()));
    match vm.step(&mut run, &mut config, &env) {
        Action::SetVar(k, v) => {
            assert_eq!(k, "PWD");
            assert_eq!(v, "/home/u");
        },
        _ => panic!("expected PWD to be set"),
    }
    assert!(matches!(vm.step(&mut run, &mut config, &env), Action::Finished));
}

#[test]
fn set_environment_then_read_it() {
    let mut vm = Machine::new();
    let mut config = Config::new();
    let tokens = vec![section("env", "FOO"), symbol("Equal"), section("string", "bar")];
    let mut ast = Ast::new(tokens);
    let nodes = ast.parse(&config);
    let mut run = vm.exec(nodes, false);
    match vm.step(&mut run, &mut config, &vec![]) {
        Action::SetVar(k, v) => {
            assert_eq!(k, "FOO");
            assert_eq!(v, "bar");
        },
        _ => panic!("expected a variable to be set"),
    }
    let env = env_of(&[("FOO", "bar")]);
    let mut ast = Ast::new(vec![ident("echo"), section("env", "FOO")]);
    let nodes = ast.parse(&config);
    let mut run = vm.exec(nodes, true);
    match vm.step(&mut run, &mut config, &env) {
        Action::Spawn { program, args, capture } => {
            assert_eq!(program, "echo");
            assert_eq!(args, vec!["bar"]);
            assert!(capture);
        },
        _ => panic!("expected a program to run"),
    }
}

#[test]
fn unset_variable_resolves_empty() {
    let vm = Machine::new();
    let env = env_of(&[("A", "1"), ("A", "2")]);
    assert_eq!(vm.value(&Value::Env("B".to_string()), &env), "");
    assert_eq!(vm.value(&Value::Env("A".to_string()), &env), "1");
    assert_eq!(vm.value(&Value::Nov, &env), "");
    assert_eq!(vm.arg_values(&vec![Value::Str("x\\n".to_string()), Value::Nov], &env), vec!["x\n", ""]);
}

#[test]
fn spawn_failure_skips_rest_of_line() {
    let mut vm = Machine::new();
    let mut config = Config::new();
    let mut ast = Ast::new(vec![ident("nonexistent-program"), symbol("And"), ident("echo"), ident("hi")]);
    let nodes = ast.parse(&config);
    assert_eq!(nodes.len(), 2);
    let mut run = vm.exec(nodes, true);
    assert!(matches!(vm.step(&mut run, &mut config, &vec![]), Action::Spawn { .. }));
    vm.complete(&mut run, Event::Failed(NshError::Exec("not found".to_string())));
    assert!(matches!(vm.step(&mut run, &mut config, &vec![]), Action::Finished));
    assert_eq!(vm.ret_exec(run.capture, run.output.clone()), Some(String::new()));
}

#[test]
fn captured_output_is_concatenated() {
    let mut vm = Machine::new();
    let mut config = Config::new();
    let nodes = vec![
        Node::Exec { file: "a".to_string(), args: vec![] },
        Node::Exec { file: "b".to_string(), args: vec![] },
        Node::Exec { file: "c".to_string(), args: vec![] },
    ];
    let mut run = vm.exec(nodes, true);
    vm.step(&mut run, &mut config, &vec![]);
    vm.complete(&mut run, Event::Captured("one".to_string()));
    vm.step(&mut run, &mut config, &vec![]);
    vm.complete(&mut run, Event::Captured("two".to_string()));
    vm.step(&mut run, &mut config, &vec![]);
    vm.complete(&mut run, Event::Failed(NshError::Utf8("bad".to_string())));
    assert_eq!(vm.ret_exec(true, run.output.clone()), Some("onetwo".to_string()));
    assert_eq!(vm.ret_exec(false, run.output), None);
}

#[test]
fn pipe_and_nop_do_nothing() {
    let mut vm = Machine::new();
    let mut config = Config::new();
    let nodes = vec![Node::Pipe(Box::new(Node::Nop), Box::new(Node::Nop)), Node::Nop];
    let mut run = vm.exec(nodes, false);
    assert!(matches!(vm.step(&mut run, &mut config, &vec![]), Action::Nothing));
    assert!(matches!(vm.step(&mut run, &mut config, &vec![]), Action::Nothing));
    assert!(matches!(vm.step(&mut run, &mut config, &vec![]), Action::Finished));
}

#[test]
fn exec_line_reports_located_parse_errors() {
    let mut shell = Nsh::new();
    let run = shell.exec_line("cd\n", false);
    assert_eq!(run.nodes.len(), 1);
    let lines = shell.errors.handle();
    assert_eq!(lines, vec!["[ERROR]: Failed to parse -> `1:2: expected directory`"]);
    assert_eq!(shell.errors.len(), 0);
}

#[test]
fn exec_line_builds_instructions() {
    let mut shell = Nsh::new();
    let mut run = shell.exec_line("echo hi & cd /tmp\n", true);
    assert_eq!(run.nodes.len(), 2);
    match shell.step(&mut run, &vec![]) {
        Action::Spawn { program, args, capture } => {
            assert_eq!(program, "echo");
            assert_eq!(args, vec!["hi"]);
            assert!(capture);
        },
        _ => panic!("expected a program to run"),
    }
    shell.complete(&mut run, Event::Captured("hi\n".to_string()));
    assert!(matches!(shell.step(&mut run, &vec![]), Action::ChangeDir(_)));
    shell.complete(&mut run, Event::Done);
    assert!(matches!(shell.step(&mut run, &vec![]), Action::Finished));
    assert_eq!(shell.result(run), Some("hi\n".to_string()));
}

#[test]
fn error_queue_merge_and_handle() {
    let mut a = NshErrorType::new();
    a.push(NshError::Exec("x".to_string()));
    let mut b = NshErrorType::new();
    b.push(NshError::ExecWait("y".to_string()));
    b.push(NshError::Config("z".to_string()));
    a.merge(&b);
    assert_eq!(a.len(), 3);
    let lines = a.handle_err(NshError::ReadStdin("w".to_string()));
    assert_eq!(lines, vec![
        "[ERROR]: Failed to execute command -> `x`",
        "[ERROR]: Failed to wait for child process -> `y`",
        "[ERROR]: Failed to load config -> `z`",
        "[ERROR]: Failed to read from `stdin` -> `w`",
    ]);
    assert_eq!(a.len(), 0);
    assert_eq!(b.len(), 2);
}

#[test]
fn error_reports_of_every_kind() {
    let cases = vec![
        (NshError::Lexical("m".to_string()), "[ERROR]: Lexing with `lib_lexin` failed -> `m`"),
        (NshError::Prompt("m".to_string()), "[ERROR]: Failed to output prompt -> `m`"),
        (NshError::Parser("m".to_string()), "[ERROR]: Failed to parse -> `m`"),
        (NshError::History("m".to_string()), "[ERROR]: Failed to load history -> `m`"),
        (NshError::Utf8("m".to_string()), "[ERROR]: Failed to parse utf8 -> `m`"),
        (NshError::Alias("m".to_string()), "[ERROR]: Alias failed with message -> `m`"),
    ];
    for (e, expected) in cases {
        assert_eq!(e.report(), expected);
    }
}

#[test]
fn readline_error_message() {
    assert_eq!(ReadLineError::Flush("f".to_string()).to_string(), "f");
    assert_eq!(ReadLineError::Completion("c".to_string()).to_string(), "c");
}

#[test]
fn tokens_to_string_spaces_each_token() {
    assert_eq!(Ast::tokens_to_string(&vec![ident("ls"), ident("-la")]), " ls -la");
    assert_eq!(Ast::tokens_to_string(&vec![]), "");
}

#[test]
fn defaults_are_empty() {
    assert_eq!(NshErrorType::default().len(), 0);
    assert!(matches!(Value::default(), Value::Nov));
    assert!(matches!(Node::default(), Node::Nop));
    assert_eq!(Config::new().alias.len(), 0);
}

#[test]
fn exec_line_with_unicode_reports_lexical_error() {
    let mut shell = Nsh::new();
    let run = shell.exec_line("echo é\n", false);
    assert_eq!(run.nodes.len(), 0);
    assert_eq!(shell.errors.len(), 1);
    assert!(matches!(shell.errors.get(0), NshError::Lexical(_)));
}

#[test]
fn env_assignment_with_extra_tokens_is_an_error() {
    let tokens = vec![section("env", "FOO"), symbol("Equal"), ident("bar"), ident("baz")];
    let mut ast = Ast::new(tokens);
    let nodes = ast.parse(&Config::new());
    assert_eq!(nodes.len(), 1);
    assert!(matches!(nodes[0], Node::Nop));
    let lines = ast.errors.handle();
    assert_eq!(lines, vec!["[ERROR]: Failed to parse -> `1:1: env expected 2 arguments`"]);
}
