use rusht::shell::{cd_target, cmd_exit, io_outcome, is_exit, not_found_message, Action,
    BuiltinKind, CommandResult, Shell};

#[test]
fn expand_replaces_every_shortcut_occurrence() {
    let shell = Shell::new();
    let out = shell.expand_shortcuts("cd ~/x~", Some("/home/u"));
    assert_eq!(out, "cd /home/u/x/home/u");
}

#[test]
fn expand_with_home_unset_returns_input_unchanged() {
    let shell = Shell::new();
    for line in ["", "cd ~/x~", "~~~", "plain text"] {
        assert_eq!(shell.expand_shortcuts(line, None), line);
    }
}

#[test]
fn expand_without_shortcut_is_identity() {
    let shell = Shell::new();
    assert_eq!(shell.expand_shortcuts("ls -l", Some("/home/u")), "ls -l");
}

#[test]
fn expand_of_lone_shortcut_is_home() {
    let shell = Shell::new();
    assert_eq!(shell.expand_shortcuts("~", Some("/home/u")), "/home/u");
    assert_eq!(shell.expand_shortcuts("~", Some("")), "");
}

#[test]
fn lookup_finds_each_builtin() {
    let shell = Shell::new();
    for (name, kind) in [
        ("cd", BuiltinKind::Cd),
        ("exit", BuiltinKind::Exit),
        ("help", BuiltinKind::Help),
        ("pwd", BuiltinKind::Pwd),
    ] {
        let b = shell.lookup(name).expect("builtin should be registered");
        assert_eq!(b.name, name);
        assert_eq!(b.kind, kind);
    }
}

#[test]
fn lookup_is_exact_and_case_sensitive() {
    let shell = Shell::new();
    assert!(shell.lookup("CD").is_none());
    assert!(shell.lookup("cd ").is_none());
    assert!(shell.lookup("c").is_none());
    assert!(shell.lookup("exits").is_none());
    assert!(shell.lookup("").is_none());
}

#[test]
fn cd_with_no_arguments_targets_home() {
    let args: Vec<String> = vec![];
    let t = cd_target(&args, Some("/home/u".to_string()));
    assert_eq!(t, Some("/home/u".to_string()));
}

#[test]
fn cd_with_no_arguments_and_no_home_has_no_target() {
    let args: Vec<String> = vec![];
    assert_eq!(cd_target(&args, None), None);
}

#[test]
fn cd_uses_first_argument_and_ignores_extras() {
    let args = vec!["/tmp".to_string(), "/ignored".to_string()];
    let t = cd_target(&args, Some("/home/u".to_string()));
    assert_eq!(t, Some("/tmp".to_string()));
}

#[test]
fn failed_directory_operation_is_a_failure_outcome() {
    assert_eq!(io_outcome(false), CommandResult::Failure(1));
    assert_eq!(io_outcome(true), CommandResult::Success(0));
}

#[test]
fn exit_ignores_arguments_and_requests_termination() {
    let shell = Shell::new();
    let r = cmd_exit(&shell, &vec!["now".to_string(), "please".to_string()]);
    assert_eq!(r, CommandResult::Exit);
    assert!(is_exit(&r));
    assert!(!is_exit(&CommandResult::Success(0)));
    assert!(!is_exit(&CommandResult::Failure(1)));
}

#[test]
fn plan_of_blank_line_is_nothing() {
    let shell = Shell::new();
    assert!(matches!(shell.plan("", None), Action::Nothing));
    assert!(matches!(shell.plan("   \t ", None), Action::Nothing));
}

#[test]
fn plan_of_exit_line_requests_the_exit_builtin() {
    let shell = Shell::new();
    match shell.plan("exit", None) {
        Action::RunBuiltin(kind, args) => {
            assert_eq!(kind, BuiltinKind::Exit);
            assert!(args.is_empty());
        }
        _ => panic!("expected a builtin action"),
    }
}

#[test]
fn plan_splits_command_and_arguments() {
    let shell = Shell::new();
    match shell.plan("  cd   /tmp  extra ", None) {
        Action::RunBuiltin(kind, args) => {
            assert_eq!(kind, BuiltinKind::Cd);
            assert_eq!(args, vec!["/tmp".to_string(), "extra".to_string()]);
        }
        _ => panic!("expected a builtin action"),
    }
}

#[test]
fn plan_of_unrecognized_name_spawns_external() {
    let shell = Shell::new();
    match shell.plan("no-such-program-anywhere -v", None) {
        Action::External(name, args) => {
            assert_eq!(name, "no-such-program-anywhere");
            assert_eq!(args, vec!["-v".to_string()]);
        }
        _ => panic!("expected an external action"),
    }
}

#[test]
fn plan_expands_before_tokenizing() {
    let shell = Shell::new();
    match shell.plan("cd ~", Some("/home/u")) {
        Action::RunBuiltin(kind, args) => {
            assert_eq!(kind, BuiltinKind::Cd);
            assert_eq!(args, vec!["/home/u".to_string()]);
        }
        _ => panic!("expected a builtin action"),
    }
    match shell.plan("run ~", Some("a b")) {
        Action::External(name, args) => {
            assert_eq!(name, "run");
            assert_eq!(args, vec!["a".to_string(), "b".to_string()]);
        }
        _ => panic!("expected an external action"),
    }
}

#[test]
fn not_found_message_names_the_command() {
    assert_eq!(not_found_message("foo"), "foo: command not found");
    assert_eq!(not_found_message(""), ": command not found");
}

#[test]
fn help_lists_every_builtin_once_in_registry_order() {
    let shell = Shell::new();
    let lines = shell.help_lines();
    assert_eq!(lines.len(), shell.builtins.len());
    let expected = [
        format!("{:<20} - {}", "cd", "change working directory"),
        format!("{:<20} - {}", "exit", "exit the shell"),
        format!("{:<20} - {}", "help", "print a help message"),
        format!("{:<20} - {}", "pwd", "print working directory"),
    ];
    assert_eq!(lines, expected);
    for b in &shell.builtins {
        let count = lines.iter().filter(|l| l.starts_with(&b.name)).count();
        assert_eq!(count, 1);
    }
}
