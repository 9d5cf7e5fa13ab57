use redox_core::shell::{
    line_kind, startup_command, Application, Builtin, Command, LineKind, Reply,
};

fn print_of(r: Reply) -> String {
    match r {
        Reply::Print(s) => s,
        _ => panic!("expected a printed line"),
    }
}

fn run_of(r: Reply) -> (usize, Vec<String>) {
    match r {
        Reply::Run(k, args) => (k, args),
        _ => panic!("expected a command to run"),
    }
}

fn nothing(r: &Reply) -> bool {
    matches!(r, Reply::Nothing)
}

#[test]
fn command_table_order_and_help_list() {
    let commands = Command::vec();
    let names: Vec<&str> = commands.iter().map(|c| c.name.as_str()).collect();
    assert_eq!(names, ["echo", "open", "run", "send", "sleep", "url", "url_hex", "wget", "help"]);
    assert!(matches!(commands[0].main, Builtin::Echo));
    assert!(matches!(commands[6].main, Builtin::UrlHex));
    match &commands[8].main {
        Builtin::Help { list } => {
            assert_eq!(list, " echo open run send sleep url url_hex wget exit")
        }
        _ => panic!("help last"),
    }
}

#[test]
fn comments_and_blank_lines_do_nothing() {
    let mut app = Application::new();
    assert!(nothing(&app.on_command("# echo hi")));
    assert!(nothing(&app.on_command("")));
    assert!(nothing(&app.on_command("    ")));
    assert_eq!(print_of(app.on_command("$")), "");
}

#[test]
fn set_then_list_and_expand() {
    let mut app = Application::new();
    assert!(nothing(&app.on_command("greeting=hello world")));
    assert!(nothing(&app.on_command("n=5")));
    assert_eq!(print_of(app.on_command("$")), "\ngreeting=hello world\nn=5");
    let (k, args) = run_of(app.on_command("echo $greeting and $n"));
    assert_eq!(k, 0);
    assert_eq!(args, ["echo", "hello world", "and", "5"]);
}

#[test]
fn reassign_updates_in_place() {
    let mut app = Application::new();
    app.on_command("a=1");
    app.on_command("b=2");
    app.on_command("a=3");
    assert_eq!(print_of(app.on_command("$")), "\na=3\nb=2");
}

#[test]
fn empty_value_unsets() {
    let mut app = Application::new();
    app.on_command("a=1");
    app.on_command("b=2");
    assert!(nothing(&app.on_command("a=")));
    assert_eq!(print_of(app.on_command("$")), "\nb=2");
    let (_, args) = run_of(app.on_command("echo $a x"));
    assert_eq!(args, ["echo", "x"]);
}

#[test]
fn assignment_edge_cases() {
    let mut app = Application::new();
    // empty name: nothing happens
    assert!(nothing(&app.on_command("=value")));
    assert_eq!(print_of(app.on_command("$")), "");
    // value after '=' keeps later '=' and further words join with spaces
    app.on_command("x=a=b c");
    assert_eq!(print_of(app.on_command("$")), "\nx=a=b c");
    // "name= word" gives a value beginning with a space
    app.on_command("y= w");
    assert_eq!(print_of(app.on_command("$")), "\nx=a=b c\ny= w");
}

#[test]
fn unknown_variable_drops_the_word() {
    let mut app = Application::new();
    let (k, args) = run_of(app.on_command("$nothing help"));
    assert_eq!(k, 8);
    assert_eq!(args, ["help"]);
    assert!(nothing(&app.on_command("$nothing")));
}

#[test]
fn unknown_command_is_reported() {
    let mut app = Application::new();
    assert_eq!(print_of(app.on_command("frobnicate now")), "Unknown command: 'frobnicate'");
    assert_eq!(print_of(app.on_command("exit")), "Unknown command: 'exit'");
}

#[test]
fn if_else_fi_control_execution() {
    let mut app = Application::new();
    assert!(nothing(&app.on_command("if a == a")));
    assert!(matches!(app.on_command("echo yes"), Reply::Run(0, _)));
    assert!(nothing(&app.on_command("else")));
    assert!(nothing(&app.on_command("echo no")));
    assert!(nothing(&app.on_command("v=1")));
    assert!(nothing(&app.on_command("fi")));
    assert_eq!(print_of(app.on_command("$")), "");
    assert!(matches!(app.on_command("echo after"), Reply::Run(0, _)));
}

#[test]
fn nested_levels_all_must_run() {
    let mut app = Application::new();
    app.on_command("if 1 == 2");
    app.on_command("if 3 == 3");
    assert!(nothing(&app.on_command("echo hidden")));
    app.on_command("fi");
    assert!(nothing(&app.on_command("echo still hidden")));
    app.on_command("fi");
    assert!(matches!(app.on_command("echo shown"), Reply::Run(0, _)));
}

#[test]
fn numeric_comparisons() {
    let cases = [
        ("if 10 > 9", true),
        ("if 9 > 10", false),
        ("if -3 < 2", true),
        ("if 5 >= 5", true),
        ("if 4 <= 3", false),
        ("if abc != abd", true),
        ("if x == y", false),
        ("if -1 > -2", true),
    ];
    for (line, holds) in cases {
        let mut app = Application::new();
        assert!(nothing(&app.on_command(line)));
        let r = app.on_command("echo");
        assert_eq!(matches!(r, Reply::Run(0, _)), holds, "{}", line);
    }
}

#[test]
fn if_with_missing_arguments_is_false() {
    let mut app = Application::new();
    assert!(nothing(&app.on_command("if 1 ==")));
    assert!(nothing(&app.on_command("echo x")));
}

#[test]
fn unknown_comparison_is_reported_and_false() {
    let mut app = Application::new();
    assert_eq!(print_of(app.on_command("if 1 =~ 1")), "Unknown comparison: =~");
    assert!(nothing(&app.on_command("echo x")));
    app.on_command("fi");
    assert!(matches!(app.on_command("echo x"), Reply::Run(0, _)));
}

#[test]
fn else_and_fi_without_if_are_syntax_errors() {
    let mut app = Application::new();
    assert_eq!(
        print_of(app.on_command("else")),
        "Syntax error: else found with no previous if"
    );
    assert_eq!(print_of(app.on_command("fi")), "Syntax error: fi found with no previous if");
}

#[test]
fn variables_expand_inside_if() {
    let mut app = Application::new();
    app.on_command("count=3");
    app.on_command("if $count == 3");
    assert!(matches!(app.on_command("echo ok"), Reply::Run(0, _)));
}

#[test]
fn commands_receive_all_arguments() {
    let mut app = Application::new();
    let (k, args) = run_of(app.on_command("send  http://x   a b"));
    assert_eq!(k, 3);
    assert_eq!(args, ["send", "http://x", "a", "b"]);
}

#[test]
fn else_twice_restores_the_level() {
    let mut app = Application::new();
    app.on_command("if 1 == 1");
    assert!(nothing(&app.on_command("else")));
    assert!(nothing(&app.on_command("echo off")));
    assert!(nothing(&app.on_command("else")));
    assert!(matches!(app.on_command("echo on"), Reply::Run(0, _)));
}

#[test]
fn read_loop_sorts_lines() {
    assert!(line_kind("exit") == LineKind::Exit);
    assert!(line_kind("") == LineKind::Skip);
    assert!(line_kind("exit now") == LineKind::Execute);
    assert!(line_kind(" ") == LineKind::Execute);
    assert_eq!(startup_command("/apps/start.sh"), "run /apps/start.sh");
}
