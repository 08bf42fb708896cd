use turbo_desktop::shell_bridge::{
    shell_action, shell_command_line, shell_escape, shell_invocation, Platform, ShellAction,
};

#[test]
fn commands_run_through_a_login_shell() {
    let (program, args) = shell_invocation(
        Platform::Linux,
        Some("/bin/zsh".to_string()),
        "bin/rails server",
    );
    assert_eq!(program, "/bin/zsh");
    assert_eq!(args, vec!["-l", "-c", "bin/rails server"]);

    let (program, args) = shell_invocation(Platform::MacOs, None, "bin/rails server");
    assert_eq!(program, "/bin/sh");
    assert_eq!(args, vec!["-l", "-c", "bin/rails server"]);
}

#[test]
fn commands_run_through_cmd() {
    // No login shell on Windows: PATH is already there, and `sh -l -c`
    // would need a shell that does not exist.
    let (program, args) = shell_invocation(
        Platform::Windows,
        Some("/bin/zsh".to_string()),
        "bin/rails server",
    );
    assert_eq!(program, "cmd");
    assert_eq!(args, vec!["/C", "bin/rails server"]);
}

#[test]
fn arguments_are_single_quoted_for_the_shell() {
    assert_eq!(shell_escape(Platform::Linux, "plain-arg.txt"), "plain-arg.txt");
    assert_eq!(shell_escape(Platform::Linux, "has space"), "'has space'");
    assert_eq!(shell_escape(Platform::Linux, "it's"), "'it'\\''s'");
    assert_eq!(shell_escape(Platform::Linux, ""), "''");
}

#[test]
fn arguments_are_double_quoted_for_cmd() {
    assert_eq!(shell_escape(Platform::Windows, "plain-arg.txt"), "plain-arg.txt");
    assert_eq!(shell_escape(Platform::Windows, r"C:\Users\dev"), r"C:\Users\dev");
    assert_eq!(shell_escape(Platform::Windows, "has space"), "\"has space\"");
    assert_eq!(
        shell_escape(Platform::Windows, "say \"hi\""),
        "\"say \"\"hi\"\"\""
    );
    assert_eq!(shell_escape(Platform::Windows, ""), "\"\"");
}

#[test]
fn a_command_line_escapes_each_argument() {
    let args = vec!["my file.txt".to_string(), "-v".to_string()];
    assert_eq!(
        shell_command_line(Platform::Linux, "cat", &args),
        "cat 'my file.txt' -v"
    );
    assert_eq!(
        shell_command_line(Platform::Windows, "type", &args),
        "type \"my file.txt\" -v"
    );
    assert_eq!(shell_command_line(Platform::Linux, "ls", &Vec::new()), "ls");
}

#[test]
fn shell_events_name_their_actions() {
    assert_eq!(shell_action("spawn"), Some(ShellAction::Spawn));
    assert_eq!(shell_action("kill"), Some(ShellAction::Kill));
    assert_eq!(shell_action("status"), Some(ShellAction::Status));
    assert_eq!(shell_action("list"), Some(ShellAction::List));
    assert_eq!(shell_action("exec"), None);
}

use turbo_desktop::shell_bridge::{OutputAction, OutputEvent, OutputWatch, Pipe};

#[test]
fn output_is_forwarded_until_both_pipes_close() {
    let mut watch = OutputWatch::new(true, true);
    assert_eq!(
        watch.step(OutputEvent::Line(Pipe::Stdout, "ready".into())),
        OutputAction::Forward { event: "stdout".into(), line: "ready".into() }
    );
    assert_eq!(
        watch.step(OutputEvent::Line(Pipe::Stderr, "warn".into())),
        OutputAction::Forward { event: "stderr".into(), line: "warn".into() }
    );
    assert_eq!(watch.step(OutputEvent::Closed(Pipe::Stdout)), OutputAction::Continue);
    assert!(!watch.all_closed());
    assert_eq!(watch.step(OutputEvent::Closed(Pipe::Stderr)), OutputAction::AwaitExit);
    assert!(watch.all_closed());
    assert!(watch.stopped);
}

#[test]
fn a_kill_request_ends_the_watch() {
    let mut watch = OutputWatch::new(true, true);
    assert_eq!(watch.step(OutputEvent::KillRequested), OutputAction::Kill);
    assert_eq!(
        watch.step(OutputEvent::Line(Pipe::Stdout, "late".into())),
        OutputAction::Continue
    );
    assert_eq!(watch.step(OutputEvent::Closed(Pipe::Stdout)), OutputAction::Continue);
}

/// How a POSIX shell splits a command line into the words a program receives,
/// for lines made of literal words: single quotes, backslash escapes and the
/// characters a shell takes as they are. Anything else makes the line unreadable.
fn read_shell_words(line: &str) -> Option<Vec<String>> {
    #[derive(PartialEq)]
    enum State {
        Bare,
        Quoted,
        Escaped,
    }
    let safe = |c: char| c.is_ascii_alphanumeric() || "-_./:=@".contains(c);
    let mut words = Vec::new();
    let mut word = String::new();
    let mut in_word = false;
    let mut state = State::Bare;
    for c in line.chars() {
        match state {
            State::Bare if c == ' ' => {
                if in_word {
                    words.push(std::mem::take(&mut word));
                }
                in_word = false;
            }
            State::Bare => {
                in_word = true;
                if c == '\'' {
                    state = State::Quoted;
                } else if c == '\\' {
                    state = State::Escaped;
                } else if safe(c) {
                    word.push(c);
                } else {
                    return None;
                }
            }
            State::Quoted => {
                if c == '\'' {
                    state = State::Bare;
                } else {
                    word.push(c);
                }
            }
            State::Escaped => {
                if c == '\n' {
                    return None;
                }
                word.push(c);
                state = State::Bare;
            }
        }
    }
    if state != State::Bare {
        return None;
    }
    if in_word {
        words.push(word);
    }
    Some(words)
}

#[test]
fn escaped_arguments_reach_the_program_as_given() {
    let args: Vec<String> = vec![
        "plain".into(),
        "".into(),
        "two words".into(),
        "it's".into(),
        "''".into(),
        "$(rm -rf /)".into(),
        "a;b|c&d".into(),
        "back\\slash".into(),
        "line\nbreak".into(),
        "* ? [x]".into(),
    ];
    for platform in [Platform::Linux, Platform::MacOs] {
        for arg in &args {
            let escaped = shell_escape(platform, arg);
            assert_eq!(read_shell_words(&escaped), Some(vec![arg.clone()]), "{escaped}");
        }
        let line = shell_command_line(platform, "git commit -m", &args);
        let mut expected: Vec<String> = vec!["git".into(), "commit".into(), "-m".into()];
        expected.extend(args.iter().cloned());
        assert_eq!(read_shell_words(&line), Some(expected));
    }
}
