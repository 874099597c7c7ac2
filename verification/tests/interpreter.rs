use sapling::command::interpret_command;
use sapling::command::Action;

#[test]
fn interpret_command_complete() {
    for (command, expected_effect) in &[
        ("q", Action::Quit),
        ("x", Action::Rejected),
        ("pajlbsi", Action::Rejected),
        ("Pxx", Action::Rejected),
        ("Qsx", Action::Rejected),
        ("ra", Action::Replace('a')),
        ("rg", Action::Replace('g')),
    ] {
        assert_eq!(interpret_command(*command), Some(expected_effect.clone()));
    }
}

#[test]
fn interpret_command_incomplete() {
    for command in &["", "r"] {
        assert_eq!(interpret_command(*command), None);
    }
}

#[test]
fn quit_ignores_trailing_characters() {
    assert_eq!(interpret_command("q489flshb"), Some(Action::Quit));
    assert_eq!(interpret_command("qq"), Some(Action::Quit));
}

#[test]
fn replace_takes_any_argument() {
    assert_eq!(interpret_command("rr"), Some(Action::Replace('r')));
    assert_eq!(interpret_command("rq"), Some(Action::Replace('q')));
    assert_eq!(interpret_command("r tail"), Some(Action::Replace(' ')));
}

#[test]
fn interpret_is_deterministic() {
    for command in &["", "r", "q", "x", "ra", "rg tail"] {
        assert_eq!(interpret_command(*command), interpret_command(*command));
    }
}
