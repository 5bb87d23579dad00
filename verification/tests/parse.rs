use cowlang::{Command, Program};

#[test]
fn parse_skips_unknown_tokens() {
    let with_noise = Program::parse("moo xyz MOO");
    let without_noise = Program::parse("moo MOO");
    assert_eq!(with_noise.commands(), without_noise.commands());
    assert_eq!(with_noise.commands(), &[Command::moo, Command::MOO]);
    assert_eq!(with_noise.len(), 2);
}

#[test]
fn parse_empty_text() {
    assert_eq!(Program::parse("").len(), 0);
    assert_eq!(Program::parse("   \t\n  ").len(), 0);
}

#[test]
fn parse_all_twelve_opcodes_in_code_order() {
    let program = Program::parse("moo mOo moO mOO Moo MOo MoO MOO OOO MMM OOM oom");
    assert_eq!(
        program.commands(),
        &[
            Command::moo,
            Command::mOo,
            Command::moO,
            Command::mOO,
            Command::Moo,
            Command::MOo,
            Command::MoO,
            Command::MOO,
            Command::OOO,
            Command::MMM,
            Command::OOM,
            Command::oom,
        ]
    );
}

#[test]
fn parse_splits_on_mixed_whitespace() {
    let program = Program::parse("\tmoo\nMOO\r\n  oom ");
    assert_eq!(
        program.commands(),
        &[Command::moo, Command::MOO, Command::oom]
    );
}

#[test]
fn parse_is_case_sensitive() {
    // `MOO` and `moo` are different instructions; `mOO` differs from both,
    // and a wrongly-cased token that matches nothing is dropped.
    let program = Program::parse("MOO moo mOO OOm");
    assert_eq!(
        program.commands(),
        &[Command::MOO, Command::moo, Command::mOO]
    );
}

#[test]
fn parse_drops_tokens_glued_to_noise() {
    // Tokens are whitespace-separated, so `mooo` and `xmoo` match nothing.
    let program = Program::parse("mooo xmoo mo o");
    assert_eq!(program.len(), 0);
}

#[test]
fn from_str_matches_exact_tokens_only() {
    assert_eq!(Command::from_str("moo"), Ok(Command::moo));
    assert_eq!(Command::from_str("MoO"), Ok(Command::MoO));
    assert_eq!(Command::from_str("oom"), Ok(Command::oom));
    assert_eq!(Command::from_str("mo"), Err(()));
    assert_eq!(Command::from_str("mooo"), Err(()));
    assert_eq!(Command::from_str("MOM"), Err(()));
    assert_eq!(Command::from_str(""), Err(()));
}

#[test]
fn try_from_covers_exactly_the_twelve_codes() {
    let expected = [
        Command::moo,
        Command::mOo,
        Command::moO,
        Command::mOO,
        Command::Moo,
        Command::MOo,
        Command::MoO,
        Command::MOO,
        Command::OOO,
        Command::MMM,
        Command::OOM,
        Command::oom,
    ];
    for (code, command) in expected.iter().enumerate() {
        assert_eq!(Command::try_from(code as u32), Ok(*command));
        assert_eq!(command.code(), code as u32);
    }
    assert_eq!(Command::try_from(12), Err(()));
    assert_eq!(Command::try_from(u32::MAX), Err(()));
}

#[test]
fn program_new_keeps_instructions() {
    let program = Program::new(vec![Command::OOM, Command::oom]);
    assert_eq!(program.len(), 2);
    assert_eq!(program.get(0), Command::OOM);
    assert_eq!(program.get(1), Command::oom);
}
