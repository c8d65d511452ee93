use uc_explorer::{handle_command, Command, HandlerError, HandlerResult};

#[test]
fn quit_words() {
    assert!(matches!(handle_command("quit"), Ok(Command::Quit)));
    assert!(matches!(handle_command("q"), Ok(Command::Quit)));
    assert!(matches!(handle_command("q extra"), Ok(Command::Quit)));
}

#[test]
fn simple_commands() {
    assert!(matches!(handle_command("help"), Ok(Command::Help)));
    assert!(matches!(handle_command("show"), Ok(Command::Show)));
    assert!(matches!(handle_command(""), Ok(Command::Nothing)));
    assert!(matches!(handle_command(" load"), Ok(Command::Nothing)));
}

#[test]
fn load_and_dump_take_one_file() {
    match handle_command("load ucode.mic") {
        Ok(Command::Load(f)) => assert_eq!(f, b"ucode.mic".to_vec()),
        _ => panic!("expected a load"),
    }
    match handle_command("dump out.txt") {
        Ok(Command::Dump(f)) => assert_eq!(f, b"out.txt".to_vec()),
        _ => panic!("expected a dump"),
    }
    assert!(matches!(handle_command("load"), Ok(Command::LoadUsage)));
    assert!(matches!(handle_command("load a b"), Ok(Command::LoadUsage)));
    assert!(matches!(handle_command("dump"), Ok(Command::DumpUsage)));
    assert!(matches!(handle_command("dump a  "), Ok(Command::DumpUsage)));
}

#[test]
fn unknown_word_is_parse_error() {
    assert!(matches!(handle_command("frobnicate"), Err(HandlerError::ParseError)));
    assert!(matches!(handle_command("Quit"), Err(HandlerError::ParseError)));
    assert!(matches!(handle_command("quitter"), Err(HandlerError::ParseError)));
}

#[test]
fn outcome_of_commands() {
    assert_eq!(Command::Quit.outcome(), HandlerResult::Quit);
    assert_eq!(Command::Show.outcome(), HandlerResult::Handled);
    assert_eq!(Command::Nothing.outcome(), HandlerResult::Handled);
}

#[test]
fn io_errors_convert() {
    let e = std::io::Error::new(std::io::ErrorKind::NotFound, "missing");
    assert!(matches!(HandlerError::from(e), HandlerError::Io(_)));
}
