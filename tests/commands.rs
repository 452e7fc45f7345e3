use telegram_bridge::{parse_commands, CommandFileError};

fn pairs(v: &[(&str, &str)]) -> Vec<(String, String)> {
    v.iter().map(|(a, b)| (a.to_string(), b.to_string())).collect()
}

#[test]
fn commands_file_lines_are_read() {
    let text = "start Start the bot\nhelp   Show help  \r\nstatus\tx Show status\n";
    assert_eq!(
        parse_commands(text),
        Ok(pairs(&[("start", "Start the bot"), ("help", "Show help"), ("status\tx", "Show status")]))
    );
}

#[test]
fn commands_file_bad_line_is_numbered() {
    assert_eq!(parse_commands("start Start\nbroken\n"), Err(CommandFileError::InvalidCommandLine(2)));
    assert_eq!(parse_commands("start   \n"), Err(CommandFileError::InvalidCommandLine(1)));
    assert_eq!(parse_commands("a b\n\nc d\n"), Err(CommandFileError::InvalidCommandLine(2)));
}

#[test]
fn commands_file_empty_is_refused() {
    assert_eq!(parse_commands(""), Err(CommandFileError::FileEmpty));
}
