use flowerchat::tui::commands::{parse_command, Command};

fn words(line: &str) -> Vec<String> {
    line.split_whitespace().map(String::from).collect()
}

fn refused(why: &str) -> Command {
    Command::Refused(String::from(why))
}

#[test]
fn commands_in_any_state() {
    for connected in [false, true] {
        assert_eq!(parse_command(&words(""), connected), Command::Help);
        assert_eq!(parse_command(&words("help"), connected), Command::Help);
        assert_eq!(parse_command(&words("help me"), connected), Command::Help);
        assert_eq!(parse_command(&words("dance"), connected), Command::Help);
        assert_eq!(parse_command(&words("room list"), connected), Command::RoomList);
        assert_eq!(parse_command(&words("room open"), connected), Command::RoomOpen);
        assert_eq!(
            parse_command(&words("room create lounge now"), connected),
            Command::RoomCreate(String::from("lounge"))
        );
        assert_eq!(
            parse_command(&words("room create"), connected),
            refused("public room name is not provided")
        );
        assert_eq!(parse_command(&words("room close"), connected), refused("unknown subcommand"));
        assert_eq!(parse_command(&words("room"), connected), refused("not subcommand provided"));
    }
}

#[test]
fn commands_before_a_space_is_connected() {
    assert_eq!(parse_command(&words("spaces"), false), Command::Spaces);
    assert_eq!(parse_command(&words("spaces"), true), Command::Help);
    assert_eq!(
        parse_command(&words("connect 1 key"), false),
        Command::Connect { space: String::from("1"), identity: String::from("key") }
    );
    assert_eq!(parse_command(&words("connect 1 key"), true), Command::Help);
    assert_eq!(
        parse_command(&words("connect"), false),
        refused("space id or root block hash is not provided")
    );
    assert_eq!(
        parse_command(&words("connect 1"), false),
        refused("identity (secret key) is not provided")
    );
    assert_eq!(parse_command(&words("connect"), true), Command::Help);
}
