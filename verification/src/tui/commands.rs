//! The commands of the terminal: what a line of words asks for.

use vstd::prelude::*;
use crate::text::str_eq;

verus! {

/// What a command line asks for.
#[derive(Debug, Clone, PartialEq, Eq)]
pub enum Command {
    /// Print the list of commands.
    Help,
    /// List the public rooms of the connected space.
    RoomList,
    /// Create the public room of the given name.
    RoomCreate(String),
    /// Open a public room.
    RoomOpen,
    /// Print the known spaces.
    Spaces,
    /// Connect to a space with an identity.
    Connect { space: String, identity: String },
    /// The line cannot be run; the text says why.
    Refused(String),
}

/// What a command line asks for, as a value of contracts.
pub enum CommandModel {
    Help,
    RoomList,
    RoomCreate(Seq<char>),
    RoomOpen,
    Spaces,
    Connect { space: Seq<char>, identity: Seq<char> },
    Refused(Seq<char>),
}

impl View for Command {
    type V = CommandModel;

    open spec fn view(&self) -> CommandModel {
        match self {
            Command::Help => CommandModel::Help,
            Command::RoomList => CommandModel::RoomList,
            Command::RoomCreate(name) => CommandModel::RoomCreate(name@),
            Command::RoomOpen => CommandModel::RoomOpen,
            Command::Spaces => CommandModel::Spaces,
            Command::Connect { space, identity } => CommandModel::Connect {
                space: space@,
                identity: identity@,
            },
            Command::Refused(why) => CommandModel::Refused(why@),
        }
    }
}

/// What the words after `room` ask for.
pub open spec fn room_command_of(words: Seq<Seq<char>>) -> CommandModel {
    if words.len() < 2 {
        CommandModel::Refused("not subcommand provided"@)
    } else if words[1] == "list"@ {
        CommandModel::RoomList
    } else if words[1] == "create"@ {
        if words.len() < 3 {
            CommandModel::Refused("public room name is not provided"@)
        } else {
            CommandModel::RoomCreate(words[2])
        }
    } else if words[1] == "open"@ {
        CommandModel::RoomOpen
    } else {
        CommandModel::Refused("unknown subcommand"@)
    }
}

/// What the words of a command line ask for. The commands `spaces` and
/// `connect` are known only while no space is connected; an unknown first
/// word, or none, asks for help.
pub open spec fn command_of(words: Seq<Seq<char>>, is_connected: bool) -> CommandModel {
    if words.len() < 1 {
        CommandModel::Help
    } else if words[0] == "help"@ {
        CommandModel::Help
    } else if words[0] == "room"@ {
        room_command_of(words)
    } else if words[0] == "spaces"@ && !is_connected {
        CommandModel::Spaces
    } else if words[0] == "connect"@ && !is_connected {
        if words.len() < 2 {
            CommandModel::Refused("space id or root block hash is not provided"@)
        } else if words.len() < 3 {
            CommandModel::Refused("identity (secret key) is not provided"@)
        } else {
            CommandModel::Connect { space: words[1], identity: words[2] }
        }
    } else {
        CommandModel::Help
    }
}

/// The texts of some words.
pub open spec fn words_of(words: Seq<String>) -> Seq<Seq<char>> {
    words.map_values(|word: String| word@)
}

/// Reads the words after `room`.
fn parse_room_command(words: &Vec<String>) -> (r: Command)
    requires
        words@.len() >= 1,
    ensures
        r@ == room_command_of(words_of(words@)),
{
    if words.len() < 2 {
        return Command::Refused("not subcommand provided".to_owned());
    }
    let sub = words[1].as_str();
    assert(sub@ == words_of(words@)[1]);
    if str_eq(sub, "list") {
        Command::RoomList
    } else if str_eq(sub, "create") {
        if words.len() < 3 {
            Command::Refused("public room name is not provided".to_owned())
        } else {
            assert(words@[2]@ == words_of(words@)[2]);
            Command::RoomCreate(words[2].clone())
        }
    } else if str_eq(sub, "open") {
        Command::RoomOpen
    } else {
        Command::Refused("unknown subcommand".to_owned())
    }
}

/// Reads a command line that was split into words.
pub fn parse_command(words: &Vec<String>, is_connected: bool) -> (r: Command)
    ensures
        r@ == command_of(words_of(words@), is_connected),
{
    if words.len() < 1 {
        return Command::Help;
    }
    let first = words[0].as_str();
    assert(first@ == words_of(words@)[0]);
    if str_eq(first, "help") {
        Command::Help
    } else if str_eq(first, "room") {
        parse_room_command(words)
    } else if str_eq(first, "spaces") && !is_connected {
        Command::Spaces
    } else if str_eq(first, "connect") && !is_connected {
        if words.len() < 2 {
            Command::Refused("space id or root block hash is not provided".to_owned())
        } else if words.len() < 3 {
            Command::Refused("identity (secret key) is not provided".to_owned())
        } else {
            assert(words@[1]@ == words_of(words@)[1]);
            assert(words@[2]@ == words_of(words@)[2]);
            Command::Connect { space: words[1].clone(), identity: words[2].clone() }
        }
    } else {
        Command::Help
    }
}

} // verus!
