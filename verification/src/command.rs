//! The command parser: a raw input line becomes a verb with its noun, the
//! verb chosen from the fixed command set, everything else echoed back as
//! an unknown command.

use vstd::prelude::*;
use vstd::string::StringExecFns;

use crate::text::{join_sp, join_words, lower_seq, lower_str, spec_trim, split_words, split_ws, trim_str};

verus! {

/// A parsed command: the verbs that carry a noun keep it, `Unknown` keeps
/// the whole trimmed input for echoing back.
pub enum Command {
    Drop(String),
    Get(String),
    Attack(String),
    Look(String),
    Go(String),
    Unknown(String),
    Inventory,
    Quit,
    Help,
    WorldMap,
}

/// The ghost model of a command, its text as a character sequence.
pub enum CommandV {
    Drop(Seq<char>),
    Get(Seq<char>),
    Attack(Seq<char>),
    Look(Seq<char>),
    Go(Seq<char>),
    Unknown(Seq<char>),
    Inventory,
    Quit,
    Help,
    WorldMap,
}

impl View for Command {
    type V = CommandV;

    open spec fn view(&self) -> CommandV {
        match self {
            Command::Drop(s) => CommandV::Drop(s@),
            Command::Get(s) => CommandV::Get(s@),
            Command::Attack(s) => CommandV::Attack(s@),
            Command::Look(s) => CommandV::Look(s@),
            Command::Go(s) => CommandV::Go(s@),
            Command::Unknown(s) => CommandV::Unknown(s@),
            Command::Inventory => CommandV::Inventory,
            Command::Quit => CommandV::Quit,
            Command::Help => CommandV::Help,
            Command::WorldMap => CommandV::WorldMap,
        }
    }
}

/// The verb a command prints as, when a message names it.
pub open spec fn spec_command_name(c: CommandV) -> Seq<char> {
    match c {
        CommandV::Drop(_) => "drop"@,
        CommandV::Get(_) => "get"@,
        CommandV::Attack(_) => "attack"@,
        CommandV::Go(_) => "go"@,
        CommandV::Inventory => "inventory"@,
        CommandV::Look(_) => "look"@,
        CommandV::Quit => "quit"@,
        CommandV::Unknown(_) => "unknown"@,
        CommandV::Help => "help"@,
        CommandV::WorldMap => "map"@,
    }
}

impl Command {
    /// The verb this command prints as.
    pub fn name(&self) -> (r: String)
        ensures
            r@ == spec_command_name(self@),
    {
        match self {
            Command::Drop(_) => String::from_str("drop"),
            Command::Get(_) => String::from_str("get"),
            Command::Attack(_) => String::from_str("attack"),
            Command::Go(_) => String::from_str("go"),
            Command::Inventory => String::from_str("inventory"),
            Command::Look(_) => String::from_str("look"),
            Command::Quit => String::from_str("quit"),
            Command::Unknown(_) => String::from_str("unknown"),
            Command::Help => String::from_str("help"),
            Command::WorldMap => String::from_str("map"),
        }
    }
}

/// What parsing an input line yields: the line is case-folded, its first
/// word chosen as the verb, the remaining words rejoined with single
/// spaces as the noun; an unrecognized verb gives `Unknown` carrying the
/// whole folded line, trimmed.
pub open spec fn spec_parse(input: Seq<char>) -> CommandV {
    let low = lower_seq(input);
    let ts = split_ws(low);
    let verb = if ts.len() == 0 {
        Seq::<char>::empty()
    } else {
        ts[0]
    };
    let noun = if ts.len() == 0 {
        Seq::<char>::empty()
    } else {
        join_sp(ts.skip(1))
    };
    if verb == "look"@ {
        CommandV::Look(noun)
    } else if verb == "go"@ {
        CommandV::Go(noun)
    } else if verb == "quit"@ {
        CommandV::Quit
    } else if verb == "attack"@ {
        CommandV::Attack(noun)
    } else if verb == "drop"@ {
        CommandV::Drop(noun)
    } else if verb == "get"@ {
        CommandV::Get(noun)
    } else if verb == "help"@ {
        CommandV::Help
    } else if verb == "inventory"@ {
        CommandV::Inventory
    } else if verb == "map"@ {
        CommandV::WorldMap
    } else {
        CommandV::Unknown(spec_trim(low))
    }
}

/// Parses one input line into a command.
pub fn parse(input: String) -> (r: Command)
    ensures
        r@ == spec_parse(input@),
{
    let low = lower_str(input.as_str());
    let words = split_words(low.as_str());
    let verb: String = if words.len() > 0 {
        proof {
            assert(words.deep_view()[0] == words@[0]@);
        }
        words[0].clone()
    } else {
        String::new()
    };
    let noun: String = if words.len() > 0 {
        join_words(&words, 1)
    } else {
        String::new()
    };
    proof {
        assert(words.deep_view().len() == words@.len());
    }
    if crate::text::str_eq(verb.as_str(), "look") {
        Command::Look(noun)
    } else if crate::text::str_eq(verb.as_str(), "go") {
        Command::Go(noun)
    } else if crate::text::str_eq(verb.as_str(), "quit") {
        Command::Quit
    } else if crate::text::str_eq(verb.as_str(), "attack") {
        Command::Attack(noun)
    } else if crate::text::str_eq(verb.as_str(), "drop") {
        Command::Drop(noun)
    } else if crate::text::str_eq(verb.as_str(), "get") {
        Command::Get(noun)
    } else if crate::text::str_eq(verb.as_str(), "help") {
        Command::Help
    } else if crate::text::str_eq(verb.as_str(), "inventory") {
        Command::Inventory
    } else if crate::text::str_eq(verb.as_str(), "map") {
        Command::WorldMap
    } else {
        Command::Unknown(trim_str(low.as_str()))
    }
}

} // verus!
