//! The client dialect of the wire protocol: GET, SET, ADD, DEL, QUIT.

use vstd::prelude::*;

use crate::commands::tokens::{
    is_normalized, is_token, join, join_from, lemma_roundtrip_keyed_value, lemma_token_alone,
    lemma_tokens_sep, str_eq, tokenize, tokens_of,
};

verus! {

/// A client command over the wire.
#[derive(Debug, Clone)]
pub enum Command {
    Get(String),
    Put(String, String),
    Add(String, String),
    Del(String),
    Quit,
}

/// The mathematical value of a client command: its key and value as
/// character sequences.
pub enum CommandModel {
    Get { key: Seq<char> },
    Put { key: Seq<char>, value: Seq<char> },
    Add { key: Seq<char>, value: Seq<char> },
    Del { key: Seq<char> },
    Quit,
}

impl View for Command {
    type V = CommandModel;

    open spec fn view(&self) -> CommandModel {
        match self {
            Command::Get(key) => CommandModel::Get { key: key@ },
            Command::Put(key, value) => CommandModel::Put { key: key@, value: value@ },
            Command::Add(key, value) => CommandModel::Add { key: key@, value: value@ },
            Command::Del(key) => CommandModel::Del { key: key@ },
            Command::Quit => CommandModel::Quit,
        }
    }
}

/// What parsing a line yields: the first token picks the verb
/// (case-sensitively), GET and DEL take exactly one key, SET and ADD take a
/// key and at least one value token (rejoined with single spaces), QUIT takes
/// nothing.  Anything else is invalid.
pub open spec fn parse_spec(s: Seq<char>) -> Option<CommandModel> {
    let ts = tokens_of(s);
    if ts.len() == 2 && ts[0] == "GET"@ {
        Some(CommandModel::Get { key: ts[1] })
    } else if ts.len() >= 3 && ts[0] == "SET"@ {
        Some(CommandModel::Put { key: ts[1], value: join(ts.skip(2)) })
    } else if ts.len() == 2 && ts[0] == "DEL"@ {
        Some(CommandModel::Del { key: ts[1] })
    } else if ts.len() >= 3 && ts[0] == "ADD"@ {
        Some(CommandModel::Add { key: ts[1], value: join(ts.skip(2)) })
    } else if ts.len() == 1 && ts[0] == "QUIT"@ {
        Some(CommandModel::Quit)
    } else {
        None
    }
}

/// The wire form of a command: the verb, then its arguments, separated by
/// single spaces.
pub open spec fn serialize_spec(c: CommandModel) -> Seq<char> {
    match c {
        CommandModel::Get { key } => "GET "@ + key,
        CommandModel::Put { key, value } => "SET "@ + key + seq![' '] + value,
        CommandModel::Add { key, value } => "ADD "@ + key + seq![' '] + value,
        CommandModel::Del { key } => "DEL "@ + key,
        CommandModel::Quit => "QUIT"@,
    }
}

/// A command the protocol can carry: keys are single tokens; SET and ADD
/// values hold at least one token and are in normalized (single-space) form.
pub open spec fn wf_command(c: CommandModel) -> bool {
    match c {
        CommandModel::Get { key } => is_token(key),
        CommandModel::Put { key, value } => is_token(key) && tokens_of(value).len() >= 1
            && is_normalized(value),
        CommandModel::Add { key, value } => is_token(key) && tokens_of(value).len() >= 1
            && is_normalized(value),
        CommandModel::Del { key } => is_token(key),
        CommandModel::Quit => true,
    }
}

impl Command {
    /// Render the command in its wire form.
    pub fn execute(&self) -> (r: String)
        ensures
            r@ == serialize_spec(self@),
    {
        match self {
            Command::Get(key) => {
                let mut s = String::from_str("GET ");
                s.append(key.as_str());
                s
            },
            Command::Put(key, value) => {
                let mut s = String::from_str("SET ");
                s.append(key.as_str());
                s.append(" ");
                s.append(value.as_str());
                proof {
                    reveal_strlit(" ");
                    assert(s@ =~= "SET "@ + key@ + seq![' '] + value@);
                }
                s
            },
            Command::Add(key, value) => {
                let mut s = String::from_str("ADD ");
                s.append(key.as_str());
                s.append(" ");
                s.append(value.as_str());
                proof {
                    reveal_strlit(" ");
                    assert(s@ =~= "ADD "@ + key@ + seq![' '] + value@);
                }
                s
            },
            Command::Del(key) => {
                let mut s = String::from_str("DEL ");
                s.append(key.as_str());
                s
            },
            Command::Quit => String::from_str("QUIT"),
        }
    }

    /// Parse one line as a client command; invalid lines are rejected.
    pub fn parse(input: &str) -> (r: Result<Command, &'static str>)
        ensures
            match r {
                Ok(c) => parse_spec(input@) == Some(c@),
                Err(e) => parse_spec(input@) is None && e@ == "Comando inválido"@,
            },
    {
        let ts = tokenize(input);
        if ts.len() == 2 && str_eq(ts[0].as_str(), "GET") {
            Ok(Command::Get(ts[1].clone()))
        } else if ts.len() >= 3 && str_eq(ts[0].as_str(), "SET") {
            let value = join_from(&ts, 2);
            Ok(Command::Put(ts[1].clone(), value))
        } else if ts.len() == 2 && str_eq(ts[0].as_str(), "DEL") {
            Ok(Command::Del(ts[1].clone()))
        } else if ts.len() >= 3 && str_eq(ts[0].as_str(), "ADD") {
            let value = join_from(&ts, 2);
            Ok(Command::Add(ts[1].clone(), value))
        } else if ts.len() == 1 && str_eq(ts[0].as_str(), "QUIT") {
            Ok(Command::Quit)
        } else {
            Err("Comando inválido")
        }
    }
}

/// Round trip: parsing the wire form of a well-formed command yields the
/// command back.  Values are carried in normalized form, so nothing is lost.
pub proof fn lemma_parse_serialize_roundtrip(c: CommandModel)
    requires
        wf_command(c),
    ensures
        parse_spec(serialize_spec(c)) == Some(c),
{
    reveal_strlit("GET");
    reveal_strlit("SET");
    reveal_strlit("ADD");
    reveal_strlit("DEL");
    reveal_strlit("QUIT");
    reveal_strlit("GET ");
    reveal_strlit("SET ");
    reveal_strlit("ADD ");
    reveal_strlit("DEL ");
    match c {
        CommandModel::Get { key } => {
            assert("GET "@ + key =~= "GET"@ + seq![' '] + key);
            lemma_tokens_sep("GET"@, key);
            lemma_token_alone(key);
            assert(tokens_of(serialize_spec(c)) =~= seq!["GET"@, key]);
        },
        CommandModel::Put { key, value } => {
            lemma_roundtrip_keyed_value("SET"@, key, value);
            assert("SET "@ + key + seq![' '] + value =~= "SET"@ + seq![' '] + (key + seq![' ']
                + value));
            let ts = tokens_of(serialize_spec(c));
            assert(ts =~= seq!["SET"@, key] + tokens_of(value));
            assert(ts.skip(2) =~= tokens_of(value));
        },
        CommandModel::Add { key, value } => {
            lemma_roundtrip_keyed_value("ADD"@, key, value);
            assert("ADD "@ + key + seq![' '] + value =~= "ADD"@ + seq![' '] + (key + seq![' ']
                + value));
            let ts = tokens_of(serialize_spec(c));
            assert(ts =~= seq!["ADD"@, key] + tokens_of(value));
            assert(ts.skip(2) =~= tokens_of(value));
        },
        CommandModel::Del { key } => {
            assert("DEL "@ + key =~= "DEL"@ + seq![' '] + key);
            lemma_tokens_sep("DEL"@, key);
            lemma_token_alone(key);
            assert(tokens_of(serialize_spec(c)) =~= seq!["DEL"@, key]);
        },
        CommandModel::Quit => {
            lemma_token_alone("QUIT"@);
        },
    }
}

} // verus!
