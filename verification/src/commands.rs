//! The wire-protocol command codecs.
//!
//! `client` carries the client dialect (GET/SET/ADD/DEL/QUIT), `server` the
//! peer heartbeat dialect (PING/PONG), and `tokens` the whitespace
//! tokenization they share.  The `Command` here is the reduced dialect the
//! interactive client began with: GET, ADD, DELETE and QUIT only.

pub mod client;
pub mod server;
pub mod tokens;

use vstd::prelude::*;

use crate::commands::tokens::{
    is_normalized, is_token, join, join_from, lemma_roundtrip_keyed_value, lemma_token_alone,
    lemma_tokens_sep, str_eq, tokenize, tokens_of,
};

verus! {

/// A command of the reduced dialect.
pub enum Command {
    Get(String),
    Add(String, String),
    Delete(String),
    QUIT,
}

/// The mathematical value of a reduced-dialect command.
pub enum CommandModel {
    Get { key: Seq<char> },
    Add { key: Seq<char>, value: Seq<char> },
    Delete { key: Seq<char> },
    Quit,
}

impl View for Command {
    type V = CommandModel;

    open spec fn view(&self) -> CommandModel {
        match self {
            Command::Get(key) => CommandModel::Get { key: key@ },
            Command::Add(key, value) => CommandModel::Add { key: key@, value: value@ },
            Command::Delete(key) => CommandModel::Delete { key: key@ },
            Command::QUIT => CommandModel::Quit,
        }
    }
}

/// What parsing yields in this dialect: GET and DELETE take one key, ADD a
/// key and a possibly empty run of value tokens, QUIT nothing.
pub open spec fn parse_spec(s: Seq<char>) -> Option<CommandModel> {
    let ts = tokens_of(s);
    if ts.len() == 2 && ts[0] == "GET"@ {
        Some(CommandModel::Get { key: ts[1] })
    } else if ts.len() == 2 && ts[0] == "DELETE"@ {
        Some(CommandModel::Delete { key: ts[1] })
    } else if ts.len() >= 2 && ts[0] == "ADD"@ {
        Some(CommandModel::Add { key: ts[1], value: join(ts.skip(2)) })
    } else if ts.len() == 1 && ts[0] == "QUIT"@ {
        Some(CommandModel::Quit)
    } else {
        None
    }
}

/// The wire form: the verb, then the arguments, single spaces between.
pub open spec fn serialize_spec(c: CommandModel) -> Seq<char> {
    match c {
        CommandModel::Get { key } => "GET "@ + key,
        CommandModel::Add { key, value } => "ADD "@ + key + seq![' '] + value,
        CommandModel::Delete { key } => "DELETE "@ + key,
        CommandModel::Quit => "QUIT"@,
    }
}

/// A command this dialect can carry: keys are single tokens; ADD values are
/// normalized (single spaces, no surrounding whitespace; possibly empty).
pub open spec fn wf_command(c: CommandModel) -> bool {
    match c {
        CommandModel::Get { key } => is_token(key),
        CommandModel::Add { key, value } => is_token(key) && is_normalized(value),
        CommandModel::Delete { key } => is_token(key),
        CommandModel::Quit => true,
    }
}

impl Command {
    /// Render the command in its wire form.
    pub fn execute(&self) -> (r: String)
        ensures
            r@ == serialize_spec(self@),
    {
        match self {
            Command::Get(key) => {
                let mut s = String::from_str("GET ");
                s.append(key.as_str());
                s
            },
            Command::Add(key, value) => {
                let mut s = String::from_str("ADD ");
                s.append(key.as_str());
                s.append(" ");
                s.append(value.as_str());
                proof {
                    reveal_strlit(" ");
                    assert(s@ =~= "ADD "@ + key@ + seq![' '] + value@);
                }
                s
            },
            Command::Delete(key) => {
                let mut s = String::from_str("DELETE ");
                s.append(key.as_str());
                s
            },
            Command::QUIT => String::from_str("QUIT"),
        }
    }

    /// Parse one line of the reduced dialect; invalid lines are rejected.
    pub fn parse(input: &str) -> (r: Result<Command, &'static str>)
        ensures
            match r {
                Ok(c) => parse_spec(input@) == Some(c@),
                Err(e) => parse_spec(input@) is None && e@ == "Comando inválido"@,
            },
    {
        let ts = tokenize(input);
        if ts.len() == 2 && str_eq(ts[0].as_str(), "GET") {
            Ok(Command::Get(ts[1].clone()))
        } else if ts.len() == 2 && str_eq(ts[0].as_str(), "DELETE") {
            Ok(Command::Delete(ts[1].clone()))
        } else if ts.len() >= 2 && str_eq(ts[0].as_str(), "ADD") {
            let value = if ts.len() >= 3 {
                join_from(&ts, 2)
            } else {
                String::new()
            };
            proof {
                if ts@.len() == 2 {
                    assert(ts.deep_view().skip(2) =~= Seq::<Seq<char>>::empty());
                }
            }
            Ok(Command::Add(ts[1].clone(), value))
        } else if ts.len() == 1 && str_eq(ts[0].as_str(), "QUIT") {
            Ok(Command::QUIT)
        } else {
            Err("Comando inválido")
        }
    }
}

/// Round trip: parsing the wire form of a well-formed command yields the
/// command back, values in normalized form.
pub proof fn lemma_parse_serialize_roundtrip(c: CommandModel)
    requires
        wf_command(c),
    ensures
        parse_spec(serialize_spec(c)) == Some(c),
{
    reveal_strlit("GET");
    reveal_strlit("ADD");
    reveal_strlit("DELETE");
    reveal_strlit("QUIT");
    reveal_strlit("GET ");
    reveal_strlit("ADD ");
    reveal_strlit("DELETE ");
    match c {
        CommandModel::Get { key } => {
            assert("GET "@ + key =~= "GET"@ + seq![' '] + key);
            lemma_tokens_sep("GET"@, key);
            lemma_token_alone(key);
            assert(tokens_of(serialize_spec(c)) =~= seq!["GET"@, key]);
        },
        CommandModel::Add { key, value } => {
            lemma_roundtrip_keyed_value("ADD"@, key, value);
            assert("ADD "@ + key + seq![' '] + value =~= "ADD"@ + seq![' '] + (key + seq![' ']
                + value));
            let ts = tokens_of(serialize_spec(c));
            assert(ts =~= seq!["ADD"@, key] + tokens_of(value));
            assert(ts.skip(2) =~= tokens_of(value));
        },
        CommandModel::Delete { key } => {
            assert("DELETE "@ + key =~= "DELETE"@ + seq![' '] + key);
            lemma_tokens_sep("DELETE"@, key);
            lemma_token_alone(key);
            assert(tokens_of(serialize_spec(c)) =~= seq!["DELETE"@, key]);
        },
        CommandModel::Quit => {
            lemma_token_alone("QUIT"@);
        },
    }
}

} // verus!
