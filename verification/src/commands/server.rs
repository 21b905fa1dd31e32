//! The peer heartbeat dialect of the wire protocol: PING and PONG, each
//! carrying a node name.

use vstd::prelude::*;

use crate::commands::tokens::{
    is_token, lemma_token_alone, lemma_tokens_sep, str_eq, tokenize, tokens_of,
};

verus! {

/// A peer command over the wire.
pub enum Command {
    Ping(String),
    Pong(String),
}

/// The mathematical value of a peer command: the named node.
pub enum CommandModel {
    Ping { name: Seq<char> },
    Pong { name: Seq<char> },
}

impl View for Command {
    type V = CommandModel;

    open spec fn view(&self) -> CommandModel {
        match self {
            Command::Ping(name) => CommandModel::Ping { name: name@ },
            Command::Pong(name) => CommandModel::Pong { name: name@ },
        }
    }
}

/// What parsing yields: PING or PONG (case-sensitively) with exactly one
/// name token.
pub open spec fn parse_spec(s: Seq<char>) -> Option<CommandModel> {
    let ts = tokens_of(s);
    if ts.len() == 2 && ts[0] == "PING"@ {
        Some(CommandModel::Ping { name: ts[1] })
    } else if ts.len() == 2 && ts[0] == "PONG"@ {
        Some(CommandModel::Pong { name: ts[1] })
    } else {
        None
    }
}

/// The wire form: the verb, a space, the node name.
pub open spec fn serialize_spec(c: CommandModel) -> Seq<char> {
    match c {
        CommandModel::Ping { name } => "PING "@ + name,
        CommandModel::Pong { name } => "PONG "@ + name,
    }
}

/// A peer command the protocol can carry: the name is a single token.
pub open spec fn wf_command(c: CommandModel) -> bool {
    match c {
        CommandModel::Ping { name } => is_token(name),
        CommandModel::Pong { name } => is_token(name),
    }
}

impl Command {
    /// Render the command in its wire form.
    pub fn serialize(&self) -> (r: String)
        ensures
            r@ == serialize_spec(self@),
    {
        match self {
            Command::Ping(name) => {
                let mut s = String::from_str("PING ");
                s.append(name.as_str());
                s
            },
            Command::Pong(name) => {
                let mut s = String::from_str("PONG ");
                s.append(name.as_str());
                s
            },
        }
    }

    /// Parse one line as a peer command; invalid lines are rejected.
    pub fn parse(input: &str) -> (r: Result<Command, &'static str>)
        ensures
            match r {
                Ok(c) => parse_spec(input@) == Some(c@),
                Err(e) => parse_spec(input@) is None && e@ == "Comando inválido"@,
            },
    {
        let ts = tokenize(input);
        if ts.len() == 2 && str_eq(ts[0].as_str(), "PING") {
            Ok(Command::Ping(ts[1].clone()))
        } else if ts.len() == 2 && str_eq(ts[0].as_str(), "PONG") {
            Ok(Command::Pong(ts[1].clone()))
        } else {
            Err("Comando inválido")
        }
    }
}

/// Round trip: parsing the wire form of a well-formed peer command yields
/// the command back.
pub proof fn lemma_parse_serialize_roundtrip(c: CommandModel)
    requires
        wf_command(c),
    ensures
        parse_spec(serialize_spec(c)) == Some(c),
{
    reveal_strlit("PING");
    reveal_strlit("PONG");
    reveal_strlit("PING ");
    reveal_strlit("PONG ");
    match c {
        CommandModel::Ping { name } => {
            assert("PING "@ + name =~= "PING"@ + seq![' '] + name);
            lemma_tokens_sep("PING"@, name);
            lemma_token_alone(name);
            assert(tokens_of(serialize_spec(c)) =~= seq!["PING"@, name]);
        },
        CommandModel::Pong { name } => {
            assert("PING"@[1] == 'I' && "PONG"@[1] == 'O');
            assert("PONG "@ + name =~= "PONG"@ + seq![' '] + name);
            lemma_tokens_sep("PONG"@, name);
            lemma_token_alone(name);
            assert(tokens_of(serialize_spec(c)) =~= seq!["PONG"@, name]);
        },
    }
}

} // verus!
