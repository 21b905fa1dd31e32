//! Per-request dispatch for the client-facing server.
//!
//! The surrounding runtime owns the TCP listener and the mutation channel;
//! for each line read off a connection it calls `handle_request`, applies
//! nothing itself, writes the reply back, forwards the returned event into
//! the synchronizer's channel, and closes the connection when told to.
//!
//! QUIT closes the connection.  A bare PING is answered `PONG\n` before
//! client-command parsing, so replica heartbeats arriving on the client port
//! are never rejected as invalid.  Everything else is parsed as a client
//! command and applied to the dictionary; the matching `MutationEvent` is
//! handed back for the operation log.

use vstd::prelude::*;

use crate::commands::client::{parse_spec, Command, CommandModel};
use crate::commands::tokens::tokens_of;
use crate::dictionary::Dictionary;
use crate::replica::synchronizer::MutationEvent;

verus! {

/// The mathematical value of a mutation event.
pub enum EventModel {
    Add { key: Seq<char>, value: Seq<char> },
    Put { key: Seq<char>, value: Seq<char>, prev: Option<Seq<char>> },
    Del { key: Seq<char> },
    Get { key: Seq<char> },
    Quit,
}

impl View for MutationEvent {
    type V = EventModel;

    open spec fn view(&self) -> EventModel {
        match self {
            MutationEvent::Add(k, v) => EventModel::Add { key: k@, value: v@ },
            MutationEvent::Put(k, v, p) => EventModel::Put {
                key: k@,
                value: v@,
                prev: match p {
                    Some(pv) => Some(pv@),
                    None => None,
                },
            },
            MutationEvent::Del(k) => EventModel::Del { key: k@ },
            MutationEvent::Get(k) => EventModel::Get { key: k@ },
            MutationEvent::Quit => EventModel::Quit,
        }
    }
}

/// What one request does to a connection: the reply to write (absent when
/// the connection just closes), the event to forward to the synchronizer,
/// and whether to close.
pub struct HandlerOutcome {
    pub response: Option<String>,
    pub event: Option<MutationEvent>,
    pub close: bool,
}

/// The reply's characters, when there is one.
pub open spec fn opt_string_view(s: Option<String>) -> Option<Seq<char>> {
    match s {
        Some(x) => Some(x@),
        None => None,
    }
}

/// The event's value, when there is one.
pub open spec fn opt_event_view(e: Option<MutationEvent>) -> Option<EventModel> {
    match e {
        Some(x) => Some(x@),
        None => None,
    }
}

/// What a parsed command does to the dictionary: SET and ADD both upsert,
/// DEL removes, GET and QUIT change nothing.
pub open spec fn apply_cmd(
    m: Map<Seq<char>, Seq<char>>,
    c: CommandModel,
) -> Map<Seq<char>, Seq<char>> {
    match c {
        CommandModel::Put { key, value } => m.insert(key, value),
        CommandModel::Add { key, value } => m.insert(key, value),
        CommandModel::Del { key } => m.remove(key),
        CommandModel::Get { key: _ } => m,
        CommandModel::Quit => m,
    }
}

/// The reply a parsed command earns against the dictionary's prior state.
pub open spec fn response_spec(m: Map<Seq<char>, Seq<char>>, c: CommandModel) -> Seq<char> {
    match c {
        CommandModel::Get { key } => if m.contains_key(key) {
            "Definition: "@ + m[key]
        } else {
            "Key not found"@
        },
        CommandModel::Put { key: _, value: _ } => "Entry added successfully"@,
        CommandModel::Add { key: _, value: _ } => "Entry added successfully"@,
        CommandModel::Del { key: _ } => "Entry removed successfully"@,
        CommandModel::Quit => "Invalid command"@,
    }
}

/// The event a parsed command forwards, against the dictionary's prior
/// state: ADD emits Add when the key was absent and Put when it was
/// present; SET always emits Put; both carry the observed prior binding.
pub open spec fn event_spec(m: Map<Seq<char>, Seq<char>>, c: CommandModel) -> Option<EventModel> {
    match c {
        CommandModel::Get { key } => Some(EventModel::Get { key }),
        CommandModel::Put { key, value } => Some(
            (EventModel::Put {
                key,
                value,
                prev: if m.contains_key(key) {
                    Some(m[key])
                } else {
                    None
                },
            }),
        ),
        CommandModel::Add { key, value } => if m.contains_key(key) {
            Some((EventModel::Put { key, value, prev: Some(m[key]) }))
        } else {
            Some((EventModel::Add { key, value }))
        },
        CommandModel::Del { key } => Some(EventModel::Del { key }),
        CommandModel::Quit => None,
    }
}

/// Handle one request line against the dictionary.
pub fn handle_request(dict: &mut Dictionary, request: &str) -> (r: HandlerOutcome)
    requires
        old(dict).wf(),
    ensures
        final(dict).wf(),
        ({
            let ts = tokens_of(request@);
            if ts == seq!["QUIT"@] {
                &&& r.close
                &&& r.response is None
                &&& r.event is None
                &&& final(dict)@ == old(dict)@
            } else if ts == seq!["PING"@] {
                &&& !r.close
                &&& opt_string_view(r.response) == Some("PONG\n"@)
                &&& r.event is None
                &&& final(dict)@ == old(dict)@
            } else {
                &&& !r.close
                &&& match parse_spec(request@) {
                    Some(c) => {
                        &&& final(dict)@ == apply_cmd(old(dict)@, c)
                        &&& opt_string_view(r.response) == Some(response_spec(old(dict)@, c))
                        &&& opt_event_view(r.event) == event_spec(old(dict)@, c)
                    },
                    None => {
                        &&& final(dict)@ == old(dict)@
                        &&& opt_string_view(r.response) == Some("Invalid command"@)
                        &&& r.event is None
                    },
                }
            }
        }),
{
    let ts = crate::commands::tokens::tokenize(request);
    if ts.len() == 1 && crate::commands::tokens::str_eq(ts[0].as_str(), "QUIT") {
        proof {
            assert(tokens_of(request@) =~= seq!["QUIT"@]);
        }
        return HandlerOutcome { response: None, event: None, close: true };
    }
    if ts.len() == 1 && crate::commands::tokens::str_eq(ts[0].as_str(), "PING") {
        proof {
            assert(tokens_of(request@) =~= seq!["PING"@]);
        }
        return HandlerOutcome {
            response: Some(String::from_str("PONG\n")),
            event: None,
            close: false,
        };
    }
    match Command::parse(request) {
        Ok(cmd) => match cmd {
            Command::Get(key) => {
                let response = match dict.get_definition(key.as_str()) {
                    Some(v) => {
                        let mut s = String::from_str("Definition: ");
                        s.append(v.as_str());
                        s
                    },
                    None => String::from_str("Key not found"),
                };
                HandlerOutcome {
                    response: Some(response),
                    event: Some(MutationEvent::Get(key)),
                    close: false,
                }
            },
            Command::Put(key, value) => {
                let prev = match dict.get_definition(key.as_str()) {
                    Some(v) => Some(v.clone()),
                    None => None,
                };
                dict.add_entry(key.clone(), value.clone());
                HandlerOutcome {
                    response: Some(String::from_str("Entry added successfully")),
                    event: Some(MutationEvent::Put(key, value, prev)),
                    close: false,
                }
            },
            Command::Add(key, value) => {
                let prev = match dict.get_definition(key.as_str()) {
                    Some(v) => Some(v.clone()),
                    None => None,
                };
                dict.add_entry(key.clone(), value.clone());
                let event = match prev {
                    Some(p) => MutationEvent::Put(key, value, Some(p)),
                    None => MutationEvent::Add(key, value),
                };
                HandlerOutcome {
                    response: Some(String::from_str("Entry added successfully")),
                    event: Some(event),
                    close: false,
                }
            },
            Command::Del(key) => {
                dict.remove_entry(key.as_str());
                HandlerOutcome {
                    response: Some(String::from_str("Entry removed successfully")),
                    event: Some(MutationEvent::Del(key)),
                    close: false,
                }
            },
            Command::Quit => HandlerOutcome {
                response: Some(String::from_str("Invalid command")),
                event: None,
                close: false,
            },
        },
        Err(_) => HandlerOutcome {
            response: Some(String::from_str("Invalid command")),
            event: None,
            close: false,
        },
    }
}

/// The dictionary after a whole command sequence, applied in order.
pub open spec fn run_commands(
    m: Map<Seq<char>, Seq<char>>,
    cs: Seq<CommandModel>,
) -> Map<Seq<char>, Seq<char>>
    decreases cs.len(),
{
    if cs.len() == 0 {
        m
    } else {
        run_commands(apply_cmd(m, cs[0]), cs.drop_first())
    }
}

/// Does this command bind or unbind `k`?
pub open spec fn touches(c: CommandModel, k: Seq<char>) -> bool {
    match c {
        CommandModel::Put { key, value: _ } => key == k,
        CommandModel::Add { key, value: _ } => key == k,
        CommandModel::Del { key } => key == k,
        CommandModel::Get { key: _ } => false,
        CommandModel::Quit => false,
    }
}

/// The binding a touching command leaves behind: the written value, or
/// nothing for a removal.
pub open spec fn binding_of(c: CommandModel) -> Option<Seq<char>> {
    match c {
        CommandModel::Put { key: _, value } => Some(value),
        CommandModel::Add { key: _, value } => Some(value),
        _ => None,
    }
}

/// A key's binding in a map, as an option.
pub open spec fn map_at(m: Map<Seq<char>, Seq<char>>, k: Seq<char>) -> Option<Seq<char>> {
    if m.contains_key(k) {
        Some(m[k])
    } else {
        None
    }
}

/// Running a sequence and then one more command is running the sequence,
/// then applying the command.
pub proof fn lemma_run_commands_push(
    m: Map<Seq<char>, Seq<char>>,
    cs: Seq<CommandModel>,
    c: CommandModel,
)
    ensures
        run_commands(m, cs.push(c)) == apply_cmd(run_commands(m, cs), c),
    decreases cs.len(),
{
    if cs.len() == 0 {
        assert(cs.push(c)[0] == c);
        assert(cs.push(c).drop_first() =~= Seq::<CommandModel>::empty());
        assert(run_commands(m, cs) == m);
        assert(run_commands(m, cs.push(c)) == run_commands(
            apply_cmd(m, c),
            cs.push(c).drop_first(),
        ));
        assert(run_commands(apply_cmd(m, c), cs.push(c).drop_first()) == apply_cmd(m, c));
    } else {
        assert(cs.push(c)[0] == cs[0]);
        assert(cs.push(c).drop_first() =~= cs.drop_first().push(c));
        lemma_run_commands_push(apply_cmd(m, cs[0]), cs.drop_first(), c);
        assert(run_commands(m, cs) == run_commands(apply_cmd(m, cs[0]), cs.drop_first()));
        assert(run_commands(m, cs.push(c)) == run_commands(
            apply_cmd(m, cs[0]),
            cs.drop_first().push(c),
        ));
    }
}

/// After any command sequence, a key's final binding agrees with the
/// mutations applied in order: the last command touching the key decides
/// it, and a key no command touched keeps its initial binding.
pub proof fn lemma_get_follows_last_mutation(
    m: Map<Seq<char>, Seq<char>>,
    cs: Seq<CommandModel>,
    k: Seq<char>,
)
    ensures
        (forall|i: int| 0 <= i < cs.len() ==> !touches(#[trigger] cs[i], k)) ==> map_at(
            run_commands(m, cs),
            k,
        ) == map_at(m, k),
        forall|i: int|
            0 <= i < cs.len() && touches(#[trigger] cs[i], k) && (forall|j: int|
                i < j < cs.len() ==> !touches(#[trigger] cs[j], k)) ==> map_at(
                run_commands(m, cs),
                k,
            ) == binding_of(cs[i]),
    decreases cs.len(),
{
    if cs.len() > 0 {
        let cs0 = cs.drop_last();
        let c = cs.last();
        assert(cs =~= cs0.push(c));
        lemma_run_commands_push(m, cs0, c);
        lemma_get_follows_last_mutation(m, cs0, k);
        let r0 = run_commands(m, cs0);
        let r = run_commands(m, cs);
        assert(r == apply_cmd(r0, c));
        if !touches(c, k) {
            assert(map_at(r, k) == map_at(r0, k));
        }
        assert forall|i: int|
            0 <= i < cs.len() && touches(cs[i], k) && (forall|j: int|
                i < j < cs.len() ==> !touches(#[trigger] cs[j], k)) implies map_at(r, k)
            == binding_of(cs[i]) by {
            if i == cs.len() - 1 {
                assert(map_at(r, k) == binding_of(c));
            } else {
                assert(!touches(c, k));
                assert(forall|j: int| i < j < cs0.len() ==> !touches(#[trigger] cs0[j], k));
                assert(cs0[i] == cs[i]);
            }
        }
    }
}

} // verus!
