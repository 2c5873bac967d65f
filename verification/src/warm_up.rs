//! A line-oriented key-value shell: `set KEY VALUE`, `get KEY`, `delete KEY`
//! and `exit`, each line answered from a text map.
use crate::string_map::{text_read, StringMap};
use crate::text::{same_text, split_words, texts, trim, trimmed, words};
use vstd::prelude::*;
use vstd::string::StringExecFns;

verus! {

/// A shell operation.
#[derive(PartialEq, Eq, Structural)]
pub enum Operations {
    Put,
    Get,
    Delete,
}

/// The operation a word names: `set`, `get` and `delete`, each in lower,
/// capitalised or upper case.
pub open spec fn operation_named(s: Seq<char>) -> Option<Operations> {
    if s == "set"@ || s == "Set"@ || s == "SET"@ {
        Some(Operations::Put)
    } else if s == "get"@ || s == "Get"@ || s == "GET"@ {
        Some(Operations::Get)
    } else if s == "delete"@ || s == "Delete"@ || s == "DELETE"@ {
        Some(Operations::Delete)
    } else {
        None
    }
}

/// The message for a word that names no operation.
pub open spec fn invalid_operation_message() -> Seq<char> {
    "Invalide ops"@
}

/// Reads an operation name.
pub fn parse_operation(s: &str) -> (r: Result<Operations, &'static str>)
    ensures
        match operation_named(s@) {
            Some(op) => r == Ok::<Operations, &'static str>(op),
            None => r matches Err(e) && e@ == invalid_operation_message(),
        },
{
    if same_text(s, "set") || same_text(s, "Set") || same_text(s, "SET") {
        Ok(Operations::Put)
    } else if same_text(s, "get") || same_text(s, "Get") || same_text(s, "GET") {
        Ok(Operations::Get)
    } else if same_text(s, "delete") || same_text(s, "Delete") || same_text(s, "DELETE") {
        Ok(Operations::Delete)
    } else {
        Err("Invalide ops")
    }
}

impl std::str::FromStr for Operations {
    type Err = &'static str;

    fn from_str(s: &str) -> (r: Result<Self, Self::Err>)
        ensures
            match operation_named(s@) {
                Some(op) => r == Ok::<Operations, &'static str>(op),
                None => r matches Err(e) && e@ == invalid_operation_message(),
            },
    {
        parse_operation(s)
    }
}

/// How the shell answered a command line of two or three words.
pub enum ShellReply {
    /// `set` stored its value.
    Stored,
    /// `set` without exactly a key and a value.
    BadSet,
    /// `get` found this value.
    Value(String),
    /// `get` found nothing.
    Missing,
    /// `delete` removed this key and value.
    Deleted(String, String),
    /// `delete` found nothing.
    NothingToDelete,
    /// `get` or `delete` with two arguments: nothing is done or said.
    Silent,
    /// The first word names no operation.
    Unknown,
}

/// What the shell did with one input line.
pub enum ShellOutcome<'a> {
    /// The line was `exit` (up to surrounding whitespace): stop.
    Exit,
    /// The line had fewer than two or more than three words.
    WrongArity,
    /// The line's words, and the answer to them.
    Handled(Vec<&'a str>, ShellReply),
}

/// `(r, after)` is what the shell does with a line of words `ws` in state `m`:
/// its answer and the state it leaves.
pub open spec fn command_behaviour(
    m: Map<Seq<char>, Seq<char>>,
    ws: Seq<Seq<char>>,
    r: ShellReply,
    after: Map<Seq<char>, Seq<char>>,
) -> bool {
    match operation_named(ws[0]) {
        Some(Operations::Put) => if ws.len() == 3 {
            r is Stored && after == m.insert(trimmed(ws[1]), trimmed(ws[2]))
        } else {
            r is BadSet && after == m
        },
        Some(Operations::Get) => after == m && if ws.len() == 2 {
            match r {
                ShellReply::Value(v) => text_read(m, trimmed(ws[1])) == Some(v@),
                ShellReply::Missing => text_read(m, trimmed(ws[1])) is None,
                _ => false,
            }
        } else {
            r is Silent
        },
        Some(Operations::Delete) => if ws.len() == 2 {
            after == m.remove(trimmed(ws[1])) && match r {
                ShellReply::Deleted(k, v) => k@ == trimmed(ws[1]) && text_read(m, trimmed(ws[1]))
                    == Some(v@),
                ShellReply::NothingToDelete => text_read(m, trimmed(ws[1])) is None,
                _ => false,
            }
        } else {
            r is Silent && after == m
        },
        None => r is Unknown && after == m,
    }
}

/// The operation words: `set`, `get` and `delete` in lower, capitalised and
/// upper case name their operations, and a word in any other case names
/// none.
pub proof fn lemma_operation_spellings()
    ensures
        operation_named("set"@) == Some(Operations::Put),
        operation_named("Set"@) == Some(Operations::Put),
        operation_named("SET"@) == Some(Operations::Put),
        operation_named("get"@) == Some(Operations::Get),
        operation_named("Get"@) == Some(Operations::Get),
        operation_named("GET"@) == Some(Operations::Get),
        operation_named("delete"@) == Some(Operations::Delete),
        operation_named("Delete"@) == Some(Operations::Delete),
        operation_named("DELETE"@) == Some(Operations::Delete),
        operation_named("sEt"@) is None,
        operation_named("put"@) is None,
{
    reveal_strlit("set");
    reveal_strlit("Set");
    reveal_strlit("SET");
    reveal_strlit("get");
    reveal_strlit("Get");
    reveal_strlit("GET");
    reveal_strlit("delete");
    reveal_strlit("Delete");
    reveal_strlit("DELETE");
    reveal_strlit("sEt");
    reveal_strlit("put");
    assert("get"@[0] != "set"@[0] && "get"@[0] != "Set"@[0] && "get"@[0] != "SET"@[0]);
    assert("Get"@[0] != "set"@[0] && "Get"@[0] != "Set"@[0] && "Get"@[0] != "SET"@[0]);
    assert("GET"@[0] != "set"@[0] && "GET"@[0] != "Set"@[0] && "GET"@[0] != "SET"@[0]);
    assert("sEt"@[1] != "set"@[1] && "sEt"@[0] != "Set"@[0] && "sEt"@[0] != "SET"@[0]);
    assert("sEt"@[0] != "get"@[0] && "sEt"@[0] != "Get"@[0] && "sEt"@[0] != "GET"@[0]);
    assert("put"@[0] != "set"@[0] && "put"@[0] != "Set"@[0] && "put"@[0] != "SET"@[0]);
    assert("put"@[0] != "get"@[0] && "put"@[0] != "Get"@[0] && "put"@[0] != "GET"@[0]);
}

/// A handled `set K V` line binds `K` to `V`, whatever `K` held before, and
/// leaves every other key as it was.
pub proof fn lemma_set_binds_key(
    m: Map<Seq<char>, Seq<char>>,
    ws: Seq<Seq<char>>,
    r: ShellReply,
    after: Map<Seq<char>, Seq<char>>,
    other: Seq<char>,
)
    requires
        ws.len() == 3,
        operation_named(ws[0]) == Some(Operations::Put),
        command_behaviour(m, ws, r, after),
        other != trimmed(ws[1]),
    ensures
        r is Stored,
        text_read(after, trimmed(ws[1])) == Some(trimmed(ws[2])),
        text_read(after, other) == text_read(m, other),
{
}

/// A handled `delete K` line unbinds `K` and leaves every other key as it
/// was; it reports the removed value exactly when `K` was bound.
pub proof fn lemma_delete_unbinds_key(
    m: Map<Seq<char>, Seq<char>>,
    ws: Seq<Seq<char>>,
    r: ShellReply,
    after: Map<Seq<char>, Seq<char>>,
    other: Seq<char>,
)
    requires
        ws.len() == 2,
        operation_named(ws[0]) == Some(Operations::Delete),
        command_behaviour(m, ws, r, after),
        other != trimmed(ws[1]),
    ensures
        text_read(after, trimmed(ws[1])) is None,
        text_read(after, other) == text_read(m, other),
        (r is Deleted) == m.contains_key(trimmed(ws[1])),
{
}

/// A `get K` line right after a `set K V` line answers `V`; a `get` changes
/// nothing, so it answers the same when asked again.
pub proof fn lemma_get_after_set(
    m: Map<Seq<char>, Seq<char>>,
    set_ws: Seq<Seq<char>>,
    get_ws: Seq<Seq<char>>,
    r1: ShellReply,
    m1: Map<Seq<char>, Seq<char>>,
    r2: ShellReply,
    m2: Map<Seq<char>, Seq<char>>,
)
    requires
        set_ws.len() == 3,
        get_ws.len() == 2,
        operation_named(set_ws[0]) == Some(Operations::Put),
        operation_named(get_ws[0]) == Some(Operations::Get),
        get_ws[1] == set_ws[1],
        command_behaviour(m, set_ws, r1, m1),
        command_behaviour(m1, get_ws, r2, m2),
    ensures
        r2 matches ShellReply::Value(v) && v@ == trimmed(set_ws[2]),
        m2 == m1,
{
}

/// Handles one input line against the shell's map.
pub fn shell_step<'a>(state: &mut StringMap, line: &'a str) -> (r: ShellOutcome<'a>)
    ensures
        trimmed(line@) == "exit"@ ==> r is Exit && final(state).view() == old(state).view(),
        trimmed(line@) != "exit"@ && (words(line@).len() > 3 || words(line@).len() <= 1) ==> r is WrongArity
            && final(state).view() == old(state).view(),
        trimmed(line@) != "exit"@ && 2 <= words(line@).len() <= 3 ==> (r matches ShellOutcome::Handled(
            v,
            reply,
        ) && texts(v@) == words(line@) && command_behaviour(
            old(state).view(),
            words(line@),
            reply,
            final(state).view(),
        )),
{
    let operation_vec = split_words(line);
    if same_text(trim(line), "exit") {
        return ShellOutcome::Exit;
    }
    if operation_vec.len() > 3 || operation_vec.len() <= 1 {
        return ShellOutcome::WrongArity;
    }
    let ghost ws = texts(operation_vec@);
    assert(ws[0] == operation_vec@[0]@);
    assert(ws[1] == operation_vec@[1]@);
    let reply = match parse_operation(operation_vec[0]) {
        Ok(Operations::Put) => {
            if operation_vec.len() == 3 {
                assert(ws[2] == operation_vec@[2]@);
                let key = trim(operation_vec[1]).to_string();
                let value = trim(operation_vec[2]).to_string();
                let _ = state.insert(key, value);
                ShellReply::Stored
            } else {
                ShellReply::BadSet
            }
        },
        Ok(Operations::Get) => {
            if operation_vec.len() == 2 {
                match state.get(trim(operation_vec[1])) {
                    Some(result) => ShellReply::Value(result.clone()),
                    None => ShellReply::Missing,
                }
            } else {
                ShellReply::Silent
            }
        },
        Ok(Operations::Delete) => {
            if operation_vec.len() == 2 {
                match state.remove_entry(trim(operation_vec[1])) {
                    Some((k, v)) => ShellReply::Deleted(k, v),
                    None => ShellReply::NothingToDelete,
                }
            } else {
                ShellReply::Silent
            }
        },
        Err(_) => ShellReply::Unknown,
    };
    ShellOutcome::Handled(operation_vec, reply)
}

/// The text the shell prints for an answer, if it prints one.
pub open spec fn reply_text(r: ShellReply) -> Option<Seq<char>> {
    match r {
        ShellReply::Stored => None,
        ShellReply::BadSet => Some("Invalide SET!!.."@),
        ShellReply::Value(v) => Some("Value is "@ + v@),
        ShellReply::Missing => Some("Nothing is here!!.."@),
        ShellReply::Deleted(k, v) => Some(
            "delete key: "@ + k@ + " with it's value: "@ + v@,
        ),
        ShellReply::NothingToDelete => Some("Nothing to dele"@),
        ShellReply::Silent => None,
        ShellReply::Unknown => Some("failed to understand it "@),
    }
}

impl ShellReply {
    /// The text the shell prints for this answer, if any.
    pub fn message(&self) -> (r: Option<String>)
        ensures
            match reply_text(*self) {
                Some(t) => r matches Some(s) && s@ == t,
                None => r is None,
            },
    {
        match self {
            ShellReply::Stored => None,
            ShellReply::BadSet => Some("Invalide SET!!..".to_string()),
            ShellReply::Value(v) => Some("Value is ".to_string().concat(v.as_str())),
            ShellReply::Missing => Some("Nothing is here!!..".to_string()),
            ShellReply::Deleted(k, v) => Some(
                "delete key: ".to_string().concat(k.as_str()).concat(" with it's value: ").concat(
                    v.as_str(),
                ),
            ),
            ShellReply::NothingToDelete => Some("Nothing to dele".to_string()),
            ShellReply::Silent => None,
            ShellReply::Unknown => Some("failed to understand it ".to_string()),
        }
    }
}

} // verus!
