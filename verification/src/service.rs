//! The dispatch service: executes a parsed `Command` against the store
//! and produces exactly one `KVResponse` per request, never leaving a
//! request unanswered.

use vstd::prelude::*;
use crate::command::Command;
use crate::command::arity_message;
use crate::command::tokens;
use crate::response::KVResponse;
use crate::store::KeyValueStore;

verus! {

/// `r` is an `ERR` response whose message reads `msg`.
pub open spec fn error_of(r: KVResponse, msg: Seq<char>) -> bool {
    r matches KVResponse::Error(kind, m) && kind@ == "ERR"@ && m@ == msg
}

/// What dispatching a command does to the store (`m0` before, `m1`
/// after) and which response it yields: a `Put` binds the key and is
/// acknowledged with `Okay`; a `Get` leaves the store alone and yields
/// the bound value or `Nil`; `Unknown` leaves the store alone and yields
/// an `ERR` response.
pub open spec fn dispatch_of(
    m0: Map<Seq<char>, Seq<char>>,
    c: Command,
    m1: Map<Seq<char>, Seq<char>>,
    r: KVResponse,
) -> bool {
    match c {
        Command::Put(k, v) => m1 == m0.insert(k@, v@) && r is Okay,
        Command::Get(k) => m1 == m0 && (if m0.contains_key(k@) {
            r matches KVResponse::SimpleStr(val) && val@ == m0[k@]
        } else {
            r is Nil
        }),
        Command::Unknown => m1 == m0 && error_of(r, "unknown command"@),
    }
}

/// What serving one request line does: the line is tokenized, a
/// well-formed `set` or `get` runs against the store, and everything
/// else leaves the store alone and yields an `ERR` response carrying the
/// matching diagnostic.
pub open spec fn call_of(
    m0: Map<Seq<char>, Seq<char>>,
    line: Seq<char>,
    m1: Map<Seq<char>, Seq<char>>,
    r: KVResponse,
) -> bool {
    let ts = tokens(line);
    if ts.len() == 0 {
        m1 == m0 && error_of(r, "no command"@)
    } else if ts[0] == "set"@ {
        if ts.len() == 3 {
            m1 == m0.insert(ts[1], ts[2]) && r is Okay
        } else {
            m1 == m0 && error_of(r, arity_message(ts[0]))
        }
    } else if ts[0] == "get"@ {
        if ts.len() == 2 {
            m1 == m0 && (if m0.contains_key(ts[1]) {
                r matches KVResponse::SimpleStr(v) && v@ == m0[ts[1]]
            } else {
                r is Nil
            })
        } else {
            m1 == m0 && error_of(r, arity_message(ts[0]))
        }
    } else {
        m1 == m0 && error_of(r, "unknown command"@)
    }
}

/// The service binding parsed requests to store operations. One instance
/// serves one connection; its view is the store's mapping.
pub struct KVService {
    map: KeyValueStore,
}

impl View for KVService {
    type V = Map<Seq<char>, Seq<char>>;

    closed spec fn view(&self) -> Map<Seq<char>, Seq<char>> {
        self.map@
    }
}

impl KVService {
    /// A service bound to the given store.
    pub fn new(map: KeyValueStore) -> (s: KVService)
        ensures
            s@ == map@,
    {
        KVService { map }
    }

    /// Process a `Command` against the store; every command gets exactly
    /// one response.
    pub fn handle_req(&mut self, req: &Command) -> (r: KVResponse)
        ensures
            dispatch_of(old(self)@, *req, final(self)@, r),
    {
        match req {
            Command::Put(k, v) => {
                self.map.set(k.clone(), v.clone());
                KVResponse::Okay
            }
            Command::Get(k) => {
                match self.map.get(k) {
                    Some(v) => KVResponse::SimpleStr(v),
                    None => KVResponse::Nil,
                }
            }
            Command::Unknown => {
                KVResponse::Error("ERR".to_owned(), "unknown command".to_owned())
            }
        }
    }

    /// Serve one decoded request line: parse it, dispatch it, and yield
    /// the single response; a parse error surfaces as an `ERR` response
    /// and never closes the connection.
    pub fn call(&mut self, line: String) -> (r: KVResponse)
        ensures
            call_of(old(self)@, line@, final(self)@, r),
    {
        match Command::from_line(line.as_str()) {
            Ok(req) => self.handle_req(&req),
            Err(e) => {
                let msg = e.message();
                KVResponse::Error("ERR".to_owned(), msg)
            }
        }
    }
}

} // verus!
