//! The request model: parsing one decoded protocol line into a `Command`.

use vstd::prelude::*;

verus! {

/// A request, parsed from one decoded protocol line.
///
/// `Put` (the wire verb `set`) always carries both a key and a value,
/// `Get` exactly one key, and any unrecognized verb collapses to
/// `Unknown`, which carries no payload.
#[derive(Debug)]
pub enum Command {
    Put(String, String),
    Get(String),
    Unknown,
}

/// Why a line failed to parse into a `Command`: either the line held no
/// token at all, or a recognized verb came with the wrong number of
/// arguments (the offending verb is carried for the error message).
#[derive(Debug)]
pub enum ParseError {
    NoCommand,
    WrongArity(String),
}

/// The diagnostic message for a recognized verb that came with the wrong
/// number of arguments.
pub open spec fn arity_message(verb: Seq<char>) -> Seq<char> {
    "wrong number of arguments to '\""@ + verb + "\"'-command"@
}

impl ParseError {
    /// The diagnostic message that surfaces to the client in an `Error`
    /// response.
    pub open spec fn message_spec(&self) -> Seq<char> {
        match self {
            ParseError::NoCommand => "no command"@,
            ParseError::WrongArity(c) => arity_message(c@),
        }
    }

    /// The human-readable message for this parse error.
    pub fn message(&self) -> (r: String)
        ensures
            r@ == self.message_spec(),
    {
        match self {
            ParseError::NoCommand => "no command".to_owned(),
            ParseError::WrongArity(c) => {
                let mut m: String = "wrong number of arguments to '\"".to_owned();
                m.append(c.as_str());
                m.append("\"'-command");
                m
            }
        }
    }
}

/// The protocol's field separators: spaces and tabs.
pub open spec fn is_sep(c: char) -> bool {
    c == ' ' || c == '\t'
}

/// The tokens of `s`, given that `cur` is the (possibly empty) partial
/// token gathered immediately before `s`. Runs of separators count as one,
/// so no token is ever empty.
pub open spec fn tokens_from(s: Seq<char>, cur: Seq<char>) -> Seq<Seq<char>>
    decreases s.len(),
{
    if s.len() == 0 {
        if cur.len() == 0 {
            Seq::empty()
        } else {
            seq![cur]
        }
    } else if is_sep(s[0]) {
        if cur.len() == 0 {
            tokens_from(s.drop_first(), Seq::empty())
        } else {
            seq![cur] + tokens_from(s.drop_first(), Seq::empty())
        }
    } else {
        tokens_from(s.drop_first(), cur.push(s[0]))
    }
}

/// The separator-delimited tokens of a line.
pub open spec fn tokens(s: Seq<char>) -> Seq<Seq<char>> {
    tokens_from(s, Seq::empty())
}

/// The views of a vector of strings.
pub open spec fn views_of(v: Seq<String>) -> Seq<Seq<char>> {
    v.map_values(|t: String| t@)
}

/// What parsing a verb with its argument tokens must produce: `set` takes
/// exactly a key and a value, `get` exactly a key, a recognized verb with
/// any other argument count is a `WrongArity` error, and any other verb is
/// `Unknown`.
pub open spec fn parse_of(verb: Seq<char>, args: Seq<Seq<char>>, r: Result<Command, ParseError>) -> bool {
    if verb == "set"@ {
        if args.len() == 2 {
            r matches Ok(Command::Put(k, v)) && k@ == args[0] && v@ == args[1]
        } else {
            r matches Err(ParseError::WrongArity(c)) && c@ == verb
        }
    } else if verb == "get"@ {
        if args.len() == 1 {
            r matches Ok(Command::Get(k)) && k@ == args[0]
        } else {
            r matches Err(ParseError::WrongArity(c)) && c@ == verb
        }
    } else {
        r matches Ok(Command::Unknown)
    }
}

/// What parsing a whole line must produce: a line with no token is a
/// `NoCommand` error; otherwise the first token is the verb and the rest
/// are its arguments.
pub open spec fn line_parse_of(line: Seq<char>, r: Result<Command, ParseError>) -> bool {
    let ts = tokens(line);
    if ts.len() == 0 {
        r matches Err(ParseError::NoCommand)
    } else {
        parse_of(ts[0], ts.drop_first(), r)
    }
}

proof fn lemma_views_of_push(v: Seq<String>, t: String)
    ensures
        views_of(v.push(t)) == views_of(v).push(t@),
{
    assert(views_of(v.push(t)) =~= views_of(v).push(t@));
}

proof fn lemma_tokens_from_sep(s: Seq<char>, cur: Seq<char>)
    requires
        s.len() > 0,
        is_sep(s[0]),
    ensures
        cur.len() == 0 ==> tokens_from(s, cur) == tokens_from(s.drop_first(), Seq::<char>::empty()),
        cur.len() > 0 ==> tokens_from(s, cur) == seq![cur] + tokens_from(s.drop_first(), Seq::<char>::empty()),
{
}

proof fn lemma_tokens_from_nonsep(s: Seq<char>, cur: Seq<char>)
    requires
        s.len() > 0,
        !is_sep(s[0]),
    ensures
        tokens_from(s, cur) == tokens_from(s.drop_first(), cur.push(s[0])),
{
}

/// Split a line into its separator-delimited tokens.
pub fn tokenize(line: &str) -> (toks: Vec<String>)
    ensures
        views_of(toks@) == tokens(line@),
{
    let n = line.unicode_len();
    let mut toks: Vec<String> = Vec::new();
    let mut start: usize = 0;
    let mut i: usize = 0;
    proof {
        assert(line@.subrange(0, n as int) =~= line@);
        assert(line@.subrange(0, 0) =~= Seq::<char>::empty());
        assert(views_of(Seq::<String>::empty()) =~= Seq::<Seq<char>>::empty());
        assert(Seq::<Seq<char>>::empty() + tokens(line@) =~= tokens(line@));
    }
    while i < n
        invariant
            start <= i <= n,
            n == line@.len(),
            forall|j: int| start <= j < i ==> !is_sep(line@[j]),
            tokens(line@) == views_of(toks@) + tokens_from(
                line@.subrange(i as int, n as int),
                line@.subrange(start as int, i as int),
            ),
        decreases n - i,
    {
        let ghost rest = line@.subrange(i as int, n as int);
        let ghost cur = line@.subrange(start as int, i as int);
        proof {
            assert(rest[0] == line@[i as int]);
            assert(rest.drop_first() =~= line@.subrange(i + 1, n as int));
            assert(line@.subrange(i + 1, i + 1) =~= Seq::<char>::empty());
        }
        let c = line.get_char(i);
        if c == ' ' || c == '\t' {
            if start < i {
                let tok = line.substring_char(start, i).to_owned();
                proof {
                    lemma_tokens_from_sep(rest, cur);
                    lemma_views_of_push(toks@, tok);
                    assert(views_of(toks@).push(cur) + tokens_from(rest.drop_first(), Seq::<char>::empty())
                        =~= views_of(toks@) + (seq![cur] + tokens_from(rest.drop_first(), Seq::<char>::empty())));
                }
                toks.push(tok);
            } else {
                proof {
                    assert(cur.len() == 0);
                    lemma_tokens_from_sep(rest, cur);
                }
            }
            start = i + 1;
            i = i + 1;
        } else {
            proof {
                lemma_tokens_from_nonsep(rest, cur);
                assert(cur.push(line@[i as int]) =~= line@.subrange(start as int, i + 1));
            }
            i = i + 1;
        }
    }
    let ghost cur = line@.subrange(start as int, n as int);
    proof {
        assert(line@.subrange(n as int, n as int) =~= Seq::<char>::empty());
    }
    if start < n {
        let tok = line.substring_char(start, n).to_owned();
        proof {
            lemma_views_of_push(toks@, tok);
            assert(views_of(toks@).push(cur) =~= views_of(toks@) + seq![cur]);
        }
        toks.push(tok);
    } else {
        proof {
            assert(cur.len() == 0);
            assert(views_of(toks@) + Seq::<Seq<char>>::empty() =~= views_of(toks@));
        }
    }
    toks
}

impl Command {
    /// Build a `Command` from one decoded line.
    pub fn from_line(line: &str) -> (r: Result<Command, ParseError>)
        ensures
            line_parse_of(line@, r),
    {
        let mut toks = tokenize(line);
        if toks.len() == 0 {
            Err(ParseError::NoCommand)
        } else {
            let verb = toks.remove(0);
            proof {
                assert(views_of(toks@) =~= tokens(line@).drop_first());
            }
            Command::new_from_str(verb.as_str(), toks)
        }
    }

    /// Check that a verb came with exactly the number of arguments it
    /// takes; report the verb in the error otherwise.
    pub fn verify_input_args(cmd: &str, num_args: usize, args: &Vec<String>) -> (r: Result<(), ParseError>)
        ensures
            args@.len() == num_args ==> r is Ok,
            args@.len() != num_args ==> (r matches Err(ParseError::WrongArity(c)) && c@ == cmd@),
    {
        if args.len() != num_args {
            Err(ParseError::WrongArity(cmd.to_owned()))
        } else {
            Ok(())
        }
    }

    /// Build a `Command` from a verb and its already-split arguments.
    pub fn new_from_str(evt: &str, parts: Vec<String>) -> (r: Result<Command, ParseError>)
        ensures
            parse_of(evt@, views_of(parts@), r),
    {
        let everb: String = evt.to_owned();
        if everb == "set".to_owned() {
            match Command::verify_input_args(evt, 2, &parts) {
                Err(e) => Err(e),
                Ok(_) => {
                    let mut ps = parts;
                    let v = ps.pop().unwrap();
                    let k = ps.pop().unwrap();
                    Ok(Command::Put(k, v))
                }
            }
        } else if everb == "get".to_owned() {
            match Command::verify_input_args(evt, 1, &parts) {
                Err(e) => Err(e),
                Ok(_) => {
                    let mut ps = parts;
                    let k = ps.pop().unwrap();
                    Ok(Command::Get(k))
                }
            }
        } else {
            Ok(Command::Unknown)
        }
    }
}

} // verus!
