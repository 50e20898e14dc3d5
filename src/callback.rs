use vstd::prelude::*;

use crate::error::AuthError;
use crate::flow::CallbackResult;
use crate::org_map::opt_string;
use crate::text::{decimal, push_char, push_decimal, same_text};

verus! {

/// The text of each string in a list.
pub open spec fn texts(v: Seq<String>) -> Seq<Seq<char>> {
    v.map_values(|s: String| s@)
}

/// `s` cut at every `sep`; there is always at least one piece.
pub open spec fn split_on(s: Seq<char>, sep: char) -> Seq<Seq<char>>
    decreases s.len(),
{
    if s.len() == 0 {
        seq![Seq::<char>::empty()]
    } else {
        let prev = split_on(s.drop_last(), sep);
        if s.last() == sep {
            prev.push(Seq::empty())
        } else {
            prev.update(prev.len() - 1, prev.last().push(s.last()))
        }
    }
}

proof fn lemma_split_nonempty(s: Seq<char>, sep: char)
    ensures
        split_on(s, sep).len() >= 1,
    decreases s.len(),
{
    if s.len() > 0 {
        lemma_split_nonempty(s.drop_last(), sep);
    }
}

/// Cuts `s` at every `sep`.
pub fn split_text(s: &str, sep: char) -> (r: Vec<String>)
    ensures
        texts(r@) == split_on(s@, sep),
{
    let n = s.unicode_len();
    let mut done: Vec<String> = Vec::new();
    let mut cur = String::new();
    let mut i: usize = 0;
    while i < n
        invariant
            n == s@.len(),
            i <= n,
            texts(done@).push(cur@) == split_on(s@.subrange(0, i as int), sep),
        decreases n - i,
    {
        let c = s.get_char(i);
        proof {
            let p = s@.subrange(0, i as int + 1);
            assert(p.drop_last() =~= s@.subrange(0, i as int));
            assert(p.last() == c);
            lemma_split_nonempty(s@.subrange(0, i as int), sep);
        }
        if c == sep {
            let finished = cur;
            done.push(finished);
            cur = String::new();
            assert(texts(done@).push(cur@) =~= split_on(s@.subrange(0, i as int), sep).push(
                Seq::empty(),
            ));
        } else {
            let ghost before = texts(done@).push(cur@);
            push_char(&mut cur, c);
            assert(texts(done@).push(cur@) =~= before.update(
                before.len() - 1,
                before.last().push(c),
            ));
        }
        i = i + 1;
    }
    assert(s@.subrange(0, n as int) =~= s@);
    done.push(cur);
    assert(texts(done@) =~= split_on(s@, sep));
    done
}

/// Index of the first `c` in `s`, or the length of `s` when there is none.
pub open spec fn first_index(s: Seq<char>, c: char) -> int
    decreases s.len(),
{
    if s.len() == 0 {
        0
    } else if s[0] == c {
        0
    } else {
        1 + first_index(s.drop_first(), c)
    }
}

proof fn lemma_first_index(s: Seq<char>, c: char, i: int)
    requires
        0 <= i <= s.len(),
        forall|j: int| 0 <= j < i ==> s[j] != c,
        i == s.len() || s[i] == c,
    ensures
        first_index(s, c) == i,
    decreases s.len(),
{
    if s.len() > 0 && i > 0 {
        assert forall|j: int| 0 <= j < i - 1 implies s.drop_first()[j] != c by {
            assert(s.drop_first()[j] == s[j + 1]);
        }
        if i < s.len() {
            assert(s.drop_first()[i - 1] == s[i]);
        }
        lemma_first_index(s.drop_first(), c, i - 1);
    }
}

/// The part of `s` before the first `c` (all of it when there is none).
pub open spec fn before_first(s: Seq<char>, c: char) -> Seq<char> {
    s.subrange(0, first_index(s, c))
}

/// The part of `s` after the first `c`, or `None` when there is none.
pub open spec fn after_first(s: Seq<char>, c: char) -> Option<Seq<char>> {
    if first_index(s, c) < s.len() {
        Some(s.subrange(first_index(s, c) + 1, s.len() as int))
    } else {
        None
    }
}

/// Cuts `s` at its first `c`: the part before it, and the part after it if `c` occurs.
pub fn split_first(s: &str, c: char) -> (r: (String, Option<String>))
    ensures
        r.0@ == before_first(s@, c),
        opt_string(r.1) == after_first(s@, c),
{
    let n = s.unicode_len();
    let mut i: usize = 0;
    while i < n
        invariant
            n == s@.len(),
            i <= n,
            forall|j: int| 0 <= j < i ==> s@[j] != c,
        ensures
            i <= n,
            forall|j: int| 0 <= j < i ==> s@[j] != c,
            i == n || s@[i as int] == c,
        decreases n - i,
    {
        if s.get_char(i) == c {
            break;
        }
        i = i + 1;
    }
    proof {
        lemma_first_index(s@, c, i as int);
    }
    let head = String::from_str(s.substring_char(0, i));
    if i < n {
        let tail = String::from_str(s.substring_char(i + 1, n));
        (head, Some(tail))
    } else {
        (head, None)
    }
}

/// The value of the last `key=value` pair named `key` among the pieces of a query;
/// a piece without '=' has an empty value.
pub open spec fn param(pieces: Seq<Seq<char>>, key: Seq<char>) -> Option<Seq<char>>
    decreases pieces.len(),
{
    if pieces.len() == 0 {
        None
    } else if before_first(pieces.last(), '=') == key {
        Some(
            match after_first(pieces.last(), '=') {
                Some(v) => v,
                None => Seq::empty(),
            },
        )
    } else {
        param(pieces.drop_last(), key)
    }
}

/// The value of query parameter `key`, taken exactly as received (no decoding).
pub open spec fn query_param(query: Seq<char>, key: Seq<char>) -> Option<Seq<char>> {
    param(split_on(query, '&'), key)
}

/// A missing value read as the empty text.
pub open spec fn or_empty(o: Option<Seq<char>>) -> Seq<char> {
    match o {
        Some(v) => v,
        None => Seq::empty(),
    }
}

/// Reads the redirect's query: `code` and `state` (empty when missing), and the
/// optional `error` and `error_description`. Values are kept exactly as received,
/// so that `state` is compared with what was sent without any re-encoding.
pub fn parse_callback_query(query: &str) -> (r: CallbackResult)
    ensures
        r.code@ == or_empty(query_param(query@, "code"@)),
        r.state@ == or_empty(query_param(query@, "state"@)),
        opt_string(r.error) == query_param(query@, "error"@),
        opt_string(r.error_description) == query_param(query@, "error_description"@),
{
    let pieces = split_text(query, '&');
    let mut code: Option<String> = None;
    let mut state: Option<String> = None;
    let mut error: Option<String> = None;
    let mut description: Option<String> = None;
    let mut i: usize = 0;
    while i < pieces.len()
        invariant
            i <= pieces@.len(),
            texts(pieces@) == split_on(query@, '&'),
            opt_string(code) == param(texts(pieces@).subrange(0, i as int), "code"@),
            opt_string(state) == param(texts(pieces@).subrange(0, i as int), "state"@),
            opt_string(error) == param(texts(pieces@).subrange(0, i as int), "error"@),
            opt_string(description) == param(
                texts(pieces@).subrange(0, i as int),
                "error_description"@,
            ),
        decreases pieces@.len() - i,
    {
        let (name, value) = split_first(pieces[i].as_str(), '=');
        let v = match value {
            Some(v) => v,
            None => String::new(),
        };
        let ghost sub = texts(pieces@).subrange(0, i as int + 1);
        proof {
            assert(sub.drop_last() =~= texts(pieces@).subrange(0, i as int));
            assert(sub.last() == pieces@[i as int]@);
            reveal_strlit("code");
            reveal_strlit("state");
            reveal_strlit("error");
            reveal_strlit("error_description");
            assert("state"@[0] != "error"@[0]);
            assert("error_description"@.len() == 17);
            assert("code"@.len() == 4 && "state"@.len() == 5 && "error"@.len() == 5);
        }
        if same_text(name.as_str(), "code") {
            code = Some(v);
        } else if same_text(name.as_str(), "state") {
            state = Some(v);
        } else if same_text(name.as_str(), "error") {
            error = Some(v);
        } else if same_text(name.as_str(), "error_description") {
            description = Some(v);
        }
        i = i + 1;
    }
    assert(texts(pieces@).subrange(0, pieces@.len() as int) =~= texts(pieces@));
    CallbackResult {
        code: match code {
            Some(c) => c,
            None => String::new(),
        },
        state: match state {
            Some(s) => s,
            None => String::new(),
        },
        error,
        error_description: description,
    }
}

/// The path the redirect must arrive at.
pub const CALLBACK_PATH: &'static str = "/callback";

/// The query of an HTTP request line (`GET <target> HTTP/1.1`) whose target path is
/// the callback path; `None` for any other path. A target without '?' has an empty query.
pub open spec fn callback_query_of(line: Seq<char>) -> Option<Seq<char>> {
    let parts = split_on(line, ' ');
    if parts.len() >= 2 && before_first(parts[1], '?') == "/callback"@ {
        Some(or_empty(after_first(parts[1], '?')))
    } else {
        None
    }
}

/// Picks the query out of a request line aimed at the callback path.
pub fn callback_query(request_line: &str) -> (r: Option<String>)
    ensures
        opt_string(r) == callback_query_of(request_line@),
{
    let parts = split_text(request_line, ' ');
    if parts.len() < 2 {
        return None;
    }
    let (path, query) = split_first(parts[1].as_str(), '?');
    if same_text(path.as_str(), CALLBACK_PATH) {
        proof {
            reveal_strlit("/callback");
        }
        match query {
            Some(q) => Some(q),
            None => Some(String::new()),
        }
    } else {
        proof {
            reveal_strlit("/callback");
        }
        None
    }
}

/// The listener's life: it listens until one callback arrives or time runs out.
#[derive(Debug, Clone, Copy, PartialEq, Eq, Structural)]
pub enum ListenerState {
    Listening,
    Received,
    TimedOut,
}

/// How the listener answers one incoming request.
#[derive(Debug)]
pub enum ListenerReply {
    /// The awaited redirect: its parameters end the wait.
    Honour(CallbackResult),
    /// A request for another path; the wait goes on.
    NotFound,
    /// A request after the wait ended; it is refused.
    Refused,
}

/// The decisions of the local listener that catches the browser redirect.
#[derive(Debug)]
pub struct CallbackListener {
    port: u16,
    state: ListenerState,
}

/// `http://127.0.0.1:<port>/callback`.
pub open spec fn redirect_uri_of(port: nat) -> Seq<char> {
    "http://127.0.0.1:"@ + decimal(port) + "/callback"@
}

impl CallbackListener {
    /// A listener on `port` that has not yet seen a request.
    pub fn new(port: u16) -> (r: CallbackListener)
        ensures
            r.port() == port,
            r.state() == ListenerState::Listening,
    {
        CallbackListener { port, state: ListenerState::Listening }
    }

    /// The port the listener is bound to.
    pub closed spec fn port(&self) -> u16 {
        self.port
    }

    /// Where the listener stands.
    pub closed spec fn state(&self) -> ListenerState {
        self.state
    }

    /// Where the listener stands.
    pub fn current_state(&self) -> (r: ListenerState)
        ensures
            r == self.state(),
    {
        self.state
    }

    /// The redirect URI to register and to send in the authorization request.
    pub fn redirect_uri(&self) -> (r: String)
        ensures
            r@ == redirect_uri_of(self.port() as nat),
    {
        let mut out = String::from_str("http://127.0.0.1:");
        push_decimal(&mut out, self.port as u64);
        out.append(CALLBACK_PATH);
        proof {
            reveal_strlit("/callback");
        }
        out
    }

    /// Answers one request line. Only the first request for the callback path is
    /// honoured; every request after it, or after the timeout, is refused.
    pub fn on_request(&mut self, request_line: &str) -> (r: ListenerReply)
        ensures
            final(self).port() == old(self).port(),
            old(self).state() != ListenerState::Listening ==> r is Refused && final(self).state()
                == old(self).state(),
            old(self).state() == ListenerState::Listening && callback_query_of(request_line@) is None
                ==> r is NotFound && final(self).state() == ListenerState::Listening,
            old(self).state() == ListenerState::Listening && callback_query_of(request_line@) is Some
                ==> final(self).state() == ListenerState::Received && (r matches ListenerReply::Honour(
                cb,
            ) && cb.code@ == or_empty(query_param(callback_query_of(request_line@)->0, "code"@))
                && cb.state@ == or_empty(query_param(callback_query_of(request_line@)->0, "state"@))
                && opt_string(cb.error) == query_param(
                callback_query_of(request_line@)->0,
                "error"@,
            ) && opt_string(cb.error_description) == query_param(
                callback_query_of(request_line@)->0,
                "error_description"@,
            )),
    {
        if self.state != ListenerState::Listening {
            return ListenerReply::Refused;
        }
        match callback_query(request_line) {
            Some(q) => {
                self.state = ListenerState::Received;
                ListenerReply::Honour(parse_callback_query(q.as_str()))
            },
            None => ListenerReply::NotFound,
        }
    }

    /// The time budget ran out: a listener still waiting stops with a timeout error.
    pub fn on_timeout(&mut self) -> (r: Result<(), AuthError>)
        ensures
            final(self).port() == old(self).port(),
            old(self).state() == ListenerState::Listening ==> r == Err::<(), AuthError>(
                AuthError::CallbackTimeout,
            ) && final(self).state() == ListenerState::TimedOut,
            old(self).state() != ListenerState::Listening ==> r is Ok && final(self).state() == old(
                self,
            ).state(),
    {
        if self.state == ListenerState::Listening {
            self.state = ListenerState::TimedOut;
            Err(AuthError::CallbackTimeout)
        } else {
            Ok(())
        }
    }
}

} // verus!
