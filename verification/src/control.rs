//! The part of Tor's control protocol that is needed: authenticating with a
//! cookie, subscribing to `STREAM` events, and reading them.
use crate::telemetry::StreamEvent;
use crate::text;
use vstd::prelude::*;
use vstd::string::*;

verus! {

/// The command that authenticates with a cookie.
pub open spec fn authenticate_text(cookie: Seq<u8>) -> Seq<char> {
    "AUTHENTICATE "@ + text::hex_text(cookie) + "\r\n"@
}

/// The command that authenticates with a cookie.
pub fn authenticate_command(cookie: &[u8]) -> (s: String)
    ensures
        s@ == authenticate_text(cookie@),
{
    let mut s = "AUTHENTICATE ".to_owned();
    s.append(text::hex(cookie).as_str());
    s.append("\r\n");
    s
}

/// Whether a reply line reports success.
pub open spec fn is_ok_reply(line: Seq<char>) -> bool {
    "250"@.is_prefix_of(line)
}

/// The outcome of a command, from the reply line; `None` if the connection was
/// closed instead.
pub open spec fn reply_outcome(line: Option<Seq<char>>) -> Result<(), Seq<char>> {
    match line {
        None => Err("ControlPort closed before replying"@),
        Some(l) => if is_ok_reply(l) {
            Ok(())
        } else {
            Err("unexpected ControlPort reply: "@ + l)
        },
    }
}

/// The outcome of a command, from the reply line; `None` if the connection was
/// closed instead.
pub fn expect_ok(line: Option<&str>) -> (res: Result<(), String>)
    ensures
        match line {
            None => res matches Err(e) && reply_outcome(None) == Err::<(), Seq<char>>(e@),
            Some(l) => match res {
                Ok(_) => reply_outcome(Some(l@)) is Ok,
                Err(e) => reply_outcome(Some(l@)) == Err::<(), Seq<char>>(e@),
            },
        },
{
    match line {
        None => Err("ControlPort closed before replying".to_owned()),
        Some(l) => {
            if text::starts_with(l, "250") {
                Ok(())
            } else {
                let mut e = "unexpected ControlPort reply: ".to_owned();
                e.append(l);
                Err(e)
            }
        },
    }
}

/// What begins a `STREAM` event.
pub open spec fn event_prefix() -> Seq<char> {
    "650 STREAM "@
}

/// The words of a line behind [`event_prefix`].
pub open spec fn event_words(line: Seq<char>) -> Seq<Seq<char>> {
    text::words_of(line.skip(event_prefix().len() as int))
}

/// Whether a line is a `STREAM` event: it has the prefix and at least four
/// words behind it.
pub open spec fn is_stream_event(line: Seq<char>) -> bool {
    event_prefix().is_prefix_of(line) && event_words(line).len() >= 4
}

/// The status and the target that a `STREAM` event names.
pub open spec fn event_of(line: Seq<char>) -> Option<(Seq<char>, Seq<char>)> {
    if is_stream_event(line) {
        Some((event_words(line)[1], event_words(line)[3]))
    } else {
        None
    }
}

/// Reads a `STREAM` event, which is `650 STREAM StreamID Status CircID Target`
/// and more words; nothing for any other line.
pub fn parse_stream_event(line: &str, at: u128) -> (event: Option<StreamEvent>)
    ensures
        match event {
            Some(e) => e.at == at && event_of(line@) == Some((e.status@, e.target@)),
            None => event_of(line@) is None,
        },
{
    if !text::starts_with(line, "650 STREAM ") {
        return None;
    }
    proof {
        reveal_strlit("650 STREAM ");
    }
    let chars = text::chars_of(line);
    let rest = text::slice_text(&chars, 11, chars.len());
    assert(rest@ == line@.skip(11));
    let words = text::words(rest.as_str());
    let ghost all = text::texts(words@);
    if words.len() < 4 {
        return None;
    }
    assert(all[1] == words@[1]@ && all[3] == words@[3]@);
    Some(StreamEvent { at, status: words[1].clone(), target: words[3].clone() })
}

// ---------------------------------------------------------------------------
// A session.
// ---------------------------------------------------------------------------
/// How far a session is.
#[derive(Debug, Clone, Copy, PartialEq, Eq, Structural)]
pub enum Phase {
    /// Waiting for the reply to `AUTHENTICATE`.
    Authenticating,
    /// Waiting for the reply to `SETEVENTS`.
    Subscribing,
    /// Receiving events.
    Watching,
}

/// What to do after a line.
#[derive(Debug)]
pub enum SessionStep {
    /// Send a command.
    Send(String),
    /// Nothing.
    Continue,
    /// Report a connection.
    Report(StreamEvent),
    /// End the session: what failed, and why.
    Fail { context: String, cause: String },
}

/// The phase after a line.
pub open spec fn phase_after(phase: Phase, line: Option<Seq<char>>) -> Phase {
    if phase != Phase::Watching && reply_outcome(line) is Ok {
        if phase == Phase::Authenticating {
            Phase::Subscribing
        } else {
            Phase::Watching
        }
    } else {
        phase
    }
}

/// Whether a step is the right one after a line.
pub open spec fn step_fits(phase: Phase, line: Option<Seq<char>>, at: u128, step: SessionStep) -> bool {
    match phase {
        Phase::Watching => match line {
            None => step matches SessionStep::Fail { context, cause } && context@ == ""@
                && cause@ == "ControlPort connection closed"@,
            Some(l) => match event_of(l) {
                Some((status, target)) => step matches SessionStep::Report(e) && e.at == at
                    && e.status@ == status && e.target@ == target,
                None => step is Continue,
            },
        },
        Phase::Authenticating => match reply_outcome(line) {
            Ok(_) => step matches SessionStep::Send(s) && s@ == "SETEVENTS STREAM\r\n"@,
            Err(e) => step matches SessionStep::Fail { context, cause } && context@
                == "ControlPort AUTHENTICATE failed"@ && cause@ == e,
        },
        Phase::Subscribing => match reply_outcome(line) {
            Ok(_) => step is Continue,
            Err(e) => step matches SessionStep::Fail { context, cause } && context@
                == "ControlPort SETEVENTS failed"@ && cause@ == e,
        },
    }
}

/// The lines of a session's other side, as an optional text.
pub open spec fn line_text(line: Option<&str>) -> Option<Seq<char>> {
    match line {
        Some(l) => Some(l@),
        None => None,
    }
}

/// What follows a line in a session that has sent `AUTHENTICATE`; `None` if
/// the connection was closed.
pub fn on_line(phase: &mut Phase, line: Option<&str>, at: u128) -> (step: SessionStep)
    ensures
        *final(phase) == phase_after(*old(phase), line_text(line)),
        step_fits(*old(phase), line_text(line), at, step),
{
    match *phase {
        Phase::Authenticating => match expect_ok(line) {
            Ok(_) => {
                *phase = Phase::Subscribing;
                SessionStep::Send("SETEVENTS STREAM\r\n".to_owned())
            },
            Err(cause) => SessionStep::Fail {
                context: "ControlPort AUTHENTICATE failed".to_owned(),
                cause,
            },
        },
        Phase::Subscribing => match expect_ok(line) {
            Ok(_) => {
                *phase = Phase::Watching;
                SessionStep::Continue
            },
            Err(cause) => SessionStep::Fail {
                context: "ControlPort SETEVENTS failed".to_owned(),
                cause,
            },
        },
        Phase::Watching => match line {
            None => SessionStep::Fail {
                context: "".to_owned(),
                cause: "ControlPort connection closed".to_owned(),
            },
            Some(l) => match parse_stream_event(l, at) {
                Some(e) => SessionStep::Report(e),
                None => SessionStep::Continue,
            },
        },
    }
}

// ---------------------------------------------------------------------------
// Laws.
// ---------------------------------------------------------------------------
/// Whether a text is one word.
pub open spec fn is_word(s: Seq<char>) -> bool {
    s.len() > 0 && forall|i: int| 0 <= i < s.len() ==> !text::is_space(#[trigger] s[i])
}

/// A `STREAM` event as it is written.
pub open spec fn event_text(
    id: Seq<char>,
    status: Seq<char>,
    circuit: Seq<char>,
    target: Seq<char>,
) -> Seq<char> {
    event_prefix() + (id + " "@ + (status + " "@ + (circuit + " "@ + target)))
}

/// A word in front of a space and more text is the first of the words.
proof fn first_word(w: Seq<char>, rest: Seq<char>)
    requires
        is_word(w),
    ensures
        text::words_of(w + " "@ + rest) == seq![w] + text::words_of(rest),
{
    reveal_strlit(" ");
    let s = w + " "@ + rest;
    assert(s[w.len() as int] == ' ');
    word_len_is(s, w.len());
    assert(s.take(w.len() as int) == w);
    let after = s.skip(w.len() as int);
    assert(after[0] == ' ');
    assert(after.drop_first() == rest);
    assert(after.skip(1) == rest);
    reveal_with_fuel(text::words_of, 3);
}

/// A text that is one word has that word only.
proof fn only_word(w: Seq<char>)
    requires
        is_word(w),
    ensures
        text::words_of(w) == seq![w],
{
    word_len_is(w, w.len());
    assert(w.take(w.len() as int) == w);
    assert(w.skip(w.len() as int) == Seq::<char>::empty());
    reveal_with_fuel(text::words_of, 3);
    assert(seq![w] + Seq::<Seq<char>>::empty() == seq![w]);
}

proof fn word_len_is(s: Seq<char>, n: nat)
    requires
        n <= s.len(),
        forall|i: int| 0 <= i < n ==> !text::is_space(#[trigger] s[i]),
        n < s.len() ==> text::is_space(s[n as int]),
    ensures
        text::word_len(s) == n,
    decreases n,
{
    if n > 0 {
        let rest = s.drop_first();
        assert forall|i: int| 0 <= i < n - 1 implies !text::is_space(#[trigger] rest[i]) by {
            assert(rest[i] == s[i + 1]);
        }
        word_len_is(rest, (n - 1) as nat);
        assert(s.skip(1) == rest);
    }
}

/// An event that is written with four words is read back: its status and its
/// target.
pub proof fn event_reads_back(
    id: Seq<char>,
    status: Seq<char>,
    circuit: Seq<char>,
    target: Seq<char>,
)
    requires
        is_word(id),
        is_word(status),
        is_word(circuit),
        is_word(target),
    ensures
        is_stream_event(event_text(id, status, circuit, target)),
        event_words(event_text(id, status, circuit, target)) == seq![id, status, circuit, target],
{
    let line = event_text(id, status, circuit, target);
    let body = id + " "@ + (status + " "@ + (circuit + " "@ + target));
    assert(line.skip(event_prefix().len() as int) == body);
    assert(line.take(event_prefix().len() as int) == event_prefix());
    first_word(id, status + " "@ + (circuit + " "@ + target));
    first_word(status, circuit + " "@ + target);
    first_word(circuit, target);
    only_word(target);
    assert(seq![id] + (seq![status] + (seq![circuit] + seq![target])) == seq![
        id,
        status,
        circuit,
        target,
    ]);
}

/// A session reports connections only once both commands have succeeded.
pub proof fn reports_need_both_replies(phase: Phase, line: Option<Seq<char>>)
    requires
        phase_after(phase, line) == Phase::Watching,
    ensures
        phase == Phase::Watching || (phase == Phase::Subscribing && reply_outcome(line) is Ok),
{
}

} // verus!
