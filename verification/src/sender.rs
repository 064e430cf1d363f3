//! The decisions of sending templates to the game through the CodeClient
//! mod's API: which message to send next and what a reply means. The
//! connection itself is the caller's.
use vstd::prelude::*;
use crate::runner::{text_words, words_of};
use crate::text::{chars_of, chars_eq, owned, push_str, str_eq, string_of};

verus! {

/// Why the API refused to take the templates.
#[derive(Debug, Clone, Copy, PartialEq, Eq, Structural)]
pub enum ProtocolError {
    RejectedAuth,
    InvalidStateTransition,
    InvalidPermissions,
    NotInDev,
    PlotTooSmall,
}

/// The scopes the client asks for when it connects.
pub open spec fn client_scopes() -> Seq<Seq<char>> {
    seq!["inventory"@, "movement"@, "read_plot"@, "write_code"@, "clear_plot"@]
}

/// The message asking for scopes: `scopes` and the scopes, separated by spaces.
pub open spec fn scopes_message(scopes: Seq<Seq<char>>) -> Seq<char> {
    "scopes "@ + crate::test_gen::join(scopes, " "@)
}

/// The message asking for the scopes.
pub fn request_scopes_message(scopes: &Vec<&str>) -> (r: String)
    ensures
        r@ == scopes_message(scopes@.map_values(|s: &str| s@)),
{
    let ghost all = scopes@.map_values(|s: &str| s@);
    let mut out = chars_of("scopes ");
    let ghost o = out@;
    let mut i: usize = 0;
    while i < scopes.len()
        invariant
            i <= scopes@.len(),
            all == scopes@.map_values(|s: &str| s@),
            o == "scopes "@,
            out@ == o + crate::test_gen::join(all.take(i as int), " "@),
        decreases scopes.len() - i,
    {
        if i > 0 {
            push_str(&mut out, " ");
        }
        push_str(&mut out, scopes[i]);
        i = i + 1;
        proof {
            assert(all.take(i as int).drop_last() =~= all.take(i - 1));
            if i == 1 {
                assert(all.take(1) =~= seq![all[0]]);
            }
        }
    }
    assert(all.take(scopes@.len() as int) =~= all);
    string_of(&out)
}

/// The message asking for the scopes the client connects with.
pub fn client_scopes_message() -> (r: String)
    ensures
        r@ == scopes_message(client_scopes()),
{
    let scopes: Vec<&str> = vec!["inventory", "movement", "read_plot", "write_code", "clear_plot"];
    assert(scopes@.map_values(|s: &str| s@) =~= client_scopes());
    request_scopes_message(&scopes)
}

/// The answer to a request for scopes: accepted when the reply is `auth`.
pub fn auth_reply(reply: &str) -> (r: Result<(), ProtocolError>)
    ensures
        r == (if reply@ == "auth"@ { Ok(()) } else { Err(ProtocolError::RejectedAuth) }),
{
    if str_eq(reply, "auth") {
        Ok(())
    } else {
        Err(ProtocolError::RejectedAuth)
    }
}

/// The plot size a reply to `size` names; a reply naming no size means the
/// player is not in a plot's dev mode.
pub open spec fn plot_size_of(reply: Seq<char>) -> Result<usize, ProtocolError> {
    if reply == "BASIC"@ {
        Ok(51)
    } else if reply == "LARGE"@ {
        Ok(101)
    } else if reply == "MASSIVE"@ {
        Ok(301)
    } else if reply == "MEGA"@ {
        Ok(1001)
    } else {
        Err(ProtocolError::NotInDev)
    }
}

/// The plot size a reply to `size` names (see [`plot_size_of`]).
pub fn plot_size(reply: &str) -> (r: Result<usize, ProtocolError>)
    ensures
        r == plot_size_of(reply@),
{
    if str_eq(reply, "BASIC") {
        Ok(51)
    } else if str_eq(reply, "LARGE") {
        Ok(101)
    } else if str_eq(reply, "MASSIVE") {
        Ok(301)
    } else if str_eq(reply, "MEGA") {
        Ok(1001)
    } else {
        Err(ProtocolError::NotInDev)
    }
}

/// The scopes a reply to `scopes` lists: its words.
pub fn scopes_of(reply: &str) -> (r: Vec<String>)
    ensures
        r@.map_values(|s: String| s@) == text_words(reply@),
{
    let words = words_of(&chars_of(reply));
    let ghost wv = words@.map_values(|w: Vec<char>| w@);
    let mut out: Vec<String> = Vec::new();
    let mut i: usize = 0;
    while i < words.len()
        invariant
            i <= words@.len(),
            wv == words@.map_values(|w: Vec<char>| w@),
            out@.map_values(|s: String| s@) == wv.take(i as int),
        decreases words.len() - i,
    {
        let ghost prev = out@.map_values(|s: String| s@);
        let w = string_of(&words[i]);
        let ghost wvv = w@;
        out.push(w);
        i = i + 1;
        assert(out@.map_values(|s: String| s@) =~= prev.push(wvv));
        assert(wv.take(i as int) =~= wv.take(i - 1).push(wv[i - 1]));
    }
    assert(wv.take(wv.len() as int) =~= wv);
    out
}

/// Whether a reply to `scopes` lists the scope.
pub open spec fn lists_scope(reply: Seq<char>, scope: Seq<char>) -> bool {
    text_words(reply).contains(scope)
}

/// Whether a reply to `scopes` lists the scope.
pub fn has_scope(reply: &str, scope: &str) -> (r: bool)
    ensures
        r == lists_scope(reply@, scope@),
{
    let scopes = scopes_of(reply);
    let ghost sv = scopes@.map_values(|s: String| s@);
    let mut i: usize = 0;
    while i < scopes.len()
        invariant
            i <= scopes@.len(),
            sv == scopes@.map_values(|s: String| s@),
            sv == text_words(reply@),
            forall|j: int| 0 <= j < i ==> sv[j] != scope@,
        decreases scopes.len() - i,
    {
        if str_eq(scopes[i].as_str(), scope) {
            assert(sv[i as int] == scope@);
            return true;
        }
        i = i + 1;
    }
    false
}

/// Where sending templates is.
#[derive(Debug, Clone, Copy, PartialEq, Eq, Structural)]
pub enum SendState {
    /// Nothing sent yet.
    Start,
    /// Waiting for the reply to `mode`.
    AwaitMode,
    /// Waiting for the scopes, to see that code can be written.
    AwaitWriteScope,
    /// Waiting for the scopes, to see whether the plot may be cleared.
    AwaitClearScope,
    /// Waiting for the scopes once more, as clearing the plot checks again.
    AwaitClearPlotScope,
    /// The plot was cleared.
    Cleared,
    /// Placing templates; the next is the one with this index.
    Placing { next: usize },
    /// Waiting for the reply to `place go`.
    AwaitDone,
    /// Done.
    Finished,
}

/// What the caller does next.
#[derive(Debug, PartialEq, Eq)]
pub enum SendAction {
    /// Sends the message and hands back the reply.
    Exchange(String),
    /// Sends the message; no reply is awaited.
    Send(String),
    /// Sends `place` and the text form of the template with this index.
    SendTemplate(usize),
    /// Stops, with this result.
    Finish(Result<(), ProtocolError>),
}

/// What happened since the last action: it was done, or this reply came.
#[derive(Debug, PartialEq, Eq)]
pub enum SendEvent {
    Done,
    Reply(String),
}

/// The value of an action.
pub enum SendActionV {
    Exchange(Seq<char>),
    Send(Seq<char>),
    SendTemplate(usize),
    Finish(Result<(), ProtocolError>),
}

impl View for SendAction {
    type V = SendActionV;

    open spec fn view(&self) -> SendActionV {
        match *self {
            SendAction::Exchange(m) => SendActionV::Exchange(m@),
            SendAction::Send(m) => SendActionV::Send(m@),
            SendAction::SendTemplate(i) => SendActionV::SendTemplate(i),
            SendAction::Finish(r) => SendActionV::Finish(r),
        }
    }
}

/// The value of an event: `None` when the last action was done, the reply otherwise.
pub open spec fn event_reply(e: SendEvent) -> Option<Seq<char>> {
    match e {
        SendEvent::Done => None,
        SendEvent::Reply(r) => Some(r@),
    }
}

/// The step after `event` in `state`, when sending `count` templates and
/// clearing the plot first if `clear`: the player must be in dev mode
/// (`mode` answers `code`) and the client must be allowed to write code;
/// the plot is cleared only when the client may clear it (checked twice);
/// then `place swap`, each template in turn, and `place go`, which must be
/// answered `place done`. An event that does not fit the state is an
/// invalid state transition.
pub open spec fn send_next(state: SendState, event: Option<Seq<char>>, clear: bool, count: usize) -> (
    SendState,
    SendActionV,
) {
    let invalid = (SendState::Finished, SendActionV::Finish(Err(ProtocolError::InvalidStateTransition)));
    let place = (SendState::Placing { next: 0 }, SendActionV::Send("place swap"@));
    match (state, event) {
        (SendState::Start, None) => (SendState::AwaitMode, SendActionV::Exchange("mode"@)),
        (SendState::AwaitMode, Some(r)) => if r == "code"@ {
            (SendState::AwaitWriteScope, SendActionV::Exchange("scopes"@))
        } else {
            (SendState::Finished, SendActionV::Finish(Err(ProtocolError::NotInDev)))
        },
        (SendState::AwaitWriteScope, Some(r)) => if !lists_scope(r, "write_code"@) {
            (SendState::Finished, SendActionV::Finish(Err(ProtocolError::InvalidPermissions)))
        } else if clear {
            (SendState::AwaitClearScope, SendActionV::Exchange("scopes"@))
        } else {
            place
        },
        (SendState::AwaitClearScope, Some(r)) => if lists_scope(r, "clear_plot"@) {
            (SendState::AwaitClearPlotScope, SendActionV::Exchange("scopes"@))
        } else {
            place
        },
        (SendState::AwaitClearPlotScope, Some(r)) => if lists_scope(r, "clear_plot"@) {
            (SendState::Cleared, SendActionV::Send("clear"@))
        } else {
            (SendState::Finished, SendActionV::Finish(Err(ProtocolError::InvalidPermissions)))
        },
        (SendState::Cleared, None) => place,
        (SendState::Placing { next }, None) => if next < count {
            (SendState::Placing { next: (next + 1) as usize }, SendActionV::SendTemplate(next))
        } else {
            (SendState::AwaitDone, SendActionV::Exchange("place go"@))
        },
        (SendState::AwaitDone, Some(r)) => if r == "place done"@ {
            (SendState::Finished, SendActionV::Finish(Ok(())))
        } else {
            invalid
        },
        _ => invalid,
    }
}

/// The state and the actions after the events `events`, starting from
/// [`SendState::Start`].
pub open spec fn send_run(events: Seq<Option<Seq<char>>>, clear: bool, count: usize) -> (SendState, Seq<SendActionV>)
    decreases events.len(),
{
    if events.len() == 0 {
        (SendState::Start, Seq::empty())
    } else {
        let (state, actions) = send_run(events.drop_last(), clear, count);
        let (next, action) = send_next(state, events.last(), clear, count);
        (next, actions.push(action))
    }
}

/// The indices of the templates that the actions send, in order.
pub open spec fn templates_sent(actions: Seq<SendActionV>) -> Seq<usize>
    decreases actions.len(),
{
    if actions.len() == 0 {
        Seq::empty()
    } else {
        let before = templates_sent(actions.drop_last());
        match actions.last() {
            SendActionV::SendTemplate(i) => before.push(i),
            _ => before,
        }
    }
}

/// The indices `0`, `1`, ..., `n - 1`.
pub open spec fn first_indices(n: nat) -> Seq<usize> {
    Seq::new(n, |i: int| i as usize)
}

/// Whether the events show the player in dev mode and the client allowed to
/// write code: `mode` was answered `code`, then the scopes listed `write_code`.
pub open spec fn may_write(events: Seq<Option<Seq<char>>>) -> bool {
    &&& events.len() >= 3
    &&& events[1] == Some("code"@)
    &&& events[2] matches Some(r) && lists_scope(r, "write_code"@)
}

/// Whether an action changes the plot: clearing it, beginning to place, or
/// placing a template.
pub open spec fn touches_plot(a: SendActionV) -> bool {
    ||| a is SendTemplate
    ||| a == SendActionV::Send("place swap"@)
    ||| a == SendActionV::Send("clear"@)
}

/// What holds of every run from the start.
spec fn run_inv(events: Seq<Option<Seq<char>>>, clear: bool, count: usize, state: SendState, actions: Seq<SendActionV>) -> bool {
    &&& actions.len() == events.len()
    &&& state is Start ==> events.len() == 0
    &&& state is AwaitMode ==> events.len() == 1
    &&& state is AwaitWriteScope ==> events.len() == 2 && events[1] == Some("code"@)
    &&& state is AwaitClearScope ==> clear && events.len() == 3 && may_write(events)
    &&& state is AwaitClearPlotScope ==> clear && events.len() == 4 && may_write(events)
        && (events[3] matches Some(r) && lists_scope(r, "clear_plot"@))
    &&& (state is Cleared || state is Placing || state is AwaitDone) ==> may_write(events)
    &&& (state is Start || state is AwaitMode || state is AwaitWriteScope || state is AwaitClearScope
        || state is AwaitClearPlotScope || state is Cleared) ==> templates_sent(actions) == Seq::<usize>::empty()
    &&& state matches SendState::Placing { next } ==> next <= count && templates_sent(actions) == first_indices(
        next as nat,
    )
    &&& state is AwaitDone ==> templates_sent(actions) == first_indices(count as nat)
    &&& (state is Finished && actions.len() > 0 && actions.last() == SendActionV::Finish(Ok(())))
        ==> templates_sent(actions) == first_indices(count as nat)
}

proof fn lemma_run_inv(events: Seq<Option<Seq<char>>>, clear: bool, count: usize)
    ensures
        run_inv(events, clear, count, send_run(events, clear, count).0, send_run(events, clear, count).1),
    decreases events.len(),
{
    reveal_strlit("place swap");
    reveal_strlit("clear");
    if events.len() > 0 {
        let before = events.drop_last();
        lemma_run_inv(before, clear, count);
        let (state, actions) = send_run(before, clear, count);
        let (next, action) = send_next(state, events.last(), clear, count);
        assert(send_run(events, clear, count) == (next, actions.push(action)));
        assert(actions.push(action).drop_last() == actions);
        assert(first_indices(0) =~= Seq::<usize>::empty());
        assert forall|i: int| 0 <= i < before.len() implies #[trigger] events[i] == before[i] by {}
        if let SendState::Placing { next: n } = state {
            if n < count {
                assert(first_indices(n as nat).push(n) == first_indices((n + 1) as nat));
            }
        }
    }
}

/// Templates reach the plot only while the player is in dev mode and the
/// client may write code: in any run from the start, an action that clears
/// the plot, begins placing or places a template comes after `mode` was
/// answered `code` and the scopes listed `write_code`; the plot is cleared
/// only when asked for and when the scopes listed `clear_plot` twice.
pub proof fn lemma_send_needs_permission(events: Seq<Option<Seq<char>>>, clear: bool, count: usize)
    requires
        events.len() > 0,
        touches_plot(send_run(events, clear, count).1.last()),
    ensures
        may_write(events),
        send_run(events, clear, count).1.last() == SendActionV::Send("clear"@) ==> {
            &&& clear
            &&& events.len() == 5
            &&& events[3] matches Some(r) && lists_scope(r, "clear_plot"@)
            &&& events[4] matches Some(r) && lists_scope(r, "clear_plot"@)
        },
{
    reveal_strlit("place swap");
    reveal_strlit("clear");
    reveal_strlit("mode");
    reveal_strlit("scopes");
    reveal_strlit("place go");
    let before = events.drop_last();
    lemma_run_inv(before, clear, count);
    let (state, actions) = send_run(before, clear, count);
    let (next, action) = send_next(state, events.last(), clear, count);
    assert(send_run(events, clear, count) == (next, actions.push(action)));
    assert forall|i: int| 0 <= i < before.len() implies #[trigger] events[i] == before[i] by {}
    // The two messages that change the plot differ in length.
    assert("clear"@.len() == 5 && "place swap"@.len() == 10);
}

/// A send that succeeds placed every template once, in order: when a run
/// from the start ends in success, the templates it sent are those with
/// indices `0`, `1`, ..., `count - 1`, in that order.
pub proof fn lemma_send_success_places_all(events: Seq<Option<Seq<char>>>, clear: bool, count: usize)
    requires
        events.len() > 0,
        send_run(events, clear, count).1.last() == SendActionV::Finish(Ok(())),
    ensures
        templates_sent(send_run(events, clear, count).1) == first_indices(count as nat),
{
    lemma_run_inv(events, clear, count);
}

/// The step after `event` in `state` (see [`send_next`]).
pub fn send_step(state: SendState, event: &SendEvent, clear: bool, count: usize) -> (r: (SendState, SendAction))
    ensures
        (r.0, r.1@) == send_next(state, event_reply(*event), clear, count),
{
    let invalid = (SendState::Finished, SendAction::Finish(Err(ProtocolError::InvalidStateTransition)));
    match (state, event) {
        (SendState::Start, SendEvent::Done) => (SendState::AwaitMode, SendAction::Exchange(owned("mode"))),
        (SendState::AwaitMode, SendEvent::Reply(r)) => if str_eq(r.as_str(), "code") {
            (SendState::AwaitWriteScope, SendAction::Exchange(owned("scopes")))
        } else {
            (SendState::Finished, SendAction::Finish(Err(ProtocolError::NotInDev)))
        },
        (SendState::AwaitWriteScope, SendEvent::Reply(r)) => if !has_scope(r.as_str(), "write_code") {
            (SendState::Finished, SendAction::Finish(Err(ProtocolError::InvalidPermissions)))
        } else if clear {
            (SendState::AwaitClearScope, SendAction::Exchange(owned("scopes")))
        } else {
            (SendState::Placing { next: 0 }, SendAction::Send(owned("place swap")))
        },
        (SendState::AwaitClearScope, SendEvent::Reply(r)) => if has_scope(r.as_str(), "clear_plot") {
            (SendState::AwaitClearPlotScope, SendAction::Exchange(owned("scopes")))
        } else {
            (SendState::Placing { next: 0 }, SendAction::Send(owned("place swap")))
        },
        (SendState::AwaitClearPlotScope, SendEvent::Reply(r)) => if has_scope(r.as_str(), "clear_plot") {
            (SendState::Cleared, SendAction::Send(owned("clear")))
        } else {
            (SendState::Finished, SendAction::Finish(Err(ProtocolError::InvalidPermissions)))
        },
        (SendState::Cleared, SendEvent::Done) => (SendState::Placing { next: 0 }, SendAction::Send(owned("place swap"))),
        (SendState::Placing { next }, SendEvent::Done) => if next < count {
            (SendState::Placing { next: next + 1 }, SendAction::SendTemplate(next))
        } else {
            (SendState::AwaitDone, SendAction::Exchange(owned("place go")))
        },
        (SendState::AwaitDone, SendEvent::Reply(r)) => if str_eq(r.as_str(), "place done") {
            (SendState::Finished, SendAction::Finish(Ok(())))
        } else {
            invalid
        },
        _ => invalid,
    }
}

} // verus!
