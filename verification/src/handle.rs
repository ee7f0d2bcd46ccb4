//! The handle of one invocation: who sent it, where, and how far the reply
//! to the platform has got.
//!
//! A reply takes two steps. `defer` or `respond` names the platform call to
//! make; once the caller knows how the call went, `defer_done` or
//! `respond_done` moves the state, and only after a call that succeeded.

use vstd::prelude::*;

verus! {

/// How far the reply has got.
#[derive(Clone, Copy, PartialEq, Eq, Structural, Debug)]
pub enum ResponseState {
    /// Nothing was sent.
    Fresh,
    /// A placeholder was sent; the reply itself is still owed.
    Deferred,
    /// A reply was sent.
    Responded,
}

/// What kind of trigger a handle wraps.
#[derive(Clone, Copy, PartialEq, Eq, Structural, Debug)]
pub enum InvokeModel {
    /// A slash command.
    Slash,
    /// A callback of an interactive component.
    Component,
}

/// A call to the platform's response interface.
#[derive(Clone, Copy, PartialEq, Eq, Structural, Debug)]
pub enum ResponseCall {
    /// Create the initial response as a placeholder that promises a reply.
    Acknowledge,
    /// Create the initial response with the reply in it.
    CreateInitial,
    /// Put the reply in place of the placeholder.
    EditInitial,
    /// Send the reply as a follow-up message.
    CreateFollowup,
}

/// The place of a state in the one order in which states follow each other.
pub open spec fn rank(s: ResponseState) -> nat {
    match s {
        ResponseState::Fresh => 0,
        ResponseState::Deferred => 1,
        ResponseState::Responded => 2,
    }
}

/// The call that `defer` owes in state `s`: a placeholder while nothing was
/// sent, nothing afterwards.
pub open spec fn defer_call(s: ResponseState) -> Option<ResponseCall> {
    if s == ResponseState::Fresh {
        Some(ResponseCall::Acknowledge)
    } else {
        None
    }
}

/// The state after `defer` in state `s`, given how its call went.
pub open spec fn after_defer(s: ResponseState, success: bool) -> ResponseState {
    if s == ResponseState::Fresh && success {
        ResponseState::Deferred
    } else {
        s
    }
}

/// The call that `respond` owes in state `s`.
pub open spec fn respond_call(s: ResponseState) -> ResponseCall {
    match s {
        ResponseState::Fresh => ResponseCall::CreateInitial,
        ResponseState::Deferred => ResponseCall::EditInitial,
        ResponseState::Responded => ResponseCall::CreateFollowup,
    }
}

/// The state after `respond` in state `s`, given how its call went.
pub open spec fn after_respond(s: ResponseState, success: bool) -> ResponseState {
    if success {
        ResponseState::Responded
    } else {
        s
    }
}

/// One trigger: its kind, its sender and place, and the state of the reply.
#[derive(Clone, Debug)]
pub struct CommandInvoke {
    model: InvokeModel,
    channel_id: u64,
    guild_id: Option<u64>,
    author_id: u64,
    already_responded: bool,
    deferred: bool,
}

impl CommandInvoke {
    /// The state of the reply.
    pub closed spec fn state(&self) -> ResponseState {
        if self.already_responded {
            ResponseState::Responded
        } else if self.deferred {
            ResponseState::Deferred
        } else {
            ResponseState::Fresh
        }
    }

    /// The kind of trigger.
    pub closed spec fn spec_model(&self) -> InvokeModel {
        self.model
    }

    /// The channel the trigger came from.
    pub closed spec fn spec_channel_id(&self) -> u64 {
        self.channel_id
    }

    /// The guild the trigger came from, if it came from one.
    pub closed spec fn spec_guild_id(&self) -> Option<u64> {
        self.guild_id
    }

    /// The user who sent the trigger.
    pub closed spec fn spec_author_id(&self) -> u64 {
        self.author_id
    }

    /// Whether `other` is the same trigger, in whatever state.
    pub open spec fn same_trigger(&self, other: &CommandInvoke) -> bool {
        &&& self.spec_model() == other.spec_model()
        &&& self.spec_channel_id() == other.spec_channel_id()
        &&& self.spec_guild_id() == other.spec_guild_id()
        &&& self.spec_author_id() == other.spec_author_id()
    }

    /// The handle of a component callback, with nothing sent yet.
    pub fn component(channel_id: u64, guild_id: Option<u64>, author_id: u64) -> (r: Self)
        ensures
            r.spec_model() == InvokeModel::Component,
            r.spec_channel_id() == channel_id,
            r.spec_guild_id() == guild_id,
            r.spec_author_id() == author_id,
            r.state() == ResponseState::Fresh,
    {
        CommandInvoke {
            model: InvokeModel::Component,
            channel_id,
            guild_id,
            author_id,
            already_responded: false,
            deferred: false,
        }
    }

    /// The handle of a slash command, with nothing sent yet.
    pub fn slash(channel_id: u64, guild_id: Option<u64>, author_id: u64) -> (r: Self)
        ensures
            r.spec_model() == InvokeModel::Slash,
            r.spec_channel_id() == channel_id,
            r.spec_guild_id() == guild_id,
            r.spec_author_id() == author_id,
            r.state() == ResponseState::Fresh,
    {
        CommandInvoke {
            model: InvokeModel::Slash,
            channel_id,
            guild_id,
            author_id,
            already_responded: false,
            deferred: false,
        }
    }

    /// The kind of trigger, by which the caller picks the platform call.
    pub fn model(&self) -> (r: InvokeModel)
        ensures
            r == self.spec_model(),
    {
        self.model
    }

    /// The state of the reply.
    pub fn response_state(&self) -> (r: ResponseState)
        ensures
            r == self.state(),
    {
        if self.already_responded {
            ResponseState::Responded
        } else if self.deferred {
            ResponseState::Deferred
        } else {
            ResponseState::Fresh
        }
    }

    /// The channel the trigger came from.
    pub fn channel_id(&self) -> (r: u64)
        ensures
            r == self.spec_channel_id(),
    {
        self.channel_id
    }

    /// The guild the trigger came from, if it came from one.
    pub fn guild_id(&self) -> (r: Option<u64>)
        ensures
            r == self.spec_guild_id(),
    {
        self.guild_id
    }

    /// The user who sent the trigger.
    pub fn author_id(&self) -> (r: u64)
        ensures
            r == self.spec_author_id(),
    {
        self.author_id
    }

    /// The call by which to promise a reply: a placeholder while nothing was
    /// sent, none once a placeholder or a reply is out.
    pub fn defer(&self) -> (r: Option<ResponseCall>)
        ensures
            r == defer_call(self.state()),
    {
        if !self.already_responded && !self.deferred {
            Some(ResponseCall::Acknowledge)
        } else {
            None
        }
    }

    /// Takes note of how the placeholder call went. Only a success in the
    /// fresh state moves the handle, to `Deferred`.
    pub fn defer_done(&mut self, success: bool)
        ensures
            final(self).state() == after_defer(old(self).state(), success),
            final(self).same_trigger(old(self)),
            rank(final(self).state()) >= rank(old(self).state()),
    {
        if success && !self.already_responded {
            self.deferred = true;
        }
    }

    /// The call by which to send a reply now: the initial response while
    /// nothing was sent, an edit of the placeholder after `defer`, a follow-up
    /// once a reply is out.
    pub fn respond(&self) -> (r: ResponseCall)
        ensures
            r == respond_call(self.state()),
    {
        if self.already_responded {
            ResponseCall::CreateFollowup
        } else if self.deferred {
            ResponseCall::EditInitial
        } else {
            ResponseCall::CreateInitial
        }
    }

    /// Takes note of how the reply call went. A success moves the handle to
    /// `Responded`; a failure leaves it where it was, so that the caller may
    /// try again.
    pub fn respond_done(&mut self, success: bool)
        ensures
            final(self).state() == after_respond(old(self).state(), success),
            final(self).same_trigger(old(self)),
            rank(final(self).state()) >= rank(old(self).state()),
    {
        if success {
            self.already_responded = true;
        }
    }
}

/// A request made of a handle.
#[derive(Clone, Copy, PartialEq, Eq, Structural, Debug)]
pub enum Request {
    Defer,
    Respond,
}

/// The state after the first `n` of `requests`, each of whose calls succeeded.
pub open spec fn state_after(s: ResponseState, requests: Seq<Request>, n: nat) -> ResponseState
    decreases n,
{
    if n == 0 || n > requests.len() {
        s
    } else {
        let before = state_after(s, requests, (n - 1) as nat);
        match requests[n - 1] {
            Request::Defer => after_defer(before, true),
            Request::Respond => after_respond(before, true),
        }
    }
}

/// The platform calls that the first `n` of `requests` lead to, in order, when
/// each call succeeds.
pub open spec fn calls_made(s: ResponseState, requests: Seq<Request>, n: nat) -> Seq<ResponseCall>
    decreases n,
{
    if n == 0 || n > requests.len() {
        Seq::empty()
    } else {
        let before = state_after(s, requests, (n - 1) as nat);
        let earlier = calls_made(s, requests, (n - 1) as nat);
        match requests[n - 1] {
            Request::Defer => match defer_call(before) {
                Some(call) => earlier.push(call),
                None => earlier,
            },
            Request::Respond => earlier.push(respond_call(before)),
        }
    }
}

/// How often `call` occurs among `calls`.
pub open spec fn count_of(calls: Seq<ResponseCall>, call: ResponseCall) -> nat
    decreases calls.len(),
{
    if calls.len() == 0 {
        0
    } else {
        count_of(calls.drop_last(), call) + if calls.last() == call {
            1nat
        } else {
            0nat
        }
    }
}

/// A handle never moves backwards, whatever is asked of it and however the
/// calls go.
pub proof fn law_forward_only(s: ResponseState, success: bool)
    ensures
        rank(after_defer(s, success)) >= rank(s),
        rank(after_respond(s, success)) >= rank(s),
        !success ==> after_defer(s, success) == s && after_respond(s, success) == s,
{
}

/// Whatever is asked of a fresh handle, and in whatever order, the platform
/// sees at most one initial response, be it a placeholder or a reply, and at
/// most one edit; a placeholder is never followed by a second initial
/// response.
pub proof fn law_one_initial_response(requests: Seq<Request>, n: nat)
    requires
        n <= requests.len(),
    ensures
        count_of(calls_made(ResponseState::Fresh, requests, n), ResponseCall::Acknowledge)
            + count_of(calls_made(ResponseState::Fresh, requests, n), ResponseCall::CreateInitial)
            <= 1,
        count_of(calls_made(ResponseState::Fresh, requests, n), ResponseCall::EditInitial) <= 1,
        state_after(ResponseState::Fresh, requests, n) == ResponseState::Fresh ==> calls_made(
            ResponseState::Fresh,
            requests,
            n,
        ).len() == 0,
        state_after(ResponseState::Fresh, requests, n) == ResponseState::Deferred ==> count_of(
            calls_made(ResponseState::Fresh, requests, n),
            ResponseCall::EditInitial,
        ) == 0 && count_of(
            calls_made(ResponseState::Fresh, requests, n),
            ResponseCall::CreateInitial,
        ) == 0,
    decreases n,
{
    if n > 0 {
        law_one_initial_response(requests, (n - 1) as nat);
        let earlier = calls_made(ResponseState::Fresh, requests, (n - 1) as nat);
        let now = calls_made(ResponseState::Fresh, requests, n);
        if now.len() == earlier.len() + 1 {
            assert(now.drop_last() =~= earlier);
        }
    }
}

/// The three shortest stories of a fresh handle. One `respond` makes one
/// initial response and nothing else. `defer` then `respond` makes a
/// placeholder and one edit, and no initial response with a reply in it.
/// `respond` twice makes one initial response and then one follow-up.
pub proof fn law_reply_sequences()
    ensures
        calls_made(ResponseState::Fresh, seq![Request::Respond], 1) == seq![
            ResponseCall::CreateInitial,
        ],
        calls_made(ResponseState::Fresh, seq![Request::Defer, Request::Respond], 2) == seq![
            ResponseCall::Acknowledge,
            ResponseCall::EditInitial,
        ],
        calls_made(ResponseState::Fresh, seq![Request::Respond, Request::Respond], 2) == seq![
            ResponseCall::CreateInitial,
            ResponseCall::CreateFollowup,
        ],
{
    reveal_with_fuel(calls_made, 3);
    reveal_with_fuel(state_after, 3);
    let one = seq![Request::Respond];
    let two = seq![Request::Defer, Request::Respond];
    let three = seq![Request::Respond, Request::Respond];
    assert(calls_made(ResponseState::Fresh, one, 1) =~= seq![ResponseCall::CreateInitial]);
    assert(calls_made(ResponseState::Fresh, two, 2) =~= seq![
        ResponseCall::Acknowledge,
        ResponseCall::EditInitial,
    ]);
    assert(calls_made(ResponseState::Fresh, three, 2) =~= seq![
        ResponseCall::CreateInitial,
        ResponseCall::CreateFollowup,
    ]);
}

} // verus!
