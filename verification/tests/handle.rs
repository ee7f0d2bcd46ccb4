use command_framework::handle::{CommandInvoke, InvokeModel, ResponseCall, ResponseState};

#[test]
fn respond_once_creates_the_initial_response() {
    let mut h = CommandInvoke::slash(10, Some(20), 30);
    let mut calls = Vec::new();
    calls.push(h.respond());
    h.respond_done(true);
    assert_eq!(calls, vec![ResponseCall::CreateInitial]);
    assert_eq!(h.response_state(), ResponseState::Responded);
}

#[test]
fn defer_then_respond_edits_the_placeholder() {
    let mut h = CommandInvoke::slash(10, Some(20), 30);
    let mut calls = Vec::new();
    if let Some(call) = h.defer() {
        calls.push(call);
        h.defer_done(true);
    }
    assert_eq!(h.response_state(), ResponseState::Deferred);
    calls.push(h.respond());
    h.respond_done(true);
    assert_eq!(calls, vec![ResponseCall::Acknowledge, ResponseCall::EditInitial]);
    assert!(!calls.contains(&ResponseCall::CreateInitial));
    assert_eq!(h.response_state(), ResponseState::Responded);
}

#[test]
fn respond_twice_follows_up() {
    let mut h = CommandInvoke::slash(10, Some(20), 30);
    let mut calls = Vec::new();
    calls.push(h.respond());
    h.respond_done(true);
    calls.push(h.respond());
    h.respond_done(true);
    assert_eq!(calls, vec![ResponseCall::CreateInitial, ResponseCall::CreateFollowup]);
    assert_eq!(h.response_state(), ResponseState::Responded);
}

#[test]
fn defer_is_idempotent() {
    let mut h = CommandInvoke::slash(1, None, 2);
    assert_eq!(h.defer(), Some(ResponseCall::Acknowledge));
    h.defer_done(true);
    assert_eq!(h.defer(), None);
    h.defer_done(true);
    assert_eq!(h.response_state(), ResponseState::Deferred);
    h.respond_done(true);
    assert_eq!(h.defer(), None);
    h.defer_done(true);
    assert_eq!(h.response_state(), ResponseState::Responded);
}

#[test]
fn failed_call_leaves_the_state() {
    let mut h = CommandInvoke::component(1, Some(5), 2);
    h.defer_done(false);
    assert_eq!(h.response_state(), ResponseState::Fresh);
    h.respond_done(false);
    assert_eq!(h.response_state(), ResponseState::Fresh);
    assert_eq!(h.respond(), ResponseCall::CreateInitial);
    h.defer_done(true);
    h.respond_done(false);
    assert_eq!(h.response_state(), ResponseState::Deferred);
    assert_eq!(h.respond(), ResponseCall::EditInitial);
}

#[test]
fn handle_keeps_identity() {
    let mut h = CommandInvoke::component(7, Some(8), 9);
    assert_eq!(h.model(), InvokeModel::Component);
    assert_eq!(h.channel_id(), 7);
    assert_eq!(h.guild_id(), Some(8));
    assert_eq!(h.author_id(), 9);
    h.respond_done(true);
    assert_eq!(h.channel_id(), 7);
    assert_eq!(h.guild_id(), Some(8));
    assert_eq!(h.author_id(), 9);
    let s = CommandInvoke::slash(1, None, 3);
    assert_eq!(s.model(), InvokeModel::Slash);
    assert_eq!(s.guild_id(), None);
    assert_eq!(s.response_state(), ResponseState::Fresh);
}
