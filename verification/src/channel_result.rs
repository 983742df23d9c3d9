//! What a Phoenix channel answers to a join and to a message.

use vstd::prelude::*;

use crate::json::{Json, JsonView};
use crate::phoenix;

verus! {

/// The answer to a join.
#[derive(Debug)]
pub enum JoinResult {
    Granted(Json),
    Refused(Json),
}

/// The model of a [`JoinResult`].
pub enum JoinView {
    Granted(JsonView),
    Refused(JsonView),
}

impl View for JoinResult {
    type V = JoinView;

    open spec fn view(&self) -> JoinView {
        match self {
            JoinResult::Granted(v) => JoinView::Granted(v@),
            JoinResult::Refused(v) => JoinView::Refused(v@),
        }
    }
}

/// A join that is refused for a reason.
pub open spec fn refused(reason: Seq<char>) -> JoinView {
    JoinView::Refused(phoenix::reason_json(reason))
}

impl JoinResult {
    /// Refuses a join for a reason.
    pub fn refuse(reason: &str) -> (r: Self)
        ensures
            r@ == refused(reason@),
    {
        JoinResult::Refused(Json::object().with("reason", Json::string(reason)))
    }
}

/// The answer to a message: none, or an error.
#[derive(Debug)]
pub enum HandleResult {
    NoReply,
    Refused(Json),
}

/// The model of a [`HandleResult`].
pub enum HandleView {
    NoReply,
    Refused(JsonView),
}

impl View for HandleResult {
    type V = HandleView;

    open spec fn view(&self) -> HandleView {
        match self {
            HandleResult::NoReply => HandleView::NoReply,
            HandleResult::Refused(v) => HandleView::Refused(v@),
        }
    }
}

} // verus!
