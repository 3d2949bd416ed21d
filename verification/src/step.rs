//! What a handler hands back: a reply, or work for the host.
use vstd::prelude::*;

use crate::error::{ControlError, ErrorView};
use crate::model::seq_views;
use crate::response::{reply_view, ControlResponseData, DataView};
use crate::state::{Ask, AskView};

verus! {

/// A letter to announce: the recipient and its open depth.
#[derive(Debug, PartialEq)]
pub struct Ring {
    pub agent: String,
    pub depth: u32,
}

#[verifier::ext_equal]
pub struct BellView {
    pub agent: Seq<char>,
    pub depth: u32,
}

impl View for Ring {
    type V = BellView;

    open spec fn view(&self) -> BellView {
        BellView { agent: self.agent@, depth: self.depth }
    }
}

/// Outcome of one call of a handler.
#[derive(Debug, PartialEq)]
pub enum Step {
    /// The request is settled.
    Reply(Result<ControlResponseData, ControlError>),
    /// The host has to do something first, and then call again with its answer.
    Wait(Ask),
    /// The change is made; the host rings for each letter, then replies.
    Bells { rings: Vec<Ring>, reply: ControlResponseData },
    /// The host runs the gated doorbell of a pane and replies with its result.
    Inject { client: u64, pane: u64, queue_rev: u64, attempts: u32 },
    /// A client is gone; the host refits the windows it had sized, then replies.
    Refit { client: u64, windows: Vec<u64>, reply: ControlResponseData },
}

/// A step with its contents taken by view.
#[verifier::ext_equal]
pub enum StepView {
    Reply(Result<DataView, ErrorView>),
    Wait(AskView),
    Bells { rings: Seq<BellView>, reply: DataView },
    Inject { client: u64, pane: u64, queue_rev: u64, attempts: u32 },
    Refit { client: u64, windows: Seq<u64>, reply: DataView },
}

impl View for Step {
    type V = StepView;

    open spec fn view(&self) -> StepView {
        match *self {
            Step::Reply(r) => StepView::Reply(reply_view(r)),
            Step::Wait(ask) => StepView::Wait(ask@),
            Step::Bells { rings, reply } => StepView::Bells {
                rings: seq_views(rings@),
                reply: reply@,
            },
            Step::Inject { client, pane, queue_rev, attempts } => StepView::Inject {
                client,
                pane,
                queue_rev,
                attempts,
            },
            Step::Refit { client, windows, reply } => StepView::Refit {
                client,
                windows: windows@,
                reply: reply@,
            },
        }
    }
}

/// A refused request.
pub open spec fn refusal(fault: ErrorView) -> StepView {
    StepView::Reply(Err(fault))
}

pub fn refuse(error: ControlError) -> (s: Step)
    ensures
        s@ == refusal(error@),
{
    Step::Reply(Err(error))
}

pub fn accept(data: ControlResponseData) -> (s: Step)
    ensures
        s@ == StepView::Reply(Ok(data@)),
{
    Step::Reply(Ok(data))
}

} // verus!
