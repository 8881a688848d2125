//! The gas estimation endpoint: what it is asked, what it answers, and what
//! it decides between the two.
//!
//! A request is handled in one pass. Its liquidity is read first
//! ([`request::GasRequest::into_domain`]). Then the auction is read, then the
//! solutions, then the gas is measured; each of the three is somebody
//! else's work, and [`step`] says what follows from its outcome.

pub mod request;
pub mod response;

use crate::eth::U256;
use crate::gas::request::Error;
use crate::gas::response::{is_response, GasResponse};
use vstd::prelude::*;

verus! {

/// Where the handling of a request stands, once its liquidity is read.
#[derive(Clone, Copy, Debug, PartialEq, Eq, Structural)]
pub enum Phase {
    /// The auction is being read.
    DecodingAuction,
    /// The solutions are being read.
    DecodingSolutions,
    /// The gas of the solutions is being measured.
    Estimating,
    /// The request was answered or failed.
    Done,
}

/// What came of the work that the handler asked for.
#[derive(Debug)]
pub enum Event {
    AuctionDecoded,
    AuctionRejected,
    SolutionsDecoded,
    SolutionsRejected,
    /// The estimates, each a solution's number with its gas, whether the
    /// solution went through, and a message.
    Estimated(Vec<(u64, (U256, bool, String))>),
    EstimationFailed,
}

/// What the handler does next.
#[derive(Debug)]
pub enum Action {
    DecodeAuction,
    DecodeSolutions,
    Estimate,
    /// Answer with the estimates.
    Respond(GasResponse),
    /// Fail because the request cannot be read.
    Reject(Error),
    /// Fail with the error of the measurement, as it is.
    Propagate,
    /// Nothing: the event came out of turn or after the end.
    Ignore,
}

/// The phase that follows `phase` on `event`. Whatever does not continue
/// the pass ends it.
pub open spec fn next_phase(phase: Phase, event: Event) -> Phase {
    match (phase, event) {
        (Phase::DecodingAuction, Event::AuctionDecoded) => Phase::DecodingSolutions,
        (Phase::DecodingSolutions, Event::SolutionsDecoded) => Phase::Estimating,
        _ => Phase::Done,
    }
}

/// Whether `action` is what the handler does on `event` in `phase`.
pub open spec fn follows(phase: Phase, event: Event, action: Action) -> bool {
    match (phase, event) {
        (Phase::DecodingAuction, Event::AuctionDecoded) => action is DecodeSolutions,
        (Phase::DecodingAuction, Event::AuctionRejected) => action == Action::Reject(
            Error::EncodeAuctionError,
        ),
        (Phase::DecodingSolutions, Event::SolutionsDecoded) => action is Estimate,
        (Phase::DecodingSolutions, Event::SolutionsRejected) => action == Action::Reject(
            Error::EncodeSolutionError,
        ),
        (Phase::Estimating, Event::Estimated(estimates)) => action matches Action::Respond(response)
            && is_response(estimates@, response),
        (Phase::Estimating, Event::EstimationFailed) => action is Propagate,
        _ => action is Ignore,
    }
}

/// How the handling of a request begins once its liquidity is read: with
/// the reading of the auction.
pub fn start() -> (r: (Phase, Action))
    ensures
        r.0 == Phase::DecodingAuction,
        r.1 is DecodeAuction,
{
    (Phase::DecodingAuction, Action::DecodeAuction)
}

/// What follows from `event` in `phase`: the next phase and what to do.
///
/// A failure ends the pass: nothing is tried again. The answer reports the
/// estimates one for one, in the order in which they came.
pub fn step(phase: Phase, event: Event) -> (r: (Phase, Action))
    ensures
        r.0 == next_phase(phase, event),
        follows(phase, event, r.1),
{
    match phase {
        Phase::DecodingAuction => match event {
            Event::AuctionDecoded => (Phase::DecodingSolutions, Action::DecodeSolutions),
            Event::AuctionRejected => (Phase::Done, Action::Reject(Error::EncodeAuctionError)),
            _ => (Phase::Done, Action::Ignore),
        },
        Phase::DecodingSolutions => match event {
            Event::SolutionsDecoded => (Phase::Estimating, Action::Estimate),
            Event::SolutionsRejected => (Phase::Done, Action::Reject(Error::EncodeSolutionError)),
            _ => (Phase::Done, Action::Ignore),
        },
        Phase::Estimating => match event {
            Event::Estimated(estimates) => (Phase::Done, Action::Respond(GasResponse::new(estimates))),
            Event::EstimationFailed => (Phase::Done, Action::Propagate),
            _ => (Phase::Done, Action::Ignore),
        },
        Phase::Done => (Phase::Done, Action::Ignore),
    }
}

/// Once a request is done, nothing more is asked for on its behalf.
pub proof fn lemma_done_is_final(event: Event, action: Action)
    requires
        follows(Phase::Done, event, action),
    ensures
        next_phase(Phase::Done, event) == Phase::Done,
        action is Ignore,
{
}

} // verus!
