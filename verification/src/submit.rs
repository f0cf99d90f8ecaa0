//! Submission-outcome classification and the bounded-wait contract: what the
//! transport's answer means, and what the cycle's trigger is told.

use vstd::prelude::*;

verus! {

/// What the transport handed back for one submission attempt.
#[derive(Clone, Debug, PartialEq)]
pub enum RawResponse {
    /// An HTTP answer arrived: its status code and its body.
    Http { status: u16, body: String },
    /// No HTTP answer: the connection or protocol error's description.
    Transport { error: String },
}

/// Mathematical model of a [`RawResponse`].
pub enum RawResponseModel {
    Http { status: u16, body: Seq<char> },
    Transport { error: Seq<char> },
}

impl View for RawResponse {
    type V = RawResponseModel;

    open spec fn view(&self) -> RawResponseModel {
        match self {
            RawResponse::Http { status, body } => RawResponseModel::Http {
                status: *status,
                body: body@,
            },
            RawResponse::Transport { error } => RawResponseModel::Transport { error: error@ },
        }
    }
}

/// How one submission attempt ended.
#[derive(Clone, Debug, PartialEq)]
pub enum SubmissionOutcome {
    /// The endpoint answered with a success status; the body is kept for
    /// the log.
    Accepted { body: String },
    /// The endpoint answered with a non-success status, kept with the body.
    HttpRejected { status: u16, body: String },
    /// The attempt failed below HTTP, kept with the error's description.
    TransportFailed { error: String },
}

/// Mathematical model of a [`SubmissionOutcome`].
pub enum SubmissionOutcomeModel {
    Accepted { body: Seq<char> },
    HttpRejected { status: u16, body: Seq<char> },
    TransportFailed { error: Seq<char> },
}

impl View for SubmissionOutcome {
    type V = SubmissionOutcomeModel;

    open spec fn view(&self) -> SubmissionOutcomeModel {
        match self {
            SubmissionOutcome::Accepted { body } => SubmissionOutcomeModel::Accepted {
                body: body@,
            },
            SubmissionOutcome::HttpRejected { status, body } => (
            SubmissionOutcomeModel::HttpRejected { status: *status, body: body@ }),
            SubmissionOutcome::TransportFailed { error } => (
            SubmissionOutcomeModel::TransportFailed { error: error@ }),
        }
    }
}

/// A success status: the 2xx range.
pub open spec fn is_success_status(status: u16) -> bool {
    200 <= status < 300
}

/// Classifies the transport's answer: a 2xx answer is accepted, any other
/// HTTP answer is rejected with its status and body, and anything below
/// HTTP is a transport failure — each if and only if.
pub fn classify_response(resp: RawResponse) -> (r: SubmissionOutcome)
    ensures
        match resp@ {
            RawResponseModel::Http { status, body } => {
                if is_success_status(status) {
                    r@ == SubmissionOutcomeModel::Accepted { body }
                } else {
                    r@ == SubmissionOutcomeModel::HttpRejected { status, body }
                }
            },
            RawResponseModel::Transport { error } => r@ == (
            SubmissionOutcomeModel::TransportFailed { error }),
        },
{
    match resp {
        RawResponse::Http { status, body } => {
            if 200 <= status && status < 300 {
                SubmissionOutcome::Accepted { body }
            } else {
                SubmissionOutcome::HttpRejected { status, body }
            }
        },
        RawResponse::Transport { error } => SubmissionOutcome::TransportFailed { error },
    }
}

/// What the cycle's trigger is answered once the bounded wait is over, and
/// what is left for the log.
pub struct WaitReport {
    /// The trigger always observes success once scanning and assembly
    /// succeeded; the remote outcome never reaches it.
    pub caller_sees_success: bool,
    /// The outcome the wait saw, if the submission finished inside it; a
    /// wait that elapsed first logs nothing yet, the submission running on
    /// unobserved.
    pub logged: Option<SubmissionOutcome>,
}

/// Concludes the bounded wait on a dispatched submission. `joined` is the
/// submission's outcome when it finished inside the wait, and `None` when
/// the wait elapsed first. The caller-visible answer is success either way
/// — a timed-out wait is explicitly not an error — and the outcome, when
/// one was seen, goes to the log unchanged.
pub fn conclude_wait(joined: Option<SubmissionOutcome>) -> (r: WaitReport)
    ensures
        r.caller_sees_success,
        match joined {
            Some(o) => r.logged == Some(o),
            None => r.logged is None,
        },
{
    WaitReport { caller_sees_success: true, logged: joined }
}

} // verus!
