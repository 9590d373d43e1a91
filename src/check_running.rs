//! The liveness check: the shadow's indexed count must keep up with the
//! chain's latest block. One round at a time; whoever runs the rounds fetches
//! the count and the latest block, sends the alert and waits.
use vstd::prelude::*;
use crate::alert::{alert_view, shadow_stopped, shadow_stopped_alert, AlertEvent, AlertEventView};
use crate::error::{error_view, fetched, CheckError, CheckErrorView};
use crate::text::{count_of, parse_count};

verus! {

/// Milliseconds to wait after a round that found the shadow keeping up.
pub const RUNNING_DELAY_MS: u64 = 60000;

/// Milliseconds to wait after an alert, so that alerts do not pile up.
pub const STOPPED_DELAY_MS: u64 = 600000;

/// Milliseconds to wait after a round that failed.
pub const RUNNING_ERROR_DELAY_MS: u64 = 600000;

/// How far the shadow's count `indexed` is behind the chain's height
/// `latest`; none where the shadow is ahead.
pub open spec fn gap_of(latest: nat, indexed: nat) -> nat {
    if latest >= indexed {
        (latest - indexed) as nat
    } else {
        0
    }
}

/// How far the shadow's count `indexed` is behind the chain's height `latest`;
/// zero where the shadow is ahead.
pub fn calc_gap(latest: u64, indexed: u64) -> (r: u64)
    ensures
        r == gap_of(latest as nat, indexed as nat),
{
    if latest >= indexed {
        latest - indexed
    } else {
        0
    }
}

/// The shadow's request for its indexed count.
pub fn shadow_count_url(shadow_url: &str) -> (r: String)
    ensures
        r@ == shadow_url@ + "/ethereum/count"@,
{
    let mut s = String::from_str(shadow_url);
    s.append("/ethereum/count");
    s
}

/// The shadow's indexed count from the body of its count request: the body is
/// the count in decimal and nothing else.
pub fn latest_mmr_leaf(body: &str) -> (r: Result<u64, CheckError>)
    ensures
        count_of(body@) matches Some(c) ==> r == Ok::<u64, CheckError>(c),
        count_of(body@) is None ==> (r matches Err(CheckError::BadCount(b)) && b@ == body@),
{
    match parse_count(body) {
        Some(c) => Ok(c),
        None => Err(CheckError::BadCount(body.to_owned())),
    }
}

/// What one round found.
#[derive(Debug, Clone, PartialEq, Eq)]
pub struct RunningStep {
    /// How far the shadow is behind, where both heights were had.
    pub gap: Option<u64>,
    /// The alert to send, where the gap is over the threshold.
    pub alert: Option<AlertEvent>,
    /// Why the round failed, where it did.
    pub error: Option<CheckError>,
    /// How long to wait before the next round.
    pub delay_ms: u64,
}

pub struct RunningStepView {
    pub gap: Option<nat>,
    pub alert: Option<AlertEventView>,
    pub error: Option<CheckErrorView>,
    pub delay_ms: nat,
}

impl View for RunningStep {
    type V = RunningStepView;

    open spec fn view(&self) -> RunningStepView {
        RunningStepView {
            gap: match self.gap {
                Some(g) => Some(g as nat),
                None => None,
            },
            alert: alert_view(self.alert),
            error: error_view(self.error),
            delay_ms: self.delay_ms as nat,
        }
    }
}

/// The round of a check of the shadow at `shadow` with threshold `threshold`,
/// given the count request's result and the latest block's. An alert, and the
/// long delay, where the gap is strictly over the threshold; the long delay
/// after any failure too.
pub open spec fn running_round(
    shadow: Seq<char>,
    threshold: nat,
    count_body: Result<Seq<char>, Seq<char>>,
    latest: Result<u64, Seq<char>>,
) -> RunningStepView {
    let failed = |e: CheckErrorView|
        RunningStepView {
            gap: None,
            alert: None,
            error: Some(e),
            delay_ms: RUNNING_ERROR_DELAY_MS as nat,
        };
    match count_body {
        Err(m) => failed(CheckErrorView::Fetch(m)),
        Ok(b) => match count_of(b) {
            None => failed(CheckErrorView::BadCount(b)),
            Some(c) => match latest {
                Err(m) => failed(CheckErrorView::Rpc(m)),
                Ok(h) => {
                    let g = gap_of(h as nat, c as nat);
                    if g > threshold {
                        RunningStepView {
                            gap: Some(g),
                            alert: Some(shadow_stopped_alert(shadow, g)),
                            error: None,
                            delay_ms: STOPPED_DELAY_MS as nat,
                        }
                    } else {
                        RunningStepView {
                            gap: Some(g),
                            alert: None,
                            error: None,
                            delay_ms: RUNNING_DELAY_MS as nat,
                        }
                    }
                },
            },
        },
    }
}

/// The view of the latest block's result.
pub open spec fn latest_view(r: Result<u64, String>) -> Result<u64, Seq<char>> {
    match r {
        Ok(h) => Ok(h),
        Err(m) => Err(m@),
    }
}

/// The liveness check of the shadow at `shadow_url`, which alerts where the
/// shadow is more than `gap_threshold` blocks behind.
#[derive(Debug, Clone, PartialEq, Eq)]
pub struct LivenessChecker {
    pub shadow_url: String,
    pub gap_threshold: u64,
}

impl LivenessChecker {
    /// A check of the shadow at `shadow_url` with threshold `gap_threshold`.
    pub fn new(shadow_url: &str, gap_threshold: u64) -> (r: Self)
        ensures
            r.shadow_url@ == shadow_url@,
            r.gap_threshold == gap_threshold,
    {
        LivenessChecker { shadow_url: shadow_url.to_owned(), gap_threshold }
    }

    /// The shadow's request for its indexed count.
    pub fn count_url(&self) -> (r: String)
        ensures
            r@ == self.shadow_url@ + "/ethereum/count"@,
    {
        shadow_count_url(self.shadow_url.as_str())
    }

    /// One round, from the count request's result and the chain's latest
    /// block number (or the text of the node's failure). The check itself
    /// keeps no state: a failed round is tried again as it was.
    pub fn step(&self, count_body: Result<String, String>, latest: Result<u64, String>) -> (r:
        RunningStep)
        ensures
            r@ == running_round(
                self.shadow_url@,
                self.gap_threshold as nat,
                fetched(count_body),
                latest_view(latest),
            ),
    {
        let count = match count_body {
            Err(m) => return RunningStep {
                gap: None,
                alert: None,
                error: Some(CheckError::Fetch(m)),
                delay_ms: RUNNING_ERROR_DELAY_MS,
            },
            Ok(body) => match latest_mmr_leaf(body.as_str()) {
                Ok(c) => c,
                Err(e) => return RunningStep {
                    gap: None,
                    alert: None,
                    error: Some(e),
                    delay_ms: RUNNING_ERROR_DELAY_MS,
                },
            },
        };
        let height = match latest {
            Err(m) => return RunningStep {
                gap: None,
                alert: None,
                error: Some(CheckError::Rpc(m)),
                delay_ms: RUNNING_ERROR_DELAY_MS,
            },
            Ok(h) => h,
        };
        let gap = calc_gap(height, count);
        if gap > self.gap_threshold {
            RunningStep {
                gap: Some(gap),
                alert: Some(shadow_stopped(self.shadow_url.as_str(), gap)),
                error: None,
                delay_ms: STOPPED_DELAY_MS,
            }
        } else {
            RunningStep { gap: Some(gap), alert: None, error: None, delay_ms: RUNNING_DELAY_MS }
        }
    }
}

/// Where the shadow's count `indexed` is not above the chain's height
/// `latest`, the gap is their difference, and a round alerts exactly when
/// that gap is strictly over the threshold (a gap equal to it does not).
pub proof fn lemma_alert_iff_gap_over_threshold(
    shadow: Seq<char>,
    threshold: nat,
    count_body: Seq<char>,
    indexed: u64,
    latest: u64,
)
    requires
        count_of(count_body) == Some(indexed),
        latest >= indexed,
    ensures
        running_round(shadow, threshold, Ok(count_body), Ok(latest)).gap == Some(
            (latest - indexed) as nat,
        ),
        running_round(shadow, threshold, Ok(count_body), Ok(latest)).alert is Some <==> latest
            - indexed > threshold,
        running_round(shadow, threshold, Ok(count_body), Ok(latest)).alert is Some ==> running_round(
            shadow,
            threshold,
            Ok(count_body),
            Ok(latest),
        ).alert == Some(shadow_stopped_alert(shadow, (latest - indexed) as nat)),
{
}

} // verus!
