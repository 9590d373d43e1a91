//! What can go wrong in one round of a check.
use vstd::prelude::*;

verus! {

/// The failure of one round of a check. Each is logged, and the checker goes
/// on after a delay.
#[derive(Debug, Clone, PartialEq, Eq)]
pub enum CheckError {
    /// A request failed in transport or status; the text describes it.
    Fetch(String),
    /// A block's response body held no hash; the body itself.
    MissingHash(String),
    /// The shadow's count was not an unsigned decimal; the body itself.
    BadCount(String),
    /// The chain node gave no latest block; the text describes it.
    Rpc(String),
}

pub enum CheckErrorView {
    Fetch(Seq<char>),
    MissingHash(Seq<char>),
    BadCount(Seq<char>),
    Rpc(Seq<char>),
}

impl View for CheckError {
    type V = CheckErrorView;

    open spec fn view(&self) -> CheckErrorView {
        match self {
            CheckError::Fetch(m) => CheckErrorView::Fetch(m@),
            CheckError::MissingHash(b) => CheckErrorView::MissingHash(b@),
            CheckError::BadCount(b) => CheckErrorView::BadCount(b@),
            CheckError::Rpc(m) => CheckErrorView::Rpc(m@),
        }
    }
}

/// What a request gave: the response body, or the text of its failure.
pub open spec fn fetched(r: Result<String, String>) -> Result<Seq<char>, Seq<char>> {
    match r {
        Ok(b) => Ok(b@),
        Err(m) => Err(m@),
    }
}

/// The view of a checker error, if there is one.
pub open spec fn error_view(e: Option<CheckError>) -> Option<CheckErrorView> {
    match e {
        Some(x) => Some(x@),
        None => None,
    }
}

} // verus!
