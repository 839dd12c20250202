//! The errors that the library reports.

use vstd::prelude::*;

verus! {

/// Why an operation was refused or failed.
#[derive(Debug)]
pub enum RtcError {
    /// The operation does not fit the connection's state.
    InvalidState(String),
    /// What was handed in contradicts the configuration.
    InvalidConfiguration(String),
    /// Something that was read or computed is unusable.
    Internal(String),
    /// A transport failed.
    Transport(String),
    /// The operation is not offered.
    NotImplemented(String),
}

/// The model of an error: its kind and its text.
pub enum RtcErrorView {
    InvalidState(Seq<char>),
    InvalidConfiguration(Seq<char>),
    Internal(Seq<char>),
    Transport(Seq<char>),
    NotImplemented(Seq<char>),
}

pub type RtcResult<T> = Result<T, RtcError>;

impl View for RtcError {
    type V = RtcErrorView;

    open spec fn view(&self) -> RtcErrorView {
        match *self {
            RtcError::InvalidState(s) => RtcErrorView::InvalidState(s@),
            RtcError::InvalidConfiguration(s) => RtcErrorView::InvalidConfiguration(s@),
            RtcError::Internal(s) => RtcErrorView::Internal(s@),
            RtcError::Transport(s) => RtcErrorView::Transport(s@),
            RtcError::NotImplemented(s) => RtcErrorView::NotImplemented(s@),
        }
    }
}

/// The text of an error.
pub open spec fn error_text(e: RtcErrorView) -> Seq<char> {
    match e {
        RtcErrorView::InvalidState(s) => s,
        RtcErrorView::InvalidConfiguration(s) => s,
        RtcErrorView::Internal(s) => s,
        RtcErrorView::Transport(s) => s,
        RtcErrorView::NotImplemented(s) => s,
    }
}

impl RtcError {
    /// An `InvalidState` error with the given text.
    pub fn invalid_state(text: &str) -> (e: RtcError)
        ensures
            e@ == RtcErrorView::InvalidState(text@),
    {
        RtcError::InvalidState(text.to_owned())
    }

    /// An `InvalidConfiguration` error with the given text.
    pub fn invalid_configuration(text: &str) -> (e: RtcError)
        ensures
            e@ == RtcErrorView::InvalidConfiguration(text@),
    {
        RtcError::InvalidConfiguration(text.to_owned())
    }

    /// An `Internal` error with the given text.
    pub fn internal(text: &str) -> (e: RtcError)
        ensures
            e@ == RtcErrorView::Internal(text@),
    {
        RtcError::Internal(text.to_owned())
    }

    /// The text that the error carries.
    pub fn message(&self) -> (r: String)
        ensures
            r@ == error_text(self@),
    {
        match self {
            RtcError::InvalidState(s) => s.clone(),
            RtcError::InvalidConfiguration(s) => s.clone(),
            RtcError::Internal(s) => s.clone(),
            RtcError::Transport(s) => s.clone(),
            RtcError::NotImplemented(s) => s.clone(),
        }
    }
}

} // verus!
