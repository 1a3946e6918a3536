//! What the cache tells the outside: diagnostics for the log, and the
//! result of an administrative command.
use vstd::prelude::*;

verus! {

/// How serious a diagnostic is.
#[derive(Clone, Copy, Debug, PartialEq, Eq, Structural)]
pub enum Level {
    Info,
    Warning,
}

/// A diagnostic for the host's log. Diagnostics are observational: nothing
/// the cache decides depends on whether one was delivered.
#[derive(Debug)]
pub struct Notice {
    pub level: Level,
    pub text: String,
}

/// A [`Notice`] as a mathematical value.
pub struct NoticeModel {
    pub level: Level,
    pub text: Seq<char>,
}

impl DeepView for Notice {
    type V = NoticeModel;

    open spec fn deep_view(&self) -> NoticeModel {
        NoticeModel { level: self.level, text: self.text@ }
    }
}

/// The result of a command the cache carries out for a user: a message, and
/// whether the command failed.
#[derive(Debug)]
pub struct OperationResult {
    pub is_error: bool,
    pub message: String,
}

/// An [`OperationResult`] as a mathematical value.
pub struct OperationModel {
    pub is_error: bool,
    pub message: Seq<char>,
}

impl DeepView for OperationResult {
    type V = OperationModel;

    open spec fn deep_view(&self) -> OperationModel {
        OperationModel { is_error: self.is_error, message: self.message@ }
    }
}

impl OperationResult {
    /// A result that reports success with `message`.
    pub fn success(message: String) -> (result: OperationResult)
        ensures
            result.deep_view() == (OperationModel { is_error: false, message: message@ }),
    {
        OperationResult { is_error: false, message }
    }

    /// A result that reports failure with `message`.
    pub fn error(message: String) -> (result: OperationResult)
        ensures
            result.deep_view() == (OperationModel { is_error: true, message: message@ }),
    {
        OperationResult { is_error: true, message }
    }
}

} // verus!
