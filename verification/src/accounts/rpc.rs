//! Failures of requests.

use vstd::prelude::*;
use crate::accounts::model::{ErrorKind, ErrorView, StoreError};
use crate::text;

verus! {

/// Whose fault a failed request is.
#[derive(Clone, Copy, Debug, PartialEq, Eq, Structural)]
pub enum RpcErrorKind {
    InvalidRequest,
    InvalidParams,
    Internal,
}

/// The failure of a request.
#[derive(Debug, PartialEq, Eq)]
pub struct RpcError {
    pub kind: RpcErrorKind,
    pub message: String,
}

/// The view of a request's failure.
#[verifier::ext_equal]
pub struct RpcErrorView {
    pub kind: RpcErrorKind,
    pub message: Seq<char>,
}

impl View for RpcError {
    type V = RpcErrorView;

    open spec fn view(&self) -> RpcErrorView {
        RpcErrorView { kind: self.kind, message: self.message@ }
    }
}

/// A request that cannot be served.
pub open spec fn bad_request(message: Seq<char>) -> RpcErrorView {
    RpcErrorView { kind: RpcErrorKind::InvalidRequest, message }
}

/// A request with parameters that cannot be served.
pub open spec fn bad_params(message: Seq<char>) -> RpcErrorView {
    RpcErrorView { kind: RpcErrorKind::InvalidParams, message }
}

/// A request that could have been served.
pub open spec fn failed(message: Seq<char>) -> RpcErrorView {
    RpcErrorView { kind: RpcErrorKind::Internal, message }
}

pub fn invalid_request(message: &str) -> (res: RpcError)
    ensures
        res@ == bad_request(message@),
{
    RpcError { kind: RpcErrorKind::InvalidRequest, message: message.to_string() }
}

pub fn invalid_params(message: &str) -> (res: RpcError)
    ensures
        res@ == bad_params(message@),
{
    RpcError { kind: RpcErrorKind::InvalidParams, message: message.to_string() }
}

pub fn internal_error(message: &str) -> (res: RpcError)
    ensures
        res@ == failed(message@),
{
    RpcError { kind: RpcErrorKind::Internal, message: message.to_string() }
}

/// An internal failure with what led to it.
pub fn internal_error_from(context: &str, cause: &str) -> (res: RpcError)
    ensures
        res@ == failed(context@ + cause@),
{
    RpcError { kind: RpcErrorKind::Internal, message: text::joined(context, cause) }
}

/// How the failure to select a saved account is reported.
pub open spec fn selection_error(error: ErrorView) -> RpcErrorView {
    match error.kind {
        ErrorKind::InvalidInput => bad_params(error.message),
        ErrorKind::NotFound | ErrorKind::AlreadyExists => bad_request(error.message),
        _ => failed("saved account operation failed: "@ + error.message),
    }
}

/// Reports the failure to select a saved account.
pub fn account_selection_error(error: StoreError) -> (res: RpcError)
    ensures
        res@ == selection_error(error@),
{
    match error.kind {
        ErrorKind::InvalidInput => invalid_params(error.message.as_str()),
        ErrorKind::NotFound | ErrorKind::AlreadyExists => invalid_request(error.message.as_str()),
        _ => internal_error_from("saved account operation failed: ", error.message.as_str()),
    }
}

/// What a request does with accounts.
#[derive(Clone, Copy, Debug, PartialEq, Eq, Structural)]
pub enum AccountOperation {
    AddSession,
    ListSessions,
    LogOutSession,
    SwitchSession,
    SyncActiveSession,
    SaveSessions,
    ClearSessions,
    ListAccounts,
    LoadCurrent,
    SaveApiKey,
    SaveBedrock,
    SetExternalAuth,
    LogOut,
    StartPriming,
    RunPriming,
}

/// What the message begins with that reports the failure of an operation.
pub open spec fn failure_context(operation: AccountOperation) -> Seq<char> {
    match operation {
        AccountOperation::AddSession => "failed to add account session: "@,
        AccountOperation::ListSessions => "failed to list account sessions: "@,
        AccountOperation::LogOutSession => "failed to log out account session: "@,
        AccountOperation::SwitchSession => "failed to switch account session: "@,
        AccountOperation::SyncActiveSession => "failed to sync active account session: "@,
        AccountOperation::SaveSessions => "failed to save account sessions: "@,
        AccountOperation::ClearSessions => "failed to clear account sessions: "@,
        AccountOperation::ListAccounts => "failed to list saved accounts: "@,
        AccountOperation::LoadCurrent => "failed to load current auth state: "@,
        AccountOperation::SaveApiKey => "failed to save api key: "@,
        AccountOperation::SaveBedrock => "failed to save Amazon Bedrock auth: "@,
        AccountOperation::SetExternalAuth => "failed to set external auth: "@,
        AccountOperation::LogOut => "logout failed: "@,
        AccountOperation::StartPriming => "failed to start account priming: "@,
        AccountOperation::RunPriming => "failed to run account priming pass: "@,
    }
}

/// How the failure of an operation is reported. A pass over the accounts fails only where another one
/// runs, and that is no fault of the program.
pub open spec fn operation_failure(operation: AccountOperation, cause: Seq<char>) -> RpcErrorView {
    if operation == AccountOperation::StartPriming || operation == AccountOperation::RunPriming {
        bad_request(failure_context(operation) + cause)
    } else {
        failed(failure_context(operation) + cause)
    }
}

/// Reports the failure of an operation.
pub fn operation_error(operation: AccountOperation, cause: &str) -> (res: RpcError)
    ensures
        res@ == operation_failure(operation, cause@),
{
    let context = match operation {
        AccountOperation::AddSession => "failed to add account session: ",
        AccountOperation::ListSessions => "failed to list account sessions: ",
        AccountOperation::LogOutSession => "failed to log out account session: ",
        AccountOperation::SwitchSession => "failed to switch account session: ",
        AccountOperation::SyncActiveSession => "failed to sync active account session: ",
        AccountOperation::SaveSessions => "failed to save account sessions: ",
        AccountOperation::ClearSessions => "failed to clear account sessions: ",
        AccountOperation::ListAccounts => "failed to list saved accounts: ",
        AccountOperation::LoadCurrent => "failed to load current auth state: ",
        AccountOperation::SaveApiKey => "failed to save api key: ",
        AccountOperation::SaveBedrock => "failed to save Amazon Bedrock auth: ",
        AccountOperation::SetExternalAuth => "failed to set external auth: ",
        AccountOperation::LogOut => "logout failed: ",
        AccountOperation::StartPriming => "failed to start account priming: ",
        AccountOperation::RunPriming => "failed to run account priming pass: ",
    };
    let message = text::joined(context, cause);
    if operation == AccountOperation::StartPriming || operation == AccountOperation::RunPriming {
        invalid_request(message.as_str())
    } else {
        internal_error(message.as_str())
    }
}

} // verus!
