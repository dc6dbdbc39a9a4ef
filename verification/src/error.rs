//! The library's error type. The sources of I/O and HTTP failures are kept
//! as their rendered messages.

use vstd::prelude::*;

use crate::text::{concat2, decimal, decimal_string, push_str};

verus! {

#[derive(Debug)]
pub enum AppError {
    Io { context: String, source: String },
    Http { context: String, source: String },
    ApiResponse { context: String, status: u16, body: String },
    Other(String),
}

/// What the error reads as when shown to the operator.
pub open spec fn error_text(e: AppError) -> Seq<char> {
    match e {
        AppError::Io { context, source } => context@ + ": "@ + source@,
        AppError::Http { context, source } => context@ + ": "@ + source@,
        AppError::ApiResponse { context, status, body } => context@ + " (HTTP "@ + decimal(
            status as nat,
        ) + "): "@ + body@,
        AppError::Other(msg) => msg@,
    }
}

impl AppError {
    pub fn io(context: String, source: String) -> (e: AppError)
        ensures
            e == (AppError::Io { context, source }),
    {
        AppError::Io { context, source }
    }

    pub fn http(context: String, source: String) -> (e: AppError)
        ensures
            e == (AppError::Http { context, source }),
    {
        AppError::Http { context, source }
    }

    pub fn api(context: String, status: u16, body: String) -> (e: AppError)
        ensures
            e == (AppError::ApiResponse { context, status, body }),
    {
        AppError::ApiResponse { context, status, body }
    }

    /// The rendered message.
    pub fn message(&self) -> (res: String)
        ensures
            res@ == error_text(*self),
    {
        match self {
            AppError::Io { context, source } => {
                let mut r = concat2(context.as_str(), ": ");
                push_str(&mut r, source.as_str());
                r
            },
            AppError::Http { context, source } => {
                let mut r = concat2(context.as_str(), ": ");
                push_str(&mut r, source.as_str());
                r
            },
            AppError::ApiResponse { context, status, body } => {
                let mut r = concat2(context.as_str(), " (HTTP ");
                let code = decimal_string(*status as u64);
                push_str(&mut r, code.as_str());
                push_str(&mut r, "): ");
                push_str(&mut r, body.as_str());
                r
            },
            AppError::Other(msg) => crate::text::owned(msg.as_str()),
        }
    }
}

} // verus!
