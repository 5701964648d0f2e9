//! The kinds of business keys and events that requests are correlated by.
use vstd::prelude::*;

verus! {

/// A kind of business key.
#[derive(Debug, Clone)]
pub enum KeywordType {
    TransactionId,
    SessionId,
    UserId,
    RequestId,
    BusinessProcess,
    ErrorCode,
    Custom(String),
}

pub open spec fn keyword_label(k: KeywordType) -> Seq<char> {
    match k {
        KeywordType::TransactionId => "transaction_id"@,
        KeywordType::SessionId => "session_id"@,
        KeywordType::UserId => "user_id"@,
        KeywordType::RequestId => "request_id"@,
        KeywordType::BusinessProcess => "business_process"@,
        KeywordType::ErrorCode => "error_code"@,
        KeywordType::Custom(name) => name@,
    }
}

impl KeywordType {
    /// The key's name as it appears in log lines; a custom key's own name.
    pub fn type_label(&self) -> (r: &str)
        ensures
            r@ == keyword_label(*self),
    {
        match self {
            KeywordType::TransactionId => "transaction_id",
            KeywordType::SessionId => "session_id",
            KeywordType::UserId => "user_id",
            KeywordType::RequestId => "request_id",
            KeywordType::BusinessProcess => "business_process",
            KeywordType::ErrorCode => "error_code",
            KeywordType::Custom(name) => name.as_str(),
        }
    }
}

/// What happened in a correlated event.
#[derive(Debug, Clone)]
pub enum EventType {
    RequestStart,
    RequestEnd,
    ServiceCall,
    DatabaseOperation,
    ErrorOccurred,
    Other(String),
}

} // verus!
