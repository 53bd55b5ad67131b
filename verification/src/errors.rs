//! Error taxonomy of the library, and its serializable form for transport
//! boundaries.

use vstd::prelude::*;
use crate::text::i64_dec_spec;
use crate::text::i32_to_string;

verus! {

/// Application-wide error type.
#[derive(Debug)]
pub enum AppError {
    /// A storage failure, holding the storage engine's message.
    Database(String),
    VaultNotFound(i32),
    EntryNotFound(i32),
    FieldNotFound(i32),
    Validation(String),
    Internal(String),
}

/// The stable machine-readable kind of an error.
pub open spec fn app_error_code_spec(e: &AppError) -> Seq<char> {
    match e {
        AppError::Database(_) => "DATABASE_ERROR"@,
        AppError::VaultNotFound(_) => "VAULT_NOT_FOUND"@,
        AppError::EntryNotFound(_) => "ENTRY_NOT_FOUND"@,
        AppError::FieldNotFound(_) => "FIELD_NOT_FOUND"@,
        AppError::Validation(_) => "VALIDATION_ERROR"@,
        AppError::Internal(_) => "INTERNAL_ERROR"@,
    }
}

/// The human-readable message of an error.
pub open spec fn app_error_message_spec(e: &AppError) -> Seq<char> {
    match e {
        AppError::Database(s) => "Database error: "@ + s@,
        AppError::VaultNotFound(id) => "Vault not found: "@ + i64_dec_spec(*id as int),
        AppError::EntryNotFound(id) => "Entry not found: "@ + i64_dec_spec(*id as int),
        AppError::FieldNotFound(id) => "Field definition not found: "@ + i64_dec_spec(
            *id as int,
        ),
        AppError::Validation(s) => "Validation error: "@ + s@,
        AppError::Internal(s) => "Internal error: "@ + s@,
    }
}

impl AppError {
    /// The stable machine-readable kind of this error.
    pub fn code(&self) -> (r: &'static str)
        ensures
            r@ == app_error_code_spec(self),
    {
        match self {
            AppError::Database(_) => "DATABASE_ERROR",
            AppError::VaultNotFound(_) => "VAULT_NOT_FOUND",
            AppError::EntryNotFound(_) => "ENTRY_NOT_FOUND",
            AppError::FieldNotFound(_) => "FIELD_NOT_FOUND",
            AppError::Validation(_) => "VALIDATION_ERROR",
            AppError::Internal(_) => "INTERNAL_ERROR",
        }
    }

    /// The human-readable message of this error.
    pub fn message(&self) -> (r: String)
        ensures
            r@ == app_error_message_spec(self),
    {
        match self {
            AppError::Database(s) => {
                let mut m = String::from_str("Database error: ");
                m.append(s.as_str());
                m
            },
            AppError::VaultNotFound(id) => {
                let mut m = String::from_str("Vault not found: ");
                let t = i32_to_string(*id);
                m.append(t.as_str());
                m
            },
            AppError::EntryNotFound(id) => {
                let mut m = String::from_str("Entry not found: ");
                let t = i32_to_string(*id);
                m.append(t.as_str());
                m
            },
            AppError::FieldNotFound(id) => {
                let mut m = String::from_str("Field definition not found: ");
                let t = i32_to_string(*id);
                m.append(t.as_str());
                m
            },
            AppError::Validation(s) => {
                let mut m = String::from_str("Validation error: ");
                m.append(s.as_str());
                m
            },
            AppError::Internal(s) => {
                let mut m = String::from_str("Internal error: ");
                m.append(s.as_str());
                m
            },
        }
    }
}

/// Serializable error for transport to external callers: a stable code and a
/// human-readable message.
pub struct IpcError {
    pub code: String,
    pub message: String,
}

impl IpcError {
    /// Builds the transport form of an application error.
    pub fn from_app_error(err: &AppError) -> (r: IpcError)
        ensures
            r.code@ == app_error_code_spec(err),
            r.message@ == app_error_message_spec(err),
    {
        IpcError { code: String::from_str(err.code()), message: err.message() }
    }
}

/// Application result type alias.
pub type AppResult<T> = Result<T, AppError>;

} // verus!
