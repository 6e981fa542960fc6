use vstd::prelude::*;

verus! {

/// What can go wrong while resolving a salvage.
#[derive(Debug, Clone, Copy, PartialEq, Eq, Structural)]
pub enum NumeneraError {
    /// The item tables could not be read, or held no row for the request.
    DatabaseError,
    /// A dice expression or a numeric field of a row could not be evaluated.
    DataFormatError,
}

impl NumeneraError {
    /// The text shown to the user for this error.
    pub open spec fn message_text(self) -> Seq<char> {
        match self {
            NumeneraError::DatabaseError => "Database Error"@,
            NumeneraError::DataFormatError => "Data Format Error"@,
        }
    }

    /// Renders the error for the user.
    pub fn message(&self) -> (text: String)
        ensures
            text@ == self.message_text(),
    {
        match self {
            NumeneraError::DatabaseError => "Database Error".to_owned(),
            NumeneraError::DataFormatError => "Data Format Error".to_owned(),
        }
    }
}

/// The error type of `rusqlite`, carried through as an opaque value.
#[verifier::external_type_specification]
#[verifier::external_body]
pub struct ExSqlError(rusqlite::Error);

impl From<rusqlite::Error> for NumeneraError {
    /// Whatever the tables report is a database error.
    fn from(_e: rusqlite::Error) -> (error: NumeneraError) {
        NumeneraError::DatabaseError
    }
}

impl vstd::std_specs::convert::FromSpecImpl<rusqlite::Error> for NumeneraError {
    open spec fn obeys_from_spec() -> bool {
        true
    }

    open spec fn from_spec(_e: rusqlite::Error) -> NumeneraError {
        NumeneraError::DatabaseError
    }
}

} // verus!
