//! The failures a call can end in.
use vstd::prelude::*;

verus! {

/// The program's own failures. Each has a fixed numeric code, under which the
/// host reports it as a custom program error.
#[derive(Debug, Copy, Clone, PartialEq, Eq, Structural)]
pub enum ExtendedSPLMemoError {
    /// The payload is not the encoding of an instruction.
    InvalidInstruction,
    /// The memo is longer than the processor accepts.
    MemoTooLong,
    /// The call came with fewer accounts than the instruction reads.
    AccountDataTooSmall,
    /// The memo has no commitment: the hash rejected its input.
    HashingError,
}

impl ExtendedSPLMemoError {
    /// The code of each failure: its position in the declaration.
    pub open spec fn spec_code(self) -> u32 {
        match self {
            ExtendedSPLMemoError::InvalidInstruction => 0,
            ExtendedSPLMemoError::MemoTooLong => 1,
            ExtendedSPLMemoError::AccountDataTooSmall => 2,
            ExtendedSPLMemoError::HashingError => 3,
        }
    }

    /// The text that describes each failure.
    pub open spec fn spec_message(self) -> Seq<char> {
        match self {
            ExtendedSPLMemoError::InvalidInstruction => "Invalid Instruction"@,
            ExtendedSPLMemoError::MemoTooLong => "Memo too long"@,
            ExtendedSPLMemoError::AccountDataTooSmall => "Account data too small"@,
            ExtendedSPLMemoError::HashingError => "Hashing error"@,
        }
    }

    /// The numeric code under which the host reports this failure.
    #[verifier::when_used_as_spec(spec_code)]
    pub fn code(self) -> (c: u32)
        ensures
            c == self.spec_code(),
    {
        match self {
            ExtendedSPLMemoError::InvalidInstruction => 0,
            ExtendedSPLMemoError::MemoTooLong => 1,
            ExtendedSPLMemoError::AccountDataTooSmall => 2,
            ExtendedSPLMemoError::HashingError => 3,
        }
    }

    /// A short description of this failure, for logs and diagnostics.
    pub fn message(self) -> (s: String)
        ensures
            s@ == self.spec_message(),
    {
        match self {
            ExtendedSPLMemoError::InvalidInstruction => "Invalid Instruction".to_owned(),
            ExtendedSPLMemoError::MemoTooLong => "Memo too long".to_owned(),
            ExtendedSPLMemoError::AccountDataTooSmall => "Account data too small".to_owned(),
            ExtendedSPLMemoError::HashingError => "Hashing error".to_owned(),
        }
    }
}

/// No two failures share a code: the host can tell them apart by number.
pub proof fn lemma_codes_are_distinct(a: ExtendedSPLMemoError, b: ExtendedSPLMemoError)
    ensures
        a.spec_code() == b.spec_code() <==> a == b,
{
}

/// How a call to the processor can fail.
#[derive(Debug, Copy, Clone, PartialEq, Eq, Structural)]
pub enum ProcessError {
    /// One of the program's own failures, reported under its code.
    Custom(ExtendedSPLMemoError),
    /// The payer did not sign the transaction.
    MissingRequiredSignature,
    /// The host refused to create the target account.
    CreationRejected,
}

} // verus!
