//! The address of a memory store: a principal, given in its text form.

use vstd::prelude::*;
use crate::error::{IngestError, IngestErrorModel};

verus! {

/// What parsing a principal's text form gives: the principal's bytes, or the
/// text of the reason why the text is not a principal.
pub uninterp spec fn principal_parse(text: Seq<char>) -> Result<Seq<u8>, Seq<char>>;

/// Parses the text form of a principal.
///
/// Trusted: the body calls `ic_agent::export::Principal::from_text`, takes the
/// principal's bytes with `as_slice`, and on failure the error's `Display` text.
/// The contract claims only that the outcome is a function of the text, named
/// [`principal_parse`]: the parser reads nothing but its argument.
#[verifier::external_body]
pub(crate) fn principal_from_text(text: &str) -> (r: Result<Vec<u8>, String>)
    ensures
        r is Ok ==> principal_parse(text@) == Ok::<Seq<u8>, Seq<char>>(r->Ok_0@),
        r is Err ==> principal_parse(text@) == Err::<Seq<u8>, Seq<char>>(r->Err_0@),
{
    match ic_agent::export::Principal::from_text(text) {
        Ok(principal) => Ok(principal.as_slice().to_vec()),
        Err(error) => Err(error.to_string()),
    }
}

/// A validated store identifier: the bytes of the principal that addresses the store.
#[derive(Debug, PartialEq, Eq)]
pub struct StoreId {
    pub bytes: Vec<u8>,
}

impl View for StoreId {
    type V = Seq<u8>;

    open spec fn view(&self) -> Seq<u8> {
        self.bytes@
    }
}

/// The outcome of validating the identifier `text`, given what parsing it as a
/// principal gave: the principal's bytes, or a validation error that echoes the
/// offending text beside the parser's reason.
pub open spec fn store_id_outcome(
    text: Seq<char>,
    parsed: Result<Seq<u8>, Seq<char>>,
) -> Result<Seq<u8>, IngestErrorModel> {
    match parsed {
        Ok(bytes) => Ok(bytes),
        Err(cause) => Err(IngestErrorModel::Validation { id: text, cause }),
    }
}

impl StoreId {
    /// Turns the parser's outcome for `text` into a store identifier or a
    /// validation error.
    pub fn from_parsed(text: &str, parsed: Result<Vec<u8>, String>) -> (r: Result<
        StoreId,
        IngestError,
    >)
        ensures
            parsed matches Ok(bytes) ==> r is Ok && r->Ok_0@ == bytes@,
            parsed matches Err(cause) ==> r is Err && r->Err_0@ == (IngestErrorModel::Validation {
                id: text@,
                cause: cause@,
            }),
    {
        match parsed {
            Ok(bytes) => Ok(StoreId { bytes }),
            Err(cause) => Err(IngestError::Validation { id: String::from_str(text), cause }),
        }
    }

    /// Validates a store identifier given in text form.
    ///
    /// Succeeds exactly on the texts that parse as a principal.
    pub fn parse(text: &str) -> (r: Result<StoreId, IngestError>)
        ensures
            r is Ok <==> principal_parse(text@) is Ok,
            r matches Ok(id) ==> store_id_outcome(text@, principal_parse(text@)) == Ok::<
                Seq<u8>,
                IngestErrorModel,
            >(id@),
            r matches Err(e) ==> store_id_outcome(text@, principal_parse(text@)) == Err::<
                Seq<u8>,
                IngestErrorModel,
            >(e@),
    {
        StoreId::from_parsed(text, principal_from_text(text))
    }
}

} // verus!
