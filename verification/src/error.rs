//! The ways in which an ingestion can fail.

use vstd::prelude::*;
use crate::chunking::EMBEDDING_API_ENV_VAR;

verus! {

/// Why an ingestion failed, by the stage that failed.
#[derive(Debug, PartialEq, Eq)]
pub enum IngestError {
    /// The transport handle could not be set up; the cause is passed on as it came.
    ConfigOrAuth { cause: String },
    /// The store identifier is not a well-formed address; `id` is the text that was given.
    Validation { id: String, cause: String },
    /// No base address is configured for the chunking service.
    Configuration,
    /// The request to the chunking service did not get through.
    Transport { cause: String },
    /// The chunking service answered with a status outside the success class.
    Remote { status: u16, body: String },
    /// The chunking service's answer does not have the expected structure.
    Decode { cause: String },
    /// The memory store failed or refused an insert; `inserted` chunks had been
    /// stored before it.
    Insert { inserted: usize, cause: String },
}

/// What an [`IngestError`] holds, as mathematical values.
pub ghost enum IngestErrorModel {
    ConfigOrAuth { cause: Seq<char> },
    Validation { id: Seq<char>, cause: Seq<char> },
    Configuration,
    Transport { cause: Seq<char> },
    Remote { status: u16, body: Seq<char> },
    Decode { cause: Seq<char> },
    Insert { inserted: nat, cause: Seq<char> },
}

impl View for IngestError {
    type V = IngestErrorModel;

    open spec fn view(&self) -> IngestErrorModel {
        match *self {
            IngestError::ConfigOrAuth { cause } => IngestErrorModel::ConfigOrAuth { cause: cause@ },
            IngestError::Validation { id, cause } => IngestErrorModel::Validation {
                id: id@,
                cause: cause@,
            },
            IngestError::Configuration => IngestErrorModel::Configuration,
            IngestError::Transport { cause } => IngestErrorModel::Transport { cause: cause@ },
            IngestError::Remote { status, body } => IngestErrorModel::Remote { status, body: body@ },
            IngestError::Decode { cause } => IngestErrorModel::Decode { cause: cause@ },
            IngestError::Insert { inserted, cause } => IngestErrorModel::Insert {
                inserted: inserted as nat,
                cause: cause@,
            },
        }
    }
}

/// The decimal digit for a value below ten.
pub open spec fn digit_char(d: nat) -> char {
    if d == 0 {
        '0'
    } else if d == 1 {
        '1'
    } else if d == 2 {
        '2'
    } else if d == 3 {
        '3'
    } else if d == 4 {
        '4'
    } else if d == 5 {
        '5'
    } else if d == 6 {
        '6'
    } else if d == 7 {
        '7'
    } else if d == 8 {
        '8'
    } else {
        '9'
    }
}

/// A number in decimal, without leading zeros.
pub open spec fn decimal_text(n: nat) -> Seq<char>
    decreases n,
{
    if n < 10 {
        seq![digit_char(n)]
    } else {
        decimal_text(n / 10) + seq![digit_char(n % 10)]
    }
}

/// The text of one decimal digit.
fn digit_str(d: usize) -> (r: &'static str)
    requires
        d < 10,
    ensures
        r@ == seq![digit_char(d as nat)],
{
    proof {
        reveal_strlit("0");
        reveal_strlit("1");
        reveal_strlit("2");
        reveal_strlit("3");
        reveal_strlit("4");
        reveal_strlit("5");
        reveal_strlit("6");
        reveal_strlit("7");
        reveal_strlit("8");
        reveal_strlit("9");
    }
    let r = if d == 0 {
        "0"
    } else if d == 1 {
        "1"
    } else if d == 2 {
        "2"
    } else if d == 3 {
        "3"
    } else if d == 4 {
        "4"
    } else if d == 5 {
        "5"
    } else if d == 6 {
        "6"
    } else if d == 7 {
        "7"
    } else if d == 8 {
        "8"
    } else {
        "9"
    };
    assert(r@ =~= seq![digit_char(d as nat)]);
    r
}

/// Writes a number in decimal.
pub fn decimal(n: usize) -> (r: String)
    ensures
        r@ == decimal_text(n as nat),
    decreases n,
{
    if n < 10 {
        String::from_str(digit_str(n))
    } else {
        let mut text = decimal(n / 10);
        text.append(digit_str(n % 10));
        text
    }
}

/// How an HTTP status is displayed: its number and its standard reason phrase;
/// `None` for a number that is no HTTP status.
pub uninterp spec fn status_display(status: u16) -> Option<Seq<char>>;

/// Displays an HTTP status.
///
/// Trusted: the body calls `reqwest::StatusCode::from_u16` and takes the
/// status's `Display` text. The contract claims only that the outcome is a
/// function of the number, named [`status_display`].
#[verifier::external_body]
pub(crate) fn status_text(status: u16) -> (r: Option<String>)
    ensures
        r is Some ==> status_display(status) == Some(r->Some_0@),
        r is None ==> status_display(status) is None,
{
    match reqwest::StatusCode::from_u16(status) {
        Ok(code) => Some(code.to_string()),
        Err(_) => None,
    }
}

/// The text that reports an answer with a status outside the success class:
/// the status as it is displayed, or its bare number where it has no display,
/// and then the answer's body.
pub open spec fn remote_text(status: u16, display: Option<Seq<char>>, body: Seq<char>) -> Seq<
    char,
> {
    "late chunking request failed with status "@ + match display {
        Some(text) => text,
        None => decimal_text(status as nat),
    } + ": "@ + body
}

/// What an error says: the stage that failed, and the cause where there is one.
pub open spec fn error_text(e: IngestErrorModel) -> Seq<char> {
    match e {
        IngestErrorModel::ConfigOrAuth { cause } => cause,
        IngestErrorModel::Validation { id, cause } =>
            "Failed to parse canister id for insert command: "@ + id + ": "@ + cause,
        IngestErrorModel::Configuration => "Set "@ + EMBEDDING_API_ENV_VAR@
            + " to call the embedding API"@,
        IngestErrorModel::Transport { cause } => "Failed to call late chunking endpoint: "@ + cause,
        IngestErrorModel::Remote { status, body } => remote_text(
            status,
            status_display(status),
            body,
        ),
        IngestErrorModel::Decode { cause } => "Failed to decode late chunking response: "@ + cause,
        IngestErrorModel::Insert { inserted, cause } => "Failed to insert chunk after "@
            + decimal_text(inserted) + " stored: "@ + cause,
    }
}

/// Writes the report of an answer with a status outside the success class,
/// given how the status is displayed.
pub fn remote_message(status: u16, display: Option<String>, body: &str) -> (r: String)
    ensures
        r@ == remote_text(
            status,
            match display {
                Some(text) => Some(text@),
                None => None,
            },
            body@,
        ),
{
    let mut text = String::from_str("late chunking request failed with status ");
    match display {
        Some(shown) => text.append(shown.as_str()),
        None => {
            let number = decimal(status as usize);
            text.append(number.as_str());
        },
    }
    text.append(": ");
    text.append(body);
    text
}

impl IngestError {
    /// What the error says, for a person to read.
    pub fn message(&self) -> (r: String)
        ensures
            r@ == error_text(self@),
    {
        match self {
            IngestError::ConfigOrAuth { cause } => cause.clone(),
            IngestError::Validation { id, cause } => {
                let mut text = String::from_str("Failed to parse canister id for insert command: ");
                text.append(id.as_str());
                text.append(": ");
                text.append(cause.as_str());
                text
            },
            IngestError::Configuration => {
                let mut text = String::from_str("Set ");
                text.append(EMBEDDING_API_ENV_VAR);
                text.append(" to call the embedding API");
                text
            },
            IngestError::Transport { cause } => {
                let mut text = String::from_str("Failed to call late chunking endpoint: ");
                text.append(cause.as_str());
                text
            },
            IngestError::Remote { status, body } => remote_message(
                *status,
                status_text(*status),
                body.as_str(),
            ),
            IngestError::Decode { cause } => {
                let mut text = String::from_str("Failed to decode late chunking response: ");
                text.append(cause.as_str());
                text
            },
            IngestError::Insert { inserted, cause } => {
                let mut text = String::from_str("Failed to insert chunk after ");
                let number = decimal(*inserted);
                text.append(number.as_str());
                text.append(" stored: ");
                text.append(cause.as_str());
                text
            },
        }
    }
}

} // verus!
