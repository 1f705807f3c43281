//! The record that is stored for one chunk: its tag and its sentence, written
//! as a JSON object of two string members.

use vstd::prelude::*;
use crate::json_text::{json_quote, lemma_quoted_delimited, quoted};

verus! {

/// The text of the record for `tag` and `sentence`: the object
/// `{"tag":..,"sentence":..}` in compact form, the tag first, each value as a
/// JSON string literal.
pub open spec fn record_text(tag: Seq<char>, sentence: Seq<char>) -> Seq<char> {
    "{\"tag\":"@ + quoted(tag) + ",\"sentence\":"@ + quoted(sentence) + "}"@
}

/// Builds the record payload for one chunk.
///
/// The result depends on the two strings alone and never fails; both values can
/// be read back from it exactly, see [`lemma_record_injective`].
pub fn format_chunk_text(tag: &str, sentence: &str) -> (payload: String)
    ensures
        payload@ == record_text(tag@, sentence@),
{
    let mut out = String::from_str("{\"tag\":");
    let tag_literal = json_quote(tag);
    out.append(tag_literal.as_str());
    out.append(",\"sentence\":");
    let sentence_literal = json_quote(sentence);
    out.append(sentence_literal.as_str());
    out.append("}");
    out
}

/// Two records with the same text carry the same tag and the same sentence.
pub proof fn lemma_record_injective(
    tag1: Seq<char>,
    sentence1: Seq<char>,
    tag2: Seq<char>,
    sentence2: Seq<char>,
)
    requires
        record_text(tag1, sentence1) == record_text(tag2, sentence2),
    ensures
        tag1 == tag2,
        sentence1 == sentence2,
{
    let head = "{\"tag\":"@;
    let mid = ",\"sentence\":"@;
    let tail = "}"@;
    let rest1 = mid + quoted(sentence1) + tail;
    let rest2 = mid + quoted(sentence2) + tail;
    let whole1 = record_text(tag1, sentence1);
    let whole2 = record_text(tag2, sentence2);
    let h = head.len() as int;
    assert(whole1 =~= head + (quoted(tag1) + rest1));
    assert(whole2 =~= head + (quoted(tag2) + rest2));
    assert(quoted(tag1) + rest1 =~= whole1.subrange(h, whole1.len() as int));
    assert(quoted(tag2) + rest2 =~= whole2.subrange(h, whole2.len() as int));
    lemma_quoted_delimited(tag1, rest1, tag2, rest2);
    let m = mid.len() as int;
    assert(rest1 =~= mid + (quoted(sentence1) + tail));
    assert(rest2 =~= mid + (quoted(sentence2) + tail));
    assert(quoted(sentence1) + tail =~= rest1.subrange(m, rest1.len() as int));
    assert(quoted(sentence2) + tail =~= rest2.subrange(m, rest2.len() as int));
    lemma_quoted_delimited(sentence1, tail, sentence2, tail);
}

} // verus!
