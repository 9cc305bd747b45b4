//! The text form in which role lists are stored: a JSON array of integers,
//! written and read with serde_json.

use crate::decimal::decimal;
use vstd::prelude::*;

verus! {

#[verifier::external_type_specification]
#[verifier::external_body]
pub struct ExJsonError(serde_json::Error);

/// The comma-separated decimal texts of `ids`.
pub open spec fn json_items(ids: Seq<u64>) -> Seq<char>
    decreases ids.len(),
{
    if ids.len() == 0 {
        Seq::empty()
    } else if ids.len() == 1 {
        decimal(ids[0] as nat)
    } else {
        json_items(ids.drop_last()) + seq![','] + decimal(ids.last() as nat)
    }
}

/// The compact JSON array of `ids`, such as `[1,22,333]` or `[]`.
pub open spec fn json_array_text(ids: Seq<u64>) -> Seq<char> {
    seq!['['] + json_items(ids) + seq![']']
}

/// The list of integers that serde_json reads from `text` as a `Vec<u64>`,
/// or `None` where it reports an error.
pub uninterp spec fn json_u64_list(text: Seq<char>) -> Option<Seq<u64>>;

/// What a stored role list reads as: the parsed list, or no roles where the
/// text does not parse.
pub open spec fn parsed_or_empty(parsed: Option<Seq<u64>>) -> Seq<u64> {
    match parsed {
        Some(ids) => ids,
        None => Seq::empty(),
    }
}

/// Calls `serde_json::to_string` on a slice of `u64`. Its compact serializer
/// writes `[`, the decimal text of each integer (through `itoa`) with `,`
/// between them, and `]`; writing into its in-memory buffer cannot fail, so
/// the result is always `Ok`.
#[verifier::external_body]
fn json_to_string(ids: &[u64]) -> (r: Result<String, serde_json::Error>)
    ensures
        r is Ok,
        r matches Ok(s) ==> s@ == json_array_text(ids@),
{
    serde_json::to_string(ids)
}

/// Calls `serde_json::from_str::<Vec<u64>>`. The contract names its result
/// (`json_u64_list`) and states one fact of it: the compact array that
/// `serde_json::to_string` writes for a list of `u64` reads back as that
/// list. What it accepts besides (white space, other spellings of numbers)
/// is left to the name.
#[verifier::external_body]
fn json_from_str(text: &str) -> (r: Result<Vec<u64>, serde_json::Error>)
    ensures
        r is Ok <==> json_u64_list(text@) is Some,
        r matches Ok(v) ==> json_u64_list(text@) == Some(v@),
        forall|ids: Seq<u64>| #[trigger]
            json_array_text(ids) == text@ ==> r is Ok && r->Ok_0@ == ids,
{
    serde_json::from_str(text)
}

/// The text stored for a role list; `[]` should serialization fail.
pub fn encode_role_list(ids: &[u64]) -> (text: String)
    ensures
        text@ == json_array_text(ids@),
{
    match json_to_string(ids) {
        Ok(text) => text,
        Err(_) => String::from_str("[]"),
    }
}

/// The role list of a parse result: the list, or no roles on an error.
pub fn roles_or_empty(parsed: Result<Vec<u64>, serde_json::Error>) -> (ids: Vec<u64>)
    ensures
        ids@ == match parsed {
            Ok(v) => v@,
            Err(_) => Seq::<u64>::empty(),
        },
{
    match parsed {
        Ok(ids) => ids,
        Err(_) => Vec::new(),
    }
}

/// Reads a stored role list; text that does not parse reads as no roles.
/// Text written by `encode_role_list` reads back as the list it was made of.
pub fn decode_role_list(text: &str) -> (ids: Vec<u64>)
    ensures
        ids@ == parsed_or_empty(json_u64_list(text@)),
        forall|saved: Seq<u64>| #[trigger] json_array_text(saved) == text@ ==> ids@ == saved,
{
    let parsed = json_from_str(text);
    roles_or_empty(parsed)
}

} // verus!
