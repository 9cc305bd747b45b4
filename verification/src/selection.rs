//! What a user chose in a select menu of the setup panel.

use crate::decimal::{parse_u64_decimal, u64_text_value};
use vstd::prelude::*;

verus! {

/// The values that a select menu interaction carries.
pub enum SelectionValues {
    /// Ids of the channels picked in a channel picker.
    Channels(Vec<u64>),
    /// Values of the entries picked in a list of texts.
    Texts(Vec<String>),
    /// Any other kind of component.
    Other,
}

/// The ids among the texts, in their order, skipping texts that are not ids.
pub open spec fn parsed_ids(texts: Seq<String>) -> Seq<u64>
    decreases texts.len(),
{
    if texts.len() == 0 {
        Seq::empty()
    } else {
        let rest = parsed_ids(texts.drop_last());
        match u64_text_value(texts.last()@) {
            Some(id) => rest.push(id),
            None => rest,
        }
    }
}

/// The roles chosen in a role menu: the entries that read as ids; none for
/// any other kind of component.
pub fn chosen_role_ids(values: &SelectionValues) -> (ids: Vec<u64>)
    ensures
        ids@ == match values {
            SelectionValues::Texts(texts) => parsed_ids(texts@),
            _ => Seq::<u64>::empty(),
        },
{
    match values {
        SelectionValues::Texts(texts) => {
            let mut ids: Vec<u64> = Vec::new();
            let mut i: usize = 0;
            while i < texts.len()
                invariant
                    i <= texts.len(),
                    ids@ == parsed_ids(texts@.take(i as int)),
                decreases texts.len() - i,
            {
                proof {
                    assert(texts@.take(i + 1).drop_last() =~= texts@.take(i as int));
                }
                match parse_u64_decimal(texts[i].as_str()) {
                    Some(id) => ids.push(id),
                    None => {},
                }
                i += 1;
            }
            assert(texts@.take(texts.len() as int) =~= texts@);
            ids
        },
        _ => Vec::new(),
    }
}

/// The log channel chosen: the first picked channel, or the first entry when
/// it reads as an id; none otherwise (which clears the log channel).
pub fn chosen_log_channel(values: &SelectionValues) -> (channel: Option<u64>)
    ensures
        channel == match values {
            SelectionValues::Channels(ids) => if ids@.len() > 0 {
                Some(ids@[0])
            } else {
                None
            },
            SelectionValues::Texts(texts) => if texts@.len() > 0 {
                u64_text_value(texts@[0]@)
            } else {
                None
            },
            SelectionValues::Other => None,
        },
{
    match values {
        SelectionValues::Channels(ids) => if ids.len() > 0 {
            Some(ids[0])
        } else {
            None
        },
        SelectionValues::Texts(texts) => if texts.len() > 0 {
            parse_u64_decimal(texts[0].as_str())
        } else {
            None
        },
        SelectionValues::Other => None,
    }
}

} // verus!
