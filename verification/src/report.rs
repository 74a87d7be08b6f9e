//! The cells and the column width of the report's table.

use crate::aggregator::{SponsorInfo, SponsorInfoView};
use crate::text::{decimal_digits, u64_to_string};
use vstd::prelude::*;
use vstd::utf8::encode_utf8;

verus! {

/// The least width of the column of package names.
pub const MIN_NAME_WIDTH: usize = 10;

/// The width of the column of sponsor counts.
pub const SPONSORS_WIDTH: usize = 10;

/// The width of the rule under the heading of the link column.
pub const LINK_RULE_WIDTH: usize = 40;

/// The length of a text in bytes, as a `usize`.
pub open spec fn byte_len(s: Seq<char>) -> usize {
    encode_utf8(s).len() as usize
}

/// The width of the column of package names: the length in bytes of the
/// longest name, and at least [`MIN_NAME_WIDTH`].
pub open spec fn name_width(records: Seq<SponsorInfoView>) -> nat
    decreases records.len(),
{
    if records.len() == 0 {
        MIN_NAME_WIDTH as nat
    } else {
        let earlier = name_width(records.drop_last());
        let last = byte_len(records.last().name);
        if last > earlier {
            last as nat
        } else {
            earlier
        }
    }
}

/// The width of the column of package names. It is no less than
/// [`MIN_NAME_WIDTH`] and no less than the length of any name, and it is one
/// of these numbers.
pub fn name_column_width(results: &Vec<SponsorInfo>) -> (width: usize)
    ensures
        width == name_width(results.deep_view()),
        width >= MIN_NAME_WIDTH,
        forall|i: int| 0 <= i < results.len() ==> width >= byte_len(#[trigger] results[i].name@),
        width == MIN_NAME_WIDTH || exists|i: int|
            0 <= i < results.len() && width == byte_len(#[trigger] results[i].name@),
{
    let ghost all = results.deep_view();
    let mut width: usize = MIN_NAME_WIDTH;
    let mut i: usize = 0;
    while i < results.len()
        invariant
            i <= results.len(),
            all == results.deep_view(),
            width == name_width(all.take(i as int)),
            width >= MIN_NAME_WIDTH,
            forall|k: int| 0 <= k < i ==> width >= byte_len(#[trigger] results[k].name@),
            width == MIN_NAME_WIDTH || exists|k: int|
                0 <= k < i && width == byte_len(#[trigger] results[k].name@),
        decreases results.len() - i,
    {
        proof {
            assert(all.take(i + 1).drop_last() =~= all.take(i as int));
        }
        let len = results[i].name.as_str().len();
        if len > width {
            width = len;
        }
        i += 1;
    }
    assert(all.take(results.len() as int) =~= all);
    width
}

/// What stands in the column of sponsor counts.
pub open spec fn sponsor_text(count: Option<u32>) -> Seq<char> {
    match count {
        Some(n) => decimal_digits(n as nat),
        None => "-"@,
    }
}

/// The cell of the sponsor count: the number in base ten, or a dash where
/// there is none.
pub fn sponsor_cell(count: Option<u32>) -> (cell: String)
    ensures
        cell@ == sponsor_text(count),
{
    match count {
        Some(n) => u64_to_string(n as u64),
        None => "-".to_owned(),
    }
}

/// What stands in the column of links.
pub open spec fn link_text(links: Seq<Seq<char>>) -> Seq<char> {
    if links.len() > 0 {
        links[0]
    } else {
        "-"@
    }
}

/// The cell of the link: the first link, or a dash where there is none.
pub fn link_cell(links: &Vec<String>) -> (cell: String)
    ensures
        cell@ == link_text(links.deep_view()),
{
    if links.len() > 0 {
        links[0].clone()
    } else {
        "-".to_owned()
    }
}

} // verus!
