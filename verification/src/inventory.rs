//! A stand-in for the source of the rows that the row cache copies.

use vstd::prelude::*;
use vstd::string::*;
use crate::text::{signed_decimal, signed_text};

verus! {

/// A row as its source gives it: fields by name, in the order of their names.
pub type Record = Vec<(String, String)>;

/// The views of the fields of a record, in order.
pub open spec fn record_view(record: Seq<(String, String)>) -> Seq<(Seq<char>, Seq<char>)> {
    Seq::new(record.len(), |i: int| (record[i].0@, record[i].1@))
}

/// The row `row_id` as read at time `now`.
pub open spec fn row_at(row_id: Seq<char>, now: int) -> Seq<(Seq<char>, Seq<char>)> {
    seq![
        ("cached"@, signed_decimal(now)),
        ("data"@, "data to cache..."@),
        ("id"@, row_id),
    ]
}

/// Reads the row `row_id`; `now` is the time of the read, which the row records.
pub fn get(row_id: &str, now: i64) -> (record: Record)
    ensures
        record_view(record@) == row_at(row_id@, now as int),
{
    let mut record: Record = Vec::new();
    record.push(("cached".to_owned(), signed_text(now)));
    record.push(("data".to_owned(), "data to cache...".to_owned()));
    record.push(("id".to_owned(), row_id.to_owned()));
    assert(record_view(record@) =~= row_at(row_id@, now as int));
    record
}

} // verus!
