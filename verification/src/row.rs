//! The row-to-domain mapping: one database row, handed over as named
//! columns with plain values, decoded into a [`Request`].
//!
//! Columns are found by name, never by position, so a reordered schema
//! cannot silently misalign fields.

use vstd::prelude::*;
use crate::store::Request;
use crate::clock::{parse_timestamp, timestamp_of, timestamp_wf};

verus! {

/// One column's value, as the database driver hands it over. `Other` stands
/// for value kinds the schema never produces (floats, blobs).
#[derive(Debug, PartialEq, Eq)]
pub enum ColValue {
    Null,
    Integer(i64),
    Text(String),
    Other,
}

/// Why a row failed to decode.
#[derive(Debug, Clone, Copy, PartialEq, Eq, Structural)]
pub enum DecodeError {
    MissingColumn,
    WrongType,
    BadTimestamp,
}

/// The first value under this column name, if any.
pub open spec fn col_lookup(cols: Seq<(String, ColValue)>, name: Seq<char>) -> Option<ColValue>
    decreases cols.len(),
{
    if cols.len() == 0 {
        None
    } else if cols[0].0@ == name {
        Some(cols[0].1)
    } else {
        col_lookup(cols.drop_first(), name)
    }
}

pub open spec fn spec_int_col(cols: Seq<(String, ColValue)>, name: Seq<char>) -> Result<
    i64,
    DecodeError,
> {
    match col_lookup(cols, name) {
        None => Err(DecodeError::MissingColumn),
        Some(ColValue::Integer(v)) => Ok(v),
        Some(_) => Err(DecodeError::WrongType),
    }
}

pub open spec fn spec_text_col(cols: Seq<(String, ColValue)>, name: Seq<char>) -> Result<
    String,
    DecodeError,
> {
    match col_lookup(cols, name) {
        None => Err(DecodeError::MissingColumn),
        Some(ColValue::Text(v)) => Ok(v),
        Some(_) => Err(DecodeError::WrongType),
    }
}

pub open spec fn spec_opt_text_col(cols: Seq<(String, ColValue)>, name: Seq<char>) -> Result<
    Option<String>,
    DecodeError,
> {
    match col_lookup(cols, name) {
        None => Err(DecodeError::MissingColumn),
        Some(ColValue::Null) => Ok(None),
        Some(ColValue::Text(v)) => Ok(Some(v)),
        Some(_) => Err(DecodeError::WrongType),
    }
}

pub open spec fn spec_time_col(cols: Seq<(String, ColValue)>, name: Seq<char>) -> Result<
    i64,
    DecodeError,
> {
    match col_lookup(cols, name) {
        None => Err(DecodeError::MissingColumn),
        Some(ColValue::Text(v)) => if timestamp_wf(v@) {
            Ok(timestamp_of(v@))
        } else {
            Err(DecodeError::BadTimestamp)
        },
        Some(_) => Err(DecodeError::WrongType),
    }
}

/// What decoding a row gives: the columns read by name, in a fixed order,
/// the first failure winning.
pub open spec fn spec_decode_row(cols: Seq<(String, ColValue)>) -> Result<Request, DecodeError> {
    match spec_int_col(cols, "id"@) {
        Err(e) => Err(e),
        Ok(id) => match spec_text_col(cols, "method"@) {
            Err(e) => Err(e),
            Ok(method) => match spec_text_col(cols, "service"@) {
                Err(e) => Err(e),
                Ok(service) => match spec_text_col(cols, "route_url"@) {
                    Err(e) => Err(e),
                    Ok(route_url) => match spec_text_col(cols, "full_url"@) {
                        Err(e) => Err(e),
                        Ok(url) => match spec_opt_text_col(cols, "payload"@) {
                            Err(e) => Err(e),
                            Ok(payload_json) => match spec_opt_text_col(cols, "response_json"@) {
                                Err(e) => Err(e),
                                Ok(response_json) => match spec_time_col(cols, "created_at"@) {
                                    Err(e) => Err(e),
                                    Ok(created_at) => Ok(
                                        Request {
                                            id,
                                            method,
                                            service,
                                            route_url,
                                            url,
                                            payload_json,
                                            response_json,
                                            created_at,
                                        },
                                    ),
                                },
                            },
                        },
                    },
                },
            },
        },
    }
}

/// Find a column by name.
fn find_col<'a>(cols: &'a Vec<(String, ColValue)>, name: &str) -> (r: Option<&'a ColValue>)
    ensures
        match r {
            Some(v) => col_lookup(cols@, name@) == Some(*v),
            None => col_lookup(cols@, name@) is None,
        },
{
    let wanted: String = name.to_owned();
    let mut i: usize = 0;
    proof {
        assert(cols@.skip(0) =~= cols@);
    }
    while i < cols.len()
        invariant
            i <= cols@.len(),
            wanted@ == name@,
            col_lookup(cols@, name@) == col_lookup(cols@.skip(i as int), name@),
        decreases cols@.len() - i,
    {
        proof {
            assert(cols@.skip(i as int)[0] == cols@[i as int]);
            assert(cols@.skip(i as int).drop_first() =~= cols@.skip(i + 1));
        }
        if cols[i].0 == wanted {
            return Some(&cols[i].1);
        }
        i = i + 1;
    }
    proof {
        assert(cols@.skip(cols@.len() as int) =~= Seq::<(String, ColValue)>::empty());
    }
    None
}

fn int_col(cols: &Vec<(String, ColValue)>, name: &str) -> (r: Result<i64, DecodeError>)
    ensures
        r == spec_int_col(cols@, name@),
{
    match find_col(cols, name) {
        None => Err(DecodeError::MissingColumn),
        Some(ColValue::Integer(v)) => Ok(*v),
        Some(_) => Err(DecodeError::WrongType),
    }
}

fn text_col(cols: &Vec<(String, ColValue)>, name: &str) -> (r: Result<String, DecodeError>)
    ensures
        r == spec_text_col(cols@, name@),
{
    match find_col(cols, name) {
        None => Err(DecodeError::MissingColumn),
        Some(ColValue::Text(v)) => Ok(v.clone()),
        Some(_) => Err(DecodeError::WrongType),
    }
}

fn opt_text_col(cols: &Vec<(String, ColValue)>, name: &str) -> (r: Result<
    Option<String>,
    DecodeError,
>)
    ensures
        r == spec_opt_text_col(cols@, name@),
{
    match find_col(cols, name) {
        None => Err(DecodeError::MissingColumn),
        Some(ColValue::Null) => Ok(None),
        Some(ColValue::Text(v)) => Ok(Some(v.clone())),
        Some(_) => Err(DecodeError::WrongType),
    }
}

fn time_col(cols: &Vec<(String, ColValue)>, name: &str) -> (r: Result<i64, DecodeError>)
    ensures
        r == spec_time_col(cols@, name@),
{
    match find_col(cols, name) {
        None => Err(DecodeError::MissingColumn),
        Some(ColValue::Text(v)) => match parse_timestamp(v.as_str()) {
            Some(t) => Ok(t),
            None => Err(DecodeError::BadTimestamp),
        },
        Some(_) => Err(DecodeError::WrongType),
    }
}

/// Decode one row into a record. Succeeds exactly when every column of the
/// schema is present with its declared type and the timestamp text parses;
/// the error names the first thing wrong, in column order.
pub fn decode_row(cols: &Vec<(String, ColValue)>) -> (r: Result<Request, DecodeError>)
    ensures
        r == spec_decode_row(cols@),
{
    let id = match int_col(cols, "id") {
        Err(e) => {
            return Err(e);
        },
        Ok(v) => v,
    };
    let method = match text_col(cols, "method") {
        Err(e) => {
            return Err(e);
        },
        Ok(v) => v,
    };
    let service = match text_col(cols, "service") {
        Err(e) => {
            return Err(e);
        },
        Ok(v) => v,
    };
    let route_url = match text_col(cols, "route_url") {
        Err(e) => {
            return Err(e);
        },
        Ok(v) => v,
    };
    let url = match text_col(cols, "full_url") {
        Err(e) => {
            return Err(e);
        },
        Ok(v) => v,
    };
    let payload_json = match opt_text_col(cols, "payload") {
        Err(e) => {
            return Err(e);
        },
        Ok(v) => v,
    };
    let response_json = match opt_text_col(cols, "response_json") {
        Err(e) => {
            return Err(e);
        },
        Ok(v) => v,
    };
    let created_at = match time_col(cols, "created_at") {
        Err(e) => {
            return Err(e);
        },
        Ok(v) => v,
    };
    Ok(Request { id, method, service, route_url, url, payload_json, response_json, created_at })
}

} // verus!
