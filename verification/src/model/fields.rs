//! Reading the members of a report, each way that a missing or ill-typed
//! member ends the reading.
use vstd::prelude::*;
use crate::json::{spec_as_array, spec_as_i64, spec_as_str, spec_get, Json};
use crate::model::error::{res_view, ReportError};

verus! {

/// The member `key`; `Missing` where there is none.
pub open spec fn spec_member(j: Json, key: Seq<char>) -> Result<Json, ReportError> {
    match spec_get(j, key) {
        Some(v) => Ok(v),
        None => Err(ReportError::Missing),
    }
}

/// The integer member `key`; `Missing` where it is absent or no `i64`.
pub open spec fn spec_int_member(j: Json, key: Seq<char>) -> Result<i64, ReportError> {
    match spec_member(j, key) {
        Ok(v) => match spec_as_i64(v) {
            Some(n) => Ok(n),
            None => Err(ReportError::Missing),
        },
        Err(e) => Err(e),
    }
}

/// The text member `key`; `Missing` where it is absent or no text.
pub open spec fn spec_text_member(j: Json, key: Seq<char>) -> Result<Seq<char>, ReportError> {
    match spec_member(j, key) {
        Ok(v) => match spec_as_str(v) {
            Some(s) => Ok(s),
            None => Err(ReportError::Missing),
        },
        Err(e) => Err(e),
    }
}

/// The list member `key`; `Missing` where it is absent or no list.
pub open spec fn spec_list_member(j: Json, key: Seq<char>) -> Result<Seq<Json>, ReportError> {
    match spec_member(j, key) {
        Ok(v) => match spec_as_array(v) {
            Some(items) => Ok(items),
            None => Err(ReportError::Missing),
        },
        Err(e) => Err(e),
    }
}

/// The first entry of the list member `key`; `EmptyList` for an empty list.
pub open spec fn spec_first_item(j: Json, key: Seq<char>) -> Result<Json, ReportError> {
    match spec_list_member(j, key) {
        Ok(items) => if items.len() == 0 {
            Err(ReportError::EmptyList)
        } else {
            Ok(items[0])
        },
        Err(e) => Err(e),
    }
}

/// The first entry of the list member `key`, as an integer.
pub open spec fn spec_first_int(j: Json, key: Seq<char>) -> Result<i64, ReportError> {
    match spec_first_item(j, key) {
        Ok(v) => match spec_as_i64(v) {
            Some(n) => Ok(n),
            None => Err(ReportError::Missing),
        },
        Err(e) => Err(e),
    }
}

pub fn member<'a>(j: &'a Json, key: &str) -> (r: Result<&'a Json, ReportError>)
    ensures
        res_view(r) == spec_member(*j, key@),
{
    match j.get(key) {
        Some(v) => Ok(v),
        None => Err(ReportError::Missing),
    }
}

pub fn int_member(j: &Json, key: &str) -> (r: Result<i64, ReportError>)
    ensures
        r == spec_int_member(*j, key@),
{
    match member(j, key) {
        Ok(v) => match v.as_i64() {
            Some(n) => Ok(n),
            None => Err(ReportError::Missing),
        },
        Err(e) => Err(e),
    }
}

pub fn text_member<'a>(j: &'a Json, key: &str) -> (r: Result<&'a str, ReportError>)
    ensures
        res_view(r) == spec_text_member(*j, key@),
{
    match member(j, key) {
        Ok(v) => match v.as_str() {
            Some(s) => Ok(s),
            None => Err(ReportError::Missing),
        },
        Err(e) => Err(e),
    }
}

pub fn list_member<'a>(j: &'a Json, key: &str) -> (r: Result<&'a Vec<Json>, ReportError>)
    ensures
        res_view(r) == spec_list_member(*j, key@),
{
    match member(j, key) {
        Ok(v) => match v.as_array() {
            Some(items) => Ok(items),
            None => Err(ReportError::Missing),
        },
        Err(e) => Err(e),
    }
}

pub fn first_item<'a>(j: &'a Json, key: &str) -> (r: Result<&'a Json, ReportError>)
    ensures
        res_view(r) == spec_first_item(*j, key@),
{
    match list_member(j, key) {
        Ok(items) => if items.len() == 0 {
            Err(ReportError::EmptyList)
        } else {
            Ok(&items[0])
        },
        Err(e) => Err(e),
    }
}

pub fn first_int(j: &Json, key: &str) -> (r: Result<i64, ReportError>)
    ensures
        r == spec_first_int(*j, key@),
{
    match first_item(j, key) {
        Ok(v) => match v.as_i64() {
            Some(n) => Ok(n),
            None => Err(ReportError::Missing),
        },
        Err(e) => Err(e),
    }
}

} // verus!
