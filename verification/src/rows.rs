//! Positional decoding of relational rows into catalog records.
//!
//! A row arrives as a sequence of plain column values in the declared
//! field order (see the field lists in [`crate::sql`]). A row of any other
//! shape — wrong width, or a column of the wrong kind — fails to decode;
//! that failure is distinct from a failed statement or an unreachable
//! store.

use vstd::prelude::*;

use crate::catalog::{SectionModel, Service, ServiceModel, ServiceSection};
use crate::errors::StoreError;

verus! {

/// One column value of a fetched row.
pub enum ColValue {
    /// A 32-bit integer column.
    Int(i32),
    /// A text column.
    Text(String),
    /// A timestamp column, in microseconds.
    Timestamp(i64),
}

/// The section a row of shape `(Int, Text, Text, Timestamp)` carries, and
/// `None` for a row of any other shape.
pub open spec fn spec_section_row(row: Seq<ColValue>) -> Option<SectionModel> {
    if row.len() == 4 {
        match (row[0], row[1], row[2], row[3]) {
            (
                ColValue::Int(id),
                ColValue::Text(title),
                ColValue::Text(description),
                ColValue::Timestamp(ts),
            ) => Some(
                SectionModel {
                    id: id as int,
                    title: title@,
                    description: description@,
                    created_at: ts as int,
                },
            ),
            _ => None,
        }
    } else {
        None
    }
}

/// The service a row of shape `(Int, Int, Text, Text, Timestamp)` carries,
/// and `None` for a row of any other shape.
pub open spec fn spec_service_row(row: Seq<ColValue>) -> Option<ServiceModel> {
    if row.len() == 5 {
        match (row[0], row[1], row[2], row[3], row[4]) {
            (
                ColValue::Int(id),
                ColValue::Int(section_id),
                ColValue::Text(name),
                ColValue::Text(description),
                ColValue::Timestamp(ts),
            ) => Some(
                ServiceModel {
                    id: id as int,
                    section_id: section_id as int,
                    name: name@,
                    description: description@,
                    created_at: ts as int,
                },
            ),
            _ => None,
        }
    } else {
        None
    }
}

/// Decodes one fetched row into a section record; a row of the wrong
/// shape is a decode failure.
pub fn section_from_row(row: &Vec<ColValue>) -> (r: Result<ServiceSection, StoreError>)
    ensures
        match r {
            Ok(sec) => spec_section_row(row@) == Some(sec@),
            Err(e) => e == StoreError::DecodeFailed && spec_section_row(row@) is None,
        },
{
    if row.len() != 4 {
        return Err(StoreError::DecodeFailed);
    }
    let id: i32 = match &row[0] {
        ColValue::Int(v) => *v,
        _ => { return Err(StoreError::DecodeFailed) },
    };
    let title: String = match &row[1] {
        ColValue::Text(s) => s.clone(),
        _ => { return Err(StoreError::DecodeFailed) },
    };
    let description: String = match &row[2] {
        ColValue::Text(s) => s.clone(),
        _ => { return Err(StoreError::DecodeFailed) },
    };
    let created_at: i64 = match &row[3] {
        ColValue::Timestamp(v) => *v,
        _ => { return Err(StoreError::DecodeFailed) },
    };
    Ok(ServiceSection { id, title, description, created_at })
}

/// Decodes one fetched row into a service record; a row of the wrong
/// shape is a decode failure.
pub fn service_from_row(row: &Vec<ColValue>) -> (r: Result<Service, StoreError>)
    ensures
        match r {
            Ok(svc) => spec_service_row(row@) == Some(svc@),
            Err(e) => e == StoreError::DecodeFailed && spec_service_row(row@) is None,
        },
{
    if row.len() != 5 {
        return Err(StoreError::DecodeFailed);
    }
    let id: i32 = match &row[0] {
        ColValue::Int(v) => *v,
        _ => { return Err(StoreError::DecodeFailed) },
    };
    let section_id: i32 = match &row[1] {
        ColValue::Int(v) => *v,
        _ => { return Err(StoreError::DecodeFailed) },
    };
    let name: String = match &row[2] {
        ColValue::Text(s) => s.clone(),
        _ => { return Err(StoreError::DecodeFailed) },
    };
    let description: String = match &row[3] {
        ColValue::Text(s) => s.clone(),
        _ => { return Err(StoreError::DecodeFailed) },
    };
    let created_at: i64 = match &row[4] {
        ColValue::Timestamp(v) => *v,
        _ => { return Err(StoreError::DecodeFailed) },
    };
    Ok(Service { id, section_id, name, description, created_at })
}

} // verus!
