use vstd::prelude::*;

use crate::json::{JsonModel, JsonValue};

verus! {

/// The mathematical model of a document envelope.
pub struct DocModel {
    pub id: Seq<char>,
    pub data: JsonModel,
    pub created_at: int,
    pub updated_at: int,
}

/// The document envelope: an identifier, an arbitrary JSON payload, and the
/// creation and last-update times in milliseconds since the epoch.
#[derive(Debug)]
pub struct Doc {
    pub _id: String,
    pub data: JsonValue,
    pub _created_at: i64,
    pub _updated_at: i64,
}

impl View for Doc {
    type V = DocModel;

    open spec fn view(&self) -> DocModel {
        DocModel {
            id: self._id@,
            data: self.data@,
            created_at: self._created_at as int,
            updated_at: self._updated_at as int,
        }
    }
}

/// Relies on chrono's `Utc::now` and `DateTime::timestamp_millis`: the number
/// of non-leap milliseconds since the epoch at the current instant. The result
/// depends on the wall clock, so nothing is promised of it.
#[verifier::external_body]
fn now_millis() -> (r: i64) {
    chrono::Utc::now().timestamp_millis()
}

impl Doc {
    /// A fresh envelope around `data`, stamped with the current time. Both
    /// timestamps are taken from one reading of the clock, so a fresh
    /// document never reports an update older than its creation.
    pub fn new(id: String, data: JsonValue) -> (r: Doc)
        ensures
            r._id == id,
            r.data == data,
            r._created_at == r._updated_at,
    {
        let now = now_millis();
        Doc { _id: id, data, _created_at: now, _updated_at: now }
    }
}

} // verus!
