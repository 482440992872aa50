use vstd::prelude::*;
use crate::localtime::{from_utc_to_local, local_to_utc_spec, parse_from_local_to_utc, utc_to_local_spec};
use crate::timestamp::{parse_ts_z, ts_text_z, Timestamp};

verus! {

/// One row of the change-feed endpoint: a stored document, its title,
/// and its update instant in UTC.
pub struct Document {
    pub id: i32,
    pub last_updated: Timestamp,
    pub title: String,
}

/// The change-feed query: documents updated strictly after the bound
/// instant, ascending, capped at one page of a hundred rows.
pub fn documents_query_statement() -> (r: String)
    ensures
        r@
            == "SELECT id, opdateringsdato, titel FROM Dokument WHERE datetime(opdateringsdato) > datetime(:since) ORDER BY opdateringsdato ASC LIMIT 100"@,
{
    "SELECT id, opdateringsdato, titel FROM Dokument WHERE datetime(opdateringsdato) > datetime(:since) ORDER BY opdateringsdato ASC LIMIT 100".to_owned()
}

/// The `:since` binding of the change-feed query: the requested UTC
/// instant moved onto the store's local wall clock, in the store's
/// zone-marked shape.
pub fn documents_since_param(since: &Timestamp) -> (r: Option<String>)
    requires
        since.wf(),
    ensures
        match r {
            Some(s) => exists|u: Timestamp|
                #[trigger] utc_to_local_spec(*since, Some(u)) && s@ == ts_text_z(u),
            None => utc_to_local_spec(*since, None),
        },
{
    let local = match from_utc_to_local(since) {
        Some(u) => u,
        None => {
            return None;
        },
    };
    let s = crate::timestamp::format_timestamp_z(&local);
    proof {
        assert(utc_to_local_spec(*since, Some(local)) && s@ == ts_text_z(local));
    }
    Some(s)
}

/// Builds one change-feed row from the store's columns: the update
/// instant is read as a local wall-clock reading in the store's
/// zone-marked shape and converted to UTC. Returns a document exactly
/// when the instant parses and the zone resolves it.
pub fn document_from_row(id: i32, updated: &str, title: String) -> (r: Option<Document>)
    ensures
        match parse_ts_z(updated@) {
            Some(t) => match r {
                Some(doc) => doc.id == id && doc.title@ == title@ && local_to_utc_spec(
                    t,
                    Some(doc.last_updated),
                ),
                None => local_to_utc_spec(t, None),
            },
            None => r is None,
        },
{
    match parse_from_local_to_utc(updated) {
        Some(last_updated) => Some(Document { id, last_updated, title }),
        None => None,
    }
}

} // verus!
