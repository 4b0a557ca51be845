//! Resolving the details of playlist entries: which of them are looked up
//! again.
use std::collections::HashMap;
use vstd::prelude::*;
use crate::trakt::XtreamCluster;

verus! {

/// The name the details of films are stored under.
pub const XC_FILE_VOD_INFO: &'static str = "xtream_vod_info";

/// The name the details of series are stored under.
pub const XC_FILE_SERIES_INFO: &'static str = "xtream_series_info";

/// The name the details of an entry of the given kind are stored under; live
/// entries have no details.
pub fn info_file_prefix(cluster: XtreamCluster) -> (r: Option<&'static str>)
    ensures
        match cluster {
            XtreamCluster::Live => r is None,
            XtreamCluster::Video => r is Some && r.unwrap()@ == XC_FILE_VOD_INFO@,
            XtreamCluster::Series => r is Some && r.unwrap()@ == XC_FILE_SERIES_INFO@,
        },
{
    match cluster {
        XtreamCluster::Live => None,
        XtreamCluster::Video => Some(XC_FILE_VOD_INFO),
        XtreamCluster::Series => Some(XC_FILE_SERIES_INFO),
    }
}

/// Whether the details of an entry are to be fetched again, and under which
/// provider id and time stamp they are then recorded. An entry without
/// provider id is never fetched. One with a provider id is fetched unless the
/// time it was last modified is known and is the one recorded for it.
pub open spec fn update_decision(
    provider_id: Option<u32>,
    last_modified: Option<u64>,
    processed: Map<u32, u64>,
) -> (bool, u32, u64) {
    match provider_id {
        None => (false, 0, 0),
        Some(id) => (
            !processed.contains_key(id) || last_modified is None || processed[id]
                != last_modified.unwrap(),
            id,
            match last_modified {
                Some(t) => t,
                None => 0,
            },
        ),
    }
}

/// Whether the details of an entry are to be fetched again.
pub fn should_update_info(
    provider_id: Option<u32>,
    last_modified: Option<u64>,
    processed_provider_ids: &HashMap<u32, u64>,
) -> (r: (bool, u32, u64))
    ensures
        r == update_decision(provider_id, last_modified, processed_provider_ids@),
{
    broadcast use vstd::std_specs::hash::group_hash_axioms;

    let id = match provider_id {
        Some(id) => id,
        None => {
            return (false, 0, 0);
        },
    };
    let old_timestamp = processed_provider_ids.get(&id);
    let update = match (old_timestamp, last_modified) {
        (Some(old), Some(new)) => *old != new,
        _ => true,
    };
    (
        update,
        id,
        match last_modified {
            Some(t) => t,
            None => 0,
        },
    )
}

} // verus!
