//! The preference endpoint: stores the caller's preference document.

use crate::errors::ApiError;
use crate::ids::{parse_uuid, uuid_of};
use crate::inputs::{prefs_equiv, Preferences};
use crate::outputs::StatusResponse;
use crate::store::{user_exists, Store};
use crate::user_queries::update_user_preferences;
use vstd::prelude::*;

verus! {

/// Replaces the caller's stored preference document and acknowledges.
/// Fails with `InvalidInput` on an unusable caller id; an unknown caller
/// leaves the store untouched, as an update of no rows.
pub fn update_user_preference(store: &mut Store, requester: &str, body: &Preferences) -> (r:
    Result<StatusResponse, ApiError>)
    requires
        old(store).wf(),
    ensures
        final(store).wf(),
        r is Ok <==> uuid_of(requester@) is Some,
        r matches Err(e) ==> (e == ApiError::InvalidInput && *final(store) == *old(store)),
        r matches Ok(s) ==> s.status@ == "success"@,
        r is Ok ==> ({
            let u = uuid_of(requester@)->0;
            &&& (!user_exists(old(store).users@, u) ==> *final(store) == *old(store))
            &&& (user_exists(old(store).users@, u) ==> ({
                &&& final(store).users@.len() == old(store).users@.len()
                &&& exists|i: int|
                    0 <= i < old(store).users@.len() && (#[trigger] old(store).users@[i]).id == u
                        && (forall|k: int|
                        0 <= k < final(store).users@.len() && k != i ==> final(store).users@[k]
                            == old(store).users@[k]) && final(store).users@[i].id == u && final(store).users@[i].phone == old(store).users@[i].phone && final(store).users@[i].email == old(store).users@[i].email && (final(store).users@[i].preferences matches Some(p) && prefs_equiv(p, *body))
            }))
            &&& final(store).profiles == old(store).profiles
            &&& final(store).images == old(store).images
            &&& final(store).prompts == old(store).prompts
            &&& final(store).interactions == old(store).interactions
            &&& final(store).matches == old(store).matches
            &&& final(store).messages == old(store).messages
        }),
{
    let u = match parse_uuid(requester) {
        Some(v) => v,
        None => {
            return Err(ApiError::InvalidInput);
        },
    };
    update_user_preferences(store, u, body.clone());
    Ok(
        StatusResponse {
            status: "success".to_string(),
            message: Some("User preferences updated successfully".to_string()),
        },
    )
}

} // verus!
