//! The feed endpoint: serves the caller at most twenty candidate
//! profiles, filtered by the caller's stored gender preference, excluding
//! the caller and everyone the caller has already interacted with.

use crate::errors::ApiError;
use crate::ids::{parse_uuid, uuid_of};
use crate::outputs::{FeedResponse, ProfileDetails, UserProfile};
use crate::profile_queries::{details_match, get_suggestions, gp_view, suggested};
use crate::store::Store;
use crate::util::clone_vec_string;
use vstd::prelude::*;

verus! {

/// Whether the served feed reads as the selection that the stored
/// preference document of user row `i` commands: each entry carries the
/// candidate's details and nothing else.
pub open spec fn feed_serves(resp: FeedResponse, store: Store, u: u128, i: int) -> bool {
    &&& 0 <= i < store.users@.len()
    &&& store.users@[i].id == u
    &&& store.users@[i].preferences matches Some(p) && {
        let sel = suggested(store.profiles@, gp_view(p.gender_preference), u, store.interactions@);
        &&& resp.profiles@.len() == (if sel.len() <= 20 {
            sel.len() as int
        } else {
            20int
        })
        &&& forall|j: int|
            0 <= j < resp.profiles@.len() ==> ({
                &&& (#[trigger] resp.profiles@[j]).id@ == Seq::<char>::empty()
                &&& resp.profiles@[j].images is None
                &&& resp.profiles@[j].prompts is None
                &&& (resp.profiles@[j].details matches Some(d) && details_match(d, sel[j]))
            })
    }
}

/// Serves the caller's candidate feed. Fails with `Unauthorized` on an
/// unusable caller id and with `PreferencesRequired` when the caller has
/// no stored preference document.
#[verifier::rlimit(50)]
#[verifier::loop_isolation(false)]
pub fn get_feed(store: &Store, requester: &str) -> (r: Result<FeedResponse, ApiError>)
    requires
        store.wf(),
    ensures
        r == Err::<FeedResponse, ApiError>(ApiError::Unauthorized) <==> uuid_of(requester@)
            is None,
        r matches Err(e) ==> (e == ApiError::Unauthorized || e == ApiError::PreferencesRequired),
        uuid_of(requester@) matches Some(u) ==> (r == Err::<FeedResponse, ApiError>(
            ApiError::PreferencesRequired,
        ) <==> !(exists|i: int|
            0 <= i < store.users@.len() && (#[trigger] store.users@[i]).id == u
                && store.users@[i].preferences is Some)),
        r matches Ok(resp) ==> forall|i: int|
            0 <= i < store.users@.len() && (#[trigger] store.users@[i]).id == uuid_of(
                requester@,
            )->0 && store.users@[i].preferences is Some ==> feed_serves(
                resp,
                *store,
                uuid_of(requester@)->0,
                i,
            ),
{
    let u = match parse_uuid(requester) {
        Some(v) => v,
        None => {
            return Err(ApiError::Unauthorized);
        },
    };
    let idx = match store.user_index(u) {
        Some(i) => i,
        None => {
            return Err(ApiError::PreferencesRequired);
        },
    };
    proof {
        assert forall|i: int|
            0 <= i < store.users@.len() && (#[trigger] store.users@[i]).id == u implies i
            == idx as int by {}
    }
    let gp: Option<Vec<String>> = match &store.users[idx].preferences {
        None => {
            return Err(ApiError::PreferencesRequired);
        },
        Some(p) => {
            match &p.gender_preference {
                Some(l) => Some(clone_vec_string(l)),
                None => None,
            }
        },
    };
    let ghost ggp = gp;
    proof {
        let stored = store.users@[idx as int].preferences->0;
        match (ggp, stored.gender_preference) {
            (Some(cl), Some(l)) => {
                assert(cl.deep_view() =~= l.deep_view());
            },
            _ => {},
        }
        assert(gp_view(ggp) == gp_view(stored.gender_preference));
    }
    let mut details = get_suggestions(store, gp, u);
    let ghost orig = details@;
    let mut profiles: Vec<UserProfile> = Vec::new();
    while details.len() > 0
        invariant
            profiles@.len() + details@.len() == orig.len(),
            forall|j: int| 0 <= j < details@.len() ==> details@[j] == orig[profiles@.len() + j],
            forall|j: int|
                0 <= j < profiles@.len() ==> ({
                    &&& (#[trigger] profiles@[j]).id@ == Seq::<char>::empty()
                    &&& profiles@[j].images is None
                    &&& profiles@[j].prompts is None
                    &&& profiles@[j].details == Some(orig[j])
                }),
        decreases details@.len(),
    {
        proof {
            reveal_strlit("");
        }
        let d: ProfileDetails = details.remove(0);
        profiles.push(UserProfile { id: "".to_string(), images: None, prompts: None, details: Some(d) });
    }
    let resp = FeedResponse { profiles };
    proof {
        assert(u == uuid_of(requester@)->0);
        assert(feed_serves(resp, *store, uuid_of(requester@)->0, idx as int));
    }
    Ok(resp)
}

} // verus!
