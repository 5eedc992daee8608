//! The profile endpoints: serving the caller's profile with images and
//! prompts, partial updates, image upload, completeness finalization, and
//! account deletion.

use crate::errors::ApiError;
use crate::ids::{format_uuid, parse_uuid, uuid_of, uuid_str_of};
use crate::inputs::{UpdateProfileRequest, UploadProfileImageRequest};
use crate::outputs::{FinalizeProfileResponse, StatusResponse, UserImage, UserProfile, UserPrompt};
use crate::profile_queries::{details_match, missing_count, profile_merged};
use crate::store::{image_count, profile_exists, prompt_count, user_exists, ProfileRec, Store};
use crate::util::{count_str, small_count_string};
use vstd::prelude::*;
use vstd::string::StringExecFns;

verus! {

/// Whether a served image row reads as the stored one.
pub open spec fn image_served(out: UserImage, rec: crate::store::ImageRec) -> bool {
    &&& out.id@ == uuid_str_of(rec.id)
    &&& out.url@ == rec.url@
    &&& out.order == rec.display_order
}

/// Whether a served prompt row reads as the stored one.
pub open spec fn prompt_served(out: UserPrompt, rec: crate::store::PromptRec) -> bool {
    &&& out.id@ == uuid_str_of(rec.id)
    &&& out.question@ == rec.question@
    &&& out.answer@ == rec.answer@
    &&& out.order == rec.display_order
}

/// Serves the caller's profile: details when a profile row exists, and the
/// images and prompts row by row, ascending by display order. Fails with
/// `InvalidInput` on an unusable caller id.
#[verifier::loop_isolation(false)]
pub fn get_profile(store: &Store, requester: &str) -> (r: Result<UserProfile, ApiError>)
    requires
        store.wf(),
    ensures
        r is Ok <==> uuid_of(requester@) is Some,
        r matches Err(e) ==> e == ApiError::InvalidInput,
        r matches Ok(out) ==> ({
            let u = uuid_of(requester@)->0;
            let img_sel = crate::images_queries::user_images(store.images@, u);
            let pr_sel = crate::prompt_queries::user_prompts(store.prompts@, u);
            &&& out.id@ == uuid_str_of(u)
            &&& (profile_exists(store.profiles@, u) <==> out.details is Some)
            &&& (out.details matches Some(d) ==> exists|i: int|
                0 <= i < store.profiles@.len() && (#[trigger] store.profiles@[i]).user_id == u
                    && details_match(d, store.profiles@[i]))
            &&& (out.images matches Some(imgs) && imgs@.len() == image_count(store.images@, u)
                && (forall|j: int|
                0 <= j < imgs@.len() ==> image_served(#[trigger] imgs@[j], img_sel[j])
                    && imgs@[j].order as int == j))
            &&& (out.prompts matches Some(prs) && prs@.len() == prompt_count(store.prompts@, u)
                && (forall|j: int|
                0 <= j < prs@.len() ==> prompt_served(#[trigger] prs@[j], pr_sel[j])
                    && prs@[j].order as int == j))
        }),
{
    let u = match parse_uuid(requester) {
        Some(v) => v,
        None => {
            return Err(ApiError::InvalidInput);
        },
    };
    let ghost img_sel = crate::images_queries::user_images(store.images@, u);
    let ghost pr_sel = crate::prompt_queries::user_prompts(store.prompts@, u);
    let details = match crate::profile_queries::get_profile(store, u) {
        Ok(d) => Some(d),
        Err(_) => None,
    };
    let image_rows = crate::images_queries::get_images(store, u);
    let mut images: Vec<UserImage> = Vec::new();
    let mut rest = image_rows;
    let ghost orig_i = rest@;
    while rest.len() > 0
        invariant
            images@.len() + rest@.len() == orig_i.len(),
            forall|j: int| 0 <= j < rest@.len() ==> rest@[j] == orig_i[images@.len() + j],
            forall|j: int|
                0 <= j < images@.len() ==> ({
                    &&& (#[trigger] images@[j]).id@ == uuid_str_of(orig_i[j].0)
                    &&& images@[j].url@ == orig_i[j].1@
                    &&& images@[j].order == orig_i[j].2
                }),
        decreases rest@.len(),
    {
        let (id, url, order) = rest.remove(0);
        images.push(UserImage { id: format_uuid(id), url, order });
    }
    let prompt_rows = crate::prompt_queries::get_user_prompts(store, u);
    let mut prompts: Vec<UserPrompt> = Vec::new();
    let mut prest = prompt_rows;
    let ghost orig_p = prest@;
    while prest.len() > 0
        invariant
            prompts@.len() + prest@.len() == orig_p.len(),
            forall|j: int| 0 <= j < prest@.len() ==> prest@[j] == orig_p[prompts@.len() + j],
            forall|j: int|
                0 <= j < prompts@.len() ==> ({
                    &&& (#[trigger] prompts@[j]).id@ == uuid_str_of(orig_p[j].0)
                    &&& prompts@[j].question@ == orig_p[j].1@
                    &&& prompts@[j].answer@ == orig_p[j].2@
                    &&& prompts@[j].order == orig_p[j].3
                }),
        decreases prest@.len(),
    {
        let (id, question, answer, order) = prest.remove(0);
        prompts.push(UserPrompt { id: format_uuid(id), question, answer, order });
    }
    Ok(
        UserProfile {
            id: format_uuid(u),
            images: Some(images),
            prompts: Some(prompts),
            details,
        },
    )
}

/// Creates or overwrites the caller's profile from the request and
/// acknowledges. Fails with `InvalidInput` on an unusable caller id and
/// with `InvalidReference` when the caller is unknown.
pub fn update_profile(store: &mut Store, requester: &str, body: &UpdateProfileRequest) -> (r:
    Result<StatusResponse, ApiError>)
    requires
        old(store).wf(),
    ensures
        final(store).wf(),
        r matches Err(e) ==> (*final(store) == *old(store) && (e == ApiError::InvalidInput <==>
            uuid_of(requester@) is None) && (e == ApiError::InvalidInput || e
            == ApiError::InvalidReference)),
        r is Ok <==> (uuid_of(requester@) matches Some(u) && (user_exists(old(store).users@, u)
            || profile_exists(old(store).profiles@, u))),
        r matches Ok(s) ==> ({
            let u = uuid_of(requester@)->0;
            &&& s.status@ == "success"@
            &&& (!profile_exists(old(store).profiles@, u) ==> (final(store).profiles@ == old(
                store,
            ).profiles@.push(final(store).profiles@.last()) && crate::profile_queries::profile_created(
                final(store).profiles@.last(),
                u,
                *body,
            )))
            &&& (profile_exists(old(store).profiles@, u) ==> (final(store).profiles@.len() == old(
                store,
            ).profiles@.len() && exists|i: int|
                0 <= i < old(store).profiles@.len() && (#[trigger] old(store).profiles@[i]).user_id
                    == u && (forall|k: int|
                    0 <= k < final(store).profiles@.len() && k != i ==> final(store).profiles@[k]
                        == old(store).profiles@[k]) && profile_merged(
                    old(store).profiles@[i],
                    final(store).profiles@[i],
                    *body,
                )))
        }),
{
    let u = match parse_uuid(requester) {
        Some(v) => v,
        None => {
            return Err(ApiError::InvalidInput);
        },
    };
    crate::profile_queries::upsert_profile(store, u, body)?;
    Ok(
        StatusResponse {
            status: "success".to_string(),
            message: Some("Profile updated successfully".to_string()),
        },
    )
}

/// Stores one more image for the caller and acknowledges. Fails with
/// `InvalidInput` on an unusable caller id, `CapacityExceeded` on a
/// seventh image, `InvalidReference` when the caller is unknown, and
/// `Internal` when the id space is exhausted.
pub fn upload_profile_images(
    store: &mut Store,
    requester: &str,
    body: &UploadProfileImageRequest,
) -> (r: Result<StatusResponse, ApiError>)
    requires
        old(store).wf(),
    ensures
        final(store).wf(),
        r matches Err(e) ==> (*final(store) == *old(store) && (e == ApiError::InvalidInput <==>
            uuid_of(requester@) is None)),
        ({
            let u_opt = uuid_of(requester@);
            r is Ok <==> (u_opt is Some && user_exists(old(store).users@, u_opt->0)
                && image_count(old(store).images@, u_opt->0) < 6 && old(store).next_id
                < u128::MAX)
        }),
        r matches Err(e) ==> (uuid_of(requester@) matches Some(u) ==> ((e
            == ApiError::CapacityExceeded <==> (user_exists(old(store).users@, u) && image_count(
            old(store).images@,
            u,
        ) >= 6)) && (e == ApiError::InvalidReference <==> !user_exists(old(store).users@, u)))),
        r matches Ok(s) ==> ({
            let u = uuid_of(requester@)->0;
            let rec = final(store).images@.last();
            &&& s.status@ == "success"@
            &&& final(store).images@ == old(store).images@.push(rec)
            &&& rec.user_id == u
            &&& rec.url@ == body.image_url@
            &&& rec.display_order as int == image_count(old(store).images@, u)
        }),
{
    let u = match parse_uuid(requester) {
        Some(v) => v,
        None => {
            return Err(ApiError::InvalidInput);
        },
    };
    crate::images_queries::upload_profile_images(store, u, body.image_url.as_str())?;
    Ok(
        StatusResponse {
            status: "success".to_string(),
            message: Some("Profile images uploaded successfully".to_string()),
        },
    )
}

/// The remediation lines of an incomplete profile: how many images and
/// prompts are still to upload and how many attributes to fill, in that
/// order; a complete profile has none.
pub open spec fn pending_of(imgs: int, prs: int, missing: int) -> Seq<Seq<char>> {
    (if imgs < 6 {
        seq!["Upload "@ + count_str((6 - imgs) as nat) + " more images"@]
    } else {
        Seq::empty()
    }) + (if prs < 3 {
        seq!["Upload "@ + count_str((3 - prs) as nat) + " more prompts"@]
    } else {
        Seq::empty()
    }) + (if missing > 0 {
        seq!["Fill "@ + count_str(missing as nat) + " more profile details"@]
    } else {
        Seq::empty()
    })
}

/// Law: the pending list is empty exactly when six images, three prompts
/// and all sixteen attributes are in place; each unmet requirement
/// appears, carrying its remaining count.
pub proof fn lemma_finalize_complete_iff(imgs: int, prs: int, missing: int)
    requires
        0 <= imgs <= 6,
        0 <= prs <= 3,
        0 <= missing <= 16,
    ensures
        pending_of(imgs, prs, missing).len() == 0 <==> (imgs == 6 && prs == 3 && missing == 0),
        imgs < 6 ==> pending_of(imgs, prs, missing).contains(
            "Upload "@ + count_str((6 - imgs) as nat) + " more images"@,
        ),
        prs < 3 ==> pending_of(imgs, prs, missing).contains(
            "Upload "@ + count_str((3 - prs) as nat) + " more prompts"@,
        ),
        missing > 0 ==> pending_of(imgs, prs, missing).contains(
            "Fill "@ + count_str(missing as nat) + " more profile details"@,
        ),
{
    let pa = pending_of(imgs, prs, missing);
    if imgs < 6 {
        assert(pa[0] == "Upload "@ + count_str((6 - imgs) as nat) + " more images"@);
    }
    if prs < 3 {
        let at: int = if imgs < 6 {
            1
        } else {
            0
        };
        assert(pa[at] == "Upload "@ + count_str((3 - prs) as nat) + " more prompts"@);
    }
    if missing > 0 {
        let at: int = (if imgs < 6 {
            1int
        } else {
            0int
        }) + (if prs < 3 {
            1int
        } else {
            0int
        });
        assert(pa[at] == "Fill "@ + count_str(missing as nat) + " more profile details"@);
    }
}

/// Whether the finalization answer reads as the profile at row `i`: the
/// pending lines carry the exact remaining counts, success comes exactly
/// when nothing is pending, and only then is the row's completeness flag
/// raised.
pub open spec fn finalize_describes(
    before: Store,
    after: Store,
    resp: FinalizeProfileResponse,
    u: u128,
    i: int,
) -> bool {
    &&& 0 <= i < before.profiles@.len()
    &&& before.profiles@[i].user_id == u
    &&& {
        let imgs = image_count(before.images@, u) as int;
        let prs = prompt_count(before.prompts@, u) as int;
        let miss = missing_count(before.profiles@[i]);
        let complete = imgs == 6 && prs == 3 && miss == 0;
        &&& (resp.pending_actions matches Some(pa) && pa.deep_view() == pending_of(
            imgs,
            prs,
            miss,
        ))
        &&& (complete ==> resp.status@ == "success"@)
        &&& (!complete ==> resp.status@ == "error"@)
        &&& (!complete ==> after == before)
        &&& (complete ==> (after.profiles@.len() == before.profiles@.len() && (forall|k: int|
            0 <= k < after.profiles@.len() && k != i ==> after.profiles@[k]
                == before.profiles@[k]) && after.profiles@[i] == ProfileRec {
            is_complete: true,
            ..before.profiles@[i]
        } && after.users == before.users && after.images == before.images && after.prompts
            == before.prompts && after.interactions == before.interactions && after.matches
            == before.matches && after.messages == before.messages && after.next_id
            == before.next_id && after.clock == before.clock))
    }
}

/// Checks the caller's profile for completeness: six images, three
/// prompts, and all sixteen attributes filled. A complete profile is
/// marked complete and acknowledged; an incomplete one is reported with
/// one remediation line per unmet requirement, carrying the remaining
/// count. Fails with `InvalidInput` on an unusable caller id and
/// `NotFound` without a profile row.
#[verifier::rlimit(100)]
pub fn finalize_profile(store: &mut Store, requester: &str) -> (r: Result<
    FinalizeProfileResponse,
    ApiError,
>)
    requires
        old(store).wf(),
    ensures
        final(store).wf(),
        r matches Err(e) ==> (*final(store) == *old(store) && (e == ApiError::InvalidInput <==>
            uuid_of(requester@) is None) && (e == ApiError::InvalidInput || e
            == ApiError::NotFound)),
        r is Ok <==> (uuid_of(requester@) matches Some(u) && profile_exists(
            old(store).profiles@,
            u,
        )),
        r matches Ok(resp) ==> forall|i: int|
            0 <= i < old(store).profiles@.len() && (#[trigger] old(store).profiles@[i]).user_id
                == uuid_of(requester@)->0 ==> finalize_describes(
                *old(store),
                *final(store),
                resp,
                uuid_of(requester@)->0,
                i,
            ),
{
    let u = match parse_uuid(requester) {
        Some(v) => v,
        None => {
            return Err(ApiError::InvalidInput);
        },
    };
    let pidx = match store.profile_index(u) {
        Some(i) => i,
        None => {
            return Err(ApiError::NotFound);
        },
    };
    proof {
        assert forall|i: int|
            0 <= i < store.profiles@.len() && (#[trigger] store.profiles@[i]).user_id
                == u implies i == pidx as int by {}
    }
    let imgs = crate::images_queries::count_images(store, u);
    let prs = crate::prompt_queries::count_prompts(store, u);
    let miss = match crate::profile_queries::check_profile_attributes_filled(store, u) {
        Ok(n) => n,
        Err(e) => {
            return Err(e);
        },
    };
    let mut pending: Vec<String> = Vec::new();
    if imgs < 6 {
        let line = "Upload ".to_string().concat(
            small_count_string((6 - imgs) as u64).as_str(),
        ).concat(" more images");
        pending.push(line);
    }
    if prs < 3 {
        let line = "Upload ".to_string().concat(
            small_count_string((3 - prs) as u64).as_str(),
        ).concat(" more prompts");
        pending.push(line);
    }
    if miss > 0 {
        let line = "Fill ".to_string().concat(small_count_string(miss as u64).as_str()).concat(
            " more profile details",
        );
        pending.push(line);
    }
    proof {
        assert(pending.deep_view() =~= pending_of(imgs as int, prs as int, miss as int));
    }
    if pending.len() == 0 {
        let ghost before_profiles = store.profiles@;
        let mut rec = store.profiles.remove(pidx);
        rec.is_complete = true;
        let ghost grec = rec;
        store.profiles.insert(pidx, rec);
        proof {
            crate::store::lemma_seq_remove_insert(before_profiles, pidx as int, grec);
            assert(store.profiles@ =~= before_profiles.update(pidx as int, grec));
        }
        Ok(
            FinalizeProfileResponse {
                status: "success".to_string(),
                message: Some("Profile finalized successfully".to_string()),
                pending_actions: Some(pending),
            },
        )
    } else {
        Ok(
            FinalizeProfileResponse {
                status: "error".to_string(),
                message: Some("Profile not finalized".to_string()),
                pending_actions: Some(pending),
            },
        )
    }
}

/// Deletes the caller's account with everything it owns or takes part in,
/// and acknowledges. Fails with `InvalidInput` on an unusable caller id.
pub fn delete_account(store: &mut Store, requester: &str) -> (r: Result<StatusResponse, ApiError>)
    requires
        old(store).wf(),
    ensures
        final(store).wf(),
        r is Ok <==> uuid_of(requester@) is Some,
        r matches Err(e) ==> (e == ApiError::InvalidInput && *final(store) == *old(store)),
        r matches Ok(s) ==> ({
            let u = uuid_of(requester@)->0;
            &&& s.status@ == "success"@
            &&& final(store).users@ == crate::profile_queries::users_without(
                old(store).users@,
                u,
            )
            &&& final(store).profiles@ == crate::profile_queries::profiles_without(
                old(store).profiles@,
                u,
            )
            &&& final(store).images@ == crate::profile_queries::images_without(
                old(store).images@,
                u,
            )
            &&& final(store).prompts@ == crate::profile_queries::prompts_without(
                old(store).prompts@,
                u,
            )
            &&& final(store).interactions@ == crate::profile_queries::interactions_without(
                old(store).interactions@,
                u,
            )
            &&& final(store).matches@ == crate::profile_queries::matches_without(
                old(store).matches@,
                u,
            )
            &&& final(store).messages@ == crate::profile_queries::messages_kept(
                old(store).messages@,
                crate::profile_queries::matches_without(old(store).matches@, u),
            )
        }),
{
    let u = match parse_uuid(requester) {
        Some(v) => v,
        None => {
            return Err(ApiError::InvalidInput);
        },
    };
    crate::deletion::delete_user(store, u);
    Ok(
        StatusResponse {
            status: "success".to_string(),
            message: Some("Account deleted successfully".to_string()),
        },
    )
}

} // verus!
