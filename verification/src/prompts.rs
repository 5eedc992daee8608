//! The prompt endpoints: listing, creating (at most three), rewriting and
//! deleting the caller's prompts by display order.

use crate::errors::ApiError;
use crate::ids::{parse_uuid, uuid_of, uuid_str_of};
use crate::inputs::{CreatePromptRequest, UpdatePromptRequest};
use crate::outputs::{StatusResponse, UserPrompt};
use crate::prompt_queries::{
    has_prompt_at, prompt_rewritten_at, prompts_compacted_at, user_prompts,
};
use crate::store::{prompt_count, user_exists, Store};
use crate::util::{blank_chars, is_blank};
use vstd::prelude::*;

verus! {

/// Serves the caller's prompts, ordered by display order. Fails with
/// `InvalidInput` on an unusable caller id.
pub fn get_prompts(store: &Store, requester: &str) -> (r: Result<Vec<UserPrompt>, ApiError>)
    requires
        store.wf(),
    ensures
        r is Ok <==> uuid_of(requester@) is Some,
        r matches Err(e) ==> e == ApiError::InvalidInput,
        r matches Ok(out) ==> ({
            let sel = user_prompts(store.prompts@, uuid_of(requester@)->0);
            &&& out@.len() == sel.len()
            &&& forall|j: int|
                0 <= j < out@.len() ==> ({
                    &&& (#[trigger] out@[j]).id@ == uuid_str_of(sel[j].id)
                    &&& out@[j].question@ == sel[j].question@
                    &&& out@[j].answer@ == sel[j].answer@
                    &&& out@[j].order == sel[j].display_order
                    &&& out@[j].order as int == j
                })
        }),
{
    let u = match parse_uuid(requester) {
        Some(v) => v,
        None => {
            return Err(ApiError::InvalidInput);
        },
    };
    let rows = crate::prompt_queries::get_user_prompts(store, u);
    let ghost sel = user_prompts(store.prompts@, u);
    proof {
        crate::prompt_queries::lemma_prompt_count_is_sel_len(store.prompts@, u);
    }
    let mut out: Vec<UserPrompt> = Vec::new();
    let mut rest = rows;
    let ghost orig = rest@;
    while rest.len() > 0
        invariant
            out@.len() + rest@.len() == orig.len(),
            orig.len() == sel.len(),
            forall|j: int| 0 <= j < rest@.len() ==> rest@[j] == orig[out@.len() + j],
            forall|j: int|
                0 <= j < orig.len() ==> ({
                    &&& (#[trigger] orig[j]).0 == sel[j].id
                    &&& orig[j].1@ == sel[j].question@
                    &&& orig[j].2@ == sel[j].answer@
                    &&& orig[j].3 == sel[j].display_order
                    &&& orig[j].3 as int == j
                }),
            forall|j: int|
                0 <= j < out@.len() ==> ({
                    &&& (#[trigger] out@[j]).id@ == uuid_str_of(sel[j].id)
                    &&& out@[j].question@ == sel[j].question@
                    &&& out@[j].answer@ == sel[j].answer@
                    &&& out@[j].order == sel[j].display_order
                    &&& out@[j].order as int == j
                }),
        decreases rest@.len(),
    {
        let (id, question, answer, order) = rest.remove(0);
        out.push(UserPrompt { id: crate::ids::format_uuid(id), question, answer, order });
    }
    Ok(out)
}

/// Stores one more prompt for the caller, at the next free display order.
/// Fails with `InvalidInput` on an unusable caller id or blank text, with
/// `CapacityExceeded` on a fourth prompt, with `InvalidReference` when the
/// caller is unknown, and with `Internal` when the id space is exhausted.
pub fn create_prompt(store: &mut Store, requester: &str, body: &CreatePromptRequest) -> (r: Result<
    StatusResponse,
    ApiError,
>)
    requires
        old(store).wf(),
    ensures
        final(store).wf(),
        r matches Err(e) ==> ({
            &&& *final(store) == *old(store)
            &&& (e == ApiError::InvalidInput <==> (uuid_of(requester@) is None || blank_chars(
                body.question@,
            ) || blank_chars(body.answer@)))
        }),
        ({
            let u_opt = uuid_of(requester@);
            r is Ok <==> (u_opt is Some && !blank_chars(body.question@) && !blank_chars(
                body.answer@,
            ) && user_exists(old(store).users@, u_opt->0) && prompt_count(
                old(store).prompts@,
                u_opt->0,
            ) < 3 && old(store).next_id < u128::MAX)
        }),
        r matches Err(e) ==> ({
            let u_opt = uuid_of(requester@);
            (u_opt is Some && !blank_chars(body.question@) && !blank_chars(body.answer@)) ==> (
            (e == ApiError::CapacityExceeded <==> (user_exists(old(store).users@, u_opt->0)
                && prompt_count(old(store).prompts@, u_opt->0) >= 3)) && (
            e == ApiError::InvalidReference <==> !user_exists(old(store).users@, u_opt->0)))
        }),
        r matches Ok(s) ==> ({
            let u = uuid_of(requester@)->0;
            let rec = final(store).prompts@.last();
            &&& s.status@ == "success"@
            &&& final(store).prompts@ == old(store).prompts@.push(rec)
            &&& rec.user_id == u
            &&& rec.question@ == body.question@
            &&& rec.answer@ == body.answer@
            &&& rec.display_order as int == prompt_count(old(store).prompts@, u)
        }),
{
    let u = match parse_uuid(requester) {
        Some(v) => v,
        None => {
            return Err(ApiError::InvalidInput);
        },
    };
    if is_blank(body.question.as_str()) || is_blank(body.answer.as_str()) {
        return Err(ApiError::InvalidInput);
    }
    crate::prompt_queries::insert_prompt(store, u, body.question.as_str(), body.answer.as_str())?;
    Ok(
        StatusResponse {
            status: "success".to_string(),
            message: Some("Prompt created successfully".to_string()),
        },
    )
}

/// Rewrites the caller's prompt at a display order in `0..=2`; a missing
/// row is acknowledged as an update of no rows. Fails with `InvalidInput`
/// on an unusable caller id, an out-of-range order or blank text.
pub fn update_prompt(
    store: &mut Store,
    requester: &str,
    display_order: i32,
    body: &UpdatePromptRequest,
) -> (r: Result<StatusResponse, ApiError>)
    requires
        old(store).wf(),
    ensures
        final(store).wf(),
        r is Ok <==> (uuid_of(requester@) is Some && 0 <= display_order <= 2 && !blank_chars(
            body.question@,
        ) && !blank_chars(body.answer@)),
        r matches Err(e) ==> (e == ApiError::InvalidInput && *final(store) == *old(store)),
        r matches Ok(s) ==> ({
            let u = uuid_of(requester@)->0;
            &&& s.status@ == "success"@
            &&& (!has_prompt_at(old(store).prompts@, u, display_order) ==> *final(store) == *old(
                store,
            ))
            &&& (has_prompt_at(old(store).prompts@, u, display_order) ==> exists|i: int|
                prompt_rewritten_at(
                    old(store).prompts@,
                    final(store).prompts@,
                    u,
                    display_order,
                    body.question@,
                    body.answer@,
                    i,
                ))
        }),
{
    let u = match parse_uuid(requester) {
        Some(v) => v,
        None => {
            return Err(ApiError::InvalidInput);
        },
    };
    if display_order < 0 || display_order > 2 {
        return Err(ApiError::InvalidInput);
    }
    if is_blank(body.question.as_str()) || is_blank(body.answer.as_str()) {
        return Err(ApiError::InvalidInput);
    }
    crate::prompt_queries::update_prompt(
        store,
        u,
        display_order,
        body.question.as_str(),
        body.answer.as_str(),
    );
    Ok(
        StatusResponse {
            status: "success".to_string(),
            message: Some("Prompt updated successfully".to_string()),
        },
    )
}

/// Deletes the caller's prompt at a display order in `0..=2`, closing the
/// order gap; a missing row is acknowledged as a deletion of no rows.
/// Fails with `InvalidInput` on an unusable caller id or an out-of-range
/// order.
pub fn delete_prompt(store: &mut Store, requester: &str, display_order: i32) -> (r: Result<
    StatusResponse,
    ApiError,
>)
    requires
        old(store).wf(),
    ensures
        final(store).wf(),
        r is Ok <==> (uuid_of(requester@) is Some && 0 <= display_order <= 2),
        r matches Err(e) ==> (e == ApiError::InvalidInput && *final(store) == *old(store)),
        r matches Ok(s) ==> ({
            let u = uuid_of(requester@)->0;
            &&& s.status@ == "success"@
            &&& (!has_prompt_at(old(store).prompts@, u, display_order) ==> *final(store) == *old(
                store,
            ))
            &&& (has_prompt_at(old(store).prompts@, u, display_order) ==> exists|i: int|
                prompts_compacted_at(
                    old(store).prompts@,
                    final(store).prompts@,
                    u,
                    display_order,
                    i,
                ))
        }),
{
    let u = match parse_uuid(requester) {
        Some(v) => v,
        None => {
            return Err(ApiError::InvalidInput);
        },
    };
    if display_order < 0 || display_order > 2 {
        return Err(ApiError::InvalidInput);
    }
    crate::prompt_queries::delete_prompt(store, u, display_order);
    Ok(
        StatusResponse {
            status: "success".to_string(),
            message: Some("Prompt deleted successfully".to_string()),
        },
    )
}

} // verus!
