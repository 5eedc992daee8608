//! The interaction endpoint: records a LIKE or PASS from the
//! authenticated caller and, on a mutual LIKE, forms the match — exactly
//! one per unordered pair, however the two likes are ordered.

use crate::errors::ApiError;
use crate::ids::{format_uuid, parse_uuid, uuid_of, uuid_str_of};
use crate::inputs::InteractRequest;
use crate::interact_queries::{interaction_of, upsert_ledger, valid_request};
use crate::outputs::MatchResponse;
use crate::store::{
    has_like, has_match, ledger_unique, match_count, match_joins, matches_pair_unique,
    user_exists, InteractionRec, MatchRec, Store,
};
use crate::util::string_is;
use vstd::prelude::*;

verus! {

/// Whether recording this request must look for or form a match: it is a
/// LIKE against someone else who already has a LIKE the other way in the
/// ledger.
pub open spec fn needs_match(
    ledger: Seq<InteractionRec>,
    from: u128,
    to: u128,
    req: InteractRequest,
) -> bool {
    req.action@ == "LIKE"@ && from != to && has_like(ledger, to, from)
}

/// Whether recording this request creates a fresh match row: the like is
/// mutual and no match joins the pair yet.
pub open spec fn creates_match(
    ledger: Seq<InteractionRec>,
    matches: Seq<MatchRec>,
    from: u128,
    to: u128,
    req: InteractRequest,
) -> bool {
    needs_match(ledger, from, to, req) && !has_match(matches, from, to)
}

/// The match row that a mutual like materializes.
pub open spec fn new_match_of(new_id: u128, from: u128, to: u128, now: i64) -> MatchRec {
    MatchRec {
        id: new_id,
        user1_id: from,
        user2_id: to,
        created_at: now,
        last_message: None,
        last_message_at: None,
    }
}

/// What recording does to the match table: append one row exactly when
/// the like is mutual and the pair is not yet matched.
pub open spec fn interact_matches_after(
    ledger: Seq<InteractionRec>,
    matches: Seq<MatchRec>,
    from: u128,
    to: u128,
    req: InteractRequest,
    new_id: u128,
    now: i64,
) -> Seq<MatchRec> {
    if creates_match(ledger, matches, from, to, req) {
        matches.push(new_match_of(new_id, from, to, now))
    } else {
        matches
    }
}

/// Law: for any two users, recording LIKE one way and then LIKE the other
/// way leaves exactly one match joining the pair, whichever call order the
/// two likes arrive in and whatever the ledger and match table held
/// before.
pub proof fn lemma_mutual_likes_make_one_match(
    ledger0: Seq<InteractionRec>,
    matches0: Seq<MatchRec>,
    a: u128,
    b: u128,
    ra: InteractRequest,
    rb: InteractRequest,
    id1: u128,
    t1: i64,
    id2: u128,
    t2: i64,
)
    requires
        ledger_unique(ledger0),
        matches_pair_unique(matches0),
        a != b,
        ra.action@ == "LIKE"@,
        rb.action@ == "LIKE"@,
    ensures
        ({
            let l1 = upsert_ledger(ledger0, interaction_of(a, b, ra));
            let m1 = interact_matches_after(ledger0, matches0, a, b, ra, id1, t1);
            let m2 = interact_matches_after(l1, m1, b, a, rb, id2, t2);
            match_count(m2, a, b) == 1
        }),
{
    let reca = interaction_of(a, b, ra);
    let l1 = upsert_ledger(ledger0, reca);
    let m1 = interact_matches_after(ledger0, matches0, a, b, ra, id1, t1);
    let m2 = interact_matches_after(l1, m1, b, a, rb, id2, t2);
    crate::interact_queries::lemma_upsert_ledger_props(ledger0, reca);
    assert(has_like(l1, a, b));
    crate::store::lemma_match_count_pos(matches0, a, b);
    crate::store::lemma_match_count_at_most_one(matches0, a, b);
    if creates_match(ledger0, matches0, a, b, ra) {
        // the first like already finds the reverse like and forms the match
        crate::store::lemma_match_count_push(matches0, new_match_of(id1, a, b, t1), a, b);
        assert(match_count(m1, a, b) == 1);
        crate::store::lemma_match_count_pos(m1, a, b);
        assert(has_match(m1, b, a)) by {
            let i = choose|i: int| 0 <= i < m1.len() && match_joins(m1[i], a, b);
            assert(match_joins(m1[i], b, a));
        }
        assert(m2 == m1);
    } else if needs_match(ledger0, a, b, ra) {
        // mutual already, and a match already joins the pair
        assert(has_match(matches0, a, b));
        assert(match_count(matches0, a, b) == 1);
        assert(m1 == matches0);
        assert(has_match(m1, b, a)) by {
            let i = choose|i: int| 0 <= i < m1.len() && match_joins(m1[i], a, b);
            assert(match_joins(m1[i], b, a));
        }
        assert(m2 == m1);
    } else {
        // the first like is pending; the second one finds it
        assert(m1 == matches0);
        assert(needs_match(l1, b, a, rb));
        if has_match(m1, b, a) {
            assert(has_match(m1, a, b)) by {
                let i = choose|i: int| 0 <= i < m1.len() && match_joins(m1[i], b, a);
                assert(match_joins(m1[i], a, b));
            }
            assert(match_count(m1, a, b) == 1);
            assert(m2 == m1);
        } else {
            assert(!has_match(m1, a, b)) by {
                if has_match(m1, a, b) {
                    let i = choose|i: int| 0 <= i < m1.len() && match_joins(m1[i], a, b);
                    assert(match_joins(m1[i], b, a));
                }
            }
            assert(match_count(m1, a, b) == 0);
            assert(m2 == m1.push(new_match_of(id2, b, a, t2)));
            crate::store::lemma_match_count_push(m1, new_match_of(id2, b, a, t2), a, b);
        }
    }
}

/// Whether the ledger holds a LIKE row for the ordered pair, decided by
/// one table scan.
pub fn has_like_exec(store: &Store, from: u128, to: u128) -> (r: bool)
    requires
        store.wf(),
    ensures
        r == has_like(store.interactions@, from, to),
{
    match store.interaction_index(from, to) {
        Some(i) => {
            let is_like = string_is(&store.interactions[i].action, "LIKE");
            proof {
                if !is_like && has_like(store.interactions@, from, to) {
                    let k = choose|k: int|
                        0 <= k < store.interactions@.len()
                            && store.interactions@[k].from_user_id == from
                            && store.interactions@[k].to_user_id == to
                            && store.interactions@[k].action@ == "LIKE"@;
                    assert(k == i as int);
                }
            }
            is_like
        },
        None => false,
    }
}

/// Records the caller's LIKE or PASS against the target and answers
/// whether a match now joins the two: `MATCH` with the match id — fresh or
/// already formed — when the like is mutual, `SENT` otherwise. A PASS
/// never forms a match. Fails with `Unauthorized` on an unusable caller
/// id, `InvalidInput` on a malformed target id, action or context,
/// `InvalidReference` when either user is unknown, and `Internal` when the
/// id space is exhausted; an error leaves the store untouched.
pub fn interact(store: &mut Store, requester: &str, body: &InteractRequest, now: i64) -> (r:
    Result<MatchResponse, ApiError>)
    requires
        old(store).wf(),
    ensures
        final(store).wf(),
        r matches Err(e) ==> ({
            &&& *final(store) == *old(store)
            &&& (e == ApiError::Unauthorized <==> uuid_of(requester@) is None)
            &&& (e == ApiError::InvalidInput <==> (uuid_of(requester@) is Some && (uuid_of(
                body.target_user_id@,
            ) is None || !valid_request(*body))))
        }),
        ({
            let from_opt = uuid_of(requester@);
            let to_opt = uuid_of(body.target_user_id@);
            &&& (r is Ok <==> (from_opt is Some && to_opt is Some && valid_request(*body)
                && user_exists(old(store).users@, from_opt->0) && user_exists(
                old(store).users@,
                to_opt->0,
            ) && !(body.action@ == "LIKE"@ && from_opt->0 != to_opt->0 && old(store).next_id
                == u128::MAX)))
        }),
        r matches Ok(resp) ==> ({
            let from = uuid_of(requester@)->0;
            let to = uuid_of(body.target_user_id@)->0;
            let ledger0 = old(store).interactions@;
            let matches0 = old(store).matches@;
            &&& final(store).interactions@ == upsert_ledger(
                ledger0,
                interaction_of(from, to, *body),
            )
            &&& final(store).matches@ == interact_matches_after(
                ledger0,
                matches0,
                from,
                to,
                *body,
                old(store).next_id,
                now,
            )
            &&& (needs_match(ledger0, from, to, *body) ==> match_count(
                final(store).matches@,
                from,
                to,
            ) == 1)
            &&& (needs_match(ledger0, from, to, *body) ==> (resp.status@ == "MATCH"@ && (
            resp.match_id matches Some(s) && exists|i: int|
                0 <= i < final(store).matches@.len() && match_joins(
                    #[trigger] final(store).matches@[i],
                    from,
                    to,
                ) && s@ == uuid_str_of(final(store).matches@[i].id))))
            &&& (!needs_match(ledger0, from, to, *body) ==> (resp.status@ == "SENT"@
                && resp.match_id is None && final(store).matches == old(store).matches))
            &&& resp.match_data is None
            &&& final(store).next_id == (if creates_match(ledger0, matches0, from, to, *body) {
                old(store).next_id + 1
            } else {
                old(store).next_id as int
            })
            &&& final(store).users == old(store).users
            &&& final(store).profiles == old(store).profiles
            &&& final(store).images == old(store).images
            &&& final(store).prompts == old(store).prompts
            &&& final(store).messages == old(store).messages
            &&& final(store).clock == old(store).clock
        }),
{
    let from = match parse_uuid(requester) {
        Some(v) => v,
        None => {
            return Err(ApiError::Unauthorized);
        },
    };
    let to = match parse_uuid(body.target_user_id.as_str()) {
        Some(v) => v,
        None => {
            return Err(ApiError::InvalidInput);
        },
    };
    let action_ok = string_is(&body.action, "LIKE") || string_is(&body.action, "PASS");
    let context_ok = match &body.context {
        Some(c) => string_is(&c.kind, "IMAGE") || string_is(&c.kind, "PROMPT"),
        None => true,
    };
    if !(action_ok && context_ok) {
        return Err(ApiError::InvalidInput);
    }
    let is_like = string_is(&body.action, "LIKE");
    if is_like && from != to && store.next_id == u128::MAX {
        return Err(ApiError::Internal);
    }
    let ghost ledger0 = store.interactions@;
    let ghost matches0 = store.matches@;
    crate::interact_queries::interact(store, from, to, body)?;
    proof {
        crate::interact_queries::lemma_upsert_ledger_props(
            ledger0,
            interaction_of(from, to, *body),
        );
    }
    let mutual = is_like && from != to && has_like_exec(store, to, from);
    proof {
        assert(mutual == needs_match(ledger0, from, to, *body));
    }
    if !mutual {
        return Ok(
            MatchResponse { status: "SENT".to_string(), match_id: None, match_data: None },
        );
    }
    match store.match_pair_index(from, to) {
        Some(i) => {
            proof {
                crate::store::lemma_match_count_pos(store.matches@, from, to);
                crate::store::lemma_match_count_at_most_one(store.matches@, from, to);
            }
            Ok(
                MatchResponse {
                    status: "MATCH".to_string(),
                    match_id: Some(format_uuid(store.matches[i].id)),
                    match_data: None,
                },
            )
        },
        None => {
            let id = store.next_id;
            store.next_id = id + 1;
            let rec = MatchRec {
                id,
                user1_id: from,
                user2_id: to,
                created_at: now,
                last_message: None,
                last_message_at: None,
            };
            let ghost old_matches = store.matches@;
            store.matches.push(rec);
            proof {
                let ms = store.matches@;
                crate::store::lemma_messages_wf_counter_monotone(
                    store.messages@,
                    old_matches,
                    old(store).next_id,
                    store.next_id,
                    store.clock,
                );
                assert forall|x: int, y: int|
                    0 <= x < y < ms.len() implies #[trigger] ms[x].id != #[trigger] ms[y].id by {
                    if y == ms.len() - 1 {
                        assert(ms[x].id < id);
                    }
                }
                assert forall|x: int, y: int|
                    0 <= x < y < ms.len() implies !match_joins(
                    #[trigger] ms[x],
                    (#[trigger] ms[y]).user1_id,
                    ms[y].user2_id,
                ) by {
                    if y == ms.len() - 1 {
                        if match_joins(ms[x], from, to) {
                            assert(has_match(old_matches, from, to));
                        }
                    }
                }
                // no message can point at the fresh match id
                assert forall|k: int|
                    0 <= k < store.messages@.len() implies (#[trigger] store.messages@[k]).match_id
                    != id by {
                    assert(crate::store::message_has_home(store.messages@[k], old_matches));
                    let h = choose|h: int|
                        0 <= h < old_matches.len() && (#[trigger] old_matches[h]).id
                            == store.messages@[k].match_id && (store.messages@[k].sender_id
                            == old_matches[h].user1_id || store.messages@[k].sender_id
                            == old_matches[h].user2_id);
                    assert(old_matches[h].id < id);
                }
                crate::store::lemma_last_msg_none(store.messages@, id);
                assert forall|k: int|
                    0 <= k < store.messages@.len() implies crate::store::message_has_home(
                    #[trigger] store.messages@[k],
                    ms,
                ) by {
                    let h = choose|h: int|
                        0 <= h < old_matches.len() && (#[trigger] old_matches[h]).id
                            == store.messages@[k].match_id && (store.messages@[k].sender_id
                            == old_matches[h].user1_id || store.messages@[k].sender_id
                            == old_matches[h].user2_id);
                    assert(ms[h] == old_matches[h]);
                }
                crate::store::lemma_match_count_push(old_matches, rec, from, to);
                crate::store::lemma_match_count_pos(old_matches, from, to);
            }
            Ok(
                MatchResponse {
                    status: "MATCH".to_string(),
                    match_id: Some(format_uuid(id)),
                    match_data: None,
                },
            )
        },
    }
}

} // verus!
