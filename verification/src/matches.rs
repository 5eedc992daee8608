//! The match endpoints: listing a user's matches newest-activity first,
//! serving cursor-paginated message history to participants only, and
//! appending messages with the denormalized conversation tail kept in
//! step.

use crate::errors::ApiError;
use crate::ids::{format_uuid, parse_uuid, uuid_of, uuid_str_of};
use crate::inputs::{MessageQuery, SendMessageRequest};
use crate::outputs::{MatchSummary, Message, MessageHistoryResponse, MessagePreview, UserSummary};
use crate::store::{
    last_msg, match_exists, match_joins, message_has_home, user_exists, MatchRec, MessageRec,
    Store,
};
use crate::timefmt::{format_rfc3339_micros, parse_rfc3339_micros, rfc3339_of, rfc3339_str_of,
    TS_MAX_MICROS};
use crate::util::{clone_opt_string, is_blank};
use vstd::prelude::*;

verus! {

/// The messages of one match that lie strictly after the cursor, oldest
/// first; no cursor means the whole history.
pub open spec fn msgs_after(
    messages: Seq<MessageRec>,
    match_id: u128,
    cursor: Option<i64>,
) -> Seq<MessageRec>
    decreases messages.len(),
{
    if messages.len() == 0 {
        Seq::empty()
    } else if messages.last().match_id == match_id && (match cursor {
        Some(c) => messages.last().created_at > c,
        None => true,
    }) {
        msgs_after(messages.drop_last(), match_id, cursor).push(messages.last())
    } else {
        msgs_after(messages.drop_last(), match_id, cursor)
    }
}

/// Every selected message belongs to the match, lies after the cursor,
/// and keeps its table position order, so the page is ascending whenever
/// the table is.
pub proof fn lemma_msgs_after_props(messages: Seq<MessageRec>, match_id: u128, cursor: Option<i64>)
    requires
        forall|i: int, j: int|
            0 <= i < j < messages.len() ==> #[trigger] messages[i].created_at
                < #[trigger] messages[j].created_at,
    ensures
        forall|k: int|
            0 <= k < msgs_after(messages, match_id, cursor).len() ==> exists|i: int|
                0 <= i < messages.len() && #[trigger] msgs_after(messages, match_id, cursor)[k]
                    == messages[i],
        forall|k: int|
            0 <= k < msgs_after(messages, match_id, cursor).len()
                ==> (#[trigger] msgs_after(messages, match_id, cursor)[k]).match_id == match_id
                && (cursor matches Some(c) ==> msgs_after(messages, match_id, cursor)[k].created_at
                > c),
        forall|a: int, b: int|
            0 <= a < b < msgs_after(messages, match_id, cursor).len() ==> #[trigger] msgs_after(
                messages,
                match_id,
                cursor,
            )[a].created_at < #[trigger] msgs_after(messages, match_id, cursor)[b].created_at,
    decreases messages.len(),
{
    if messages.len() > 0 {
        let prefix = messages.drop_last();
        lemma_msgs_after_props(prefix, match_id, cursor);
        let sel = msgs_after(messages, match_id, cursor);
        let selp = msgs_after(prefix, match_id, cursor);
        assert forall|k: int| 0 <= k < selp.len() implies exists|i: int|
            0 <= i < messages.len() && #[trigger] selp[k] == messages[i] by {
            let i = choose|i: int| 0 <= i < prefix.len() && selp[k] == prefix[i];
            assert(messages[i] == prefix[i]);
        }
        if sel.len() > selp.len() {
            assert(sel[sel.len() - 1] == messages[messages.len() - 1]);
            assert forall|a: int, b: int|
                0 <= a < b < sel.len() implies #[trigger] sel[a].created_at
                < #[trigger] sel[b].created_at by {
                if b == sel.len() - 1 {
                    let i = choose|i: int| 0 <= i < prefix.len() && sel[a] == prefix[i];
                    assert(messages[i].created_at < messages[messages.len() - 1].created_at);
                }
            }
        }
    }
}

/// The number of history rows a caller receives at most: the requested
/// limit clamped into `0..=100`, or fifty when none is given.
pub open spec fn effective_limit(limit: Option<i64>) -> int {
    let x: int = match limit {
        Some(l) => l as int,
        None => 50,
    };
    if x < 0 {
        0
    } else if x > 100 {
        100
    } else {
        x
    }
}

/// Whether a served message row reads as the stored one.
pub open spec fn message_rendered(out: Message, m: MessageRec) -> bool {
    &&& out.id@ == uuid_str_of(m.id)
    &&& out.sender_id@ == uuid_str_of(m.sender_id)
    &&& out.text == m.text
    &&& out.created_at@ == rfc3339_str_of(m.created_at)
}

/// Whether the user takes part in the match carrying the id.
pub open spec fn participant_of(matches: Seq<MatchRec>, mid: u128, u: u128) -> bool {
    exists|i: int|
        0 <= i < matches.len() && (#[trigger] matches[i]).id == mid && (matches[i].user1_id == u
            || matches[i].user2_id == u)
}

/// Whether the request's cursor, if present, reads as an RFC 3339 instant.
pub open spec fn cursor_ok(query: MessageQuery) -> bool {
    match query.cursor {
        Some(cs) => rfc3339_of(cs@) is Some,
        None => true,
    }
}

/// Serves one page of a match's history to a participant: messages
/// strictly after the cursor, oldest first, at most the clamped limit.
/// Succeeds exactly when the caller and match ids parse, the match exists,
/// the caller is a participant and the cursor, if given, parses. Fails
/// with `Unauthorized` on an unusable caller id, `InvalidInput` on a
/// malformed match id or cursor, `NotFound` when no match carries the id,
/// and `Forbidden` when the caller is not one of the two participants.
#[verifier::rlimit(100)]
#[verifier::loop_isolation(false)]
pub fn get_messages(store: &Store, requester: &str, match_id_str: &str, query: &MessageQuery)
    -> (r: Result<MessageHistoryResponse, ApiError>)
    requires
        store.wf(),
    ensures
        ({
            let from_opt = uuid_of(requester@);
            let mid_opt = uuid_of(match_id_str@);
            &&& (r == Err::<MessageHistoryResponse, ApiError>(ApiError::Unauthorized) <==> from_opt
                is None)
            &&& (r == Err::<MessageHistoryResponse, ApiError>(ApiError::InvalidInput) <==> (
            from_opt is Some && (mid_opt is None || (participant_of(
                store.matches@,
                mid_opt->0,
                from_opt->0,
            ) && !cursor_ok(*query)))))
            &&& (r == Err::<MessageHistoryResponse, ApiError>(ApiError::NotFound) <==> (from_opt
                is Some && mid_opt is Some && !match_exists(store.matches@, mid_opt->0)))
            &&& (r == Err::<MessageHistoryResponse, ApiError>(ApiError::Forbidden) <==> (from_opt
                is Some && mid_opt is Some && match_exists(store.matches@, mid_opt->0)
                && !participant_of(store.matches@, mid_opt->0, from_opt->0)))
            &&& (r is Ok <==> (from_opt is Some && mid_opt is Some && participant_of(
                store.matches@,
                mid_opt->0,
                from_opt->0,
            ) && cursor_ok(*query)))
        }),
        r matches Ok(resp) ==> ({
            let mid = uuid_of(match_id_str@)->0;
            let cursor = match query.cursor {
                Some(cs) => rfc3339_of(cs@),
                None => None,
            };
            let sel = msgs_after(store.messages@, mid, cursor);
            let lim = effective_limit(query.limit);
            &&& resp.messages@.len() == (if sel.len() <= lim {
                sel.len() as int
            } else {
                lim
            })
            &&& forall|j: int|
                0 <= j < resp.messages@.len() ==> message_rendered(
                    #[trigger] resp.messages@[j],
                    sel[j],
                )
        }),
{
    let from = match parse_uuid(requester) {
        Some(v) => v,
        None => {
            return Err(ApiError::Unauthorized);
        },
    };
    let mid = match parse_uuid(match_id_str) {
        Some(v) => v,
        None => {
            return Err(ApiError::InvalidInput);
        },
    };
    let midx = match store.match_index(mid) {
        Some(i) => i,
        None => {
            return Err(ApiError::NotFound);
        },
    };
    proof {
        // a single row carries this id, so participant checks agree
        assert forall|i: int|
            0 <= i < store.matches@.len() && (#[trigger] store.matches@[i]).id
                == mid implies i == midx as int by {}
    }
    if !(store.matches[midx].user1_id == from || store.matches[midx].user2_id == from) {
        return Err(ApiError::Forbidden);
    }
    let cursor: Option<i64> = match &query.cursor {
        Some(cs) => {
            match parse_rfc3339_micros(cs.as_str()) {
                Some(t) => Some(t),
                None => {
                    return Err(ApiError::InvalidInput);
                },
            }
        },
        None => None,
    };
    let lim_i64: i64 = match query.limit {
        Some(l) => {
            if l < 0 {
                0
            } else if l > 100 {
                100
            } else {
                l
            }
        },
        None => 50,
    };
    let lim: usize = lim_i64 as usize;
    let mut out: Vec<Message> = Vec::new();
    let mut i: usize = 0;
    while i < store.messages.len()
        invariant
            0 <= i <= store.messages@.len(),
            lim == effective_limit(query.limit),
            ({
                let sel = msgs_after(store.messages@.take(i as int), mid, cursor);
                &&& out@.len() == (if sel.len() <= lim {
                    sel.len() as int
                } else {
                    lim as int
                })
                &&& forall|j: int|
                    0 <= j < out@.len() ==> message_rendered(#[trigger] out@[j], sel[j])
            }),
        decreases store.messages@.len() - i,
    {
        proof {
            assert(store.messages@.take(i as int + 1).drop_last() =~= store.messages@.take(
                i as int,
            ));
            assert(store.messages@.take(i as int + 1).last() == store.messages@[i as int]);
        }
        let m = &store.messages[i];
        let keep = m.match_id == mid && (match cursor {
            Some(c) => m.created_at > c,
            None => true,
        });
        if keep && out.len() < lim {
            out.push(
                Message {
                    id: format_uuid(m.id),
                    sender_id: format_uuid(m.sender_id),
                    text: m.text.clone(),
                    created_at: format_rfc3339_micros(m.created_at),
                },
            );
        }
        i = i + 1;
    }
    proof {
        assert(store.messages@.take(store.messages@.len() as int) =~= store.messages@);
    }
    Ok(MessageHistoryResponse { messages: out })
}

/// Appending a message selects it as the newest of its match and leaves
/// every other match's newest message alone.
pub proof fn lemma_last_msg_push(messages: Seq<MessageRec>, m: MessageRec, match_id: u128)
    ensures
        m.match_id == match_id ==> last_msg(messages.push(m), match_id) == Some(m),
        m.match_id != match_id ==> last_msg(messages.push(m), match_id) == last_msg(
            messages,
            match_id,
        ),
{
    assert(messages.push(m).drop_last() =~= messages);
}

/// How sending reshapes the match table: row `i`, the one carrying the
/// match id, keeps its identity and gains the new message as its
/// denormalized tail; every other row is untouched.
pub open spec fn tail_refreshed(
    before: Seq<MatchRec>,
    after: Seq<MatchRec>,
    mid: u128,
    msg: MessageRec,
    i: int,
) -> bool {
    &&& 0 <= i < before.len()
    &&& before[i].id == mid
    &&& after.len() == before.len()
    &&& forall|k: int| 0 <= k < after.len() && k != i ==> after[k] == before[k]
    &&& after[i].id == mid
    &&& after[i].user1_id == before[i].user1_id
    &&& after[i].user2_id == before[i].user2_id
    &&& after[i].created_at == before[i].created_at
    &&& after[i].last_message == Some(msg.text)
    &&& after[i].last_message_at == Some(msg.created_at)
}

/// Appends a message to a match on behalf of a participant and refreshes
/// the match's denormalized tail in the same step. Fails with
/// `Unauthorized` on an unusable caller id, `InvalidInput` on a malformed
/// match id or blank text, `NotFound` when no match carries the id,
/// `Forbidden` when the caller is not a participant, and `Internal` when
/// the id space or the clock range is exhausted; an error leaves the store
/// untouched.
#[verifier::rlimit(100)]
pub fn send_message(
    store: &mut Store,
    requester: &str,
    match_id_str: &str,
    body: &SendMessageRequest,
    now: i64,
) -> (r: Result<Message, ApiError>)
    requires
        old(store).wf(),
    ensures
        final(store).wf(),
        r matches Err(e) ==> *final(store) == *old(store),
        ({
            let from_opt = uuid_of(requester@);
            let mid_opt = uuid_of(match_id_str@);
            let blank = crate::util::blank_chars(body.text@);
            &&& (r == Err::<Message, ApiError>(ApiError::Unauthorized) <==> from_opt is None)
            &&& (r == Err::<Message, ApiError>(ApiError::InvalidInput) <==> (from_opt is Some && (
            mid_opt is None || blank)))
            &&& (r == Err::<Message, ApiError>(ApiError::NotFound) <==> (from_opt is Some && (
            mid_opt matches Some(mid) && !blank && !match_exists(old(store).matches@, mid))))
            &&& (r == Err::<Message, ApiError>(ApiError::Forbidden) <==> (from_opt is Some && (
            mid_opt matches Some(mid) && !blank && match_exists(old(store).matches@, mid)
                && !participant_of(old(store).matches@, mid, from_opt->0))))
            &&& (r == Err::<Message, ApiError>(ApiError::Internal) <==> (from_opt is Some && (
            mid_opt matches Some(mid) && !blank && participant_of(
                old(store).matches@,
                mid,
                from_opt->0,
            ) && (old(store).next_id == u128::MAX || old(store).clock >= TS_MAX_MICROS))))
            &&& (r is Ok <==> (from_opt is Some && mid_opt is Some && !blank && participant_of(
                old(store).matches@,
                mid_opt->0,
                from_opt->0,
            ) && old(store).next_id < u128::MAX && old(store).clock < TS_MAX_MICROS))
        }),
        r matches Ok(out) ==> ({
            let from = uuid_of(requester@)->0;
            let mid = uuid_of(match_id_str@)->0;
            let msg = final(store).messages@.last();
            &&& final(store).messages@ == old(store).messages@.push(msg)
            &&& msg.id == old(store).next_id
            &&& msg.match_id == mid
            &&& msg.sender_id == from
            &&& msg.text == body.text
            &&& msg.is_read == false
            &&& msg.created_at == final(store).clock
            &&& old(store).clock < final(store).clock <= TS_MAX_MICROS
            &&& (old(store).clock < now <= TS_MAX_MICROS ==> final(store).clock == now)
            &&& final(store).matches@.len() == old(store).matches@.len()
            &&& exists|i: int|
                tail_refreshed(old(store).matches@, final(store).matches@, mid, msg, i)
            &&& message_rendered(out, msg)
            &&& final(store).next_id == old(store).next_id + 1
            &&& final(store).users == old(store).users
            &&& final(store).profiles == old(store).profiles
            &&& final(store).images == old(store).images
            &&& final(store).prompts == old(store).prompts
            &&& final(store).interactions == old(store).interactions
        }),
{
    let from = match parse_uuid(requester) {
        Some(v) => v,
        None => {
            return Err(ApiError::Unauthorized);
        },
    };
    let mid = match parse_uuid(match_id_str) {
        Some(v) => v,
        None => {
            return Err(ApiError::InvalidInput);
        },
    };
    if is_blank(body.text.as_str()) {
        return Err(ApiError::InvalidInput);
    }
    let midx = match store.match_index(mid) {
        Some(i) => i,
        None => {
            return Err(ApiError::NotFound);
        },
    };
    proof {
        assert forall|i: int|
            0 <= i < store.matches@.len() && (#[trigger] store.matches@[i]).id
                == mid implies i == midx as int by {}
    }
    if !(store.matches[midx].user1_id == from || store.matches[midx].user2_id == from) {
        return Err(ApiError::Forbidden);
    }
    if store.next_id == u128::MAX || store.clock >= TS_MAX_MICROS {
        return Err(ApiError::Internal);
    }
    let ts: i64 = if now > store.clock {
        if now <= TS_MAX_MICROS {
            now
        } else {
            TS_MAX_MICROS
        }
    } else {
        store.clock + 1
    };
    let id = store.next_id;
    store.next_id = id + 1;
    store.clock = ts;
    let msg = MessageRec {
        id,
        match_id: mid,
        sender_id: from,
        text: body.text.clone(),
        created_at: ts,
        is_read: false,
    };
    let ghost gmsg = msg;
    let ghost old_messages = store.messages@;
    let ghost old_matches = store.matches@;
    let out = Message {
        id: format_uuid(id),
        sender_id: format_uuid(from),
        text: body.text.clone(),
        created_at: format_rfc3339_micros(ts),
    };
    store.messages.push(msg);
    let mut mrec = store.matches.remove(midx);
    mrec.last_message = Some(body.text.clone());
    mrec.last_message_at = Some(ts);
    let ghost gmrec = mrec;
    store.matches.insert(midx, mrec);
    proof {
        crate::store::lemma_seq_remove_insert(old_matches, midx as int, gmrec);
        assert(store.matches@ =~= old_matches.update(midx as int, gmrec));
        let msgs = store.messages@;
        let ms = store.matches@;
        // ids, instants and bounds of the grown message table
        assert forall|x: int, y: int|
            0 <= x < y < msgs.len() implies #[trigger] msgs[x].id != #[trigger] msgs[y].id by {
            if y == msgs.len() - 1 {
                assert(msgs[x].id < id);
            }
        }
        assert forall|x: int, y: int|
            0 <= x < y < msgs.len() implies #[trigger] msgs[x].created_at
            < #[trigger] msgs[y].created_at by {
            if y == msgs.len() - 1 {
                assert(msgs[x].created_at <= old(store).clock);
            }
        }
        // every message still sits in a match with the same id and pair
        assert forall|k: int| 0 <= k < msgs.len() implies message_has_home(
            #[trigger] msgs[k],
            ms,
        ) by {
            if k < msgs.len() - 1 {
                assert(message_has_home(msgs[k], old_matches));
                let h = choose|h: int|
                    0 <= h < old_matches.len() && (#[trigger] old_matches[h]).id
                        == msgs[k].match_id && (msgs[k].sender_id == old_matches[h].user1_id
                        || msgs[k].sender_id == old_matches[h].user2_id);
                assert(ms[h].id == old_matches[h].id && ms[h].user1_id == old_matches[h].user1_id
                    && ms[h].user2_id == old_matches[h].user2_id);
            } else {
                assert(ms[midx as int].id == mid);
            }
        }
        // the denormalized tail of every match agrees with the grown table
        assert forall|k: int|
            0 <= k < ms.len() implies match last_msg(msgs, (#[trigger] ms[k]).id) {
            Some(m) => ms[k].last_message == Some(m.text) && ms[k].last_message_at == Some(
                m.created_at,
            ),
            None => ms[k].last_message matches None && ms[k].last_message_at matches None,
        } by {
            lemma_last_msg_push(old_messages, gmsg, ms[k].id);
            if k == midx as int {
                assert(ms[k].id == mid);
                assert(last_msg(msgs, mid) == Some(gmsg));
            } else {
                assert(ms[k] == old_matches[k]);
                assert(old_matches[k].id != mid);
            }
        }
        assert(tail_refreshed(old_matches, store.matches@, mid, gmsg, midx as int));
    }
    Ok(out)
}

/// The matches one user takes part in, in table order.
pub open spec fn user_matches(matches: Seq<MatchRec>, u: u128) -> Seq<MatchRec>
    decreases matches.len(),
{
    if matches.len() == 0 {
        Seq::empty()
    } else if matches.last().user1_id == u || matches.last().user2_id == u {
        user_matches(matches.drop_last(), u).push(matches.last())
    } else {
        user_matches(matches.drop_last(), u)
    }
}

/// Every selected match is a row of the table and joins the user.
pub proof fn lemma_user_matches_membership(matches: Seq<MatchRec>, u: u128)
    ensures
        forall|k: int|
            0 <= k < user_matches(matches, u).len() ==> (exists|i: int|
                0 <= i < matches.len() && #[trigger] user_matches(matches, u)[k] == matches[i]),
        forall|k: int|
            0 <= k < user_matches(matches, u).len() ==> ((#[trigger] user_matches(
                matches,
                u,
            )[k]).user1_id == u || user_matches(matches, u)[k].user2_id == u),
    decreases matches.len(),
{
    if matches.len() > 0 {
        let prefix = matches.drop_last();
        lemma_user_matches_membership(prefix, u);
        let sel = user_matches(matches, u);
        let selp = user_matches(prefix, u);
        assert forall|k: int| 0 <= k < selp.len() implies (exists|i: int|
            0 <= i < matches.len() && #[trigger] selp[k] == matches[i]) by {
            let i = choose|i: int| 0 <= i < prefix.len() && selp[k] == prefix[i];
            assert(matches[i] == prefix[i]);
        }
        if sel.len() > selp.len() {
            assert(sel[sel.len() - 1] == matches[matches.len() - 1]);
        }
    }
}

/// The newest message of a match is one of the table's rows.
pub proof fn lemma_last_msg_membership(messages: Seq<MessageRec>, match_id: u128)
    ensures
        last_msg(messages, match_id) matches Some(m) ==> exists|i: int|
            0 <= i < messages.len() && messages[i] == m,
    decreases messages.len(),
{
    if messages.len() > 0 {
        lemma_last_msg_membership(messages.drop_last(), match_id);
        match last_msg(messages, match_id) {
            Some(m) => {
                if messages.last().match_id == match_id {
                } else {
                    let i = choose|i: int|
                        0 <= i < messages.drop_last().len() && messages.drop_last()[i] == m;
                    assert(messages[i] == m);
                }
            },
            None => {},
        }
    }
}

/// List order of the match list: newer activity first, matches that never
/// carried a message last. Reflexive and total.
pub open spec fn summary_le(a: MatchRec, b: MatchRec) -> bool {
    match (a.last_message_at, b.last_message_at) {
        (Some(x), Some(y)) => x >= y,
        (Some(_), None) => true,
        (None, None) => true,
        (None, Some(_)) => false,
    }
}

/// Decides the list order of two match rows.
fn le_exec(a: &MatchRec, b: &MatchRec) -> (r: bool)
    ensures
        r == summary_le(*a, *b),
{
    match (a.last_message_at, b.last_message_at) {
        (Some(x), Some(y)) => x >= y,
        (Some(_), None) => true,
        (None, None) => true,
        (None, Some(_)) => false,
    }
}

/// Copies a match row; the copy equals the original.
fn clone_match(m: &MatchRec) -> (r: MatchRec)
    ensures
        r == *m,
{
    MatchRec {
        id: m.id,
        user1_id: m.user1_id,
        user2_id: m.user2_id,
        created_at: m.created_at,
        last_message: clone_opt_string(&m.last_message),
        last_message_at: m.last_message_at,
    }
}

/// Whether a served match summary reads as the stored row, seen from one
/// participant's side.
pub open spec fn summary_renders(s: MatchSummary, m: MatchRec, u: u128) -> bool {
    &&& s.id@ == uuid_str_of(m.id)
    &&& s.with_user.id@ == uuid_str_of(
        if m.user1_id == u {
            m.user2_id
        } else {
            m.user1_id
        },
    )
    &&& s.with_user.is_profile_complete == true
    &&& s.with_user.is_new_user == false
    &&& match m.last_message_at {
        Some(t) => (s.last_message matches Some(p) && p.created_at@ == rfc3339_str_of(t)
            && p.is_read == false && (m.last_message matches Some(txt) && p.text == txt)),
        None => s.last_message is None,
    }
}

/// Lists the caller's matches, at most fifty, newest activity first —
/// ordered by the denormalized last-message instant, never-messaged
/// matches last — each summarized with the counterpart's id and a preview
/// of the last message if any. Fails with `Unauthorized` on an unusable
/// caller id.
#[verifier::rlimit(100)]
#[verifier::loop_isolation(false)]
pub fn get_matches(store: &Store, requester: &str) -> (r: Result<Vec<MatchSummary>, ApiError>)
    requires
        store.wf(),
    ensures
        r is Ok <==> uuid_of(requester@) is Some,
        r matches Err(e) ==> e == ApiError::Unauthorized,
        r matches Ok(out) ==> ({
            let u = uuid_of(requester@)->0;
            let sel = user_matches(store.matches@, u);
            &&& out@.len() == (if sel.len() <= 50 {
                sel.len() as int
            } else {
                50int
            })
            &&& exists|perm: Seq<int>|
                {
                    &&& perm.len() == sel.len()
                    &&& forall|j: int| 0 <= j < perm.len() ==> 0 <= #[trigger] perm[j] < sel.len()
                    &&& forall|x: int, y: int|
                        0 <= x < y < perm.len() ==> #[trigger] perm[x] != #[trigger] perm[y]
                    &&& forall|x: int, y: int|
                        0 <= x < y < perm.len() ==> summary_le(
                            sel[#[trigger] perm[x]],
                            sel[#[trigger] perm[y]],
                        )
                    &&& forall|j: int|
                        0 <= j < out@.len() ==> summary_renders(
                            #[trigger] out@[j],
                            sel[perm[j]],
                            u,
                        )
                }
        }),
{
    let u = match parse_uuid(requester) {
        Some(v) => v,
        None => {
            return Err(ApiError::Unauthorized);
        },
    };
    let ghost sel = user_matches(store.matches@, u);
    // collect the caller's matches in table order
    let mut mine: Vec<MatchRec> = Vec::new();
    let mut i: usize = 0;
    while i < store.matches.len()
        invariant
            0 <= i <= store.matches@.len(),
            mine@.len() == user_matches(store.matches@.take(i as int), u).len(),
            forall|j: int|
                0 <= j < mine@.len() ==> #[trigger] mine@[j] == user_matches(
                    store.matches@.take(i as int),
                    u,
                )[j],
        decreases store.matches@.len() - i,
    {
        proof {
            assert(store.matches@.take(i as int + 1).drop_last() =~= store.matches@.take(
                i as int,
            ));
            assert(store.matches@.take(i as int + 1).last() == store.matches@[i as int]);
        }
        let m = &store.matches[i];
        if m.user1_id == u || m.user2_id == u {
            mine.push(clone_match(m));
        }
        i = i + 1;
    }
    proof {
        assert(store.matches@.take(store.matches@.len() as int) =~= store.matches@);
        assert(mine@ =~= sel);
    }
    // sort by newest activity: repeatedly extract the front-most row
    let mut sorted: Vec<MatchRec> = Vec::new();
    let ghost mut perm: Seq<int> = Seq::empty();
    let ghost mut rem: Seq<int> = Seq::new(sel.len(), |q: int| q);
    while mine.len() > 0
        invariant
            mine@.len() + sorted@.len() == sel.len(),
            rem.len() == mine@.len(),
            perm.len() == sorted@.len(),
            forall|q: int|
                0 <= q < rem.len() ==> 0 <= #[trigger] rem[q] < sel.len() && mine@[q]
                    == sel[rem[q]],
            forall|j: int|
                0 <= j < perm.len() ==> 0 <= #[trigger] perm[j] < sel.len() && sorted@[j]
                    == sel[perm[j]],
            forall|x: int, y: int| 0 <= x < y < perm.len() ==> #[trigger] perm[x] != #[trigger] perm[y],
            forall|x: int, y: int| 0 <= x < y < rem.len() ==> #[trigger] rem[x] != #[trigger] rem[y],
            forall|x: int, y: int|
                0 <= x < perm.len() && 0 <= y < rem.len() ==> #[trigger] perm[x] != #[trigger] rem[y],
            forall|x: int, y: int|
                0 <= x < y < sorted@.len() ==> summary_le(
                    #[trigger] sorted@[x],
                    #[trigger] sorted@[y],
                ),
            forall|x: int, q: int|
                0 <= x < sorted@.len() && 0 <= q < mine@.len() ==> summary_le(
                    #[trigger] sorted@[x],
                    #[trigger] mine@[q],
                ),
        decreases mine@.len(),
    {
        let mut best: usize = 0;
        let mut q: usize = 1;
        while q < mine.len()
            invariant
                0 <= best < q <= mine@.len(),
                forall|w: int| 0 <= w < q ==> summary_le(mine@[best as int], #[trigger] mine@[w]),
            decreases mine@.len() - q,
        {
            if !le_exec(&mine[best], &mine[q]) {
                best = q;
            }
            q = q + 1;
        }
        let picked = mine.remove(best);
        let ghost gpicked = picked;
        sorted.push(picked);
        proof {
            let ghost x = rem[best as int];
            perm = perm.push(x);
            rem = rem.remove(best as int);
            assert(sorted@.last() == sel[x]);
            assert forall|xx: int, yy: int|
                0 <= xx < perm.len() && 0 <= yy < rem.len() implies #[trigger] perm[xx]
                != #[trigger] rem[yy] by {
                let old_rem = rem.insert(best as int, x);
                if yy < best as int {
                } else {
                }
            }
        }
    }
    // keep the fifty front-most rows and render them
    let ghost full_sorted = sorted@;
    sorted.truncate(50);
    let mut out: Vec<MatchSummary> = Vec::new();
    let mut k: usize = 0;
    while k < sorted.len()
        invariant
            0 <= k <= sorted@.len(),
            out@.len() == k,
            forall|j: int|
                0 <= j < out@.len() ==> summary_renders(#[trigger] out@[j], sorted@[j], u),
        decreases sorted@.len() - k,
    {
        let m = &sorted[k];
        proof {
            // tie the row to the store to bound its last-message instant
            assert(sorted@[k as int] == full_sorted[k as int]);
            let si = perm[k as int];
            assert(0 <= si < sel.len() && full_sorted[k as int] == sel[si]);
            lemma_user_matches_membership(store.matches@, u);
            let i = choose|i: int| 0 <= i < store.matches@.len() && sel[si] == store.matches@[i];
            lemma_last_msg_membership(store.messages@, store.matches@[i].id);
            match last_msg(store.messages@, store.matches@[i].id) {
                Some(lm) => {
                    let w = choose|w: int|
                        0 <= w < store.messages@.len() && store.messages@[w] == lm;
                    assert(0 <= lm.created_at <= store.clock);
                },
                None => {},
            }
        }
        let preview: Option<MessagePreview> = match (&m.last_message, m.last_message_at) {
            (Some(txt), Some(t)) => Some(
                MessagePreview {
                    text: txt.clone(),
                    created_at: format_rfc3339_micros(t),
                    is_read: false,
                },
            ),
            _ => None,
        };
        let other = if m.user1_id == u {
            m.user2_id
        } else {
            m.user1_id
        };
        out.push(
            MatchSummary {
                id: format_uuid(m.id),
                with_user: UserSummary {
                    id: format_uuid(other),
                    is_profile_complete: true,
                    is_new_user: false,
                },
                last_message: preview,
            },
        );
        k = k + 1;
    }
    proof {
        assert forall|j: int| 0 <= j < out@.len() implies summary_renders(
            #[trigger] out@[j],
            sel[perm[j]],
            u,
        ) by {
            assert(summary_renders(out@[j], sorted@[j], u));
            assert(sorted@[j] == full_sorted[j]);
        }
        assert forall|x: int, y: int| 0 <= x < y < perm.len() implies summary_le(
            sel[#[trigger] perm[x]],
            sel[#[trigger] perm[y]],
        ) by {
            assert(full_sorted[x] == sel[perm[x]] && full_sorted[y] == sel[perm[y]]);
            assert(summary_le(full_sorted[x], full_sorted[y]));
        }
    }
    Ok(out)
}

} // verus!
