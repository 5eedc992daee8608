//! The interaction ledger: recording a directed LIKE or PASS against
//! another user, with last-write-wins upsert semantics — at most one row
//! per ordered pair, and a second recording replaces the first.

use crate::errors::ApiError;
use crate::inputs::InteractRequest;
use crate::store::{
    has_interaction, has_like, ledger_row_ok, ledger_unique, user_exists, InteractionRec, Store,
};
use crate::util::{clone_opt_string, string_is};
use vstd::prelude::*;

verus! {

/// The ledger row that a request from `from` against `to` writes.
pub open spec fn interaction_of(from: u128, to: u128, req: InteractRequest) -> InteractionRec {
    InteractionRec {
        from_user_id: from,
        to_user_id: to,
        action: req.action,
        context_type: match req.context {
            Some(c) => Some(c.kind),
            None => None,
        },
        context_id: match req.context {
            Some(c) => Some(c.id),
            None => None,
        },
        comment: req.comment,
    }
}

/// The position of the ledger row for the ordered pair; meaningful only
/// when such a row exists.
pub open spec fn ledger_pos(ledger: Seq<InteractionRec>, from: u128, to: u128) -> int {
    choose|i: int|
        0 <= i < ledger.len() && ledger[i].from_user_id == from && ledger[i].to_user_id == to
}

/// What recording does to the ledger: replace the pair's row in place if
/// one is there, append otherwise.
pub open spec fn upsert_ledger(ledger: Seq<InteractionRec>, rec: InteractionRec) -> Seq<
    InteractionRec,
> {
    if has_interaction(ledger, rec.from_user_id, rec.to_user_id) {
        ledger.update(ledger_pos(ledger, rec.from_user_id, rec.to_user_id), rec)
    } else {
        ledger.push(rec)
    }
}

/// Whether the request carries an acceptable action and context.
pub open spec fn valid_request(req: InteractRequest) -> bool {
    &&& (req.action@ == "LIKE"@ || req.action@ == "PASS"@)
    &&& match req.context {
        Some(c) => c.kind@ == "IMAGE"@ || c.kind@ == "PROMPT"@,
        None => true,
    }
}

/// What one upsert leaves behind: the pair's row now reads as `rec`, every
/// other pair's row is untouched, uniqueness is kept, and the ledger grew
/// exactly when the pair was new.
pub proof fn lemma_upsert_ledger_props(ledger: Seq<InteractionRec>, rec: InteractionRec)
    requires
        ledger_unique(ledger),
    ensures
        ledger_unique(upsert_ledger(ledger, rec)),
        has_interaction(upsert_ledger(ledger, rec), rec.from_user_id, rec.to_user_id),
        has_like(upsert_ledger(ledger, rec), rec.from_user_id, rec.to_user_id) <==> rec.action@
            == "LIKE"@,
        forall|f: u128, t: u128|
            !(f == rec.from_user_id && t == rec.to_user_id) ==> (#[trigger] has_like(
                upsert_ledger(ledger, rec),
                f,
                t,
            ) <==> has_like(ledger, f, t)),
        forall|f: u128, t: u128|
            !(f == rec.from_user_id && t == rec.to_user_id) ==> (#[trigger] has_interaction(
                upsert_ledger(ledger, rec),
                f,
                t,
            ) <==> has_interaction(ledger, f, t)),
        forall|i: int|
            0 <= i < upsert_ledger(ledger, rec).len() ==> (#[trigger] upsert_ledger(ledger, rec)[i]
                == rec || (i < ledger.len() && upsert_ledger(ledger, rec)[i] == ledger[i])),
        upsert_ledger(ledger, rec).len() == (if has_interaction(
            ledger,
            rec.from_user_id,
            rec.to_user_id,
        ) {
            ledger.len() as int
        } else {
            ledger.len() as int + 1
        }),
        has_interaction(ledger, rec.from_user_id, rec.to_user_id)
            ==> upsert_ledger(ledger, rec)[ledger_pos(
            ledger,
            rec.from_user_id,
            rec.to_user_id,
        )] == rec,
        !has_interaction(ledger, rec.from_user_id, rec.to_user_id) ==> upsert_ledger(ledger, rec)
            == ledger.push(rec),
{
    let from = rec.from_user_id;
    let to = rec.to_user_id;
    let l = upsert_ledger(ledger, rec);
    if has_interaction(ledger, from, to) {
        let p = ledger_pos(ledger, from, to);
        assert(0 <= p < ledger.len() && ledger[p].from_user_id == from && ledger[p].to_user_id
            == to);
        assert(l[p] == rec);
        // any other row keeps its pair, and no other row carries this pair
        assert forall|f: u128, t: u128|
            !(f == from && t == to) implies (#[trigger] has_like(l, f, t) <==> has_like(
            ledger,
            f,
            t,
        )) by {
            if has_like(ledger, f, t) {
                let i = choose|i: int|
                    0 <= i < ledger.len() && ledger[i].from_user_id == f && ledger[i].to_user_id
                        == t && ledger[i].action@ == "LIKE"@;
                assert(i != p);
                assert(l[i] == ledger[i]);
            }
            if has_like(l, f, t) {
                let i = choose|i: int|
                    0 <= i < l.len() && l[i].from_user_id == f && l[i].to_user_id == t
                        && l[i].action@ == "LIKE"@;
                assert(i != p);
                assert(l[i] == ledger[i]);
            }
        }
        assert forall|f: u128, t: u128|
            !(f == from && t == to) implies (#[trigger] has_interaction(l, f, t)
            <==> has_interaction(ledger, f, t)) by {
            if has_interaction(ledger, f, t) {
                let i = choose|i: int|
                    0 <= i < ledger.len() && ledger[i].from_user_id == f && ledger[i].to_user_id
                        == t;
                assert(i != p);
                assert(l[i] == ledger[i]);
            }
            if has_interaction(l, f, t) {
                let i = choose|i: int|
                    0 <= i < l.len() && l[i].from_user_id == f && l[i].to_user_id == t;
                assert(i != p);
                assert(l[i] == ledger[i]);
            }
        }
        if rec.action@ == "LIKE"@ {
            assert(has_like(l, from, to));
        } else {
            if has_like(l, from, to) {
                let i = choose|i: int|
                    0 <= i < l.len() && l[i].from_user_id == from && l[i].to_user_id == to
                        && l[i].action@ == "LIKE"@;
                assert(i == p);
            }
        }
    } else {
        assert(l == ledger.push(rec));
        assert(l[l.len() - 1] == rec);
        assert forall|f: u128, t: u128|
            !(f == from && t == to) implies (#[trigger] has_like(l, f, t) <==> has_like(
            ledger,
            f,
            t,
        )) by {
            if has_like(ledger, f, t) {
                let i = choose|i: int|
                    0 <= i < ledger.len() && ledger[i].from_user_id == f && ledger[i].to_user_id
                        == t && ledger[i].action@ == "LIKE"@;
                assert(l[i] == ledger[i]);
            }
            if has_like(l, f, t) {
                let i = choose|i: int|
                    0 <= i < l.len() && l[i].from_user_id == f && l[i].to_user_id == t
                        && l[i].action@ == "LIKE"@;
                assert(i < ledger.len() && l[i] == ledger[i]);
            }
        }
        assert forall|f: u128, t: u128|
            !(f == from && t == to) implies (#[trigger] has_interaction(l, f, t)
            <==> has_interaction(ledger, f, t)) by {
            if has_interaction(ledger, f, t) {
                let i = choose|i: int|
                    0 <= i < ledger.len() && ledger[i].from_user_id == f && ledger[i].to_user_id
                        == t;
                assert(l[i] == ledger[i]);
            }
            if has_interaction(l, f, t) {
                let i = choose|i: int|
                    0 <= i < l.len() && l[i].from_user_id == f && l[i].to_user_id == t;
                assert(i < ledger.len() && l[i] == ledger[i]);
            }
        }
        if rec.action@ != "LIKE"@ {
            if has_like(l, from, to) {
                let i = choose|i: int|
                    0 <= i < l.len() && l[i].from_user_id == from && l[i].to_user_id == to
                        && l[i].action@ == "LIKE"@;
                if i < ledger.len() {
                    assert(has_interaction(ledger, from, to));
                }
            }
        }
    }
}

/// Law: recording the same directed interaction twice overwrites rather
/// than duplicates. The second recording leaves the ledger exactly as if
/// only it had been recorded, the table does not grow past the first
/// write, and at most one row per ordered pair remains.
pub proof fn lemma_upsert_overwrites(
    ledger: Seq<InteractionRec>,
    r1: InteractionRec,
    r2: InteractionRec,
)
    requires
        ledger_unique(ledger),
        r1.from_user_id == r2.from_user_id,
        r1.to_user_id == r2.to_user_id,
    ensures
        upsert_ledger(upsert_ledger(ledger, r1), r2) == upsert_ledger(ledger, r2),
        upsert_ledger(upsert_ledger(ledger, r1), r2).len() == upsert_ledger(ledger, r1).len(),
        ledger_unique(upsert_ledger(upsert_ledger(ledger, r1), r2)),
{
    let from = r1.from_user_id;
    let to = r1.to_user_id;
    let l1 = upsert_ledger(ledger, r1);
    let l2 = upsert_ledger(l1, r2);
    lemma_upsert_ledger_props(ledger, r1);
    lemma_upsert_ledger_props(l1, r2);
    lemma_upsert_ledger_props(ledger, r2);
    if has_interaction(ledger, from, to) {
        let p = ledger_pos(ledger, from, to);
        assert(0 <= p < ledger.len() && ledger[p].from_user_id == from && ledger[p].to_user_id
            == to);
        assert(l1 == ledger.update(p, r1));
        let q = ledger_pos(l1, from, to);
        assert(0 <= q < l1.len() && l1[q].from_user_id == from && l1[q].to_user_id == to);
        assert(q == p) by {
            if q != p {
                assert(l1[q] == ledger[q]);
            }
        }
        assert(l2 == l1.update(p, r2));
        assert(l2 =~= ledger.update(p, r2));
    } else {
        assert(l1 == ledger.push(r1));
        let q = ledger_pos(l1, from, to);
        assert(0 <= q < l1.len() && l1[q].from_user_id == from && l1[q].to_user_id == to);
        assert(q == ledger.len()) by {
            if q < ledger.len() {
                assert(l1[q] == ledger[q]);
                assert(has_interaction(ledger, from, to));
            }
        }
        assert(l2 == l1.update(q, r2));
        assert(l2 =~= ledger.push(r2));
    }
}

/// Records a directed interaction: at most one ledger row per ordered
/// pair, and a repeated recording replaces action, context and comment in
/// place. Fails with `InvalidInput` on an unacceptable action or context
/// and with `InvalidReference` when either side does not exist.
pub fn interact(store: &mut Store, from_user_id: u128, to_user_id: u128, body: &InteractRequest)
    -> (r: Result<(), ApiError>)
    requires
        old(store).wf(),
    ensures
        final(store).wf(),
        r is Ok <==> (valid_request(*body) && user_exists(old(store).users@, from_user_id)
            && user_exists(old(store).users@, to_user_id)),
        r matches Err(e) ==> ({
            &&& *final(store) == *old(store)
            &&& (e == ApiError::InvalidInput <==> !valid_request(*body))
            &&& (e == ApiError::InvalidInput || e == ApiError::InvalidReference)
        }),
        r is Ok ==> ({
            &&& final(store).interactions@ == upsert_ledger(
                old(store).interactions@,
                interaction_of(from_user_id, to_user_id, *body),
            )
            &&& final(store).users == old(store).users
            &&& final(store).profiles == old(store).profiles
            &&& final(store).images == old(store).images
            &&& final(store).prompts == old(store).prompts
            &&& final(store).matches == old(store).matches
            &&& final(store).messages == old(store).messages
            &&& final(store).next_id == old(store).next_id
            &&& final(store).clock == old(store).clock
        }),
{
    let action_ok = string_is(&body.action, "LIKE") || string_is(&body.action, "PASS");
    let context_ok = match &body.context {
        Some(c) => string_is(&c.kind, "IMAGE") || string_is(&c.kind, "PROMPT"),
        None => true,
    };
    if !(action_ok && context_ok) {
        return Err(ApiError::InvalidInput);
    }
    if !store.has_user(from_user_id) || !store.has_user(to_user_id) {
        return Err(ApiError::InvalidReference);
    }
    let rec = InteractionRec {
        from_user_id,
        to_user_id,
        action: body.action.clone(),
        context_type: match &body.context {
            Some(c) => Some(c.kind.clone()),
            None => None,
        },
        context_id: match &body.context {
            Some(c) => Some(c.id.clone()),
            None => None,
        },
        comment: clone_opt_string(&body.comment),
    };
    let ghost grec = rec;
    let ghost before = store.interactions@;
    proof {
        assert(grec == interaction_of(from_user_id, to_user_id, *body));
        lemma_upsert_ledger_props(before, grec);
    }
    match store.interaction_index(from_user_id, to_user_id) {
        Some(i) => {
            let ghost p = crate::interact_queries::ledger_pos(before, from_user_id, to_user_id);
            proof {
                assert(0 <= p < before.len() && before[p].from_user_id == from_user_id
                    && before[p].to_user_id == to_user_id);
                assert(p == i as int);
            }
            store.interactions.remove(i);
            store.interactions.insert(i, rec);
            proof {
                crate::store::lemma_seq_remove_insert(before, i as int, grec);
                assert(store.interactions@ =~= before.update(i as int, grec));
            }
        },
        None => {
            store.interactions.push(rec);
        },
    }
    proof {
        let l = store.interactions@;
        assert(l == upsert_ledger(before, grec));
        assert forall|k: int| 0 <= k < l.len() implies ledger_row_ok(
            #[trigger] l[k],
            store.users@,
        ) by {
            assert(l[k] == grec || (k < before.len() && l[k] == before[k]));
        }
    }
    Ok(())
}

} // verus!
