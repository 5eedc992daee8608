//! Operations on the prompt table: counting, capped insertion, text
//! updates, deletion with order compaction, and ordered retrieval.

use crate::errors::ApiError;
use crate::store::{prompt_count, user_exists, PromptRec, Store};
use vstd::prelude::*;

verus! {

/// The prompts of one user, in table order; the table invariant makes
/// their display orders `0, 1, 2` in this order.
pub open spec fn user_prompts(prompts: Seq<PromptRec>, user_id: u128) -> Seq<PromptRec>
    decreases prompts.len(),
{
    if prompts.len() == 0 {
        Seq::empty()
    } else if prompts.last().user_id == user_id {
        user_prompts(prompts.drop_last(), user_id).push(prompts.last())
    } else {
        user_prompts(prompts.drop_last(), user_id)
    }
}

/// Extending the scanned prefix by one row extends the selection exactly
/// when the row belongs to the user.
pub proof fn lemma_user_prompts_take_step(prompts: Seq<PromptRec>, user_id: u128, i: int)
    requires
        0 <= i < prompts.len(),
    ensures
        prompts[i].user_id == user_id ==> user_prompts(prompts.take(i + 1), user_id)
            == user_prompts(prompts.take(i), user_id).push(prompts[i]),
        prompts[i].user_id != user_id ==> user_prompts(prompts.take(i + 1), user_id)
            == user_prompts(prompts.take(i), user_id),
        prompt_count(prompts.take(i + 1), user_id) == prompt_count(prompts.take(i), user_id)
            + if prompts[i].user_id == user_id {
            1nat
        } else {
            0nat
        },
{
    assert(prompts.take(i + 1).drop_last() =~= prompts.take(i));
    assert(prompts.take(i + 1).last() == prompts[i]);
}

/// A whole table is its own full prefix.
pub proof fn lemma_prompt_take_all(prompts: Seq<PromptRec>, user_id: u128)
    ensures
        user_prompts(prompts.take(prompts.len() as int), user_id) == user_prompts(
            prompts,
            user_id,
        ),
        prompt_count(prompts.take(prompts.len() as int), user_id) == prompt_count(
            prompts,
            user_id,
        ),
{
    assert(prompts.take(prompts.len() as int) =~= prompts);
}

/// The user's prompt count is the length of the user's selection.
pub proof fn lemma_prompt_count_is_sel_len(prompts: Seq<PromptRec>, user_id: u128)
    ensures
        prompt_count(prompts, user_id) == user_prompts(prompts, user_id).len(),
    decreases prompts.len(),
{
    if prompts.len() > 0 {
        lemma_prompt_count_is_sel_len(prompts.drop_last(), user_id);
    }
}

/// Removing a row lowers exactly its owner's count by one.
pub proof fn lemma_prompt_count_remove(prompts: Seq<PromptRec>, i: int, u: u128)
    requires
        0 <= i < prompts.len(),
    ensures
        prompt_count(prompts.remove(i), u) == prompt_count(prompts, u) - if prompts[i].user_id
            == u {
            1int
        } else {
            0int
        },
    decreases prompts.len(),
{
    if i == prompts.len() - 1 {
        assert(prompts.remove(i) =~= prompts.drop_last());
    } else {
        assert(prompts.remove(i).drop_last() =~= prompts.drop_last().remove(i));
        assert(prompts.remove(i).last() == prompts.last());
        lemma_prompt_count_remove(prompts.drop_last(), i, u);
    }
}

/// Counts see only the owner column, so two tables with the same owners
/// row by row have the same counts.
pub proof fn lemma_prompt_count_same_owners(s1: Seq<PromptRec>, s2: Seq<PromptRec>, u: u128)
    requires
        s1.len() == s2.len(),
        forall|k: int| 0 <= k < s1.len() ==> (#[trigger] s1[k]).user_id == (#[trigger] s2[k]).user_id,
    ensures
        prompt_count(s1, u) == prompt_count(s2, u),
    decreases s1.len(),
{
    if s1.len() > 0 {
        lemma_prompt_count_same_owners(s1.drop_last(), s2.drop_last(), u);
    }
}

/// A longer prefix never counts fewer prompts.
pub proof fn lemma_prompt_count_take_monotone(prompts: Seq<PromptRec>, u: u128, a: int, b: int)
    requires
        0 <= a <= b <= prompts.len(),
    ensures
        prompt_count(prompts.take(a), u) <= prompt_count(prompts.take(b), u),
    decreases b - a,
{
    if a < b {
        lemma_user_prompts_take_step(prompts, u, b - 1);
        lemma_prompt_count_take_monotone(prompts, u, a, b - 1);
    }
}

/// How many prompts a user owns; at most three by the table invariant.
#[verifier::rlimit(50)]
#[verifier::loop_isolation(false)]
pub fn count_prompts(store: &Store, user_id: u128) -> (r: i64)
    requires
        store.wf(),
    ensures
        r == prompt_count(store.prompts@, user_id),
        0 <= r <= 3,
{
    let mut c: usize = 0;
    let mut i: usize = 0;
    while i < store.prompts.len()
        invariant
            0 <= i <= store.prompts@.len(),
            c <= i,
            c == prompt_count(store.prompts@.take(i as int), user_id),
        decreases store.prompts@.len() - i,
    {
        proof {
            lemma_user_prompts_take_step(store.prompts@, user_id, i as int);
        }
        if store.prompts[i].user_id == user_id {
            c = c + 1;
        }
        i = i + 1;
    }
    proof {
        lemma_prompt_take_all(store.prompts@, user_id);
    }
    c as i64
}

/// Stores one more prompt for the user, appended at the next free display
/// order. Fails with `InvalidReference` when the user does not exist, with
/// `CapacityExceeded` when three prompts are already stored, and with
/// `Internal` when the id space is exhausted.
pub fn insert_prompt(store: &mut Store, user_id: u128, question: &str, answer: &str) -> (r: Result<
    (),
    ApiError,
>)
    requires
        old(store).wf(),
    ensures
        final(store).wf(),
        r is Ok <==> (user_exists(old(store).users@, user_id) && prompt_count(
            old(store).prompts@,
            user_id,
        ) < 3 && old(store).next_id < u128::MAX),
        r matches Err(e) ==> ({
            &&& *final(store) == *old(store)
            &&& (e == ApiError::InvalidReference <==> !user_exists(old(store).users@, user_id))
            &&& (e == ApiError::CapacityExceeded <==> (user_exists(old(store).users@, user_id)
                && prompt_count(old(store).prompts@, user_id) >= 3))
            &&& (e == ApiError::InvalidReference || e == ApiError::CapacityExceeded || e
                == ApiError::Internal)
        }),
        r is Ok ==> ({
            let rec = final(store).prompts@.last();
            &&& final(store).prompts@ == old(store).prompts@.push(rec)
            &&& rec.id == old(store).next_id
            &&& rec.user_id == user_id
            &&& rec.question@ == question@
            &&& rec.answer@ == answer@
            &&& rec.display_order as int == prompt_count(old(store).prompts@, user_id)
            &&& final(store).next_id == old(store).next_id + 1
            &&& final(store).users == old(store).users
            &&& final(store).profiles == old(store).profiles
            &&& final(store).images == old(store).images
            &&& final(store).interactions == old(store).interactions
            &&& final(store).matches == old(store).matches
            &&& final(store).messages == old(store).messages
            &&& final(store).clock == old(store).clock
        }),
{
    if !store.has_user(user_id) {
        return Err(ApiError::InvalidReference);
    }
    let count = count_prompts(store, user_id);
    if count >= 3 {
        return Err(ApiError::CapacityExceeded);
    }
    if store.next_id == u128::MAX {
        return Err(ApiError::Internal);
    }
    let id = store.next_id;
    store.next_id = id + 1;
    let rec = PromptRec {
        id,
        user_id,
        question: question.to_string(),
        answer: answer.to_string(),
        display_order: count as i32,
    };
    let ghost old_prompts = store.prompts@;
    store.prompts.push(rec);
    proof {
        let prs = store.prompts@;
        crate::store::lemma_messages_wf_counter_monotone(
            store.messages@,
            store.matches@,
            old(store).next_id,
            store.next_id,
            store.clock,
        );
        assert forall|k: int|
            0 <= k < prs.len() implies (#[trigger] prs[k]).display_order as int == prompt_count(
            prs.take(k),
            prs[k].user_id,
        ) by {
            if k < prs.len() - 1 {
                assert(prs.take(k) =~= old_prompts.take(k));
                assert(prs[k] == old_prompts[k]);
            } else {
                assert(prs.take(k) =~= old_prompts);
            }
        }
        assert forall|u: u128| #[trigger] prompt_count(prs, u) <= 3 by {
            crate::store::lemma_prompt_count_push(old_prompts, prs.last(), u);
        }
        assert forall|a: int, b: int|
            0 <= a < b < prs.len() implies #[trigger] prs[a].id != #[trigger] prs[b].id by {
            if b == prs.len() - 1 {
                assert(prs[a].id < id);
            }
        }
    }
    Ok(())
}

/// Whether the user has a prompt at the given display order.
pub open spec fn has_prompt_at(prompts: Seq<PromptRec>, user_id: u128, display_order: i32) -> bool {
    exists|i: int|
        0 <= i < prompts.len() && (#[trigger] prompts[i]).user_id == user_id
            && prompts[i].display_order == display_order
}

/// The position of the user's prompt at the given display order, if any.
pub fn find_prompt_index(store: &Store, user_id: u128, display_order: i32) -> (r: Option<usize>)
    ensures
        match r {
            Some(i) => i < store.prompts@.len() && store.prompts@[i as int].user_id == user_id
                && store.prompts@[i as int].display_order == display_order,
            None => !has_prompt_at(store.prompts@, user_id, display_order),
        },
{
    let mut i: usize = 0;
    while i < store.prompts.len()
        invariant
            0 <= i <= store.prompts@.len(),
            forall|k: int|
                0 <= k < i ==> !((#[trigger] store.prompts@[k]).user_id == user_id
                    && store.prompts@[k].display_order == display_order),
        decreases store.prompts@.len() - i,
    {
        if store.prompts[i].user_id == user_id && store.prompts[i].display_order == display_order {
            return Some(i);
        }
        i = i + 1;
    }
    None
}

/// How a text update reshapes the table: row `i`, the user's prompt at the
/// requested order, carries the new question and answer; every other row
/// is untouched.
pub open spec fn prompt_rewritten_at(
    before: Seq<PromptRec>,
    after: Seq<PromptRec>,
    user_id: u128,
    display_order: i32,
    question: Seq<char>,
    answer: Seq<char>,
    i: int,
) -> bool {
    &&& 0 <= i < before.len()
    &&& before[i].user_id == user_id
    &&& before[i].display_order == display_order
    &&& after.len() == before.len()
    &&& forall|k: int| 0 <= k < after.len() && k != i ==> after[k] == before[k]
    &&& after[i].id == before[i].id
    &&& after[i].user_id == user_id
    &&& after[i].display_order == display_order
    &&& after[i].question@ == question
    &&& after[i].answer@ == answer
}

/// Rewrites the question and answer of the user's prompt at the given
/// display order; a missing row leaves the store untouched, as an update
/// of no rows.
pub fn update_prompt(
    store: &mut Store,
    user_id: u128,
    display_order: i32,
    question: &str,
    answer: &str,
)
    requires
        old(store).wf(),
    ensures
        final(store).wf(),
        !has_prompt_at(old(store).prompts@, user_id, display_order) ==> *final(store) == *old(
            store,
        ),
        has_prompt_at(old(store).prompts@, user_id, display_order) ==> ({
            &&& final(store).prompts@.len() == old(store).prompts@.len()
            &&& exists|i: int|
                prompt_rewritten_at(
                    old(store).prompts@,
                    final(store).prompts@,
                    user_id,
                    display_order,
                    question@,
                    answer@,
                    i,
                )
            &&& final(store).users == old(store).users
            &&& final(store).profiles == old(store).profiles
            &&& final(store).images == old(store).images
            &&& final(store).interactions == old(store).interactions
            &&& final(store).matches == old(store).matches
            &&& final(store).messages == old(store).messages
            &&& final(store).next_id == old(store).next_id
            &&& final(store).clock == old(store).clock
        }),
{
    let idx = match find_prompt_index(store, user_id, display_order) {
        Some(i) => i,
        None => {
            return ;
        },
    };
    let ghost before = store.prompts@;
    let mut rec = store.prompts.remove(idx);
    rec.question = question.to_string();
    rec.answer = answer.to_string();
    let ghost grec = rec;
    store.prompts.insert(idx, rec);
    proof {
        crate::store::lemma_seq_remove_insert(before, idx as int, grec);
        assert(store.prompts@ =~= before.update(idx as int, grec));
        let after = store.prompts@;
        assert forall|k: int|
            0 <= k < after.len() implies (#[trigger] after[k]).display_order as int
            == prompt_count(after.take(k), after[k].user_id) by {
            assert forall|m: int|
                0 <= m < k implies (#[trigger] after.take(k)[m]).user_id == (#[trigger] before.take(
                k,
            )[m]).user_id by {
                assert(after.take(k)[m] == after[m]);
                assert(before.take(k)[m] == before[m]);
            }
            lemma_prompt_count_same_owners(after.take(k), before.take(k), after[k].user_id);
            assert(before[k].display_order as int == prompt_count(
                before.take(k),
                before[k].user_id,
            ));
        }
        assert forall|u: u128| #[trigger] prompt_count(after, u) <= 3 by {
            lemma_prompt_count_same_owners(after, before, u);
        }
        assert(prompt_rewritten_at(
            before,
            store.prompts@,
            user_id,
            display_order,
            question@,
            answer@,
            idx as int,
        ));
    }
}

/// How deletion reshapes the table: row `i` of `before`, the user's prompt
/// at the requested order, is gone; rows before it are untouched; rows
/// after it move down one position, and those of the same user also move
/// down one display order.
pub open spec fn prompts_compacted_at(
    before: Seq<PromptRec>,
    after: Seq<PromptRec>,
    user_id: u128,
    display_order: i32,
    i: int,
) -> bool {
    &&& 0 <= i < before.len()
    &&& before[i].user_id == user_id
    &&& before[i].display_order == display_order
    &&& after.len() == before.len() - 1
    &&& forall|k: int| 0 <= k < i ==> after[k] == before[k]
    &&& forall|k: int|
        i <= k < after.len() ==> ((#[trigger] after[k]).id == before[k + 1].id && after[k].user_id
            == before[k + 1].user_id && after[k].question == before[k + 1].question
            && after[k].answer == before[k + 1].answer && after[k].display_order as int == before[k
            + 1].display_order - (if before[k + 1].user_id == user_id {
            1int
        } else {
            0int
        }))
}

/// Orders of one user's prompts ascend with their position in the table.
pub proof fn lemma_prompt_orders_ascend(
    prompts: Seq<PromptRec>,
    users: Seq<crate::store::UserRec>,
    next_id: u128,
    a: int,
    b: int,
)
    requires
        crate::store::prompts_wf(prompts, users, next_id),
        0 <= a < b < prompts.len(),
        prompts[a].user_id == prompts[b].user_id,
    ensures
        prompts[a].display_order < prompts[b].display_order,
{
    lemma_user_prompts_take_step(prompts, prompts[a].user_id, a);
    lemma_prompt_count_take_monotone(prompts, prompts[a].user_id, a + 1, b);
}

/// A table reshaped as `prompts_compacted_at` describes keeps every row
/// invariant of the prompt table.
pub proof fn lemma_compacted_prompts_wf(
    before: Seq<PromptRec>,
    after: Seq<PromptRec>,
    users: Seq<crate::store::UserRec>,
    next_id: u128,
    user_id: u128,
    display_order: i32,
    gi: int,
)
    requires
        crate::store::prompts_wf(before, users, next_id),
        prompts_compacted_at(before, after, user_id, display_order, gi),
    ensures
        crate::store::prompts_wf(after, users, next_id),
{
    assert forall|a: int, b: int|
        0 <= a < b < after.len() implies #[trigger] after[a].id != #[trigger] after[b].id by {
        let a0: int = if a < gi {
            a
        } else {
            a + 1
        };
        let b0: int = if b < gi {
            b
        } else {
            b + 1
        };
        assert(after[a].id == before[a0].id);
        assert(after[b].id == before[b0].id);
    }
    assert forall|j: int|
        0 <= j < after.len() implies (#[trigger] after[j]).id < next_id && user_exists(
        users,
        after[j].user_id,
    ) by {
        let j0: int = if j < gi {
            j
        } else {
            j + 1
        };
        assert(after[j].id == before[j0].id && after[j].user_id == before[j0].user_id);
    }
    assert forall|j: int|
        0 <= j < after.len() implies (#[trigger] after[j]).display_order as int == prompt_count(
        after.take(j),
        after[j].user_id,
    ) by {
        if j < gi {
            assert(after.take(j) =~= before.take(j));
            assert(after[j] == before[j]);
        } else {
            let v = after[j].user_id;
            let shadow = before.take(j + 1).remove(gi);
            assert(after.take(j).len() == shadow.len());
            assert forall|m: int|
                0 <= m < j implies (#[trigger] after.take(j)[m]).user_id
                == (#[trigger] shadow[m]).user_id by {
                if m < gi {
                    assert(shadow[m] == before[m]);
                    assert(after.take(j)[m] == after[m]);
                    assert(after[m] == before[m]);
                } else {
                    assert(shadow[m] == before.take(j + 1)[m + 1]);
                    assert(after.take(j)[m] == after[m]);
                    assert(after[m].user_id == before[m + 1].user_id);
                }
            }
            lemma_prompt_count_same_owners(after.take(j), shadow, v);
            lemma_prompt_count_remove(before.take(j + 1), gi, v);
            assert(before.take(j + 1)[gi] == before[gi]);
            assert(before[j + 1].display_order as int == prompt_count(
                before.take(j + 1),
                before[j + 1].user_id,
            ));
            assert(after[j].user_id == before[j + 1].user_id);
        }
    }
    assert forall|u: u128| #[trigger] prompt_count(after, u) <= 3 by {
        lemma_prompt_count_remove(before, gi, u);
        assert(after.len() == before.remove(gi).len());
        assert forall|m: int|
            0 <= m < after.len() implies (#[trigger] after[m]).user_id
            == (#[trigger] before.remove(gi)[m]).user_id by {
            if m < gi {
                assert(after[m] == before[m]);
            } else {
                assert(after[m].user_id == before[m + 1].user_id);
            }
        }
        lemma_prompt_count_same_owners(after, before.remove(gi), u);
    }
}

/// Deletes the user's prompt at the given display order, then closes the
/// gap: every later prompt of the same user moves down one order, keeping
/// the orders dense. A missing row leaves the store untouched.
#[verifier::rlimit(100)]
#[verifier::loop_isolation(false)]
pub fn delete_prompt(store: &mut Store, user_id: u128, display_order: i32)
    requires
        old(store).wf(),
    ensures
        final(store).wf(),
        final(store).users == old(store).users,
        final(store).profiles == old(store).profiles,
        final(store).images == old(store).images,
        final(store).interactions == old(store).interactions,
        final(store).matches == old(store).matches,
        final(store).messages == old(store).messages,
        final(store).next_id == old(store).next_id,
        final(store).clock == old(store).clock,
        !has_prompt_at(old(store).prompts@, user_id, display_order) ==> *final(store) == *old(
            store,
        ),
        has_prompt_at(old(store).prompts@, user_id, display_order) ==> (exists|i: int|
            prompts_compacted_at(
                old(store).prompts@,
                final(store).prompts@,
                user_id,
                display_order,
                i,
            )),
{
    let idx = match find_prompt_index(store, user_id, display_order) {
        Some(i) => i,
        None => {
            return ;
        },
    };
    let ghost before = store.prompts@;
    let ghost gi = idx as int;
    store.prompts.remove(idx);
    proof {
        assert(store.prompts@ =~= before.remove(gi));
    }
    // close the gap in the user's display orders
    let mut k: usize = idx;
    while k < store.prompts.len()
        invariant
            gi <= k <= store.prompts@.len(),
            store.prompts@.len() == before.len() - 1,
            store.users == old(store).users,
            store.profiles == old(store).profiles,
            store.images == old(store).images,
            store.interactions == old(store).interactions,
            store.matches == old(store).matches,
            store.messages == old(store).messages,
            store.next_id == old(store).next_id,
            store.clock == old(store).clock,
            forall|j: int| 0 <= j < gi ==> store.prompts@[j] == before[j],
            forall|j: int| k <= j < store.prompts@.len() ==> store.prompts@[j] == before[j + 1],
            forall|j: int|
                gi <= j < k ==> ((#[trigger] store.prompts@[j]).id == before[j + 1].id
                    && store.prompts@[j].user_id == before[j + 1].user_id
                    && store.prompts@[j].question == before[j + 1].question
                    && store.prompts@[j].answer == before[j + 1].answer
                    && store.prompts@[j].display_order as int == before[j + 1].display_order - (
                if before[j + 1].user_id == user_id {
                    1int
                } else {
                    0int
                })),
        decreases store.prompts@.len() - k,
    {
        if store.prompts[k].user_id == user_id {
            proof {
                // this later prompt of the user sits above the deleted order
                lemma_prompt_orders_ascend(
                    before,
                    old(store).users@,
                    old(store).next_id,
                    gi,
                    k as int + 1,
                );
                assert(before[gi].display_order as int == prompt_count(
                    before.take(gi),
                    user_id,
                ));
            }
            let ghost prev = store.prompts@;
            let mut rec = store.prompts.remove(k);
            rec.display_order = rec.display_order - 1;
            let ghost grec = rec;
            store.prompts.insert(k, rec);
            proof {
                crate::store::lemma_seq_remove_insert(prev, k as int, grec);
                assert(store.prompts@ =~= prev.update(k as int, grec));
            }
        }
        k = k + 1;
    }
    proof {
        assert(prompts_compacted_at(before, store.prompts@, user_id, display_order, gi));
        lemma_compacted_prompts_wf(
            before,
            store.prompts@,
            store.users@,
            store.next_id,
            user_id,
            display_order,
            gi,
        );
    }
}

/// Retrieves the user's prompts as `(id, question, answer, display_order)`
/// rows, ordered by display order, which runs `0, 1, 2` along the result.
#[verifier::loop_isolation(false)]
pub fn get_user_prompts(store: &Store, user_id: u128) -> (r: Vec<(u128, String, String, i32)>)
    requires
        store.wf(),
    ensures
        r@.len() == prompt_count(store.prompts@, user_id),
        forall|j: int|
            0 <= j < r@.len() ==> ({
                let sel = user_prompts(store.prompts@, user_id);
                &&& (#[trigger] r@[j]).0 == sel[j].id
                &&& r@[j].1@ == sel[j].question@
                &&& r@[j].2@ == sel[j].answer@
                &&& r@[j].3 == sel[j].display_order
                &&& r@[j].3 as int == j
            }),
{
    let mut out: Vec<(u128, String, String, i32)> = Vec::new();
    let mut i: usize = 0;
    while i < store.prompts.len()
        invariant
            0 <= i <= store.prompts@.len(),
            out@.len() == prompt_count(store.prompts@.take(i as int), user_id),
            forall|j: int|
                0 <= j < out@.len() ==> ({
                    let sel = user_prompts(store.prompts@.take(i as int), user_id);
                    &&& (#[trigger] out@[j]).0 == sel[j].id
                    &&& out@[j].1@ == sel[j].question@
                    &&& out@[j].2@ == sel[j].answer@
                    &&& out@[j].3 == sel[j].display_order
                    &&& out@[j].3 as int == j
                }),
        decreases store.prompts@.len() - i,
    {
        proof {
            lemma_user_prompts_take_step(store.prompts@, user_id, i as int);
            lemma_prompt_count_is_sel_len(store.prompts@.take(i as int), user_id);
            lemma_prompt_count_is_sel_len(store.prompts@.take(i as int + 1), user_id);
        }
        if store.prompts[i].user_id == user_id {
            let rec = &store.prompts[i];
            out.push((rec.id, rec.question.clone(), rec.answer.clone(), rec.display_order));
        }
        i = i + 1;
    }
    proof {
        lemma_prompt_take_all(store.prompts@, user_id);
    }
    out
}

} // verus!
