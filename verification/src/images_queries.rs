//! Operations on the image table: counting, capped upload, deletion with
//! order compaction, and ordered retrieval.

use crate::errors::ApiError;
use crate::store::{image_count, user_exists, ImageRec, Store};
use vstd::prelude::*;

verus! {

/// The images of one user, in table order; the table invariant makes their
/// display orders `0, 1, 2, ...` in this order.
pub open spec fn user_images(images: Seq<ImageRec>, user_id: u128) -> Seq<ImageRec>
    decreases images.len(),
{
    if images.len() == 0 {
        Seq::empty()
    } else if images.last().user_id == user_id {
        user_images(images.drop_last(), user_id).push(images.last())
    } else {
        user_images(images.drop_last(), user_id)
    }
}

/// Extending the scanned prefix by one row extends the selection exactly
/// when the row belongs to the user.
pub proof fn lemma_user_images_take_step(images: Seq<ImageRec>, user_id: u128, i: int)
    requires
        0 <= i < images.len(),
    ensures
        images[i].user_id == user_id ==> user_images(images.take(i + 1), user_id) == user_images(
            images.take(i),
            user_id,
        ).push(images[i]),
        images[i].user_id != user_id ==> user_images(images.take(i + 1), user_id) == user_images(
            images.take(i),
            user_id,
        ),
        image_count(images.take(i + 1), user_id) == image_count(images.take(i), user_id) + if images[i].user_id
            == user_id {
            1nat
        } else {
            0nat
        },
{
    assert(images.take(i + 1).drop_last() =~= images.take(i));
    assert(images.take(i + 1).last() == images[i]);
}

/// A whole table is its own full prefix.
pub proof fn lemma_image_take_all(images: Seq<ImageRec>, user_id: u128)
    ensures
        user_images(images.take(images.len() as int), user_id) == user_images(images, user_id),
        image_count(images.take(images.len() as int), user_id) == image_count(images, user_id),
{
    assert(images.take(images.len() as int) =~= images);
}

/// How many images a user owns; at most six by the table invariant.
#[verifier::rlimit(50)]
#[verifier::loop_isolation(false)]
pub fn count_images(store: &Store, user_id: u128) -> (r: i64)
    requires
        store.wf(),
    ensures
        r == image_count(store.images@, user_id),
        0 <= r <= 6,
{
    let mut c: usize = 0;
    let mut i: usize = 0;
    while i < store.images.len()
        invariant
            0 <= i <= store.images@.len(),
            c <= i,
            c == image_count(store.images@.take(i as int), user_id),
        decreases store.images@.len() - i,
    {
        proof {
            lemma_user_images_take_step(store.images@, user_id, i as int);
        }
        if store.images[i].user_id == user_id {
            c = c + 1;
        }
        i = i + 1;
    }
    proof {
        lemma_image_take_all(store.images@, user_id);
    }
    c as i64
}

/// Stores one more image for the user, appended at the next free display
/// order. Fails with `InvalidReference` when the user does not exist, with
/// `CapacityExceeded` when six images are already stored, and with
/// `Internal` when the id space is exhausted.
pub fn upload_profile_images(store: &mut Store, user_id: u128, image_url: &str) -> (r: Result<
    (),
    ApiError,
>)
    requires
        old(store).wf(),
    ensures
        final(store).wf(),
        r is Ok <==> (user_exists(old(store).users@, user_id) && image_count(
            old(store).images@,
            user_id,
        ) < 6 && old(store).next_id < u128::MAX),
        r matches Err(e) ==> ({
            &&& *final(store) == *old(store)
            &&& (e == ApiError::InvalidReference <==> !user_exists(old(store).users@, user_id))
            &&& (e == ApiError::CapacityExceeded <==> (user_exists(old(store).users@, user_id)
                && image_count(old(store).images@, user_id) >= 6))
            &&& (e == ApiError::InvalidReference || e == ApiError::CapacityExceeded || e
                == ApiError::Internal)
        }),
        r is Ok ==> ({
            let rec = final(store).images@.last();
            &&& final(store).images@ == old(store).images@.push(rec)
            &&& rec.id == old(store).next_id
            &&& rec.user_id == user_id
            &&& rec.url@ == image_url@
            &&& rec.display_order as int == image_count(old(store).images@, user_id)
            &&& final(store).next_id == old(store).next_id + 1
            &&& final(store).users == old(store).users
            &&& final(store).profiles == old(store).profiles
            &&& final(store).prompts == old(store).prompts
            &&& final(store).interactions == old(store).interactions
            &&& final(store).matches == old(store).matches
            &&& final(store).messages == old(store).messages
            &&& final(store).clock == old(store).clock
        }),
{
    if !store.has_user(user_id) {
        return Err(ApiError::InvalidReference);
    }
    let count = count_images(store, user_id);
    if count >= 6 {
        return Err(ApiError::CapacityExceeded);
    }
    if store.next_id == u128::MAX {
        return Err(ApiError::Internal);
    }
    let id = store.next_id;
    store.next_id = id + 1;
    let rec = ImageRec {
        id,
        user_id,
        url: image_url.to_string(),
        display_order: count as i32,
    };
    let ghost old_images = store.images@;
    store.images.push(rec);
    proof {
        let imgs = store.images@;
        crate::store::lemma_messages_wf_counter_monotone(
            store.messages@,
            store.matches@,
            old(store).next_id,
            store.next_id,
            store.clock,
        );
        assert forall|k: int|
            0 <= k < imgs.len() implies (#[trigger] imgs[k]).display_order as int == image_count(
            imgs.take(k),
            imgs[k].user_id,
        ) by {
            if k < imgs.len() - 1 {
                assert(imgs.take(k) =~= old_images.take(k));
                assert(imgs[k] == old_images[k]);
            } else {
                assert(imgs.take(k) =~= old_images);
            }
        }
        assert forall|u: u128| #[trigger] image_count(imgs, u) <= 6 by {
            crate::store::lemma_image_count_push(old_images, imgs.last(), u);
        }
        assert forall|a: int, b: int|
            0 <= a < b < imgs.len() implies #[trigger] imgs[a].id != #[trigger] imgs[b].id by {
            if b == imgs.len() - 1 {
                assert(imgs[a].id < id);
            }
        }
    }
    Ok(())
}

/// Retrieves the user's images as `(id, url, display_order)` rows, ordered
/// by display order, which runs `0, 1, 2, ...` along the result.
#[verifier::loop_isolation(false)]
pub fn get_user_images(store: &Store, user_id: u128) -> (r: Vec<(u128, String, i32)>)
    requires
        store.wf(),
    ensures
        r@.len() == image_count(store.images@, user_id),
        forall|j: int|
            0 <= j < r@.len() ==> ({
                let sel = user_images(store.images@, user_id);
                &&& (#[trigger] r@[j]).0 == sel[j].id
                &&& r@[j].1@ == sel[j].url@
                &&& r@[j].2 == sel[j].display_order
                &&& r@[j].2 as int == j
            }),
{
    let mut out: Vec<(u128, String, i32)> = Vec::new();
    let mut i: usize = 0;
    while i < store.images.len()
        invariant
            0 <= i <= store.images@.len(),
            out@.len() == image_count(store.images@.take(i as int), user_id),
            forall|j: int|
                0 <= j < out@.len() ==> ({
                    let sel = user_images(store.images@.take(i as int), user_id);
                    &&& (#[trigger] out@[j]).0 == sel[j].id
                    &&& out@[j].1@ == sel[j].url@
                    &&& out@[j].2 == sel[j].display_order
                    &&& out@[j].2 as int == j
                }),
        decreases store.images@.len() - i,
    {
        proof {
            lemma_user_images_take_step(store.images@, user_id, i as int);
            lemma_image_count_is_sel_len(store.images@.take(i as int), user_id);
            lemma_image_count_is_sel_len(store.images@.take(i as int + 1), user_id);
        }
        if store.images[i].user_id == user_id {
            let rec = &store.images[i];
            out.push((rec.id, rec.url.clone(), rec.display_order));
        }
        i = i + 1;
    }
    proof {
        lemma_image_take_all(store.images@, user_id);
    }
    out
}

/// The user's image count is the length of the user's selection.
pub proof fn lemma_image_count_is_sel_len(images: Seq<ImageRec>, user_id: u128)
    ensures
        image_count(images, user_id) == user_images(images, user_id).len(),
    decreases images.len(),
{
    if images.len() > 0 {
        lemma_image_count_is_sel_len(images.drop_last(), user_id);
    }
}

/// Removing a row lowers exactly its owner's count by one.
pub proof fn lemma_image_count_remove(images: Seq<ImageRec>, i: int, u: u128)
    requires
        0 <= i < images.len(),
    ensures
        image_count(images.remove(i), u) == image_count(images, u) - if images[i].user_id == u {
            1int
        } else {
            0int
        },
    decreases images.len(),
{
    if i == images.len() - 1 {
        assert(images.remove(i) =~= images.drop_last());
    } else {
        assert(images.remove(i).drop_last() =~= images.drop_last().remove(i));
        assert(images.remove(i).last() == images.last());
        lemma_image_count_remove(images.drop_last(), i, u);
    }
}

/// Counts see only the owner column, so two tables with the same owners
/// row by row have the same counts.
pub proof fn lemma_image_count_same_owners(s1: Seq<ImageRec>, s2: Seq<ImageRec>, u: u128)
    requires
        s1.len() == s2.len(),
        forall|k: int| 0 <= k < s1.len() ==> (#[trigger] s1[k]).user_id == (#[trigger] s2[k]).user_id,
    ensures
        image_count(s1, u) == image_count(s2, u),
    decreases s1.len(),
{
    if s1.len() > 0 {
        lemma_image_count_same_owners(s1.drop_last(), s2.drop_last(), u);
    }
}

/// A longer prefix never counts fewer images.
pub proof fn lemma_image_count_take_monotone(images: Seq<ImageRec>, u: u128, a: int, b: int)
    requires
        0 <= a <= b <= images.len(),
    ensures
        image_count(images.take(a), u) <= image_count(images.take(b), u),
    decreases b - a,
{
    if a < b {
        lemma_user_images_take_step(images, u, b - 1);
        lemma_image_count_take_monotone(images, u, a, b - 1);
    }
}

/// Whether the user has an image at the given display order.
pub open spec fn has_image_at(images: Seq<ImageRec>, user_id: u128, display_order: i32) -> bool {
    exists|i: int|
        0 <= i < images.len() && (#[trigger] images[i]).user_id == user_id
            && images[i].display_order == display_order
}

/// How deletion reshapes the table: row `i` of `before`, the user's image
/// at the requested order, is gone; rows before it are untouched; rows
/// after it move down one position, and those of the same user also move
/// down one display order.
pub open spec fn compacted_at(
    before: Seq<ImageRec>,
    after: Seq<ImageRec>,
    user_id: u128,
    display_order: i32,
    i: int,
) -> bool {
    &&& 0 <= i < before.len()
    &&& before[i].user_id == user_id
    &&& before[i].display_order == display_order
    &&& after.len() == before.len() - 1
    &&& forall|k: int| 0 <= k < i ==> after[k] == before[k]
    &&& forall|k: int|
        i <= k < after.len() ==> ((#[trigger] after[k]).id == before[k + 1].id && after[k].user_id
            == before[k + 1].user_id && after[k].url == before[k + 1].url
            && after[k].display_order as int == before[k + 1].display_order - (if before[k
            + 1].user_id == user_id {
            1int
        } else {
            0int
        }))
}

/// Orders of one user's images ascend with their position in the table.
pub proof fn lemma_image_orders_ascend(
    images: Seq<ImageRec>,
    users: Seq<crate::store::UserRec>,
    next_id: u128,
    a: int,
    b: int,
)
    requires
        crate::store::images_wf(images, users, next_id),
        0 <= a < b < images.len(),
        images[a].user_id == images[b].user_id,
    ensures
        images[a].display_order < images[b].display_order,
{
    lemma_user_images_take_step(images, images[a].user_id, a);
    lemma_image_count_take_monotone(images, images[a].user_id, a + 1, b);
}

/// A table reshaped as `compacted_at` describes keeps every row invariant
/// of the image table.
pub proof fn lemma_compacted_images_wf(
    before: Seq<ImageRec>,
    after: Seq<ImageRec>,
    users: Seq<crate::store::UserRec>,
    next_id: u128,
    user_id: u128,
    display_order: i32,
    gi: int,
)
    requires
        crate::store::images_wf(before, users, next_id),
        compacted_at(before, after, user_id, display_order, gi),
    ensures
        crate::store::images_wf(after, users, next_id),
{
    assert forall|a: int, b: int|
        0 <= a < b < after.len() implies #[trigger] after[a].id != #[trigger] after[b].id by {
        let a0: int = if a < gi {
            a
        } else {
            a + 1
        };
        let b0: int = if b < gi {
            b
        } else {
            b + 1
        };
        assert(after[a].id == before[a0].id);
        assert(after[b].id == before[b0].id);
    }
    assert forall|j: int|
        0 <= j < after.len() implies (#[trigger] after[j]).id < next_id && user_exists(
        users,
        after[j].user_id,
    ) by {
        let j0: int = if j < gi {
            j
        } else {
            j + 1
        };
        assert(after[j].id == before[j0].id && after[j].user_id == before[j0].user_id);
    }
    assert forall|j: int|
        0 <= j < after.len() implies (#[trigger] after[j]).display_order as int == image_count(
        after.take(j),
        after[j].user_id,
    ) by {
        if j < gi {
            assert(after.take(j) =~= before.take(j));
            assert(after[j] == before[j]);
        } else {
            let v = after[j].user_id;
            let shadow = before.take(j + 1).remove(gi);
            assert(after.take(j).len() == shadow.len());
            assert forall|m: int|
                0 <= m < j implies (#[trigger] after.take(j)[m]).user_id
                == (#[trigger] shadow[m]).user_id by {
                if m < gi {
                    assert(shadow[m] == before[m]);
                    assert(after.take(j)[m] == after[m]);
                    assert(after[m] == before[m]);
                } else {
                    assert(shadow[m] == before.take(j + 1)[m + 1]);
                    assert(after.take(j)[m] == after[m]);
                    assert(after[m].user_id == before[m + 1].user_id);
                }
            }
            lemma_image_count_same_owners(after.take(j), shadow, v);
            lemma_image_count_remove(before.take(j + 1), gi, v);
            assert(before.take(j + 1)[gi] == before[gi]);
            assert(before[j + 1].display_order as int == image_count(
                before.take(j + 1),
                before[j + 1].user_id,
            ));
            assert(after[j].user_id == before[j + 1].user_id);
        }
    }
    assert forall|u: u128| #[trigger] image_count(after, u) <= 6 by {
        lemma_image_count_remove(before, gi, u);
        assert(after.len() == before.remove(gi).len());
        assert forall|m: int|
            0 <= m < after.len() implies (#[trigger] after[m]).user_id
            == (#[trigger] before.remove(gi)[m]).user_id by {
            if m < gi {
                assert(after[m] == before[m]);
            } else {
                assert(after[m].user_id == before[m + 1].user_id);
            }
        }
        lemma_image_count_same_owners(after, before.remove(gi), u);
    }
}

/// The position of the user's image at the given display order, if any.
pub fn find_image_index(store: &Store, user_id: u128, display_order: i32) -> (r: Option<usize>)
    ensures
        match r {
            Some(i) => i < store.images@.len() && store.images@[i as int].user_id == user_id
                && store.images@[i as int].display_order == display_order,
            None => !has_image_at(store.images@, user_id, display_order),
        },
{
    let mut i: usize = 0;
    while i < store.images.len()
        invariant
            0 <= i <= store.images@.len(),
            forall|k: int|
                0 <= k < i ==> !((#[trigger] store.images@[k]).user_id == user_id
                    && store.images@[k].display_order == display_order),
        decreases store.images@.len() - i,
    {
        if store.images[i].user_id == user_id && store.images[i].display_order == display_order {
            return Some(i);
        }
        i = i + 1;
    }
    None
}

/// Deletes the user's image at the given display order, then closes the
/// gap: every later image of the same user moves down one order, keeping
/// the orders dense. A missing row leaves the store untouched.
#[verifier::rlimit(100)]
#[verifier::loop_isolation(false)]
pub fn delete_profile_images(store: &mut Store, user_id: u128, display_order: i32)
    requires
        old(store).wf(),
    ensures
        final(store).wf(),
        final(store).users == old(store).users,
        final(store).profiles == old(store).profiles,
        final(store).prompts == old(store).prompts,
        final(store).interactions == old(store).interactions,
        final(store).matches == old(store).matches,
        final(store).messages == old(store).messages,
        final(store).next_id == old(store).next_id,
        final(store).clock == old(store).clock,
        !has_image_at(old(store).images@, user_id, display_order) ==> *final(store) == *old(
            store,
        ),
        has_image_at(old(store).images@, user_id, display_order) ==> (exists|i: int|
            compacted_at(old(store).images@, final(store).images@, user_id, display_order, i)),
{
    let idx = match find_image_index(store, user_id, display_order) {
        Some(i) => i,
        None => {
            return ;
        },
    };
    let ghost before = store.images@;
    let ghost gi = idx as int;
    store.images.remove(idx);
    proof {
        assert(store.images@ =~= before.remove(gi));
    }
    // close the gap in the user's display orders
    let mut k: usize = idx;
    while k < store.images.len()
        invariant
            gi <= k <= store.images@.len(),
            store.images@.len() == before.len() - 1,
            store.users == old(store).users,
            store.profiles == old(store).profiles,
            store.prompts == old(store).prompts,
            store.interactions == old(store).interactions,
            store.matches == old(store).matches,
            store.messages == old(store).messages,
            store.next_id == old(store).next_id,
            store.clock == old(store).clock,
            forall|j: int| 0 <= j < gi ==> store.images@[j] == before[j],
            forall|j: int| k <= j < store.images@.len() ==> store.images@[j] == before[j + 1],
            forall|j: int|
                gi <= j < k ==> ((#[trigger] store.images@[j]).id == before[j + 1].id
                    && store.images@[j].user_id == before[j + 1].user_id && store.images@[j].url
                    == before[j + 1].url && store.images@[j].display_order as int == before[j
                    + 1].display_order - (if before[j + 1].user_id == user_id {
                    1int
                } else {
                    0int
                })),
        decreases store.images@.len() - k,
    {
        if store.images[k].user_id == user_id {
            proof {
                // this later image of the user sits above the deleted order
                lemma_image_orders_ascend(
                    before,
                    old(store).users@,
                    old(store).next_id,
                    gi,
                    k as int + 1,
                );
                assert(before[gi].display_order as int == image_count(
                    before.take(gi),
                    user_id,
                ));
            }
            let ghost prev = store.images@;
            let mut rec = store.images.remove(k);
            rec.display_order = rec.display_order - 1;
            let ghost grec = rec;
            store.images.insert(k, rec);
            proof {
                crate::store::lemma_seq_remove_insert(prev, k as int, grec);
                assert(store.images@ =~= prev.update(k as int, grec));
            }
        }
        k = k + 1;
    }
    proof {
        assert(compacted_at(before, store.images@, user_id, display_order, gi));
        lemma_compacted_images_wf(
            before,
            store.images@,
            store.users@,
            store.next_id,
            user_id,
            display_order,
            gi,
        );
    }
}

/// Retrieves the user's images; reads exactly as `get_user_images`.
pub fn get_images(store: &Store, user_id: u128) -> (r: Vec<(u128, String, i32)>)
    requires
        store.wf(),
    ensures
        r@.len() == image_count(store.images@, user_id),
        forall|j: int|
            0 <= j < r@.len() ==> ({
                let sel = user_images(store.images@, user_id);
                &&& (#[trigger] r@[j]).0 == sel[j].id
                &&& r@[j].1@ == sel[j].url@
                &&& r@[j].2 == sel[j].display_order
                &&& r@[j].2 as int == j
            }),
{
    get_user_images(store, user_id)
}

} // verus!
