//! Account deletion: removes a user together with profile, images,
//! prompts, ledger rows, matches and the messages of those matches.

use crate::profile_queries::{
    images_without, interactions_without, lemma_image_count_zero, lemma_messages_kept_last_msg,
    lemma_prompt_count_zero, lemma_users_without_keeps, lemma_filtered_distinct, matches_without,
    messages_kept, profiles_without, prompts_without, users_without,
};
use crate::store::{user_exists, InteractionRec, ProfileRec, Store};
use vstd::prelude::*;

verus! {

/// Keeps the user rows of other accounts, reporting the kept positions.
#[verifier::loop_isolation(false)]
fn drain_users(users: &mut Vec<crate::store::UserRec>, u: u128) -> (src: Ghost<Seq<int>>)
    ensures
        final(users)@ == users_without(old(users)@, u),
        src@.len() == final(users)@.len(),
        forall|j: int|
            0 <= j < src@.len() ==> 0 <= #[trigger] src@[j] < old(users)@.len() && final(users)@[j] == old(users)@[src@[j]] && final(users)@[j].id != u,
        forall|x: int, y: int| 0 <= x < y < src@.len() ==> #[trigger] src@[x] < #[trigger] src@[y],
{
    let ghost orig = users@;
    let n0 = users.len();
    proof {
        assert(orig.len() == n0 as int);
    }
    let mut kept: Vec<crate::store::UserRec> = Vec::new();
    let ghost mut srcs: Seq<int> = Seq::empty();
    let mut i: usize = 0;
    while users.len() > 0
        invariant
            0 <= i <= orig.len(),
            orig.len() == n0 as int,
            users@ =~= orig.subrange(i as int, orig.len() as int),
            kept@ == users_without(orig.take(i as int), u),
            srcs.len() == kept@.len(),
            forall|j: int|
                0 <= j < srcs.len() ==> 0 <= #[trigger] srcs[j] < i && kept@[j] == orig[srcs[j]]
                    && kept@[j].id != u,
            forall|x: int, y: int| 0 <= x < y < srcs.len() ==> #[trigger] srcs[x] < #[trigger] srcs[y],
        decreases users@.len(),
    {
        proof {
            assert(orig.take(i as int + 1).drop_last() =~= orig.take(i as int));
            assert(orig.take(i as int + 1).last() == orig[i as int]);
        }
        let rec = users.remove(0);
        proof {
            assert(users@ =~= orig.subrange(i as int + 1, orig.len() as int));
        }
        if rec.id != u {
            kept.push(rec);
            proof {
                srcs = srcs.push(i as int);
            }
        }
        i = i + 1;
    }
    proof {
        assert(orig.take(orig.len() as int) =~= orig);
    }
    *users = kept;
    Ghost(srcs)
}

/// Keeps the profile rows of other accounts, reporting the kept positions.
#[verifier::loop_isolation(false)]
fn drain_profiles(profiles: &mut Vec<ProfileRec>, u: u128) -> (src: Ghost<Seq<int>>)
    ensures
        final(profiles)@ == profiles_without(old(profiles)@, u),
        src@.len() == final(profiles)@.len(),
        forall|j: int|
            0 <= j < src@.len() ==> 0 <= #[trigger] src@[j] < old(profiles)@.len() && final(profiles)@[j] == old(profiles)@[src@[j]] && final(profiles)@[j].user_id != u,
        forall|x: int, y: int| 0 <= x < y < src@.len() ==> #[trigger] src@[x] < #[trigger] src@[y],
{
    let ghost orig = profiles@;
    let n0 = profiles.len();
    proof {
        assert(orig.len() == n0 as int);
    }
    let mut kept: Vec<ProfileRec> = Vec::new();
    let ghost mut srcs: Seq<int> = Seq::empty();
    let mut i: usize = 0;
    while profiles.len() > 0
        invariant
            0 <= i <= orig.len(),
            orig.len() == n0 as int,
            profiles@ =~= orig.subrange(i as int, orig.len() as int),
            kept@ == profiles_without(orig.take(i as int), u),
            srcs.len() == kept@.len(),
            forall|j: int|
                0 <= j < srcs.len() ==> 0 <= #[trigger] srcs[j] < i && kept@[j] == orig[srcs[j]]
                    && kept@[j].user_id != u,
            forall|x: int, y: int| 0 <= x < y < srcs.len() ==> #[trigger] srcs[x] < #[trigger] srcs[y],
        decreases profiles@.len(),
    {
        proof {
            assert(orig.take(i as int + 1).drop_last() =~= orig.take(i as int));
            assert(orig.take(i as int + 1).last() == orig[i as int]);
        }
        let rec = profiles.remove(0);
        proof {
            assert(profiles@ =~= orig.subrange(i as int + 1, orig.len() as int));
        }
        if rec.user_id != u {
            kept.push(rec);
            proof {
                srcs = srcs.push(i as int);
            }
        }
        i = i + 1;
    }
    proof {
        assert(orig.take(orig.len() as int) =~= orig);
    }
    *profiles = kept;
    Ghost(srcs)
}

/// Keeps the image rows of other accounts; their display orders and
/// per-user counts are untouched.
#[verifier::rlimit(100)]
#[verifier::loop_isolation(false)]
fn drain_images(images: &mut Vec<crate::store::ImageRec>, u: u128) -> (src: Ghost<Seq<int>>)
    requires
        forall|i: int|
            0 <= i < old(images)@.len() ==> (#[trigger] old(images)@[i]).display_order as int
                == crate::store::image_count(old(images)@.take(i), old(images)@[i].user_id),
    ensures
        final(images)@ == images_without(old(images)@, u),
        src@.len() == final(images)@.len(),
        forall|j: int|
            0 <= j < src@.len() ==> 0 <= #[trigger] src@[j] < old(images)@.len() && final(images)@[j] == old(images)@[src@[j]] && final(images)@[j].user_id != u,
        forall|x: int, y: int| 0 <= x < y < src@.len() ==> #[trigger] src@[x] < #[trigger] src@[y],
        forall|v: u128|
            v != u ==> #[trigger] crate::store::image_count(final(images)@, v)
                == crate::store::image_count(old(images)@, v),
        forall|i: int|
            0 <= i < final(images)@.len() ==> (#[trigger] final(images)@[i]).display_order as int
                == crate::store::image_count(final(images)@.take(i), final(images)@[i].user_id),
{
    let ghost orig = images@;
    let n0 = images.len();
    proof {
        assert(orig.len() == n0 as int);
    }
    let mut kept: Vec<crate::store::ImageRec> = Vec::new();
    let ghost mut srcs: Seq<int> = Seq::empty();
    let mut i: usize = 0;
    while images.len() > 0
        invariant
            0 <= i <= orig.len(),
            orig.len() == n0 as int,
            images@ =~= orig.subrange(i as int, orig.len() as int),
            kept@ == images_without(orig.take(i as int), u),
            srcs.len() == kept@.len(),
            forall|j: int|
                0 <= j < srcs.len() ==> 0 <= #[trigger] srcs[j] < i && kept@[j] == orig[srcs[j]]
                    && kept@[j].user_id != u,
            forall|x: int, y: int| 0 <= x < y < srcs.len() ==> #[trigger] srcs[x] < #[trigger] srcs[y],
            forall|v: u128|
                v != u ==> #[trigger] crate::store::image_count(kept@, v)
                    == crate::store::image_count(orig.take(i as int), v),
            forall|j: int|
                0 <= j < kept@.len() ==> (#[trigger] kept@[j]).display_order as int
                    == crate::store::image_count(kept@.take(j), kept@[j].user_id),
        decreases images@.len(),
    {
        proof {
            crate::images_queries::lemma_user_images_take_step(orig, u, i as int);
            assert(orig.take(i as int + 1).drop_last() =~= orig.take(i as int));
            assert(orig.take(i as int + 1).last() == orig[i as int]);
        }
        let rec = images.remove(0);
        proof {
            assert(images@ =~= orig.subrange(i as int + 1, orig.len() as int));
        }
        if rec.user_id != u {
            let ghost kept_before = kept@;
            kept.push(rec);
            proof {
                srcs = srcs.push(i as int);
                assert forall|v: u128| v != u implies #[trigger] crate::store::image_count(
                    kept@,
                    v,
                ) == crate::store::image_count(orig.take(i as int + 1), v) by {
                    crate::store::lemma_image_count_push(kept_before, orig[i as int], v);
                    crate::images_queries::lemma_user_images_take_step(orig, v, i as int);
                }
                assert forall|j: int|
                    0 <= j < kept@.len() implies (#[trigger] kept@[j]).display_order as int
                    == crate::store::image_count(kept@.take(j), kept@[j].user_id) by {
                    if j < kept@.len() - 1 {
                        assert(kept@.take(j) =~= kept_before.take(j));
                        assert(kept@[j] == kept_before[j]);
                    } else {
                        assert(kept@.take(j) =~= kept_before);
                        crate::images_queries::lemma_user_images_take_step(
                            orig,
                            orig[i as int].user_id,
                            i as int,
                        );
                    }
                }
            }
        } else {
            proof {
                assert forall|v: u128| v != u implies #[trigger] crate::store::image_count(
                    kept@,
                    v,
                ) == crate::store::image_count(orig.take(i as int + 1), v) by {
                    crate::images_queries::lemma_user_images_take_step(orig, v, i as int);
                }
            }
        }
        i = i + 1;
    }
    proof {
        assert(orig.take(orig.len() as int) =~= orig);
    }
    *images = kept;
    Ghost(srcs)
}

/// Keeps the prompt rows of other accounts; their display orders and
/// per-user counts are untouched.
#[verifier::rlimit(100)]
#[verifier::loop_isolation(false)]
fn drain_prompts(prompts: &mut Vec<crate::store::PromptRec>, u: u128) -> (src: Ghost<Seq<int>>)
    requires
        forall|i: int|
            0 <= i < old(prompts)@.len() ==> (#[trigger] old(prompts)@[i]).display_order as int
                == crate::store::prompt_count(old(prompts)@.take(i), old(prompts)@[i].user_id),
    ensures
        final(prompts)@ == prompts_without(old(prompts)@, u),
        src@.len() == final(prompts)@.len(),
        forall|j: int|
            0 <= j < src@.len() ==> 0 <= #[trigger] src@[j] < old(prompts)@.len() && final(prompts)@[j] == old(prompts)@[src@[j]] && final(prompts)@[j].user_id != u,
        forall|x: int, y: int| 0 <= x < y < src@.len() ==> #[trigger] src@[x] < #[trigger] src@[y],
        forall|v: u128|
            v != u ==> #[trigger] crate::store::prompt_count(final(prompts)@, v)
                == crate::store::prompt_count(old(prompts)@, v),
        forall|i: int|
            0 <= i < final(prompts)@.len() ==> (#[trigger] final(prompts)@[i]).display_order as int
                == crate::store::prompt_count(final(prompts)@.take(i), final(prompts)@[i].user_id),
{
    let ghost orig = prompts@;
    let n0 = prompts.len();
    proof {
        assert(orig.len() == n0 as int);
    }
    let mut kept: Vec<crate::store::PromptRec> = Vec::new();
    let ghost mut srcs: Seq<int> = Seq::empty();
    let mut i: usize = 0;
    while prompts.len() > 0
        invariant
            0 <= i <= orig.len(),
            orig.len() == n0 as int,
            prompts@ =~= orig.subrange(i as int, orig.len() as int),
            kept@ == prompts_without(orig.take(i as int), u),
            srcs.len() == kept@.len(),
            forall|j: int|
                0 <= j < srcs.len() ==> 0 <= #[trigger] srcs[j] < i && kept@[j] == orig[srcs[j]]
                    && kept@[j].user_id != u,
            forall|x: int, y: int| 0 <= x < y < srcs.len() ==> #[trigger] srcs[x] < #[trigger] srcs[y],
            forall|v: u128|
                v != u ==> #[trigger] crate::store::prompt_count(kept@, v)
                    == crate::store::prompt_count(orig.take(i as int), v),
            forall|j: int|
                0 <= j < kept@.len() ==> (#[trigger] kept@[j]).display_order as int
                    == crate::store::prompt_count(kept@.take(j), kept@[j].user_id),
        decreases prompts@.len(),
    {
        proof {
            crate::prompt_queries::lemma_user_prompts_take_step(orig, u, i as int);
            assert(orig.take(i as int + 1).drop_last() =~= orig.take(i as int));
            assert(orig.take(i as int + 1).last() == orig[i as int]);
        }
        let rec = prompts.remove(0);
        proof {
            assert(prompts@ =~= orig.subrange(i as int + 1, orig.len() as int));
        }
        if rec.user_id != u {
            let ghost kept_before = kept@;
            kept.push(rec);
            proof {
                srcs = srcs.push(i as int);
                assert forall|v: u128| v != u implies #[trigger] crate::store::prompt_count(
                    kept@,
                    v,
                ) == crate::store::prompt_count(orig.take(i as int + 1), v) by {
                    crate::store::lemma_prompt_count_push(kept_before, orig[i as int], v);
                    crate::prompt_queries::lemma_user_prompts_take_step(orig, v, i as int);
                }
                assert forall|j: int|
                    0 <= j < kept@.len() implies (#[trigger] kept@[j]).display_order as int
                    == crate::store::prompt_count(kept@.take(j), kept@[j].user_id) by {
                    if j < kept@.len() - 1 {
                        assert(kept@.take(j) =~= kept_before.take(j));
                        assert(kept@[j] == kept_before[j]);
                    } else {
                        assert(kept@.take(j) =~= kept_before);
                        crate::prompt_queries::lemma_user_prompts_take_step(
                            orig,
                            orig[i as int].user_id,
                            i as int,
                        );
                    }
                }
            }
        } else {
            proof {
                assert forall|v: u128| v != u implies #[trigger] crate::store::prompt_count(
                    kept@,
                    v,
                ) == crate::store::prompt_count(orig.take(i as int + 1), v) by {
                    crate::prompt_queries::lemma_user_prompts_take_step(orig, v, i as int);
                }
            }
        }
        i = i + 1;
    }
    proof {
        assert(orig.take(orig.len() as int) =~= orig);
    }
    *prompts = kept;
    Ghost(srcs)
}

/// Keeps the ledger rows that touch the user on neither side, reporting
/// the kept positions.
#[verifier::loop_isolation(false)]
fn drain_interactions(ledger: &mut Vec<InteractionRec>, u: u128) -> (src: Ghost<Seq<int>>)
    ensures
        final(ledger)@ == interactions_without(old(ledger)@, u),
        src@.len() == final(ledger)@.len(),
        forall|j: int|
            0 <= j < src@.len() ==> 0 <= #[trigger] src@[j] < old(ledger)@.len() && final(ledger)@[j] == old(ledger)@[src@[j]] && final(ledger)@[j].from_user_id != u && final(ledger)@[j].to_user_id != u,
        forall|x: int, y: int| 0 <= x < y < src@.len() ==> #[trigger] src@[x] < #[trigger] src@[y],
{
    let ghost orig = ledger@;
    let n0 = ledger.len();
    proof {
        assert(orig.len() == n0 as int);
    }
    let mut kept: Vec<InteractionRec> = Vec::new();
    let ghost mut srcs: Seq<int> = Seq::empty();
    let mut i: usize = 0;
    while ledger.len() > 0
        invariant
            0 <= i <= orig.len(),
            orig.len() == n0 as int,
            ledger@ =~= orig.subrange(i as int, orig.len() as int),
            kept@ == interactions_without(orig.take(i as int), u),
            srcs.len() == kept@.len(),
            forall|j: int|
                0 <= j < srcs.len() ==> 0 <= #[trigger] srcs[j] < i && kept@[j] == orig[srcs[j]]
                    && kept@[j].from_user_id != u && kept@[j].to_user_id != u,
            forall|x: int, y: int| 0 <= x < y < srcs.len() ==> #[trigger] srcs[x] < #[trigger] srcs[y],
        decreases ledger@.len(),
    {
        proof {
            assert(orig.take(i as int + 1).drop_last() =~= orig.take(i as int));
            assert(orig.take(i as int + 1).last() == orig[i as int]);
        }
        let rec = ledger.remove(0);
        proof {
            assert(ledger@ =~= orig.subrange(i as int + 1, orig.len() as int));
        }
        if rec.from_user_id != u && rec.to_user_id != u {
            kept.push(rec);
            proof {
                srcs = srcs.push(i as int);
            }
        }
        i = i + 1;
    }
    proof {
        assert(orig.take(orig.len() as int) =~= orig);
    }
    *ledger = kept;
    Ghost(srcs)
}

/// Keeps the match rows the user takes no part in, reporting the kept
/// positions.
#[verifier::loop_isolation(false)]
fn drain_matches(matches: &mut Vec<crate::store::MatchRec>, u: u128) -> (src: Ghost<Seq<int>>)
    ensures
        final(matches)@ == matches_without(old(matches)@, u),
        src@.len() == final(matches)@.len(),
        forall|j: int|
            0 <= j < src@.len() ==> 0 <= #[trigger] src@[j] < old(matches)@.len() && final(matches)@[j] == old(matches)@[src@[j]] && final(matches)@[j].user1_id != u && final(matches)@[j].user2_id != u,
        forall|x: int, y: int| 0 <= x < y < src@.len() ==> #[trigger] src@[x] < #[trigger] src@[y],
{
    let ghost orig = matches@;
    let n0 = matches.len();
    proof {
        assert(orig.len() == n0 as int);
    }
    let mut kept: Vec<crate::store::MatchRec> = Vec::new();
    let ghost mut srcs: Seq<int> = Seq::empty();
    let mut i: usize = 0;
    while matches.len() > 0
        invariant
            0 <= i <= orig.len(),
            orig.len() == n0 as int,
            matches@ =~= orig.subrange(i as int, orig.len() as int),
            kept@ == matches_without(orig.take(i as int), u),
            srcs.len() == kept@.len(),
            forall|j: int|
                0 <= j < srcs.len() ==> 0 <= #[trigger] srcs[j] < i && kept@[j] == orig[srcs[j]]
                    && kept@[j].user1_id != u && kept@[j].user2_id != u,
            forall|x: int, y: int| 0 <= x < y < srcs.len() ==> #[trigger] srcs[x] < #[trigger] srcs[y],
        decreases matches@.len(),
    {
        proof {
            assert(orig.take(i as int + 1).drop_last() =~= orig.take(i as int));
            assert(orig.take(i as int + 1).last() == orig[i as int]);
        }
        let rec = matches.remove(0);
        proof {
            assert(matches@ =~= orig.subrange(i as int + 1, orig.len() as int));
        }
        if rec.user1_id != u && rec.user2_id != u {
            kept.push(rec);
            proof {
                srcs = srcs.push(i as int);
            }
        }
        i = i + 1;
    }
    proof {
        assert(orig.take(orig.len() as int) =~= orig);
    }
    *matches = kept;
    Ghost(srcs)
}

/// Deletes an account with everything it owns or takes part in: its
/// profile, images and prompts, every ledger row that touches it, every
/// match it joins, and the messages of those matches. Deleting an unknown
/// id removes nothing.
#[verifier::rlimit(100)]
#[verifier::loop_isolation(false)]
pub fn delete_user(store: &mut Store, user_id: u128)
    requires
        old(store).wf(),
    ensures
        final(store).wf(),
        final(store).users@ == users_without(old(store).users@, user_id),
        final(store).profiles@ == profiles_without(old(store).profiles@, user_id),
        final(store).images@ == images_without(old(store).images@, user_id),
        final(store).prompts@ == prompts_without(old(store).prompts@, user_id),
        final(store).interactions@ == interactions_without(old(store).interactions@, user_id),
        final(store).matches@ == matches_without(old(store).matches@, user_id),
        final(store).messages@ == messages_kept(
            old(store).messages@,
            matches_without(old(store).matches@, user_id),
        ),
        final(store).next_id == old(store).next_id,
        final(store).clock == old(store).clock,
{
    let ghost orig_users = store.users@;
    let ghost orig_matches = store.matches@;
    let ghost orig_messages = store.messages@;
    let Ghost(src_u) = drain_users(&mut store.users, user_id);
    let Ghost(src_p) = drain_profiles(&mut store.profiles, user_id);
    let Ghost(src_im) = drain_images(&mut store.images, user_id);
    let Ghost(src_pr) = drain_prompts(&mut store.prompts, user_id);
    let Ghost(src_ix) = drain_interactions(&mut store.interactions, user_id);
    let Ghost(src_mt) = drain_matches(&mut store.matches, user_id);
    // keep the messages whose match survived
    let ghost new_matches = store.matches@;
    let m0 = store.messages.len();
    proof {
        assert(orig_messages.len() == m0 as int);
    }
    let mut kept_msgs: Vec<crate::store::MessageRec> = Vec::new();
    let ghost mut src_ms: Seq<int> = Seq::empty();
    let mut i: usize = 0;
    while store.messages.len() > 0
        invariant
            0 <= i <= orig_messages.len(),
            orig_messages.len() == m0 as int,
            store.messages@ =~= orig_messages.subrange(i as int, orig_messages.len() as int),
            store.matches@ == new_matches,
            store.users@ == users_without(orig_users, user_id),
            store.profiles@ == profiles_without(old(store).profiles@, user_id),
            store.images@ == images_without(old(store).images@, user_id),
            store.prompts@ == prompts_without(old(store).prompts@, user_id),
            store.interactions@ == interactions_without(old(store).interactions@, user_id),
            store.next_id == old(store).next_id,
            store.clock == old(store).clock,
            kept_msgs@ == messages_kept(orig_messages.take(i as int), new_matches),
            src_ms.len() == kept_msgs@.len(),
            forall|j: int|
                0 <= j < src_ms.len() ==> 0 <= #[trigger] src_ms[j] < i && kept_msgs@[j]
                    == orig_messages[src_ms[j]],
            forall|x: int, y: int|
                0 <= x < y < src_ms.len() ==> #[trigger] src_ms[x] < #[trigger] src_ms[y],
        decreases store.messages@.len(),
    {
        proof {
            assert(orig_messages.take(i as int + 1).drop_last() =~= orig_messages.take(i as int));
            assert(orig_messages.take(i as int + 1).last() == orig_messages[i as int]);
        }
        let rec = store.messages.remove(0);
        proof {
            assert(store.messages@ =~= orig_messages.subrange(
                i as int + 1,
                orig_messages.len() as int,
            ));
        }
        let keep = match store.match_index(rec.match_id) {
            Some(_) => true,
            None => false,
        };
        proof {
            assert(keep == crate::store::match_exists(new_matches, rec.match_id));
        }
        if keep {
            kept_msgs.push(rec);
            proof {
                src_ms = src_ms.push(i as int);
            }
        }
        i = i + 1;
    }
    proof {
        assert(orig_messages.take(orig_messages.len() as int) =~= orig_messages);
    }
    store.messages = kept_msgs;
    proof {
        lemma_del_users(orig_users, store.users@, src_u, user_id, store.next_id);
        lemma_del_profiles(
            old(store).profiles@,
            store.profiles@,
            src_p,
            orig_users,
            store.users@,
            user_id,
        );
        lemma_del_images(
            old(store).images@,
            store.images@,
            src_im,
            orig_users,
            store.users@,
            user_id,
            store.next_id,
        );
        lemma_del_prompts(
            old(store).prompts@,
            store.prompts@,
            src_pr,
            orig_users,
            store.users@,
            user_id,
            store.next_id,
        );
        lemma_del_ledger(
            old(store).interactions@,
            store.interactions@,
            src_ix,
            orig_users,
            store.users@,
            user_id,
        );
        lemma_del_matches(
            orig_matches,
            new_matches,
            src_mt,
            orig_users,
            store.users@,
            user_id,
            store.next_id,
        );
        lemma_del_messages(
            orig_messages,
            store.messages@,
            src_ms,
            orig_matches,
            new_matches,
            src_mt,
            store.next_id,
            store.clock,
        );
    }
}

/// After deletion the user table keeps its identity invariants, and every
/// other account is still there.
proof fn lemma_del_users(
    orig_users: Seq<crate::store::UserRec>,
    nu: Seq<crate::store::UserRec>,
    src_u: Seq<int>,
    user_id: u128,
    nid: u128,
)
    requires
        crate::store::users_wf(orig_users, nid),
        nu == users_without(orig_users, user_id),
        src_u.len() == nu.len(),
        forall|j: int|
            0 <= j < src_u.len() ==> 0 <= #[trigger] src_u[j] < orig_users.len() && nu[j]
                == orig_users[src_u[j]] && nu[j].id != user_id,
        forall|x: int, y: int| 0 <= x < y < src_u.len() ==> #[trigger] src_u[x] < #[trigger] src_u[y],
    ensures
        crate::store::users_wf(nu, nid),
        forall|id: u128|
            #[trigger] user_exists(orig_users, id) && id != user_id ==> user_exists(nu, id),
{
    lemma_filtered_distinct(orig_users, nu, src_u, |r: crate::store::UserRec| r.id);
    lemma_filtered_distinct(orig_users, nu, src_u, |r: crate::store::UserRec| r.phone@);
    assert forall|j: int| 0 <= j < nu.len() implies (#[trigger] nu[j]).id < nid by {
        assert(nu[j] == orig_users[src_u[j]]);
    }
    assert forall|id: u128|
        #[trigger] user_exists(orig_users, id) && id != user_id implies user_exists(nu, id) by {
        lemma_users_without_keeps(orig_users, user_id, id);
    }
}

/// After deletion the profile table keeps one row per user, each naming a
/// surviving account.
proof fn lemma_del_profiles(
    orig_profiles: Seq<ProfileRec>,
    np: Seq<ProfileRec>,
    src_p: Seq<int>,
    orig_users: Seq<crate::store::UserRec>,
    nu: Seq<crate::store::UserRec>,
    user_id: u128,
)
    requires
        crate::store::profiles_wf(orig_profiles, orig_users),
        src_p.len() == np.len(),
        forall|j: int|
            0 <= j < src_p.len() ==> 0 <= #[trigger] src_p[j] < orig_profiles.len() && np[j]
                == orig_profiles[src_p[j]] && np[j].user_id != user_id,
        forall|x: int, y: int| 0 <= x < y < src_p.len() ==> #[trigger] src_p[x] < #[trigger] src_p[y],
        forall|id: u128|
            #[trigger] user_exists(orig_users, id) && id != user_id ==> user_exists(nu, id),
    ensures
        crate::store::profiles_wf(np, nu),
{
    lemma_filtered_distinct(orig_profiles, np, src_p, |r: ProfileRec| r.user_id);
    assert forall|j: int| 0 <= j < np.len() implies user_exists(
        nu,
        (#[trigger] np[j]).user_id,
    ) by {
        assert(np[j] == orig_profiles[src_p[j]]);
    }
}

/// After deletion the image table keeps its identities, dense orders and
/// per-user cap, each row naming a surviving account.
proof fn lemma_del_images(
    orig_images: Seq<crate::store::ImageRec>,
    ni: Seq<crate::store::ImageRec>,
    src_im: Seq<int>,
    orig_users: Seq<crate::store::UserRec>,
    nu: Seq<crate::store::UserRec>,
    user_id: u128,
    nid: u128,
)
    requires
        crate::store::images_wf(orig_images, orig_users, nid),
        src_im.len() == ni.len(),
        forall|j: int|
            0 <= j < src_im.len() ==> 0 <= #[trigger] src_im[j] < orig_images.len() && ni[j]
                == orig_images[src_im[j]] && ni[j].user_id != user_id,
        forall|x: int, y: int|
            0 <= x < y < src_im.len() ==> #[trigger] src_im[x] < #[trigger] src_im[y],
        forall|v: u128|
            v != user_id ==> #[trigger] crate::store::image_count(ni, v)
                == crate::store::image_count(orig_images, v),
        forall|i: int|
            0 <= i < ni.len() ==> (#[trigger] ni[i]).display_order as int
                == crate::store::image_count(ni.take(i), ni[i].user_id),
        forall|id: u128|
            #[trigger] user_exists(orig_users, id) && id != user_id ==> user_exists(nu, id),
    ensures
        crate::store::images_wf(ni, nu, nid),
{
    lemma_filtered_distinct(orig_images, ni, src_im, |r: crate::store::ImageRec| r.id);
    assert forall|j: int| 0 <= j < ni.len() implies (#[trigger] ni[j]).id < nid && user_exists(
        nu,
        ni[j].user_id,
    ) by {
        assert(ni[j] == orig_images[src_im[j]]);
    }
    assert forall|v: u128| #[trigger] crate::store::image_count(ni, v) <= 6 by {
        if v == user_id {
            assert forall|i: int| 0 <= i < ni.len() implies (#[trigger] ni[i]).user_id != v by {
                assert(ni[i] == orig_images[src_im[i]]);
            }
            lemma_image_count_zero(ni, v);
        }
    }
}

/// After deletion the prompt table keeps its identities, dense orders and
/// per-user cap, each row naming a surviving account.
proof fn lemma_del_prompts(
    orig_prompts: Seq<crate::store::PromptRec>,
    np: Seq<crate::store::PromptRec>,
    src_pr: Seq<int>,
    orig_users: Seq<crate::store::UserRec>,
    nu: Seq<crate::store::UserRec>,
    user_id: u128,
    nid: u128,
)
    requires
        crate::store::prompts_wf(orig_prompts, orig_users, nid),
        src_pr.len() == np.len(),
        forall|j: int|
            0 <= j < src_pr.len() ==> 0 <= #[trigger] src_pr[j] < orig_prompts.len() && np[j]
                == orig_prompts[src_pr[j]] && np[j].user_id != user_id,
        forall|x: int, y: int|
            0 <= x < y < src_pr.len() ==> #[trigger] src_pr[x] < #[trigger] src_pr[y],
        forall|v: u128|
            v != user_id ==> #[trigger] crate::store::prompt_count(np, v)
                == crate::store::prompt_count(orig_prompts, v),
        forall|i: int|
            0 <= i < np.len() ==> (#[trigger] np[i]).display_order as int
                == crate::store::prompt_count(np.take(i), np[i].user_id),
        forall|id: u128|
            #[trigger] user_exists(orig_users, id) && id != user_id ==> user_exists(nu, id),
    ensures
        crate::store::prompts_wf(np, nu, nid),
{
    lemma_filtered_distinct(orig_prompts, np, src_pr, |r: crate::store::PromptRec| r.id);
    assert forall|j: int| 0 <= j < np.len() implies (#[trigger] np[j]).id < nid && user_exists(
        nu,
        np[j].user_id,
    ) by {
        assert(np[j] == orig_prompts[src_pr[j]]);
    }
    assert forall|v: u128| #[trigger] crate::store::prompt_count(np, v) <= 3 by {
        if v == user_id {
            assert forall|i: int| 0 <= i < np.len() implies (#[trigger] np[i]).user_id != v by {
                assert(np[i] == orig_prompts[src_pr[i]]);
            }
            lemma_prompt_count_zero(np, v);
        }
    }
}

/// After deletion the ledger keeps one row per ordered pair, each touching
/// only surviving accounts.
proof fn lemma_del_ledger(
    orig_ledger: Seq<InteractionRec>,
    nx: Seq<InteractionRec>,
    src_ix: Seq<int>,
    orig_users: Seq<crate::store::UserRec>,
    nu: Seq<crate::store::UserRec>,
    user_id: u128,
)
    requires
        crate::store::ledger_wf(orig_ledger, orig_users),
        src_ix.len() == nx.len(),
        forall|j: int|
            0 <= j < src_ix.len() ==> 0 <= #[trigger] src_ix[j] < orig_ledger.len() && nx[j]
                == orig_ledger[src_ix[j]] && nx[j].from_user_id != user_id && nx[j].to_user_id
                != user_id,
        forall|x: int, y: int|
            0 <= x < y < src_ix.len() ==> #[trigger] src_ix[x] < #[trigger] src_ix[y],
        forall|id: u128|
            #[trigger] user_exists(orig_users, id) && id != user_id ==> user_exists(nu, id),
    ensures
        crate::store::ledger_wf(nx, nu),
{
    lemma_filtered_distinct(
        orig_ledger,
        nx,
        src_ix,
        |r: InteractionRec| (r.from_user_id, r.to_user_id),
    );
    assert forall|j: int| 0 <= j < nx.len() implies crate::store::ledger_row_ok(
        #[trigger] nx[j],
        nu,
    ) by {
        assert(nx[j] == orig_ledger[src_ix[j]]);
    }
}

/// After deletion the match table keeps its identities and pair
/// uniqueness, each row joining surviving accounts.
proof fn lemma_del_matches(
    orig_matches: Seq<crate::store::MatchRec>,
    nm: Seq<crate::store::MatchRec>,
    src_mt: Seq<int>,
    orig_users: Seq<crate::store::UserRec>,
    nu: Seq<crate::store::UserRec>,
    user_id: u128,
    nid: u128,
)
    requires
        crate::store::matches_wf(orig_matches, orig_users, nid),
        src_mt.len() == nm.len(),
        forall|j: int|
            0 <= j < src_mt.len() ==> 0 <= #[trigger] src_mt[j] < orig_matches.len() && nm[j]
                == orig_matches[src_mt[j]] && nm[j].user1_id != user_id && nm[j].user2_id
                != user_id,
        forall|x: int, y: int|
            0 <= x < y < src_mt.len() ==> #[trigger] src_mt[x] < #[trigger] src_mt[y],
        forall|id: u128|
            #[trigger] user_exists(orig_users, id) && id != user_id ==> user_exists(nu, id),
    ensures
        crate::store::matches_wf(nm, nu, nid),
{
    lemma_filtered_distinct(orig_matches, nm, src_mt, |r: crate::store::MatchRec| r.id);
    assert forall|j: int|
        0 <= j < nm.len() implies (#[trigger] nm[j]).id < nid && nm[j].user1_id != nm[j].user2_id
        && user_exists(nu, nm[j].user1_id) && user_exists(nu, nm[j].user2_id) by {
        assert(nm[j] == orig_matches[src_mt[j]]);
    }
    assert forall|x: int, y: int|
        0 <= x < y < nm.len() implies !crate::store::match_joins(
        #[trigger] nm[x],
        (#[trigger] nm[y]).user1_id,
        nm[y].user2_id,
    ) by {
        assert(nm[x] == orig_matches[src_mt[x]]);
        assert(nm[y] == orig_matches[src_mt[y]]);
        assert(src_mt[x] < src_mt[y]);
    }
}

/// After deletion the message table keeps its identities and ascending
/// instants, every message still sits in its surviving match, and the
/// denormalized tails of surviving matches are untouched.
#[verifier::rlimit(100)]
proof fn lemma_del_messages(
    orig_messages: Seq<crate::store::MessageRec>,
    nmsg: Seq<crate::store::MessageRec>,
    src_ms: Seq<int>,
    orig_matches: Seq<crate::store::MatchRec>,
    new_matches: Seq<crate::store::MatchRec>,
    src_mt: Seq<int>,
    nid: u128,
    clock: i64,
)
    requires
        crate::store::messages_wf(orig_messages, orig_matches, nid, clock),
        crate::store::denorm_wf(orig_matches, orig_messages),
        forall|x: int, y: int|
            0 <= x < y < orig_matches.len() ==> #[trigger] orig_matches[x].id
                != #[trigger] orig_matches[y].id,
        nmsg == messages_kept(orig_messages, new_matches),
        src_ms.len() == nmsg.len(),
        forall|j: int|
            0 <= j < src_ms.len() ==> 0 <= #[trigger] src_ms[j] < orig_messages.len() && nmsg[j]
                == orig_messages[src_ms[j]],
        forall|x: int, y: int|
            0 <= x < y < src_ms.len() ==> #[trigger] src_ms[x] < #[trigger] src_ms[y],
        src_mt.len() == new_matches.len(),
        forall|j: int|
            0 <= j < src_mt.len() ==> 0 <= #[trigger] src_mt[j] < orig_matches.len()
                && new_matches[j] == orig_matches[src_mt[j]],
    ensures
        crate::store::messages_wf(nmsg, new_matches, nid, clock),
        crate::store::denorm_wf(new_matches, nmsg),
{
    lemma_filtered_distinct(orig_messages, nmsg, src_ms, |r: crate::store::MessageRec| r.id);
    assert forall|x: int, y: int|
        0 <= x < y < nmsg.len() implies (#[trigger] nmsg[x]).created_at
        < (#[trigger] nmsg[y]).created_at by {
        assert(nmsg[x] == orig_messages[src_ms[x]]);
        assert(nmsg[y] == orig_messages[src_ms[y]]);
        assert(src_ms[x] < src_ms[y]);
    }
    assert forall|j: int|
        0 <= j < nmsg.len() implies (#[trigger] nmsg[j]).id < nid && 0 <= nmsg[j].created_at
        <= clock && crate::store::message_has_home(nmsg[j], new_matches) by {
        assert(nmsg[j] == orig_messages[src_ms[j]]);
        assert(crate::store::message_has_home(orig_messages[src_ms[j]], orig_matches));
        let h = choose|h: int|
            0 <= h < orig_matches.len() && (#[trigger] orig_matches[h]).id == nmsg[j].match_id && (
            nmsg[j].sender_id == orig_matches[h].user1_id || nmsg[j].sender_id
                == orig_matches[h].user2_id);
        assert(crate::store::match_exists(new_matches, nmsg[j].match_id)) by {
            lemma_messages_kept_members(orig_messages, new_matches, j);
        }
        let k = choose|k: int|
            0 <= k < new_matches.len() && (#[trigger] new_matches[k]).id == nmsg[j].match_id;
        assert(new_matches[k] == orig_matches[src_mt[k]]);
        assert(src_mt[k] == h) by {
            if src_mt[k] != h {
                assert(orig_matches[src_mt[k]].id != orig_matches[h].id);
            }
        }
    }
    assert forall|k: int|
        0 <= k < new_matches.len() implies match crate::store::last_msg(
        nmsg,
        (#[trigger] new_matches[k]).id,
    ) {
        Some(m) => new_matches[k].last_message == Some(m.text) && new_matches[k].last_message_at
            == Some(m.created_at),
        None => new_matches[k].last_message matches None && new_matches[k].last_message_at
            matches None,
    } by {
        assert(crate::store::match_exists(new_matches, new_matches[k].id));
        lemma_messages_kept_last_msg(orig_messages, new_matches, new_matches[k].id);
        assert(new_matches[k] == orig_matches[src_mt[k]]);
    }
}

/// Every kept message's match exists in the surviving match table.
pub proof fn lemma_messages_kept_members(
    messages: Seq<crate::store::MessageRec>,
    matches: Seq<crate::store::MatchRec>,
    j: int,
)
    requires
        0 <= j < messages_kept(messages, matches).len(),
    ensures
        crate::store::match_exists(matches, messages_kept(messages, matches)[j].match_id),
    decreases messages.len(),
{
    if messages.len() > 0 {
        let kept = messages_kept(messages, matches);
        if crate::store::match_exists(matches, messages.last().match_id) {
            if j < kept.len() - 1 {
                lemma_messages_kept_members(messages.drop_last(), matches, j);
            }
        } else {
            lemma_messages_kept_members(messages.drop_last(), matches, j);
        }
    }
}


} // verus!
