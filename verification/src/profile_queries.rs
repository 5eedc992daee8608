//! Operations on the profile table: existence checks, creation, partial
//! update with keep-on-absent semantics, completeness counting, retrieval,
//! and the preference-filtered candidate selection of the feed.

use crate::errors::ApiError;
use crate::inputs::UpdateProfileRequest;
use crate::outputs::ProfileDetails;
use crate::store::{
    has_interaction, profile_exists, user_exists, InteractionRec, ProfileRec, Store,
};
use crate::util::{clone_opt_string, contains_seq, contains_str, string_list_contains};
use vstd::prelude::*;

verus! {

/// Whether a profile row reads as a fresh insert from the request: each of
/// the sixteen written attributes carries the request's value, the
/// birthdate and location columns stay empty, and the row starts
/// incomplete.
pub open spec fn profile_created(p: ProfileRec, user_id: u128, req: UpdateProfileRequest) -> bool {
    &&& p.user_id == user_id
    &&& p.name == req.name
    &&& p.bio == req.bio
    &&& p.birthdate is None
    &&& p.pronouns == req.pronouns
    &&& p.gender == req.gender
    &&& p.sexuality == req.sexuality
    &&& p.height == req.height
    &&& p.location is None
    &&& p.job == req.job
    &&& p.company == req.company
    &&& p.school == req.school
    &&& p.ethnicity == req.ethnicity
    &&& p.politics == req.politics
    &&& p.religion == req.religion
    &&& p.relationship_type == req.relationship_type
    &&& p.dating_intention == req.dating_intention
    &&& p.drinks == req.drinks
    &&& p.smokes == req.smokes
    &&& p.is_complete == false
}

/// Whether `new_p` reads as `old_p` overwritten by the request, where an
/// absent request field keeps the stored value; the birthdate and location
/// columns and the completeness flag are never written here.
pub open spec fn profile_merged(
    old_p: ProfileRec,
    new_p: ProfileRec,
    req: UpdateProfileRequest,
) -> bool {
    &&& new_p.user_id == old_p.user_id
    &&& new_p.name == (if req.name is Some {
        req.name
    } else {
        old_p.name
    })
    &&& new_p.bio == (if req.bio is Some {
        req.bio
    } else {
        old_p.bio
    })
    &&& new_p.birthdate == old_p.birthdate
    &&& new_p.pronouns == (if req.pronouns is Some {
        req.pronouns
    } else {
        old_p.pronouns
    })
    &&& new_p.gender == (if req.gender is Some {
        req.gender
    } else {
        old_p.gender
    })
    &&& new_p.sexuality == (if req.sexuality is Some {
        req.sexuality
    } else {
        old_p.sexuality
    })
    &&& new_p.height == (if req.height is Some {
        req.height
    } else {
        old_p.height
    })
    &&& new_p.location == old_p.location
    &&& new_p.job == (if req.job is Some {
        req.job
    } else {
        old_p.job
    })
    &&& new_p.company == (if req.company is Some {
        req.company
    } else {
        old_p.company
    })
    &&& new_p.school == (if req.school is Some {
        req.school
    } else {
        old_p.school
    })
    &&& new_p.ethnicity == (if req.ethnicity is Some {
        req.ethnicity
    } else {
        old_p.ethnicity
    })
    &&& new_p.politics == (if req.politics is Some {
        req.politics
    } else {
        old_p.politics
    })
    &&& new_p.religion == (if req.religion is Some {
        req.religion
    } else {
        old_p.religion
    })
    &&& new_p.relationship_type == (if req.relationship_type is Some {
        req.relationship_type
    } else {
        old_p.relationship_type
    })
    &&& new_p.dating_intention == (if req.dating_intention is Some {
        req.dating_intention
    } else {
        old_p.dating_intention
    })
    &&& new_p.drinks == (if req.drinks is Some {
        req.drinks
    } else {
        old_p.drinks
    })
    &&& new_p.smokes == (if req.smokes is Some {
        req.smokes
    } else {
        old_p.smokes
    })
    &&& new_p.is_complete == old_p.is_complete
}

/// How many of the sixteen completeness-relevant attributes are still
/// unfilled; birthdate and location do not count.
/// One when a text attribute is unfilled.
pub open spec fn unfilled_str(o: Option<String>) -> int {
    if o is None {
        1
    } else {
        0
    }
}

/// One when a numeric attribute is unfilled.
pub open spec fn unfilled_num(o: Option<i32>) -> int {
    if o is None {
        1
    } else {
        0
    }
}

pub open spec fn missing_count(p: ProfileRec) -> int {
    unfilled_str(p.name)
        + unfilled_str(p.bio)
        + unfilled_str(p.pronouns)
        + unfilled_str(p.gender)
        + unfilled_str(p.sexuality)
        + unfilled_num(p.height)
        + unfilled_str(p.job)
        + unfilled_str(p.company)
        + unfilled_str(p.school)
        + unfilled_str(p.ethnicity)
        + unfilled_str(p.politics)
        + unfilled_str(p.religion)
        + unfilled_str(p.relationship_type)
        + unfilled_str(p.dating_intention)
        + unfilled_str(p.drinks)
        + unfilled_str(p.smokes)
}

/// Whether the served details read as the stored row; the location column
/// is always served empty.
pub open spec fn details_match(d: ProfileDetails, p: ProfileRec) -> bool {
    &&& d.name == p.name
    &&& d.bio == p.bio
    &&& d.birthdate == p.birthdate
    &&& d.pronouns == p.pronouns
    &&& d.gender == p.gender
    &&& d.sexuality == p.sexuality
    &&& d.height == p.height
    &&& d.location is None
    &&& d.job == p.job
    &&& d.company == p.company
    &&& d.school == p.school
    &&& d.ethnicity == p.ethnicity
    &&& d.politics == p.politics
    &&& d.religion == p.religion
    &&& d.relationship_type == p.relationship_type
    &&& d.dating_intention == p.dating_intention
    &&& d.drinks == p.drinks
    &&& d.smokes == p.smokes
}

/// Whether a profile row exists for the user.
pub fn check_profile_exists(store: &Store, user_id: u128) -> (r: bool)
    ensures
        r == profile_exists(store.profiles@, user_id),
{
    match store.profile_index(user_id) {
        Some(_) => true,
        None => false,
    }
}

/// Inserts a fresh profile row for the user. Fails with `InvalidReference`
/// when the user does not exist and with `Conflict` when a profile row is
/// already there.
pub fn create_profile(store: &mut Store, user_id: u128, req: &UpdateProfileRequest) -> (r: Result<
    (),
    ApiError,
>)
    requires
        old(store).wf(),
    ensures
        final(store).wf(),
        r is Ok <==> (user_exists(old(store).users@, user_id) && !profile_exists(
            old(store).profiles@,
            user_id,
        )),
        r matches Err(e) ==> ({
            &&& *final(store) == *old(store)
            &&& (e == ApiError::InvalidReference <==> !user_exists(old(store).users@, user_id))
            &&& (e == ApiError::InvalidReference || e == ApiError::Conflict)
        }),
        r is Ok ==> ({
            &&& final(store).profiles@ == old(store).profiles@.push(final(store).profiles@.last())
            &&& profile_created(final(store).profiles@.last(), user_id, *req)
            &&& final(store).users == old(store).users
            &&& final(store).images == old(store).images
            &&& final(store).prompts == old(store).prompts
            &&& final(store).interactions == old(store).interactions
            &&& final(store).matches == old(store).matches
            &&& final(store).messages == old(store).messages
            &&& final(store).next_id == old(store).next_id
            &&& final(store).clock == old(store).clock
        }),
{
    if !store.has_user(user_id) {
        return Err(ApiError::InvalidReference);
    }
    if check_profile_exists(store, user_id) {
        return Err(ApiError::Conflict);
    }
    let rec = ProfileRec {
        user_id,
        name: clone_opt_string(&req.name),
        bio: clone_opt_string(&req.bio),
        birthdate: None,
        pronouns: clone_opt_string(&req.pronouns),
        gender: clone_opt_string(&req.gender),
        sexuality: clone_opt_string(&req.sexuality),
        height: req.height,
        location: None,
        job: clone_opt_string(&req.job),
        company: clone_opt_string(&req.company),
        school: clone_opt_string(&req.school),
        ethnicity: clone_opt_string(&req.ethnicity),
        politics: clone_opt_string(&req.politics),
        religion: clone_opt_string(&req.religion),
        relationship_type: clone_opt_string(&req.relationship_type),
        dating_intention: clone_opt_string(&req.dating_intention),
        drinks: clone_opt_string(&req.drinks),
        smokes: clone_opt_string(&req.smokes),
        is_complete: false,
    };
    store.profiles.push(rec);
    Ok(())
}

/// Overwrites the fields of a stored row that the request carries.
#[verifier::rlimit(100)]
fn merge_profile(rec0: ProfileRec, req: &UpdateProfileRequest) -> (r: ProfileRec)
    ensures
        profile_merged(rec0, r, *req),
{
    let mut rec = rec0;
    if req.name.is_some() {
        rec.name = clone_opt_string(&req.name);
    }
    if req.bio.is_some() {
        rec.bio = clone_opt_string(&req.bio);
    }
    if req.pronouns.is_some() {
        rec.pronouns = clone_opt_string(&req.pronouns);
    }
    if req.gender.is_some() {
        rec.gender = clone_opt_string(&req.gender);
    }
    if req.sexuality.is_some() {
        rec.sexuality = clone_opt_string(&req.sexuality);
    }
    if req.height.is_some() {
        rec.height = req.height;
    }
    if req.job.is_some() {
        rec.job = clone_opt_string(&req.job);
    }
    if req.company.is_some() {
        rec.company = clone_opt_string(&req.company);
    }
    if req.school.is_some() {
        rec.school = clone_opt_string(&req.school);
    }
    if req.ethnicity.is_some() {
        rec.ethnicity = clone_opt_string(&req.ethnicity);
    }
    if req.politics.is_some() {
        rec.politics = clone_opt_string(&req.politics);
    }
    if req.religion.is_some() {
        rec.religion = clone_opt_string(&req.religion);
    }
    if req.relationship_type.is_some() {
        rec.relationship_type = clone_opt_string(&req.relationship_type);
    }
    if req.dating_intention.is_some() {
        rec.dating_intention = clone_opt_string(&req.dating_intention);
    }
    if req.drinks.is_some() {
        rec.drinks = clone_opt_string(&req.drinks);
    }
    if req.smokes.is_some() {
        rec.smokes = clone_opt_string(&req.smokes);
    }
    rec
}

/// Overwrites the stored profile fields that the request carries; absent
/// request fields keep their stored values, and a user without a profile
/// row is left untouched, as an update of no rows.
#[verifier::rlimit(100)]
pub fn update_profile(store: &mut Store, user_id: u128, req: &UpdateProfileRequest)
    requires
        old(store).wf(),
    ensures
        final(store).wf(),
        !profile_exists(old(store).profiles@, user_id) ==> *final(store) == *old(store),
        profile_exists(old(store).profiles@, user_id) ==> ({
            &&& final(store).profiles@.len() == old(store).profiles@.len()
            &&& exists|i: int|
                0 <= i < old(store).profiles@.len() && (#[trigger] old(
                    store,
                ).profiles@[i]).user_id == user_id && (forall|k: int|
                    0 <= k < final(store).profiles@.len() && k != i ==> final(store).profiles@[k]
                        == old(store).profiles@[k]) && profile_merged(
                    old(store).profiles@[i],
                    final(store).profiles@[i],
                    *req,
                )
            &&& final(store).users == old(store).users
            &&& final(store).images == old(store).images
            &&& final(store).prompts == old(store).prompts
            &&& final(store).interactions == old(store).interactions
            &&& final(store).matches == old(store).matches
            &&& final(store).messages == old(store).messages
            &&& final(store).next_id == old(store).next_id
            &&& final(store).clock == old(store).clock
        }),
{
    let idx = match store.profile_index(user_id) {
        Some(i) => i,
        None => {
            return ;
        },
    };
    let ghost before = store.profiles@;
    let rec = store.profiles.remove(idx);
    let rec = merge_profile(rec, req);
    let ghost grec = rec;
    store.profiles.insert(idx, rec);
    proof {
        crate::store::lemma_seq_remove_insert(before, idx as int, grec);
        assert(store.profiles@ =~= before.update(idx as int, grec));
    }
}

/// Creates the user's profile from the request or, when one is already
/// stored, overwrites it field by field. Returns whether a row was
/// created. Fails with `InvalidReference` when the user does not exist.
pub fn upsert_profile(store: &mut Store, user_id: u128, req: &UpdateProfileRequest) -> (r: Result<
    bool,
    ApiError,
>)
    requires
        old(store).wf(),
    ensures
        final(store).wf(),
        r is Ok <==> (user_exists(old(store).users@, user_id) || profile_exists(
            old(store).profiles@,
            user_id,
        )),
        r matches Err(e) ==> (*final(store) == *old(store) && e == ApiError::InvalidReference),
        r matches Ok(created) ==> (created == !profile_exists(old(store).profiles@, user_id)),
        r == Ok::<bool, ApiError>(true) ==> ({
            &&& final(store).profiles@ == old(store).profiles@.push(final(store).profiles@.last())
            &&& profile_created(final(store).profiles@.last(), user_id, *req)
        }),
        r == Ok::<bool, ApiError>(false) ==> ({
            &&& final(store).profiles@.len() == old(store).profiles@.len()
            &&& exists|i: int|
                0 <= i < old(store).profiles@.len() && (#[trigger] old(
                    store,
                ).profiles@[i]).user_id == user_id && (forall|k: int|
                    0 <= k < final(store).profiles@.len() && k != i ==> final(store).profiles@[k]
                        == old(store).profiles@[k]) && profile_merged(
                    old(store).profiles@[i],
                    final(store).profiles@[i],
                    *req,
                )
        }),
        r is Ok ==> ({
            &&& final(store).users == old(store).users
            &&& final(store).images == old(store).images
            &&& final(store).prompts == old(store).prompts
            &&& final(store).interactions == old(store).interactions
            &&& final(store).matches == old(store).matches
            &&& final(store).messages == old(store).messages
            &&& final(store).next_id == old(store).next_id
            &&& final(store).clock == old(store).clock
        }),
{
    if check_profile_exists(store, user_id) {
        update_profile(store, user_id, req);
        Ok(false)
    } else {
        create_profile(store, user_id, req)?;
        Ok(true)
    }
}

/// One when a text attribute is unfilled.
fn unfilled_str_of(o: &Option<String>) -> (c: i64)
    ensures
        c == unfilled_str(*o),
        0 <= c <= 1,
{
    if o.is_none() {
        1
    } else {
        0
    }
}

/// One when a numeric attribute is unfilled.
fn unfilled_num_of(o: &Option<i32>) -> (c: i64)
    ensures
        c == unfilled_num(*o),
        0 <= c <= 1,
{
    if o.is_none() {
        1
    } else {
        0
    }
}

/// Counts the unfilled completeness-relevant attributes of one row.
#[verifier::rlimit(100)]
fn missing_of(p: &ProfileRec) -> (n: i64)
    ensures
        n == missing_count(*p),
        0 <= n <= 16,
{
    let c0: i64 = unfilled_str_of(&p.name);
    let c1: i64 = unfilled_str_of(&p.bio);
    let c2: i64 = unfilled_str_of(&p.pronouns);
    let c3: i64 = unfilled_str_of(&p.gender);
    let c4: i64 = unfilled_str_of(&p.sexuality);
    let c5: i64 = unfilled_num_of(&p.height);
    let c6: i64 = unfilled_str_of(&p.job);
    let c7: i64 = unfilled_str_of(&p.company);
    let c8: i64 = unfilled_str_of(&p.school);
    let c9: i64 = unfilled_str_of(&p.ethnicity);
    let c10: i64 = unfilled_str_of(&p.politics);
    let c11: i64 = unfilled_str_of(&p.religion);
    let c12: i64 = unfilled_str_of(&p.relationship_type);
    let c13: i64 = unfilled_str_of(&p.dating_intention);
    let c14: i64 = unfilled_str_of(&p.drinks);
    let c15: i64 = unfilled_str_of(&p.smokes);
    c0 + c1 + c2 + c3 + c4 + c5 + c6 + c7 + c8 + c9 + c10 + c11 + c12 + c13 + c14 + c15
}

/// Counts the unfilled completeness-relevant attributes of the user's
/// profile; `NotFound` without a profile row.
#[verifier::rlimit(100)]
pub fn check_profile_attributes_filled(store: &Store, user_id: u128) -> (r: Result<i64, ApiError>)
    requires
        store.wf(),
    ensures
        r is Ok <==> profile_exists(store.profiles@, user_id),
        r matches Ok(n) ==> exists|i: int|
            0 <= i < store.profiles@.len() && (#[trigger] store.profiles@[i]).user_id == user_id
                && n == missing_count(store.profiles@[i]),
        r matches Err(e) ==> e == ApiError::NotFound,
        r matches Ok(n) ==> 0 <= n <= 16,
{
    let idx = match store.profile_index(user_id) {
        Some(i) => i,
        None => {
            return Err(ApiError::NotFound);
        },
    };
    let p = &store.profiles[idx];
    let n = missing_of(p);
    Ok(n)
}

/// Serves the user's profile details; `NotFound` without a profile row.
/// The location column is always served empty.
pub fn get_profile(store: &Store, user_id: u128) -> (r: Result<ProfileDetails, ApiError>)
    requires
        store.wf(),
    ensures
        r is Ok <==> profile_exists(store.profiles@, user_id),
        r matches Ok(d) ==> exists|i: int|
            0 <= i < store.profiles@.len() && (#[trigger] store.profiles@[i]).user_id == user_id
                && details_match(d, store.profiles@[i]),
        r matches Err(e) ==> e == ApiError::NotFound,
{
    let idx = match store.profile_index(user_id) {
        Some(i) => i,
        None => {
            return Err(ApiError::NotFound);
        },
    };
    let p = &store.profiles[idx];
    Ok(
        ProfileDetails {
            name: clone_opt_string(&p.name),
            bio: clone_opt_string(&p.bio),
            birthdate: clone_opt_string(&p.birthdate),
            pronouns: clone_opt_string(&p.pronouns),
            gender: clone_opt_string(&p.gender),
            sexuality: clone_opt_string(&p.sexuality),
            height: p.height,
            location: None,
            job: clone_opt_string(&p.job),
            company: clone_opt_string(&p.company),
            school: clone_opt_string(&p.school),
            ethnicity: clone_opt_string(&p.ethnicity),
            politics: clone_opt_string(&p.politics),
            religion: clone_opt_string(&p.religion),
            relationship_type: clone_opt_string(&p.relationship_type),
            dating_intention: clone_opt_string(&p.dating_intention),
            drinks: clone_opt_string(&p.drinks),
            smokes: clone_opt_string(&p.smokes),
        },
    )
}

/// Whether a profile may be served to the caller: it belongs to someone
/// else whom the caller has not yet interacted with, and its gender passes
/// the caller's preference list; an absent or empty list filters nothing,
/// and a non-empty list excludes profiles with no gender set.
pub open spec fn feed_keep(
    p: ProfileRec,
    gender_preference: Option<Seq<Seq<char>>>,
    caller: u128,
    ledger: Seq<InteractionRec>,
) -> bool {
    &&& p.user_id != caller
    &&& !has_interaction(ledger, caller, p.user_id)
    &&& match gender_preference {
        Some(l) => l.len() == 0 || (p.gender matches Some(g) && contains_seq(l, g@)),
        None => true,
    }
}

/// The caller's stored gender list, read as plain character sequences.
pub open spec fn gp_view(gender_preference: Option<Vec<String>>) -> Option<Seq<Seq<char>>> {
    match gender_preference {
        Some(l) => Some(l.deep_view()),
        None => None,
    }
}

/// The user rows that survive deleting one account.
pub open spec fn users_without(users: Seq<crate::store::UserRec>, u: u128) -> Seq<
    crate::store::UserRec,
>
    decreases users.len(),
{
    if users.len() == 0 {
        Seq::empty()
    } else if users.last().id != u {
        users_without(users.drop_last(), u).push(users.last())
    } else {
        users_without(users.drop_last(), u)
    }
}

/// The profile rows that survive deleting one account.
pub open spec fn profiles_without(profiles: Seq<ProfileRec>, u: u128) -> Seq<ProfileRec>
    decreases profiles.len(),
{
    if profiles.len() == 0 {
        Seq::empty()
    } else if profiles.last().user_id != u {
        profiles_without(profiles.drop_last(), u).push(profiles.last())
    } else {
        profiles_without(profiles.drop_last(), u)
    }
}

/// The image rows that survive deleting one account.
pub open spec fn images_without(images: Seq<crate::store::ImageRec>, u: u128) -> Seq<
    crate::store::ImageRec,
>
    decreases images.len(),
{
    if images.len() == 0 {
        Seq::empty()
    } else if images.last().user_id != u {
        images_without(images.drop_last(), u).push(images.last())
    } else {
        images_without(images.drop_last(), u)
    }
}

/// The prompt rows that survive deleting one account.
pub open spec fn prompts_without(prompts: Seq<crate::store::PromptRec>, u: u128) -> Seq<
    crate::store::PromptRec,
>
    decreases prompts.len(),
{
    if prompts.len() == 0 {
        Seq::empty()
    } else if prompts.last().user_id != u {
        prompts_without(prompts.drop_last(), u).push(prompts.last())
    } else {
        prompts_without(prompts.drop_last(), u)
    }
}

/// The ledger rows that survive deleting one account: those that touch
/// the user on neither side.
pub open spec fn interactions_without(ledger: Seq<InteractionRec>, u: u128) -> Seq<InteractionRec>
    decreases ledger.len(),
{
    if ledger.len() == 0 {
        Seq::empty()
    } else if ledger.last().from_user_id != u && ledger.last().to_user_id != u {
        interactions_without(ledger.drop_last(), u).push(ledger.last())
    } else {
        interactions_without(ledger.drop_last(), u)
    }
}

/// The match rows that survive deleting one account: those the user does
/// not take part in.
pub open spec fn matches_without(matches: Seq<crate::store::MatchRec>, u: u128) -> Seq<
    crate::store::MatchRec,
>
    decreases matches.len(),
{
    if matches.len() == 0 {
        Seq::empty()
    } else if matches.last().user1_id != u && matches.last().user2_id != u {
        matches_without(matches.drop_last(), u).push(matches.last())
    } else {
        matches_without(matches.drop_last(), u)
    }
}

/// The message rows whose match still exists.
pub open spec fn messages_kept(
    messages: Seq<crate::store::MessageRec>,
    matches: Seq<crate::store::MatchRec>,
) -> Seq<crate::store::MessageRec>
    decreases messages.len(),
{
    if messages.len() == 0 {
        Seq::empty()
    } else if crate::store::match_exists(matches, messages.last().match_id) {
        messages_kept(messages.drop_last(), matches).push(messages.last())
    } else {
        messages_kept(messages.drop_last(), matches)
    }
}

/// A surviving user keeps its row through the deletion of another account.
pub proof fn lemma_users_without_keeps(users: Seq<crate::store::UserRec>, u: u128, id: u128)
    requires
        user_exists(users, id),
        id != u,
    ensures
        user_exists(users_without(users, u), id),
    decreases users.len(),
{
    if users.len() > 0 {
        let sel = users_without(users, u);
        if users.last().id == id {
            assert(sel.last() == users.last());
        } else {
            assert(user_exists(users.drop_last(), id)) by {
                let i = choose|i: int| 0 <= i < users.len() && users[i].id == id;
                assert(users.drop_last()[i] == users[i]);
            }
            lemma_users_without_keeps(users.drop_last(), u, id);
            let j = choose|j: int|
                0 <= j < users_without(users.drop_last(), u).len() && users_without(
                    users.drop_last(),
                    u,
                )[j].id == id;
            if users.last().id != u {
                assert(sel[j] == users_without(users.drop_last(), u)[j]);
            }
        }
    }
}

/// Dropping whole matches drops whole conversations, so a surviving
/// match's newest message is untouched.
pub proof fn lemma_messages_kept_last_msg(
    messages: Seq<crate::store::MessageRec>,
    matches: Seq<crate::store::MatchRec>,
    id: u128,
)
    requires
        crate::store::match_exists(matches, id),
    ensures
        crate::store::last_msg(messages_kept(messages, matches), id) == crate::store::last_msg(
            messages,
            id,
        ),
    decreases messages.len(),
{
    if messages.len() > 0 {
        lemma_messages_kept_last_msg(messages.drop_last(), matches, id);
        let kept = messages_kept(messages, matches);
        if crate::store::match_exists(matches, messages.last().match_id) {
            assert(kept.drop_last() =~= messages_kept(messages.drop_last(), matches));
        } else {
            assert(messages.last().match_id != id);
        }
    }
}

/// A table with no row of a user counts zero images for that user.
pub proof fn lemma_image_count_zero(images: Seq<crate::store::ImageRec>, u: u128)
    requires
        forall|i: int| 0 <= i < images.len() ==> (#[trigger] images[i]).user_id != u,
    ensures
        crate::store::image_count(images, u) == 0,
    decreases images.len(),
{
    if images.len() > 0 {
        lemma_image_count_zero(images.drop_last(), u);
    }
}

/// A table with no row of a user counts zero prompts for that user.
pub proof fn lemma_prompt_count_zero(prompts: Seq<crate::store::PromptRec>, u: u128)
    requires
        forall|i: int| 0 <= i < prompts.len() ==> (#[trigger] prompts[i]).user_id != u,
    ensures
        crate::store::prompt_count(prompts, u) == 0,
    decreases prompts.len(),
{
    if prompts.len() > 0 {
        lemma_prompt_count_zero(prompts.drop_last(), u);
    }
}

/// Rows selected at strictly increasing positions keep any pairwise
/// distinctness of a key column.
pub proof fn lemma_filtered_distinct<T, K>(
    orig: Seq<T>,
    out: Seq<T>,
    src: Seq<int>,
    key: spec_fn(T) -> K,
)
    requires
        src.len() == out.len(),
        forall|j: int| 0 <= j < src.len() ==> 0 <= #[trigger] src[j] < orig.len() && out[j] == orig[src[j]],
        forall|x: int, y: int| 0 <= x < y < src.len() ==> #[trigger] src[x] < #[trigger] src[y],
        forall|x: int, y: int|
            0 <= x < y < orig.len() ==> key(#[trigger] orig[x]) != key(#[trigger] orig[y]),
    ensures
        forall|x: int, y: int|
            0 <= x < y < out.len() ==> key(#[trigger] out[x]) != key(#[trigger] out[y]),
{
    assert forall|x: int, y: int|
        0 <= x < y < out.len() implies key(#[trigger] out[x]) != key(#[trigger] out[y]) by {
        assert(src[x] < src[y]);
        assert(out[x] == orig[src[x]] && out[y] == orig[src[y]]);
    }
}

/// Membership among string values and among their views agree.
pub proof fn lemma_contains_views(l: Vec<String>, x: Seq<char>)
    ensures
        contains_str(l@, x) == contains_seq(l.deep_view(), x),
{
    if contains_str(l@, x) {
        let i = choose|i: int| 0 <= i < l@.len() && l@[i]@ == x;
        assert(l.deep_view()[i] == x);
    }
    if contains_seq(l.deep_view(), x) {
        let i = choose|i: int| 0 <= i < l.deep_view().len() && l.deep_view()[i] == x;
        assert(l@[i]@ == x);
    }
}

/// The profiles the caller may see, in table order.
pub open spec fn suggested(
    profiles: Seq<ProfileRec>,
    gender_preference: Option<Seq<Seq<char>>>,
    caller: u128,
    ledger: Seq<InteractionRec>,
) -> Seq<ProfileRec>
    decreases profiles.len(),
{
    if profiles.len() == 0 {
        Seq::empty()
    } else if feed_keep(profiles.last(), gender_preference, caller, ledger) {
        suggested(profiles.drop_last(), gender_preference, caller, ledger).push(profiles.last())
    } else {
        suggested(profiles.drop_last(), gender_preference, caller, ledger)
    }
}

/// Selects at most twenty candidate profiles for the caller: everyone
/// else's profile that passes the gender preference and that the caller
/// has not interacted with, in table order.
#[verifier::rlimit(50)]
#[verifier::loop_isolation(false)]
pub fn get_suggestions(
    store: &Store,
    gender_preference: Option<Vec<String>>,
    user_id: u128,
) -> (r: Vec<ProfileDetails>)
    requires
        store.wf(),
    ensures
        ({
            let sel = suggested(store.profiles@, gp_view(gender_preference), user_id, store.interactions@);
            &&& r@.len() == (if sel.len() <= 20 {
                sel.len() as int
            } else {
                20int
            })
            &&& forall|j: int| 0 <= j < r@.len() ==> details_match(#[trigger] r@[j], sel[j])
        }),
{
    let mut out: Vec<ProfileDetails> = Vec::new();
    let mut i: usize = 0;
    while i < store.profiles.len()
        invariant
            0 <= i <= store.profiles@.len(),
            ({
                let sel = suggested(
                    store.profiles@.take(i as int),
                    gp_view(gender_preference),
                    user_id,
                    store.interactions@,
                );
                &&& out@.len() == (if sel.len() <= 20 {
                    sel.len() as int
                } else {
                    20int
                })
                &&& forall|j: int| 0 <= j < out@.len() ==> details_match(#[trigger] out@[j], sel[j])
            }),
        decreases store.profiles@.len() - i,
    {
        proof {
            assert(store.profiles@.take(i as int + 1).drop_last() =~= store.profiles@.take(
                i as int,
            ));
            assert(store.profiles@.take(i as int + 1).last() == store.profiles@[i as int]);
        }
        let p = &store.profiles[i];
        let mut keep = p.user_id != user_id;
        if keep {
            match store.interaction_index(user_id, p.user_id) {
                Some(_) => {
                    keep = false;
                },
                None => {},
            }
        }
        if keep {
            match &gender_preference {
                Some(l) => {
                    if l.len() > 0 {
                        match &p.gender {
                            Some(g) => {
                                let hit = string_list_contains(l, g);
                                proof {
                                    lemma_contains_views(*l, g@);
                                }
                                if !hit {
                                    keep = false;
                                }
                            },
                            None => {
                                keep = false;
                            },
                        }
                    }
                },
                None => {},
            }
        }
        if keep && out.len() < 20 {
            out.push(
                ProfileDetails {
                    name: clone_opt_string(&p.name),
                    bio: clone_opt_string(&p.bio),
                    birthdate: clone_opt_string(&p.birthdate),
                    pronouns: clone_opt_string(&p.pronouns),
                    gender: clone_opt_string(&p.gender),
                    sexuality: clone_opt_string(&p.sexuality),
                    height: p.height,
                    location: None,
                    job: clone_opt_string(&p.job),
                    company: clone_opt_string(&p.company),
                    school: clone_opt_string(&p.school),
                    ethnicity: clone_opt_string(&p.ethnicity),
                    politics: clone_opt_string(&p.politics),
                    religion: clone_opt_string(&p.religion),
                    relationship_type: clone_opt_string(&p.relationship_type),
                    dating_intention: clone_opt_string(&p.dating_intention),
                    drinks: clone_opt_string(&p.drinks),
                    smokes: clone_opt_string(&p.smokes),
                },
            );
        }
        i = i + 1;
    }
    proof {
        assert(store.profiles@.take(store.profiles@.len() as int) =~= store.profiles@);
    }
    out
}

} // verus!
