//! Operations on the user table: lookup and creation by phone number,
//! identity updates, and the stored preference document.

use crate::errors::ApiError;
use crate::ids::{format_uuid, uuid_of, uuid_str_of};
use crate::inputs::{prefs_equiv, Preferences};
use crate::store::{phone_exists, user_exists, Store, UserRec};
use crate::util::string_is;
use vstd::prelude::*;

verus! {

/// Looks a user up by phone number and returns the id as a UUID string.
pub fn check_user_exists(store: &Store, phone: &str) -> (r: Option<String>)
    ensures
        r is Some <==> phone_exists(store.users@, phone@),
        r matches Some(id_str) ==> exists|i: int|
            0 <= i < store.users@.len() && (#[trigger] store.users@[i]).phone@ == phone@ && id_str@
                == uuid_str_of(store.users@[i].id) && uuid_of(id_str@) == Some(
                store.users@[i].id,
            ),
{
    let mut i: usize = 0;
    while i < store.users.len()
        invariant
            0 <= i <= store.users@.len(),
            forall|k: int| 0 <= k < i ==> (#[trigger] store.users@[k]).phone@ != phone@,
        decreases store.users@.len() - i,
    {
        if string_is(&store.users[i].phone, phone) {
            return Some(format_uuid(store.users[i].id));
        }
        i = i + 1;
    }
    None
}

/// Creates a user with the given phone number and empty identity, and
/// returns the new id as a UUID string. Fails with `Conflict` when the
/// phone number is already taken, and with `Internal` when the id space is
/// exhausted.
#[verifier::loop_isolation(false)]
pub fn create_user(store: &mut Store, phone: &str) -> (r: Result<String, ApiError>)
    requires
        old(store).wf(),
    ensures
        final(store).wf(),
        r is Ok <==> (!phone_exists(old(store).users@, phone@) && old(store).next_id
            < u128::MAX),
        r matches Err(e) ==> (*final(store) == *old(store) && (e == ApiError::Conflict <==> phone_exists(
            old(store).users@,
            phone@,
        )) && (e == ApiError::Conflict || e == ApiError::Internal)),
        r matches Ok(id_str) ==> ({
            let u = final(store).users@.last();
            &&& final(store).users@ == old(store).users@.push(u)
            &&& u.id == old(store).next_id
            &&& u.phone@ == phone@
            &&& u.email is None
            &&& u.preferences is None
            &&& id_str@ == uuid_str_of(old(store).next_id)
            &&& uuid_of(id_str@) == Some(old(store).next_id)
            &&& final(store).next_id == old(store).next_id + 1
            &&& final(store).profiles == old(store).profiles
            &&& final(store).images == old(store).images
            &&& final(store).prompts == old(store).prompts
            &&& final(store).interactions == old(store).interactions
            &&& final(store).matches == old(store).matches
            &&& final(store).messages == old(store).messages
            &&& final(store).clock == old(store).clock
        }),
{
    let mut i: usize = 0;
    while i < store.users.len()
        invariant
            *store == *old(store),
            0 <= i <= store.users@.len(),
            forall|k: int| 0 <= k < i ==> (#[trigger] store.users@[k]).phone@ != phone@,
        decreases store.users@.len() - i,
    {
        if string_is(&store.users[i].phone, phone) {
            return Err(ApiError::Conflict);
        }
        i = i + 1;
    }
    if store.next_id == u128::MAX {
        return Err(ApiError::Internal);
    }
    let id = store.next_id;
    store.next_id = id + 1;
    let u = UserRec { id, phone: phone.to_string(), email: None, preferences: None };
    let ghost old_users = store.users@;
    store.users.push(u);
    proof {
        crate::store::lemma_all_users_still_exist_push(old_users, store.users@.last());
        crate::store::lemma_messages_wf_counter_monotone(
            store.messages@,
            store.matches@,
            old(store).next_id,
            store.next_id,
            store.clock,
        );
        assert forall|a: int, b: int|
            0 <= a < b < store.users@.len() implies #[trigger] store.users@[a].id
            != #[trigger] store.users@[b].id by {
            if b == store.users@.len() - 1 {
                assert(store.users@[a].id < id);
            }
        }
        assert forall|a: int, b: int|
            0 <= a < b < store.users@.len() implies #[trigger] store.users@[a].phone@
            != #[trigger] store.users@[b].phone@ by {
            if b == store.users@.len() - 1 {
                assert(store.users@[a].phone@ != phone@);
            }
        }
    }
    Ok(format_uuid(id))
}

/// Looks a user up by phone, creating the account on first contact.
/// Returns the id as a UUID string and whether the user is new.
pub fn get_or_create_user(store: &mut Store, phone: &str) -> (r: Result<(String, bool), ApiError>)
    requires
        old(store).wf(),
    ensures
        final(store).wf(),
        r is Ok <==> (phone_exists(old(store).users@, phone@) || old(store).next_id < u128::MAX),
        r matches Ok(p) ==> (p.1 == !phone_exists(old(store).users@, phone@)),
        r matches Ok(p) ==> (p.1 ==> final(store).users@ == old(store).users@.push(final(store).users@.last())
            && final(store).users@.last().phone@ == phone@),
        r is Err ==> *final(store) == *old(store),
        r matches Ok(p) ==> (!p.1 ==> *final(store) == *old(store)),
        r matches Ok(p) ==> exists|i: int|
            0 <= i < final(store).users@.len() && (#[trigger] final(store).users@[i]).phone@
                == phone@ && p.0@ == uuid_str_of(final(store).users@[i].id) && uuid_of(p.0@)
                == Some(final(store).users@[i].id),
{
    match check_user_exists(store, phone) {
        Some(id) => Ok((id, false)),
        None => {
            let id = create_user(store, phone)?;
            Ok((id, true))
        },
    }
}

/// Stores an email address for the user; a missing user leaves the store
/// untouched, as an update of no rows.
pub fn update_user_email(store: &mut Store, user_id: u128, email: &str)
    requires
        old(store).wf(),
    ensures
        final(store).wf(),
        !user_exists(old(store).users@, user_id) ==> *final(store) == *old(store),
        user_exists(old(store).users@, user_id) ==> ({
            &&& final(store).users@.len() == old(store).users@.len()
            &&& exists|i: int|
                0 <= i < old(store).users@.len() && (#[trigger] old(store).users@[i]).id == user_id
                    && (forall|k: int|
                    0 <= k < final(store).users@.len() && k != i ==> final(store).users@[k] == old(
                        store,
                    ).users@[k]) && final(store).users@[i].id == old(store).users@[i].id
                    && final(store).users@[i].phone == old(store).users@[i].phone
                    && final(store).users@[i].preferences == old(store).users@[i].preferences && (
                final(store).users@[i].email matches Some(e) && e@ == email@)
            &&& final(store).profiles == old(store).profiles
            &&& final(store).images == old(store).images
            &&& final(store).prompts == old(store).prompts
            &&& final(store).interactions == old(store).interactions
            &&& final(store).matches == old(store).matches
            &&& final(store).messages == old(store).messages
            &&& final(store).next_id == old(store).next_id
            &&& final(store).clock == old(store).clock
        }),
{
    let idx = match store.user_index(user_id) {
        Some(i) => i,
        None => {
            return ;
        },
    };
    let mut rec = store.users.remove(idx);
    rec.email = Some(email.to_string());
    let ghost grec = rec;
    store.users.insert(idx, rec);
    proof {
        crate::store::lemma_seq_remove_insert(old(store).users@, idx as int, grec);
        assert(store.users@ =~= old(store).users@.update(idx as int, grec));
        crate::store::lemma_user_update_same_identity(
            old(store).users@,
            store.users@,
            idx as int,
        );
    }
}

/// Confirms that a user row exists; `NotFound` otherwise.
pub fn get_user(store: &Store, user_id: u128) -> (r: Result<(), ApiError>)
    ensures
        r is Ok <==> user_exists(store.users@, user_id),
        r matches Err(e) ==> e == ApiError::NotFound,
{
    if store.has_user(user_id) {
        Ok(())
    } else {
        Err(ApiError::NotFound)
    }
}

/// Reads the stored preference document of a user: `None` when the user is
/// unknown or has never stored one.
pub fn get_user_preferences(store: &Store, user_id: u128) -> (r: Option<Preferences>)
    requires
        store.wf(),
    ensures
        r is Some <==> exists|i: int|
            0 <= i < store.users@.len() && (#[trigger] store.users@[i]).id == user_id
                && store.users@[i].preferences is Some,
        r matches Some(p) ==> exists|i: int|
            0 <= i < store.users@.len() && (#[trigger] store.users@[i]).id == user_id
                && (store.users@[i].preferences matches Some(q) && prefs_equiv(p, q)),
{
    let idx = match store.user_index(user_id) {
        Some(i) => i,
        None => {
            return None;
        },
    };
    match &store.users[idx].preferences {
        Some(p) => Some(p.clone()),
        None => None,
    }
}

/// Replaces the stored preference document of a user; a missing user leaves
/// the store untouched, as an update of no rows.
pub fn update_user_preferences(store: &mut Store, user_id: u128, preferences: Preferences)
    requires
        old(store).wf(),
    ensures
        final(store).wf(),
        !user_exists(old(store).users@, user_id) ==> *final(store) == *old(store),
        user_exists(old(store).users@, user_id) ==> ({
            &&& final(store).users@.len() == old(store).users@.len()
            &&& exists|i: int|
                0 <= i < old(store).users@.len() && (#[trigger] old(store).users@[i]).id == user_id
                    && (forall|k: int|
                    0 <= k < final(store).users@.len() && k != i ==> final(store).users@[k] == old(
                        store,
                    ).users@[k]) && final(store).users@[i].id == old(store).users@[i].id
                    && final(store).users@[i].phone == old(store).users@[i].phone && final(store).users@[i].email
                    == old(store).users@[i].email && final(store).users@[i].preferences == Some(
                    preferences,
                )
            &&& final(store).profiles == old(store).profiles
            &&& final(store).images == old(store).images
            &&& final(store).prompts == old(store).prompts
            &&& final(store).interactions == old(store).interactions
            &&& final(store).matches == old(store).matches
            &&& final(store).messages == old(store).messages
            &&& final(store).next_id == old(store).next_id
            &&& final(store).clock == old(store).clock
        }),
{
    let idx = match store.user_index(user_id) {
        Some(i) => i,
        None => {
            return ;
        },
    };
    let mut rec = store.users.remove(idx);
    rec.preferences = Some(preferences);
    let ghost grec = rec;
    store.users.insert(idx, rec);
    proof {
        crate::store::lemma_seq_remove_insert(old(store).users@, idx as int, grec);
        assert(store.users@ =~= old(store).users@.update(idx as int, grec));
        crate::store::lemma_user_update_same_identity(
            old(store).users@,
            store.users@,
            idx as int,
        );
    }
}

} // verus!
