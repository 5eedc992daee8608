//! Sample data: a dozen accounts with profiles and matching preferences,
//! loaded into a store for demonstrations and trials.

use crate::errors::ApiError;
use crate::inputs::{AgeRange, Preferences, UpdateProfileRequest};
use crate::store::{user_exists, Store};
use crate::user_queries::{get_or_create_user, update_user_preferences};
use crate::ids::{parse_uuid, uuid_of, uuid_str_of};
use vstd::prelude::*;

verus! {

/// One sample account: profile attributes plus matching preferences.
pub struct SeedProfile {
    pub phone: String,
    pub name: String,
    pub pronouns: String,
    pub gender: String,
    pub sexuality: String,
    pub height: i32,
    pub job: String,
    pub ethnicity: String,
    pub politics: String,
    pub religion: String,
    pub relationship_type: String,
    pub dating_intention: String,
    pub drinks: String,
    pub smokes: String,
    pub preferences: SeedPreferences,
}

/// Matching preferences of one sample account.
pub struct SeedPreferences {
    pub age_min: i32,
    pub age_max: i32,
    pub distance_max: i32,
    pub gender_preference: Vec<String>,
    pub ethnicity_preference: Vec<String>,
    pub religion_preference: Vec<String>,
}

/// The sample accounts: six women and six men looking across the aisle,
/// each under its own phone number.
#[verifier::rlimit(100)]
pub fn get_seed_profiles() -> (r: Vec<SeedProfile>)
    ensures
        r@.len() == 12,
        r@[0].phone@ == "+1111111111"@,
        r@[1].phone@ == "+2222222222"@,
        r@[2].phone@ == "+3333333333"@,
        r@[3].phone@ == "+4444444444"@,
        r@[4].phone@ == "+5555555555"@,
        r@[5].phone@ == "+6666666666"@,
        r@[6].phone@ == "+7777777777"@,
        r@[7].phone@ == "+8888888888"@,
        r@[8].phone@ == "+9999999999"@,
        r@[9].phone@ == "+1010101010"@,
        r@[10].phone@ == "+1111011110"@,
        r@[11].phone@ == "+1212121212"@,
        forall|a: int, b: int|
            0 <= a < b < r@.len() ==> (#[trigger] r@[a]).phone@ != (#[trigger] r@[b]).phone@,
        r@[0].name@ == "Ana"@,
        r@[0].gender@ == "Woman"@,
        r@[0].preferences.gender_preference@.len() == 1,
        r@[0].preferences.gender_preference@[0]@ == "Man"@,
{
    let mut profiles: Vec<SeedProfile> = Vec::new();
    profiles.push(
        SeedProfile {
            phone: "+1111111111".to_string(),
            name: "Ana".to_string(),
            pronouns: "she/her".to_string(),
            gender: "Woman".to_string(),
            sexuality: "Straight".to_string(),
            height: 168,
            job: "Actress".to_string(),
            ethnicity: "Latina".to_string(),
            politics: "Moderate".to_string(),
            religion: "Catholic".to_string(),
            relationship_type: "Monogamy".to_string(),
            dating_intention: "Long-term relationship".to_string(),
            drinks: "Sometimes".to_string(),
            smokes: "No".to_string(),
            preferences: SeedPreferences {
                age_min: 25,
                age_max: 40,
                distance_max: 50,
                gender_preference: vec!["Man".to_string()],
                ethnicity_preference: Vec::new(),
                religion_preference: Vec::new(),
            },
        },
    );
    profiles.push(
        SeedProfile {
            phone: "+2222222222".to_string(),
            name: "Scarlett".to_string(),
            pronouns: "she/her".to_string(),
            gender: "Woman".to_string(),
            sexuality: "Straight".to_string(),
            height: 160,
            job: "Actress".to_string(),
            ethnicity: "White".to_string(),
            politics: "Liberal".to_string(),
            religion: "Agnostic".to_string(),
            relationship_type: "Monogamy".to_string(),
            dating_intention: "Long-term relationship".to_string(),
            drinks: "Socially".to_string(),
            smokes: "No".to_string(),
            preferences: SeedPreferences {
                age_min: 28,
                age_max: 45,
                distance_max: 100,
                gender_preference: vec!["Man".to_string()],
                ethnicity_preference: Vec::new(),
                religion_preference: Vec::new(),
            },
        },
    );
    profiles.push(
        SeedProfile {
            phone: "+3333333333".to_string(),
            name: "Elizabeth".to_string(),
            pronouns: "she/her".to_string(),
            gender: "Woman".to_string(),
            sexuality: "Straight".to_string(),
            height: 163,
            job: "Actress".to_string(),
            ethnicity: "White".to_string(),
            politics: "Liberal".to_string(),
            religion: "Spiritual".to_string(),
            relationship_type: "Monogamy".to_string(),
            dating_intention: "Long-term relationship".to_string(),
            drinks: "Sometimes".to_string(),
            smokes: "No".to_string(),
            preferences: SeedPreferences {
                age_min: 30,
                age_max: 50,
                distance_max: 75,
                gender_preference: vec!["Man".to_string()],
                ethnicity_preference: vec!["White".to_string()],
                religion_preference: Vec::new(),
            },
        },
    );
    profiles.push(
        SeedProfile {
            phone: "+4444444444".to_string(),
            name: "Gal".to_string(),
            pronouns: "she/her".to_string(),
            gender: "Woman".to_string(),
            sexuality: "Straight".to_string(),
            height: 178,
            job: "Actress".to_string(),
            ethnicity: "Middle Eastern".to_string(),
            politics: "Moderate".to_string(),
            religion: "Jewish".to_string(),
            relationship_type: "Monogamy".to_string(),
            dating_intention: "Long-term relationship".to_string(),
            drinks: "Sometimes".to_string(),
            smokes: "No".to_string(),
            preferences: SeedPreferences {
                age_min: 30,
                age_max: 50,
                distance_max: 100,
                gender_preference: vec!["Man".to_string()],
                ethnicity_preference: Vec::new(),
                religion_preference: Vec::new(),
            },
        },
    );
    profiles.push(
        SeedProfile {
            phone: "+5555555555".to_string(),
            name: "Sadie".to_string(),
            pronouns: "she/her".to_string(),
            gender: "Woman".to_string(),
            sexuality: "Bisexual".to_string(),
            height: 152,
            job: "Actress".to_string(),
            ethnicity: "White".to_string(),
            politics: "Liberal".to_string(),
            religion: "Agnostic".to_string(),
            relationship_type: "Figuring out my dating goals".to_string(),
            dating_intention: "Figuring out my dating goals".to_string(),
            drinks: "Sometimes".to_string(),
            smokes: "No".to_string(),
            preferences: SeedPreferences {
                age_min: 20,
                age_max: 35,
                distance_max: 50,
                gender_preference: vec!["Man".to_string(), "Woman".to_string()],
                ethnicity_preference: Vec::new(),
                religion_preference: Vec::new(),
            },
        },
    );
    profiles.push(
        SeedProfile {
            phone: "+6666666666".to_string(),
            name: "Disha".to_string(),
            pronouns: "she/her".to_string(),
            gender: "Woman".to_string(),
            sexuality: "Straight".to_string(),
            height: 170,
            job: "Actress".to_string(),
            ethnicity: "South Asian".to_string(),
            politics: "Moderate".to_string(),
            religion: "Hindu".to_string(),
            relationship_type: "Monogamy".to_string(),
            dating_intention: "Long-term relationship".to_string(),
            drinks: "No".to_string(),
            smokes: "No".to_string(),
            preferences: SeedPreferences {
                age_min: 25,
                age_max: 40,
                distance_max: 50,
                gender_preference: vec!["Man".to_string()],
                ethnicity_preference: vec!["South Asian".to_string()],
                religion_preference: vec!["Hindu".to_string()],
            },
        },
    );
    profiles.push(
        SeedProfile {
            phone: "+7777777777".to_string(),
            name: "Chris E".to_string(),
            pronouns: "he/him".to_string(),
            gender: "Man".to_string(),
            sexuality: "Straight".to_string(),
            height: 183,
            job: "Actor".to_string(),
            ethnicity: "White".to_string(),
            politics: "Liberal".to_string(),
            religion: "Christian".to_string(),
            relationship_type: "Monogamy".to_string(),
            dating_intention: "Long-term relationship".to_string(),
            drinks: "Socially".to_string(),
            smokes: "No".to_string(),
            preferences: SeedPreferences {
                age_min: 25,
                age_max: 40,
                distance_max: 100,
                gender_preference: vec!["Woman".to_string()],
                ethnicity_preference: Vec::new(),
                religion_preference: Vec::new(),
            },
        },
    );
    profiles.push(
        SeedProfile {
            phone: "+8888888888".to_string(),
            name: "Chris H".to_string(),
            pronouns: "he/him".to_string(),
            gender: "Man".to_string(),
            sexuality: "Straight".to_string(),
            height: 190,
            job: "Actor".to_string(),
            ethnicity: "White".to_string(),
            politics: "Moderate".to_string(),
            religion: "Christian".to_string(),
            relationship_type: "Monogamy".to_string(),
            dating_intention: "Long-term relationship".to_string(),
            drinks: "Sometimes".to_string(),
            smokes: "No".to_string(),
            preferences: SeedPreferences {
                age_min: 25,
                age_max: 45,
                distance_max: 150,
                gender_preference: vec!["Woman".to_string()],
                ethnicity_preference: Vec::new(),
                religion_preference: Vec::new(),
            },
        },
    );
    profiles.push(
        SeedProfile {
            phone: "+9999999999".to_string(),
            name: "Henry".to_string(),
            pronouns: "he/him".to_string(),
            gender: "Man".to_string(),
            sexuality: "Straight".to_string(),
            height: 185,
            job: "Actor".to_string(),
            ethnicity: "White".to_string(),
            politics: "Moderate".to_string(),
            religion: "Catholic".to_string(),
            relationship_type: "Monogamy".to_string(),
            dating_intention: "Long-term relationship".to_string(),
            drinks: "Sometimes".to_string(),
            smokes: "No".to_string(),
            preferences: SeedPreferences {
                age_min: 22,
                age_max: 38,
                distance_max: 100,
                gender_preference: vec!["Woman".to_string()],
                ethnicity_preference: Vec::new(),
                religion_preference: Vec::new(),
            },
        },
    );
    profiles.push(
        SeedProfile {
            phone: "+1010101010".to_string(),
            name: "Hrithik".to_string(),
            pronouns: "he/him".to_string(),
            gender: "Man".to_string(),
            sexuality: "Straight".to_string(),
            height: 180,
            job: "Actor".to_string(),
            ethnicity: "South Asian".to_string(),
            politics: "Moderate".to_string(),
            religion: "Hindu".to_string(),
            relationship_type: "Monogamy".to_string(),
            dating_intention: "Long-term relationship".to_string(),
            drinks: "No".to_string(),
            smokes: "No".to_string(),
            preferences: SeedPreferences {
                age_min: 22,
                age_max: 40,
                distance_max: 75,
                gender_preference: vec!["Woman".to_string()],
                ethnicity_preference: vec!["South Asian".to_string()],
                religion_preference: Vec::new(),
            },
        },
    );
    profiles.push(
        SeedProfile {
            phone: "+1111011110".to_string(),
            name: "Robert".to_string(),
            pronouns: "he/him".to_string(),
            gender: "Man".to_string(),
            sexuality: "Straight".to_string(),
            height: 173,
            job: "Actor".to_string(),
            ethnicity: "White".to_string(),
            politics: "Liberal".to_string(),
            religion: "Agnostic".to_string(),
            relationship_type: "Monogamy".to_string(),
            dating_intention: "Long-term relationship".to_string(),
            drinks: "No".to_string(),
            smokes: "No".to_string(),
            preferences: SeedPreferences {
                age_min: 30,
                age_max: 55,
                distance_max: 100,
                gender_preference: vec!["Woman".to_string()],
                ethnicity_preference: Vec::new(),
                religion_preference: Vec::new(),
            },
        },
    );
    profiles.push(
        SeedProfile {
            phone: "+1212121212".to_string(),
            name: "Alex".to_string(),
            pronouns: "he/him".to_string(),
            gender: "Man".to_string(),
            sexuality: "Straight".to_string(),
            height: 178,
            job: "Creator".to_string(),
            ethnicity: "Latino".to_string(),
            politics: "Moderate".to_string(),
            religion: "Catholic".to_string(),
            relationship_type: "Monogamy".to_string(),
            dating_intention: "Long-term relationship".to_string(),
            drinks: "Socially".to_string(),
            smokes: "No".to_string(),
            preferences: SeedPreferences {
                age_min: 21,
                age_max: 35,
                distance_max: 50,
                gender_preference: vec!["Woman".to_string()],
                ethnicity_preference: vec!["Latina".to_string()],
                religion_preference: Vec::new(),
            },
        },
    );
    proof {
        reveal_strlit("+1111111111");
        reveal_strlit("+2222222222");
        reveal_strlit("+3333333333");
        reveal_strlit("+4444444444");
        reveal_strlit("+5555555555");
        reveal_strlit("+6666666666");
        reveal_strlit("+7777777777");
        reveal_strlit("+8888888888");
        reveal_strlit("+9999999999");
        reveal_strlit("+1010101010");
        reveal_strlit("+1111011110");
        reveal_strlit("+1212121212");
        assert forall|a: int, b: int|
            0 <= a < b < profiles@.len() implies (#[trigger] profiles@[a]).phone@
            != (#[trigger] profiles@[b]).phone@ by {
            let pa = profiles@[a].phone@;
            let pb = profiles@[b].phone@;
            if pa == pb {
                assert(pa[1] == pb[1] && pa[2] == pb[2] && pa[5] == pb[5]);
            }
        }
    }
    profiles
}

/// Reads a sample account as a profile update: every written attribute
/// set, the rest left empty.
pub fn to_profile_request(seed: &SeedProfile) -> (r: UpdateProfileRequest)
    ensures
        r.name matches Some(n) && n@ == seed.name@,
        r.pronouns matches Some(v) && v@ == seed.pronouns@,
        r.gender matches Some(v) && v@ == seed.gender@,
        r.sexuality matches Some(v) && v@ == seed.sexuality@,
        r.height == Some(seed.height),
        r.job matches Some(v) && v@ == seed.job@,
        r.ethnicity matches Some(v) && v@ == seed.ethnicity@,
        r.politics matches Some(v) && v@ == seed.politics@,
        r.religion matches Some(v) && v@ == seed.religion@,
        r.relationship_type matches Some(v) && v@ == seed.relationship_type@,
        r.dating_intention matches Some(v) && v@ == seed.dating_intention@,
        r.drinks matches Some(v) && v@ == seed.drinks@,
        r.smokes matches Some(v) && v@ == seed.smokes@,
        r.bio is None && r.birthdate is None && r.location is None && r.company is None
            && r.school is None,
{
    UpdateProfileRequest {
        name: Some(seed.name.clone()),
        bio: None,
        birthdate: None,
        pronouns: Some(seed.pronouns.clone()),
        gender: Some(seed.gender.clone()),
        sexuality: Some(seed.sexuality.clone()),
        height: Some(seed.height),
        location: None,
        job: Some(seed.job.clone()),
        company: None,
        school: None,
        ethnicity: Some(seed.ethnicity.clone()),
        politics: Some(seed.politics.clone()),
        religion: Some(seed.religion.clone()),
        relationship_type: Some(seed.relationship_type.clone()),
        dating_intention: Some(seed.dating_intention.clone()),
        drinks: Some(seed.drinks.clone()),
        smokes: Some(seed.smokes.clone()),
    }
}

/// Reads a sample account's matching criteria as a preference document.
pub fn to_preferences(prefs: &SeedPreferences) -> (r: Preferences)
    ensures
        r.age_range == Some(AgeRange { min: prefs.age_min, max: prefs.age_max }),
        r.distance_max == Some(prefs.distance_max),
        r.gender_preference matches Some(l) && l@ == prefs.gender_preference@,
        r.ethnicity_preference matches Some(l) && l@ == prefs.ethnicity_preference@,
        r.religion_preference matches Some(l) && l@ == prefs.religion_preference@,
{
    Preferences {
        age_range: Some(AgeRange { min: prefs.age_min, max: prefs.age_max }),
        distance_max: Some(prefs.distance_max),
        gender_preference: Some(crate::util::clone_vec_string(&prefs.gender_preference)),
        ethnicity_preference: Some(crate::util::clone_vec_string(&prefs.ethnicity_preference)),
        religion_preference: Some(crate::util::clone_vec_string(&prefs.religion_preference)),
    }
}

/// Whether some account carries the phone number and a stored preference
/// document.
pub open spec fn seeded_phone(users: Seq<crate::store::UserRec>, phone: Seq<char>) -> bool {
    exists|i: int|
        0 <= i < users.len() && (#[trigger] users[i]).phone@ == phone && users[i].preferences
            is Some
}

/// Loads the sample accounts: creates each user by phone on first contact
/// and stores its preference document. On success each of the twelve
/// sample phone numbers has an account with a stored preference document
/// — exactly one, by the phone uniqueness of the table — no existing
/// account is lost, and at most twelve are added, so a second run adds
/// none. Fails with `Internal` only when the id space is exhausted.
#[verifier::rlimit(100)]
#[verifier::loop_isolation(false)]
pub fn seed_database(store: &mut Store) -> (r: Result<(), ApiError>)
    requires
        old(store).wf(),
    ensures
        final(store).wf(),
        forall|id: u128|
            #[trigger] user_exists(old(store).users@, id) ==> user_exists(
                final(store).users@,
                id,
            ),
        old(store).users@.len() <= final(store).users@.len() <= old(store).users@.len() + 12,
        r is Ok ==> seeded_phone(final(store).users@, "+1111111111"@),
        r is Ok ==> seeded_phone(final(store).users@, "+2222222222"@),
        r is Ok ==> seeded_phone(final(store).users@, "+3333333333"@),
        r is Ok ==> seeded_phone(final(store).users@, "+4444444444"@),
        r is Ok ==> seeded_phone(final(store).users@, "+5555555555"@),
        r is Ok ==> seeded_phone(final(store).users@, "+6666666666"@),
        r is Ok ==> seeded_phone(final(store).users@, "+7777777777"@),
        r is Ok ==> seeded_phone(final(store).users@, "+8888888888"@),
        r is Ok ==> seeded_phone(final(store).users@, "+9999999999"@),
        r is Ok ==> seeded_phone(final(store).users@, "+1010101010"@),
        r is Ok ==> seeded_phone(final(store).users@, "+1111011110"@),
        r is Ok ==> seeded_phone(final(store).users@, "+1212121212"@),
{
    let mut profiles = get_seed_profiles();
    let ghost orig_seeds = profiles@;
    let ghost start_users = store.users@;
    while profiles.len() > 0
        invariant
            store.wf(),
            profiles@.len() <= orig_seeds.len(),
            profiles@ =~= orig_seeds.subrange(
                orig_seeds.len() - profiles@.len(),
                orig_seeds.len() as int,
            ),
            forall|id: u128|
                #[trigger] user_exists(start_users, id) ==> user_exists(store.users@, id),
            start_users.len() <= store.users@.len() <= start_users.len() + (orig_seeds.len()
                - profiles@.len()),
            forall|k: int|
                0 <= k < orig_seeds.len() - profiles@.len() ==> seeded_phone(
                    store.users@,
                    (#[trigger] orig_seeds[k]).phone@,
                ),
        decreases profiles@.len(),
    {
        proof {
            assert(profiles@[0] == orig_seeds[orig_seeds.len() - profiles@.len()]);
        }
        let ghost done = orig_seeds.len() - profiles@.len();
        let seed = profiles.remove(0);
        let ghost users0 = store.users@;
        let (id_str, _is_new) = match get_or_create_user(store, seed.phone.as_str()) {
            Ok(p) => p,
            Err(e) => {
                return Err(e);
            },
        };
        let ghost users1 = store.users@;
        proof {
            // nothing is lost by a lookup-or-create: at most one row is appended
            if users1 != users0 {
                crate::store::lemma_all_users_still_exist_push(users0, users1.last());
            }
            assert forall|id: u128|
                #[trigger] user_exists(start_users, id) implies user_exists(users1, id) by {}
            assert forall|k: int|
                0 <= k < done implies seeded_phone(users1, (#[trigger] orig_seeds[k]).phone@) by {
                let w = choose|w: int|
                    0 <= w < users0.len() && (#[trigger] users0[w]).phone@ == orig_seeds[k].phone@
                        && users0[w].preferences is Some;
                assert(users1[w] == users0[w]);
            }
        }
        let uid = match parse_uuid(id_str.as_str()) {
            Some(v) => v,
            None => {
                return Err(ApiError::Internal);
            },
        };
        let ghost row = choose|i: int|
            0 <= i < users1.len() && (#[trigger] users1[i]).phone@ == seed.phone@ && id_str@
                == uuid_str_of(users1[i].id) && uuid_of(id_str@) == Some(users1[i].id);
        proof {
            assert(uid == users1[row].id);
        }
        let prefs = to_preferences(&seed.preferences);
        update_user_preferences(store, uid, prefs);
        proof {
            let users2 = store.users@;
            let j = choose|j: int|
                0 <= j < users1.len() && (#[trigger] users1[j]).id == uid && (forall|k: int|
                    0 <= k < users2.len() && k != j ==> users2[k] == users1[k]) && users2[j].id
                    == users1[j].id && users2[j].phone == users1[j].phone && users2[j].email
                    == users1[j].email && users2[j].preferences is Some;
            assert(j == row) by {
                if j != row {
                    assert(users1[j].id != users1[row].id);
                }
            }
            crate::store::lemma_user_update_same_identity(users1, users2, j);
            assert forall|id: u128|
                #[trigger] user_exists(start_users, id) implies user_exists(users2, id) by {}
            // every phone handled so far, this one included, has its account
            assert(seeded_phone(users2, seed.phone@)) by {
                assert(users2[row].phone@ == seed.phone@ && users2[row].preferences is Some);
            }
            assert forall|k: int|
                0 <= k < done + 1 implies seeded_phone(
                store.users@,
                (#[trigger] orig_seeds[k]).phone@,
            ) by {
                if k < done {
                    let w = choose|w: int|
                        0 <= w < users1.len() && (#[trigger] users1[w]).phone@
                            == orig_seeds[k].phone@ && users1[w].preferences is Some;
                    if w != j {
                        assert(users2[w] == users1[w]);
                    }
                } else {
                    assert(orig_seeds[k].phone@ == seed.phone@);
                }
            }
        }
    }
    proof {
        assert forall|k: int| 0 <= k < orig_seeds.len() implies seeded_phone(
            store.users@,
            (#[trigger] orig_seeds[k]).phone@,
        ) by {}
    }
    Ok(())
}

} // verus!
