//! End-to-end trials of the library: match formation, ledger upserts,
//! capacity limits, pagination, access control, completeness and the feed.

use backend::errors::ApiError;
use backend::inputs::{
    CreatePromptRequest, InteractRequest, MessageQuery, Preferences, SendMessageRequest,
    UpdatePromptRequest, UpdateProfileRequest,
};
use backend::interactions::interact;
use backend::matches::{get_matches, get_messages, send_message};
use backend::profile::{delete_account, finalize_profile, update_profile, upload_profile_images};
use backend::prompts::{create_prompt, delete_prompt, get_prompts, update_prompt};
use backend::store::Store;
use backend::user::update_user_preference;
use backend::user_queries::get_or_create_user;

fn new_user(store: &mut Store, phone: &str) -> String {
    get_or_create_user(store, phone).unwrap().0
}

fn like(target: &str) -> InteractRequest {
    InteractRequest {
        target_user_id: target.to_string(),
        action: "LIKE".to_string(),
        context: None,
        comment: None,
    }
}

fn pass(target: &str) -> InteractRequest {
    InteractRequest {
        target_user_id: target.to_string(),
        action: "PASS".to_string(),
        context: None,
        comment: None,
    }
}

fn profile_with_gender(gender: &str) -> UpdateProfileRequest {
    UpdateProfileRequest {
        name: Some(format!("{} person", gender)),
        bio: None,
        birthdate: None,
        pronouns: None,
        gender: Some(gender.to_string()),
        sexuality: None,
        height: None,
        location: None,
        job: None,
        company: None,
        school: None,
        ethnicity: None,
        politics: None,
        religion: None,
        relationship_type: None,
        dating_intention: None,
        drinks: None,
        smokes: None,
    }
}

#[test]
fn mutual_like_forms_exactly_one_match() {
    let mut store = Store::new();
    let a = new_user(&mut store, "+1000000001");
    let b = new_user(&mut store, "+1000000002");

    let first = interact(&mut store, &a, &like(&b), 1_000).unwrap();
    assert_eq!(first.status, "SENT");
    assert!(first.match_id.is_none());

    let second = interact(&mut store, &b, &like(&a), 2_000).unwrap();
    assert_eq!(second.status, "MATCH");
    let match_id = second.match_id.clone().unwrap();
    assert_eq!(store.matches.len(), 1);

    // a third like does not duplicate the match and reports the same id
    let third = interact(&mut store, &a, &like(&b), 3_000).unwrap();
    assert_eq!(third.status, "MATCH");
    assert_eq!(third.match_id.unwrap(), match_id);
    assert_eq!(store.matches.len(), 1);

    // both participants see the match exactly once
    for who in [&a, &b] {
        let summaries = get_matches(&store, who).unwrap();
        let hits: Vec<_> = summaries.iter().filter(|s| s.id == match_id).collect();
        assert_eq!(hits.len(), 1);
    }
}

#[test]
fn reinteracting_overwrites_instead_of_duplicating() {
    let mut store = Store::new();
    let a = new_user(&mut store, "+1000000003");
    let b = new_user(&mut store, "+1000000004");

    interact(&mut store, &a, &like(&b), 0).unwrap();
    assert_eq!(store.interactions.len(), 1);
    assert_eq!(store.interactions[0].action, "LIKE");

    interact(&mut store, &a, &pass(&b), 0).unwrap();
    assert_eq!(store.interactions.len(), 1);
    assert_eq!(store.interactions[0].action, "PASS");

    // the match is only formed while the like is mutual
    interact(&mut store, &b, &like(&a), 0).unwrap();
    assert_eq!(store.matches.len(), 0);
    interact(&mut store, &a, &like(&b), 0).unwrap();
    assert_eq!(store.matches.len(), 1);
}

#[test]
fn pass_never_forms_a_match() {
    let mut store = Store::new();
    let a = new_user(&mut store, "+1000000005");
    let b = new_user(&mut store, "+1000000006");
    interact(&mut store, &a, &like(&b), 0).unwrap();
    let r = interact(&mut store, &b, &pass(&a), 0).unwrap();
    assert_eq!(r.status, "SENT");
    assert_eq!(store.matches.len(), 0);
}

#[test]
fn interact_rejects_unknown_target() {
    let mut store = Store::new();
    let a = new_user(&mut store, "+1000000007");
    let ghost_id = "9f8b6c29-0000-4000-8000-000000000001";
    let e = interact(&mut store, &a, &like(ghost_id), 0).unwrap_err();
    assert_eq!(e, ApiError::InvalidReference);
    let e2 = interact(&mut store, &a, &InteractRequest {
        target_user_id: "not-a-uuid".to_string(),
        action: "LIKE".to_string(),
        context: None,
        comment: None,
    }, 0).unwrap_err();
    assert_eq!(e2, ApiError::InvalidInput);
    let e3 = interact(&mut store, &a, &InteractRequest {
        target_user_id: a.clone(),
        action: "WAVE".to_string(),
        context: None,
        comment: None,
    }, 0).unwrap_err();
    assert_eq!(e3, ApiError::InvalidInput);
}

#[test]
fn seventh_image_is_rejected_with_capacity_exceeded() {
    let mut store = Store::new();
    let u = new_user(&mut store, "+1000000008");
    for k in 0..6 {
        let body = backend::inputs::UploadProfileImageRequest {
            image_url: format!("https://img.example/{}", k),
        };
        upload_profile_images(&mut store, &u, &body).unwrap();
    }
    let body = backend::inputs::UploadProfileImageRequest {
        image_url: "https://img.example/7".to_string(),
    };
    let e = upload_profile_images(&mut store, &u, &body).unwrap_err();
    assert_eq!(e, ApiError::CapacityExceeded);
    assert_eq!(store.images.len(), 6);
}

#[test]
fn fourth_prompt_is_rejected_with_capacity_exceeded() {
    let mut store = Store::new();
    let u = new_user(&mut store, "+1000000009");
    for k in 0..3 {
        let body = CreatePromptRequest {
            question: format!("Question {}", k),
            answer: format!("Answer {}", k),
        };
        create_prompt(&mut store, &u, &body).unwrap();
    }
    let body = CreatePromptRequest {
        question: "One too many".to_string(),
        answer: "Indeed".to_string(),
    };
    let e = create_prompt(&mut store, &u, &body).unwrap_err();
    assert_eq!(e, ApiError::CapacityExceeded);
}

#[test]
fn image_deletion_compacts_display_orders() {
    let mut store = Store::new();
    let u = new_user(&mut store, "+1000000010");
    for k in 0..4 {
        let body = backend::inputs::UploadProfileImageRequest {
            image_url: format!("u{}", k),
        };
        upload_profile_images(&mut store, &u, &body).unwrap();
    }
    let uid = backend::ids::parse_uuid(&u).unwrap();
    backend::images_queries::delete_profile_images(&mut store, uid, 1);
    let rows = backend::images_queries::get_user_images(&store, uid);
    let urls: Vec<&str> = rows.iter().map(|r| r.1.as_str()).collect();
    let orders: Vec<i32> = rows.iter().map(|r| r.2).collect();
    assert_eq!(urls, vec!["u0", "u2", "u3"]);
    assert_eq!(orders, vec![0, 1, 2]);
}

#[test]
fn prompt_crud_round_trip() {
    let mut store = Store::new();
    let u = new_user(&mut store, "+1000000011");
    for k in 0..3 {
        let body = CreatePromptRequest {
            question: format!("Q{}", k),
            answer: format!("A{}", k),
        };
        create_prompt(&mut store, &u, &body).unwrap();
    }
    update_prompt(&mut store, &u, 1, &UpdatePromptRequest {
        question: "Q1 revised".to_string(),
        answer: "A1 revised".to_string(),
    })
    .unwrap();
    delete_prompt(&mut store, &u, 0).unwrap();
    let prompts = get_prompts(&store, &u).unwrap();
    assert_eq!(prompts.len(), 2);
    assert_eq!(prompts[0].question, "Q1 revised");
    assert_eq!(prompts[0].order, 0);
    assert_eq!(prompts[1].question, "Q2");
    assert_eq!(prompts[1].order, 1);
    let e = update_prompt(&mut store, &u, 3, &UpdatePromptRequest {
        question: "x".to_string(),
        answer: "y".to_string(),
    })
    .unwrap_err();
    assert_eq!(e, ApiError::InvalidInput);
}

fn make_match(store: &mut Store, a: &str, b: &str) -> String {
    interact(store, a, &like(b), 0).unwrap();
    interact(store, b, &like(a), 0).unwrap().match_id.unwrap()
}

#[test]
fn message_history_pagination_respects_cursor_and_limit() {
    let mut store = Store::new();
    let a = new_user(&mut store, "+1000000012");
    let b = new_user(&mut store, "+1000000013");
    let mid = make_match(&mut store, &a, &b);

    let mut sent = Vec::new();
    for k in 0..5 {
        let body = SendMessageRequest { text: format!("message {}", k) };
        let now = 1_000_000 + k * 1_000;
        let m = send_message(&mut store, if k % 2 == 0 { &a } else { &b }, &mid, &body, now)
            .unwrap();
        sent.push(m);
    }

    // no cursor: the whole history, oldest first
    let all = get_messages(&store, &a, &mid, &MessageQuery { cursor: None, limit: None })
        .unwrap();
    assert_eq!(all.messages.len(), 5);
    for k in 0..5 {
        assert_eq!(all.messages[k].text, format!("message {}", k));
    }

    // cursor at message 2: only the strictly later messages, ascending
    let cursor = sent[2].created_at.clone();
    let page = get_messages(
        &store,
        &a,
        &mid,
        &MessageQuery { cursor: Some(cursor), limit: None },
    )
    .unwrap();
    assert_eq!(page.messages.len(), 2);
    assert_eq!(page.messages[0].text, "message 3");
    assert_eq!(page.messages[1].text, "message 4");

    // the limit caps the page
    let capped = get_messages(
        &store,
        &a,
        &mid,
        &MessageQuery { cursor: None, limit: Some(2) },
    )
    .unwrap();
    assert_eq!(capped.messages.len(), 2);
    assert_eq!(capped.messages[0].text, "message 0");

    // a limit beyond the hard maximum is clamped to one hundred
    for k in 0..120 {
        let body = SendMessageRequest { text: format!("flood {}", k) };
        send_message(&mut store, &a, &mid, &body, 2_000_000 + k).unwrap();
    }
    let big = get_messages(
        &store,
        &a,
        &mid,
        &MessageQuery { cursor: None, limit: Some(1_000) },
    )
    .unwrap();
    assert_eq!(big.messages.len(), 100);
}

#[test]
fn non_participant_is_forbidden_from_history() {
    let mut store = Store::new();
    let a = new_user(&mut store, "+1000000014");
    let b = new_user(&mut store, "+1000000015");
    let c = new_user(&mut store, "+1000000016");
    let mid = make_match(&mut store, &a, &b);
    send_message(&mut store, &a, &mid, &SendMessageRequest { text: "hi".to_string() }, 10)
        .unwrap();

    let e = get_messages(&store, &c, &mid, &MessageQuery { cursor: None, limit: None })
        .unwrap_err();
    assert_eq!(e, ApiError::Forbidden);
    let e2 = send_message(
        &mut store,
        &c,
        &mid,
        &SendMessageRequest { text: "intruding".to_string() },
        20,
    )
    .unwrap_err();
    assert_eq!(e2, ApiError::Forbidden);
}

#[test]
fn match_list_orders_by_newest_activity_with_quiet_matches_last() {
    let mut store = Store::new();
    let a = new_user(&mut store, "+1000000017");
    let b = new_user(&mut store, "+1000000018");
    let c = new_user(&mut store, "+1000000019");
    let d = new_user(&mut store, "+1000000020");
    let mid_b = make_match(&mut store, &a, &b);
    let mid_c = make_match(&mut store, &a, &c);
    let mid_d = make_match(&mut store, &a, &d);
    send_message(&mut store, &a, &mid_b, &SendMessageRequest { text: "old".to_string() }, 1_000)
        .unwrap();
    send_message(&mut store, &a, &mid_c, &SendMessageRequest { text: "new".to_string() }, 9_000)
        .unwrap();

    let list = get_matches(&store, &a).unwrap();
    assert_eq!(list.len(), 3);
    assert_eq!(list[0].id, mid_c);
    assert_eq!(list[0].last_message.as_ref().unwrap().text, "new");
    assert_eq!(list[1].id, mid_b);
    assert_eq!(list[2].id, mid_d);
    assert!(list[2].last_message.is_none());
}

fn full_profile() -> UpdateProfileRequest {
    UpdateProfileRequest {
        name: Some("Full".to_string()),
        bio: Some("bio".to_string()),
        birthdate: None,
        pronouns: Some("they/them".to_string()),
        gender: Some("Woman".to_string()),
        sexuality: Some("Straight".to_string()),
        height: Some(170),
        location: None,
        job: Some("job".to_string()),
        company: Some("company".to_string()),
        school: Some("school".to_string()),
        ethnicity: Some("ethnicity".to_string()),
        politics: Some("politics".to_string()),
        religion: Some("religion".to_string()),
        relationship_type: Some("Monogamy".to_string()),
        dating_intention: Some("Long-term".to_string()),
        drinks: Some("No".to_string()),
        smokes: Some("No".to_string()),
    }
}

#[test]
fn finalize_reports_each_unmet_requirement_with_counts() {
    let mut store = Store::new();
    let u = new_user(&mut store, "+1000000021");
    // a profile missing everything except the name
    update_profile(&mut store, &u, &profile_with_gender("Woman")).unwrap();
    for k in 0..4 {
        let body = backend::inputs::UploadProfileImageRequest {
            image_url: format!("i{}", k),
        };
        upload_profile_images(&mut store, &u, &body).unwrap();
    }
    create_prompt(&mut store, &u, &CreatePromptRequest {
        question: "Q".to_string(),
        answer: "A".to_string(),
    })
    .unwrap();

    let outcome = finalize_profile(&mut store, &u).unwrap();
    assert_eq!(outcome.status, "error");
    let pending = outcome.pending_actions.unwrap();
    // 4 of 6 images, 1 of 3 prompts, 14 of 16 attributes still missing
    assert_eq!(pending, vec![
        "Upload 2 more images".to_string(),
        "Upload 2 more prompts".to_string(),
        "Fill 14 more profile details".to_string(),
    ]);
}

#[test]
fn finalize_succeeds_exactly_when_everything_is_in_place() {
    let mut store = Store::new();
    let u = new_user(&mut store, "+1000000022");
    update_profile(&mut store, &u, &full_profile()).unwrap();
    for k in 0..6 {
        let body = backend::inputs::UploadProfileImageRequest {
            image_url: format!("i{}", k),
        };
        upload_profile_images(&mut store, &u, &body).unwrap();
    }
    for k in 0..3 {
        create_prompt(&mut store, &u, &CreatePromptRequest {
            question: format!("Q{}", k),
            answer: format!("A{}", k),
        })
        .unwrap();
    }
    let outcome = finalize_profile(&mut store, &u).unwrap();
    assert_eq!(outcome.status, "success");
    assert_eq!(outcome.pending_actions.unwrap().len(), 0);
    // the completeness flag is persisted
    assert!(store.profiles.iter().any(|p| p.is_complete));
}

fn prefs_for(genders: &[&str]) -> Preferences {
    Preferences {
        age_range: None,
        distance_max: None,
        gender_preference: Some(genders.iter().map(|g| g.to_string()).collect()),
        ethnicity_preference: None,
        religion_preference: None,
    }
}

#[test]
fn feed_filters_by_gender_and_excludes_self() {
    let mut store = Store::new();
    let x = new_user(&mut store, "+1000000023");
    let y = new_user(&mut store, "+1000000024");
    let z = new_user(&mut store, "+1000000025");
    update_profile(&mut store, &x, &profile_with_gender("Man")).unwrap();
    update_profile(&mut store, &y, &profile_with_gender("Woman")).unwrap();
    update_profile(&mut store, &z, &profile_with_gender("Man")).unwrap();
    update_user_preference(&mut store, &x, &prefs_for(&["Woman"])).unwrap();

    let feed = backend::feed::get_feed(&store, &x).unwrap();
    assert_eq!(feed.profiles.len(), 1);
    let d = feed.profiles[0].details.as_ref().unwrap();
    assert_eq!(d.gender.as_deref(), Some("Woman"));
    assert_eq!(d.name.as_deref(), Some("Woman person"));
}

#[test]
fn feed_requires_stored_preferences_and_excludes_interacted() {
    let mut store = Store::new();
    let x = new_user(&mut store, "+1000000026");
    let y = new_user(&mut store, "+1000000027");
    let z = new_user(&mut store, "+1000000028");
    update_profile(&mut store, &y, &profile_with_gender("Woman")).unwrap();
    update_profile(&mut store, &z, &profile_with_gender("Woman")).unwrap();

    let e = backend::feed::get_feed(&store, &x).unwrap_err();
    assert_eq!(e, ApiError::PreferencesRequired);

    update_user_preference(&mut store, &x, &prefs_for(&["Woman"])).unwrap();
    assert_eq!(backend::feed::get_feed(&store, &x).unwrap().profiles.len(), 2);

    // an empty preference list filters nothing
    update_user_preference(&mut store, &x, &prefs_for(&[])).unwrap();
    assert_eq!(backend::feed::get_feed(&store, &x).unwrap().profiles.len(), 2);

    // already-interacted candidates drop out
    interact(&mut store, &x, &pass(&y), 0).unwrap();
    update_user_preference(&mut store, &x, &prefs_for(&["Woman"])).unwrap();
    let feed = backend::feed::get_feed(&store, &x).unwrap();
    assert_eq!(feed.profiles.len(), 1);
    assert_eq!(
        feed.profiles[0].details.as_ref().unwrap().name.as_deref(),
        Some("Woman person")
    );
}

#[test]
fn deleting_an_account_cascades() {
    let mut store = Store::new();
    let a = new_user(&mut store, "+1000000029");
    let b = new_user(&mut store, "+1000000030");
    let c = new_user(&mut store, "+1000000031");
    update_profile(&mut store, &a, &profile_with_gender("Man")).unwrap();
    upload_profile_images(&mut store, &a, &backend::inputs::UploadProfileImageRequest {
        image_url: "i".to_string(),
    })
    .unwrap();
    create_prompt(&mut store, &a, &CreatePromptRequest {
        question: "Q".to_string(),
        answer: "A".to_string(),
    })
    .unwrap();
    let mid_ab = make_match(&mut store, &a, &b);
    let mid_bc = make_match(&mut store, &b, &c);
    send_message(&mut store, &a, &mid_ab, &SendMessageRequest { text: "x".to_string() }, 1)
        .unwrap();
    send_message(&mut store, &b, &mid_bc, &SendMessageRequest { text: "y".to_string() }, 2)
        .unwrap();

    delete_account(&mut store, &a).unwrap();

    assert_eq!(store.users.len(), 2);
    assert_eq!(store.profiles.len(), 0);
    assert_eq!(store.images.len(), 0);
    assert_eq!(store.prompts.len(), 0);
    assert_eq!(store.interactions.len(), 2); // only b<->c remain
    assert_eq!(store.matches.len(), 1);
    assert_eq!(store.messages.len(), 1);
    assert_eq!(store.messages[0].text, "y");
}

#[test]
fn phone_lookup_and_account_creation() {
    let mut store = Store::new();
    assert!(backend::user_queries::check_user_exists(&store, "+1999").is_none());
    let (id1, fresh1) = get_or_create_user(&mut store, "+1999").unwrap();
    assert!(fresh1);
    let (id2, fresh2) = get_or_create_user(&mut store, "+1999").unwrap();
    assert!(!fresh2);
    assert_eq!(id1, id2);
    assert_eq!(backend::user_queries::check_user_exists(&store, "+1999").unwrap(), id1);
    let e = backend::user_queries::create_user(&mut store, "+1999").unwrap_err();
    assert_eq!(e, ApiError::Conflict);
    // ids read back as themselves through the UUID form
    let parsed = backend::ids::parse_uuid(&id1).unwrap();
    assert_eq!(backend::ids::format_uuid(parsed), id1);
}

#[test]
fn seeding_loads_a_dozen_accounts_with_preferences() {
    let mut store = Store::new();
    backend::seed::seed_database(&mut store).unwrap();
    assert_eq!(store.users.len(), 12);
    assert!(store.users.iter().all(|u| u.preferences.is_some()));
    // seeding again only refreshes preferences
    backend::seed::seed_database(&mut store).unwrap();
    assert_eq!(store.users.len(), 12);
    // a seed profile request carries the sample's attributes
    let seeds = backend::seed::get_seed_profiles();
    assert_eq!(seeds.len(), 12);
    let req = backend::seed::to_profile_request(&seeds[0]);
    assert_eq!(req.name.as_deref(), Some("Ana"));
    assert_eq!(req.gender.as_deref(), Some("Woman"));
    assert_eq!(req.height, Some(168));
}

#[test]
fn errors_map_to_their_status_codes() {
    assert_eq!(ApiError::Unauthorized.http_status(), 401);
    assert_eq!(ApiError::InvalidInput.http_status(), 400);
    assert_eq!(ApiError::Forbidden.http_status(), 403);
    assert_eq!(ApiError::NotFound.http_status(), 404);
    assert_eq!(ApiError::CapacityExceeded.http_status(), 400);
    assert_eq!(ApiError::Internal.http_status(), 500);
    assert_eq!(ApiError::Forbidden.describe(), "forbidden");
}

#[test]
fn unknown_match_and_bad_ids_are_rejected() {
    let mut store = Store::new();
    let a = new_user(&mut store, "+1000000032");
    let no_such = "0e8b6c29-0000-4000-8000-00000000dead";
    let e = get_messages(&store, &a, no_such, &MessageQuery { cursor: None, limit: None })
        .unwrap_err();
    assert_eq!(e, ApiError::NotFound);
    let e2 = get_messages(&store, &a, "garbage", &MessageQuery { cursor: None, limit: None })
        .unwrap_err();
    assert_eq!(e2, ApiError::InvalidInput);
    let e3 = get_messages(&store, "garbage", no_such, &MessageQuery { cursor: None, limit: None })
        .unwrap_err();
    assert_eq!(e3, ApiError::Unauthorized);
}

#[test]
fn bad_cursor_and_blank_text_are_rejected() {
    let mut store = Store::new();
    let a = new_user(&mut store, "+1000000033");
    let b = new_user(&mut store, "+1000000034");
    let mid = make_match(&mut store, &a, &b);
    let e = get_messages(&store, &a, &mid, &MessageQuery {
        cursor: Some("yesterday".to_string()),
        limit: None,
    })
    .unwrap_err();
    assert_eq!(e, ApiError::InvalidInput);
    let e2 = send_message(&mut store, &a, &mid, &SendMessageRequest { text: "   ".to_string() }, 5)
        .unwrap_err();
    assert_eq!(e2, ApiError::InvalidInput);
}
