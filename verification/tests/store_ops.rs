//! The in-memory store: round trips, filters and the token slots.

use intake::form::FormStatus;
use intake::store::Store;

const T0: u64 = 4_000_000_000;

#[test]
fn form_round_trips_field_for_field() {
    let mut store = Store::new();
    let id = store
        .insert_form(
            "Autumn intake".to_string(),
            25,
            FormStatus::Draft,
            T0 + 1000,
            T0 + 1000 + 86_400,
            900,
            vec![7, 9],
            T0,
        )
        .unwrap();
    assert_eq!(id, 1);
    let f = store.find_form_by_id(id).unwrap();
    assert_eq!(f.id, id);
    assert_eq!(f.name, "Autumn intake");
    assert_eq!(f.limit, 25);
    assert_eq!(f.status, FormStatus::Draft);
    assert_eq!(f.time_frame_duration, 900);
    assert_eq!(f.start_date, T0 + 1000);
    assert_eq!(f.end_date, T0 + 1000 + 86_400);
    assert_eq!(f.created_at, T0);
    assert_eq!(f.exclude_form_ids, vec![7, 9]);
    assert!(store.find_form_by_id(42).is_none());
}

#[test]
fn respondent_round_trips_field_for_field() {
    let mut store = Store::new();
    let id = store
        .insert_respondent(
            "Іван".to_string(),
            "Петренко".to_string(),
            "АБ123456".to_string(),
            "0671234567".to_string(),
            "Київська".to_string(),
            2,
            Some("IDP-0001".to_string()),
            T0,
        )
        .unwrap();
    let r = store.find_respondent_by_id(id).unwrap();
    assert_eq!(r.id, id);
    assert_eq!(r.first_name, "Іван");
    assert_eq!(r.last_name, "Петренко");
    assert_eq!(r.passport_id, "АБ123456");
    assert_eq!(r.phone, "0671234567");
    assert_eq!(r.region, "Київська");
    assert_eq!(r.children, 2);
    assert_eq!(r.idp_code, Some("IDP-0001".to_string()));
    assert_eq!(r.created_at, T0);
}

#[test]
fn respondent_find_filters_by_prefix_and_passport() {
    let mut store = Store::new();
    store
        .insert_respondent(
            "Іван".to_string(),
            "Петренко".to_string(),
            "АБ123456".to_string(),
            "0671234567".to_string(),
            "Київська".to_string(),
            0,
            None,
            T0,
        )
        .unwrap();
    store
        .insert_respondent(
            "Марія".to_string(),
            "Іваненко".to_string(),
            "123456789".to_string(),
            "0501234567".to_string(),
            "Львівська".to_string(),
            1,
            None,
            T0,
        )
        .unwrap();
    // a name prefix matches first or last name
    let hits = store.find_respondents(&Some("Іван".to_string()), &None);
    assert_eq!(hits.len(), 2);
    let hits = store.find_respondents(&Some("Мар".to_string()), &None);
    assert_eq!(hits.len(), 1);
    assert_eq!(hits[0].first_name, "Марія");
    // passport is exact
    let hits = store.find_respondents(&None, &Some("123456789".to_string()));
    assert_eq!(hits.len(), 1);
    assert_eq!(hits[0].last_name, "Іваненко");
    let hits = store.find_respondents(&Some("Іван".to_string()), &Some("АБ123456".to_string()));
    assert_eq!(hits.len(), 1);
    assert_eq!(hits[0].first_name, "Іван");
    // no filters: everything
    let hits = store.find_respondents(&None, &None);
    assert_eq!(hits.len(), 2);
}

#[test]
fn token_upsert_keeps_one_slot_per_label() {
    let mut store = Store::new();
    let uid = store
        .insert_user("a@example.com".to_string(), "h".to_string(), "argon2id".to_string(), T0)
        .unwrap();
    store.upsert_user_token(uid, "tok-one".to_string(), "WEB".to_string()).unwrap();
    store.upsert_user_token(uid, "tok-mobile".to_string(), "MOBILE".to_string()).unwrap();
    // re-login under WEB supersedes tok-one and leaves MOBILE alone
    store.upsert_user_token(uid, "tok-two".to_string(), "WEB".to_string()).unwrap();
    let tokens = store.find_tokens(uid);
    assert_eq!(tokens.len(), 2);
    let mut names: Vec<String> = tokens.iter().map(|t| t.token.clone()).collect();
    names.sort();
    assert_eq!(names, vec!["tok-mobile".to_string(), "tok-two".to_string()]);
}

#[test]
fn token_removal_takes_exactly_the_named_token() {
    let mut store = Store::new();
    let uid = store
        .insert_user("a@example.com".to_string(), "h".to_string(), "argon2id".to_string(), T0)
        .unwrap();
    let other = store
        .insert_user("b@example.com".to_string(), "h".to_string(), "argon2id".to_string(), T0)
        .unwrap();
    store.upsert_user_token(uid, "tok-one".to_string(), "WEB".to_string()).unwrap();
    store.upsert_user_token(other, "tok-one".to_string(), "WEB".to_string()).unwrap();
    store.upsert_user_token(uid, "tok-mobile".to_string(), "MOBILE".to_string()).unwrap();
    store.remove_user_tokens(uid, &vec!["tok-one".to_string()]).unwrap();
    // the same string under another account stays live
    let ours = store.find_tokens(uid);
    assert_eq!(ours.len(), 1);
    assert_eq!(ours[0].token, "tok-mobile");
    let theirs = store.find_tokens(other);
    assert_eq!(theirs.len(), 1);
    assert_eq!(theirs[0].token, "tok-one");
    // removing an absent token is a silent success
    store.remove_user_tokens(uid, &vec!["tok-one".to_string()]).unwrap();
    assert_eq!(store.find_tokens(uid).len(), 1);
}

#[test]
fn user_lookup_by_email_folds_ascii_case() {
    let mut store = Store::new();
    let uid = store
        .insert_user("Admin@Example.com".to_string(), "h".to_string(), "argon2id".to_string(), T0)
        .unwrap();
    let found = store.find_user_by_email("admin@example.COM").unwrap();
    assert_eq!(found.id, uid);
    assert_eq!(found.email, "Admin@Example.com");
    assert!(store.find_user_by_email("someone@example.com").is_none());
}
