//! End-to-end flows through the services, with real credentials signed
//! and checked by the token engine.

use intake::auth_service::{AuthService, CreateInputData, LoginInputData};
use intake::config::Config;
use intake::errors::ErrorKind;
use intake::form::FormStatus;
use intake::form_service::{CreateFromData, FormService, UpdateFromData};
use intake::respondent_service::{CreateData, GetQuery as RespondentQuery, MergeData,
    RespondentService};
use intake::store::Store;
use intake::submission_service::{GetQuery as SubmissionQuery, SubmissionService};
use intake::user_service::UserService;

// An instant far enough in the future that a seven-day credential issued
// "at" it is still unexpired when the engine checks it against the clock.
const T0: u64 = 4_000_000_000;

fn config() -> Config {
    Config { jwt_secret_key: "unit-test-signing-secret".to_string() }
}

fn login(store: &mut Store, email: &str) -> String {
    let config = config();
    let auth = AuthService::new(&config);
    auth.create(
        store,
        CreateInputData { email: email.to_string(), password: "longenough".to_string() },
        "argon2id".to_string(),
        format!("hash-of-{}", email),
        T0,
    )
    .unwrap();
    let user = auth
        .login_begin(
            store,
            &LoginInputData { email: email.to_string(), password: "longenough".to_string() },
        )
        .unwrap();
    // the caller compares the password against the stored hash; here it matches
    auth.login_finish(store, &user, true, T0).unwrap()
}

fn new_form_data(limit: u16) -> CreateFromData {
    CreateFromData {
        name: "Autumn intake".to_string(),
        limit,
        time_frame_duration: 600,
        start_date: T0 + 600,
        end_date: T0 + 600 + 1800,
        exclude_form_ids: Vec::new(),
    }
}

fn new_respondent(passport: &str, phone: &str) -> CreateData {
    CreateData {
        first_name: "Іван".to_string(),
        last_name: "Петренко".to_string(),
        passport_id: passport.to_string(),
        idp_code: None,
        phone: phone.to_string(),
        region: "Київська".to_string(),
        children: 0,
    }
}

#[test]
fn a_wrong_password_does_not_log_in() {
    let config = config();
    let auth = AuthService::new(&config);
    let mut store = Store::new();
    auth.create(
        &mut store,
        CreateInputData { email: "a@example.com".to_string(), password: "longenough".to_string() },
        "argon2id".to_string(),
        "hash".to_string(),
        T0,
    )
    .unwrap();
    let user = auth
        .login_begin(
            &store,
            &LoginInputData { email: "a@example.com".to_string(), password: "wrongpass".to_string() },
        )
        .unwrap();
    let e = auth.login_finish(&mut store, &user, false, T0).unwrap_err();
    assert_eq!(e.kind, ErrorKind::Unauthenticated);
    assert_eq!(e.message, "Password is incorrect");
    let e = auth
        .login_begin(
            &store,
            &LoginInputData {
                email: "nobody@example.com".to_string(),
                password: "longenough".to_string(),
            },
        )
        .unwrap_err();
    assert_eq!(e.kind, ErrorKind::NotFound);
}

#[test]
fn a_garbage_token_does_not_authenticate() {
    let config = config();
    let mut store = Store::new();
    login(&mut store, "a@example.com");
    let service = UserService::new(&config, "not-a-token".to_string());
    let e = service.get_current_user(&store).unwrap_err();
    assert_eq!(e.kind, ErrorKind::Unauthenticated);
}

#[test]
fn form_create_then_fetch_is_identical() {
    let config = config();
    let mut store = Store::new();
    let token = login(&mut store, "a@example.com");
    let forms = FormService::new(&config, token);
    let id = forms.create(&mut store, new_form_data(25), T0).unwrap();
    let f = forms.get_by_id(&store, id).unwrap();
    assert_eq!(f.id, id);
    assert_eq!(f.name, "Autumn intake");
    assert_eq!(f.limit, 25);
    assert_eq!(f.status, FormStatus::Draft);
    assert_eq!(f.time_frame_duration, 600);
    assert_eq!(f.start_date, T0 + 600);
    assert_eq!(f.end_date, T0 + 600 + 1800);
    assert_eq!(f.created_at, T0);
    assert_eq!(f.exclude_form_ids, Vec::<u64>::new());
    let all = forms.get(&store).unwrap();
    assert_eq!(all.len(), 1);
    assert_eq!(all[0].id, id);
}

#[test]
fn respondent_create_then_fetch_is_identical() {
    let config = config();
    let mut store = Store::new();
    let token = login(&mut store, "a@example.com");
    let respondents = RespondentService::new(&config, token);
    let id = respondents
        .create(&mut store, new_respondent("АБ123456", "0671234567"), T0)
        .unwrap();
    let r = respondents.get_by_id(&store, id).unwrap();
    assert_eq!(r.id, id);
    assert_eq!(r.first_name, "Іван");
    assert_eq!(r.last_name, "Петренко");
    assert_eq!(r.passport_id, "АБ123456");
    assert_eq!(r.phone, "0671234567");
    assert_eq!(r.region, "Київська");
    assert_eq!(r.children, 0);
    assert_eq!(r.idp_code, None);
    assert_eq!(r.created_at, T0);
    let bad = respondents.create(&mut store, new_respondent("nope", "0671234567"), T0);
    assert_eq!(bad.unwrap_err().kind, ErrorKind::ValidationFailure);
}

#[test]
fn form_status_walks_forward_only() {
    let config = config();
    let mut store = Store::new();
    let token = login(&mut store, "a@example.com");
    let forms = FormService::new(&config, token);
    let id = forms.create(&mut store, new_form_data(25), T0).unwrap();
    // Draft -> Close is Forbidden
    let e = forms.status(&mut store, id, FormStatus::Close).unwrap_err();
    assert_eq!(e.kind, ErrorKind::Forbidden);
    // Draft -> Open succeeds once
    forms.status(&mut store, id, FormStatus::Open).unwrap();
    assert_eq!(forms.get_by_id(&store, id).unwrap().status, FormStatus::Open);
    // Open -> Open is a no-op success
    forms.status(&mut store, id, FormStatus::Open).unwrap();
    // Open -> Close succeeds
    forms.status(&mut store, id, FormStatus::Close).unwrap();
    // Close -> Open is Forbidden
    let e = forms.status(&mut store, id, FormStatus::Open).unwrap_err();
    assert_eq!(e.kind, ErrorKind::Forbidden);
    // a missing form is NotFound
    let e = forms.status(&mut store, 999, FormStatus::Open).unwrap_err();
    assert_eq!(e.kind, ErrorKind::NotFound);
}

#[test]
fn form_updates_are_draft_only() {
    let config = config();
    let mut store = Store::new();
    let token = login(&mut store, "a@example.com");
    let forms = FormService::new(&config, token);
    let id = forms.create(&mut store, new_form_data(25), T0).unwrap();
    let rename = UpdateFromData {
        name: Some("Winter intake".to_string()),
        limit: Some(30),
        time_frame_duration: None,
        start_date: None,
        end_date: None,
        exclude_form_ids: None,
    };
    forms.update(&mut store, id, rename).unwrap();
    let f = forms.get_by_id(&store, id).unwrap();
    assert_eq!(f.name, "Winter intake");
    assert_eq!(f.limit, 30);
    assert_eq!(f.time_frame_duration, 600); // untouched
    forms.status(&mut store, id, FormStatus::Open).unwrap();
    let rename_again = UpdateFromData {
        name: Some("Spring intake".to_string()),
        limit: None,
        time_frame_duration: None,
        start_date: None,
        end_date: None,
        exclude_form_ids: None,
    };
    let e = forms.update(&mut store, id, rename_again).unwrap_err();
    assert_eq!(e.kind, ErrorKind::Forbidden);
    assert_eq!(forms.get_by_id(&store, id).unwrap().name, "Winter intake");
}

#[test]
fn deleting_a_form_is_draft_only() {
    let config = config();
    let mut store = Store::new();
    let token = login(&mut store, "a@example.com");
    let forms = FormService::new(&config, token);
    let draft = forms.create(&mut store, new_form_data(25), T0).unwrap();
    let opened = forms.create(&mut store, new_form_data(25), T0).unwrap();
    forms.status(&mut store, opened, FormStatus::Open).unwrap();
    // Draft: deletion permitted
    forms.delete(&mut store, draft).unwrap();
    let e = forms.get_by_id(&store, draft).unwrap_err();
    assert_eq!(e.kind, ErrorKind::NotFound);
    // Open: rejected, and nothing is removed
    let e = forms.delete(&mut store, opened).unwrap_err();
    assert_eq!(e.kind, ErrorKind::Forbidden);
    assert_eq!(forms.get_by_id(&store, opened).unwrap().id, opened);
    // Close: rejected too
    forms.status(&mut store, opened, FormStatus::Close).unwrap();
    let e = forms.delete(&mut store, opened).unwrap_err();
    assert_eq!(e.kind, ErrorKind::Forbidden);
    assert_eq!(forms.get_by_id(&store, opened).unwrap().id, opened);
}

#[test]
fn capacity_is_enforced_at_the_boundary() {
    let config = config();
    let mut store = Store::new();
    let token = login(&mut store, "a@example.com");
    let forms = FormService::new(&config, token.clone());
    let respondents = RespondentService::new(&config, token.clone());
    let submissions = SubmissionService::new(&config, token);
    let form_id = forms.create(&mut store, new_form_data(3), T0).unwrap();
    let passports = ["АБ123456", "ВГ123456", "ҐД123456", "ЖЗ123456"];
    let phones = ["0671234567", "0671234568", "0671234569", "0671234570"];
    let mut respondent_ids = Vec::new();
    for i in 0..4 {
        respondent_ids.push(
            respondents
                .create(&mut store, new_respondent(passports[i], phones[i]), T0)
                .unwrap(),
        );
    }
    // capacity 3: three registrations succeed with positions 1..=3
    for i in 0..3 {
        submissions
            .create(&mut store, form_id, respondent_ids[i], T0)
            .unwrap();
    }
    let listed = submissions
        .get(&store, SubmissionQuery { form_id: Some(form_id), respondent_id: None })
        .unwrap();
    assert_eq!(listed.len(), 3);
    let mut orders: Vec<u32> = listed.iter().map(|s| s.sub_order).collect();
    orders.sort();
    assert_eq!(orders, vec![1, 2, 3]);
    // the fourth attempt fails Forbidden and adds nothing
    let e = submissions
        .create(&mut store, form_id, respondent_ids[3], T0)
        .unwrap_err();
    assert_eq!(e.kind, ErrorKind::Forbidden);
    let listed = submissions
        .get(&store, SubmissionQuery { form_id: Some(form_id), respondent_id: None })
        .unwrap();
    assert_eq!(listed.len(), 3);
}

#[test]
fn one_submission_per_respondent_per_form() {
    let config = config();
    let mut store = Store::new();
    let token = login(&mut store, "a@example.com");
    let forms = FormService::new(&config, token.clone());
    let respondents = RespondentService::new(&config, token.clone());
    let submissions = SubmissionService::new(&config, token);
    let form_id = forms.create(&mut store, new_form_data(3), T0).unwrap();
    let rid = respondents
        .create(&mut store, new_respondent("АБ123456", "0671234567"), T0)
        .unwrap();
    submissions.create(&mut store, form_id, rid, T0).unwrap();
    let e = submissions.create(&mut store, form_id, rid, T0).unwrap_err();
    assert_eq!(e.kind, ErrorKind::Conflict);
    // missing references are NotFound
    let e = submissions.create(&mut store, 999, rid, T0).unwrap_err();
    assert_eq!(e.kind, ErrorKind::NotFound);
    let e = submissions.create(&mut store, form_id, 999, T0).unwrap_err();
    assert_eq!(e.kind, ErrorKind::NotFound);
}

#[test]
fn submission_create_then_fetch_is_identical() {
    let config = config();
    let mut store = Store::new();
    let token = login(&mut store, "a@example.com");
    let forms = FormService::new(&config, token.clone());
    let respondents = RespondentService::new(&config, token.clone());
    let submissions = SubmissionService::new(&config, token);
    let form_id = forms.create(&mut store, new_form_data(3), T0).unwrap();
    let rid = respondents
        .create(&mut store, new_respondent("АБ123456", "0671234567"), T0)
        .unwrap();
    let sid = submissions.create(&mut store, form_id, rid, T0).unwrap();
    let listed = submissions
        .get(&store, SubmissionQuery { form_id: None, respondent_id: Some(rid) })
        .unwrap();
    assert_eq!(listed.len(), 1);
    let s = &listed[0];
    assert_eq!(s.id, sid);
    assert_eq!(s.sub_order, 1);
    assert_eq!(s.created_at, T0);
    assert_eq!(s.form.id, form_id);
    assert_eq!(s.form.name, "Autumn intake");
    assert_eq!(s.respondent.id, rid);
    assert_eq!(s.respondent.passport_id, "АБ123456");
    // position 1 of capacity 3 over a 1200 s usable span: the offset is
    // 400 s, nudged one second back and floored to the absolute 600 s
    // boundary at T0 + 800 (T0 itself sits 400 s past a boundary)
    assert_eq!(s.arrival_date, T0 + 800);
}

#[test]
fn submission_status_is_loose_but_spellings_are_not() {
    let config = config();
    let mut store = Store::new();
    let token = login(&mut store, "a@example.com");
    let forms = FormService::new(&config, token.clone());
    let respondents = RespondentService::new(&config, token.clone());
    let submissions = SubmissionService::new(&config, token);
    let form_id = forms.create(&mut store, new_form_data(3), T0).unwrap();
    let rid = respondents
        .create(&mut store, new_respondent("АБ123456", "0671234567"), T0)
        .unwrap();
    let sid = submissions.create(&mut store, form_id, rid, T0).unwrap();
    submissions.status(&mut store, sid, "confirmed").unwrap();
    submissions.status(&mut store, sid, "completed").unwrap();
    // going backwards is not rejected in this core
    submissions.status(&mut store, sid, "received").unwrap();
    // the current status is a no-op success
    submissions.status(&mut store, sid, "received").unwrap();
    let e = submissions.status(&mut store, sid, "banana").unwrap_err();
    assert_eq!(e.kind, ErrorKind::ValidationFailure);
    let e = submissions.status(&mut store, 999, "confirmed").unwrap_err();
    assert_eq!(e.kind, ErrorKind::NotFound);
    // deletion has no lifecycle restriction
    submissions.delete(&mut store, sid).unwrap();
    let listed = submissions
        .get(&store, SubmissionQuery { form_id: Some(form_id), respondent_id: None })
        .unwrap();
    assert_eq!(listed.len(), 0);
}

#[test]
fn deleted_positions_are_not_reused() {
    let config = config();
    let mut store = Store::new();
    let token = login(&mut store, "a@example.com");
    let forms = FormService::new(&config, token.clone());
    let respondents = RespondentService::new(&config, token.clone());
    let submissions = SubmissionService::new(&config, token);
    let form_id = forms.create(&mut store, new_form_data(5), T0).unwrap();
    let r1 = respondents
        .create(&mut store, new_respondent("АБ123456", "0671234567"), T0)
        .unwrap();
    let r2 = respondents
        .create(&mut store, new_respondent("ВГ123456", "0671234568"), T0)
        .unwrap();
    let s1 = submissions.create(&mut store, form_id, r1, T0).unwrap();
    submissions.create(&mut store, form_id, r2, T0).unwrap();
    submissions.delete(&mut store, s1).unwrap();
    // r1 registers again: the freed position 1 is not reused
    let s3 = submissions.create(&mut store, form_id, r1, T0).unwrap();
    let listed = submissions
        .get(&store, SubmissionQuery { form_id: Some(form_id), respondent_id: None })
        .unwrap();
    let new_one = listed.iter().find(|s| s.id == s3).unwrap();
    assert_eq!(new_one.sub_order, 3);
}

#[test]
fn relogin_supersedes_and_logout_removes_exactly_one() {
    let config = config();
    let mut store = Store::new();
    let auth = AuthService::new(&config);
    let first = login(&mut store, "a@example.com");
    let other = login(&mut store, "b@example.com");

    // the first token authenticates
    assert!(UserService::new(&config, first.clone()).get_current_user(&store).is_ok());

    // a second login with the same WEB label supersedes the first token
    let user = auth
        .login_begin(
            &store,
            &LoginInputData { email: "a@example.com".to_string(), password: "longenough".to_string() },
        )
        .unwrap();
    let second = auth.login_finish(&mut store, &user, true, T0 + 60).unwrap();
    assert_ne!(first, second);
    let e = UserService::new(&config, first.clone()).get_current_user(&store).unwrap_err();
    assert_eq!(e.kind, ErrorKind::Unauthenticated);
    assert_eq!(e.message, "Token is expired");
    assert!(UserService::new(&config, second.clone()).get_current_user(&store).is_ok());

    // logout removes exactly the named token and no others
    auth.revoke_token(&mut store, &second).unwrap();
    let e = UserService::new(&config, second).get_current_user(&store).unwrap_err();
    assert_eq!(e.kind, ErrorKind::Unauthenticated);
    assert!(UserService::new(&config, other.clone()).get_current_user(&store).is_ok());

    // revoking an already-absent token is a silent success
    auth.revoke_token(&mut store, &other).unwrap();
    auth.revoke_token(&mut store, &other).unwrap();
}

#[test]
fn merge_validates_both_respondents_and_moves_nothing() {
    let config = config();
    let mut store = Store::new();
    let token = login(&mut store, "a@example.com");
    let respondents = RespondentService::new(&config, token);
    let a = respondents
        .create(&mut store, new_respondent("АБ123456", "0671234567"), T0)
        .unwrap();
    let b = respondents
        .create(&mut store, new_respondent("ВГ123456", "0671234568"), T0)
        .unwrap();
    respondents.merge(&store, a, &MergeData { from_id: b }).unwrap();
    // merging a respondent into itself is a silent success
    respondents.merge(&store, a, &MergeData { from_id: a }).unwrap();
    let e = respondents.merge(&store, a, &MergeData { from_id: 999 }).unwrap_err();
    assert_eq!(e.kind, ErrorKind::NotFound);
    // both records are still there, untouched
    let all = respondents
        .get(&store, RespondentQuery { name: None, passport_id: None })
        .unwrap();
    assert_eq!(all.len(), 2);
}

#[test]
fn mutating_without_a_valid_token_is_rejected_before_any_change() {
    let config = config();
    let mut store = Store::new();
    login(&mut store, "a@example.com");
    let forms = FormService::new(&config, "forged".to_string());
    let e = forms.create(&mut store, new_form_data(3), T0).unwrap_err();
    assert_eq!(e.kind, ErrorKind::Unauthenticated);
    let forms_ok = FormService::new(&config, "forged".to_string());
    assert!(forms_ok.get(&store).is_err());
}

#[test]
fn form_creation_rejects_impossible_windows() {
    let config = config();
    let mut store = Store::new();
    let token = login(&mut store, "a@example.com");
    let forms = FormService::new(&config, token);
    // the window must hold at least one slot
    let mut data = new_form_data(3);
    data.end_date = data.start_date + 100; // shorter than one 600 s slot
    let e = forms.create(&mut store, data, T0).unwrap_err();
    assert_eq!(e.kind, ErrorKind::ValidationFailure);
    // a window in the past is rejected
    let mut data = new_form_data(3);
    data.start_date = T0 - 100;
    let e = forms.create(&mut store, data, T0).unwrap_err();
    assert_eq!(e.kind, ErrorKind::ValidationFailure);
    // a capacity of zero is rejected
    let data = new_form_data(0);
    let e = forms.create(&mut store, data, T0).unwrap_err();
    assert_eq!(e.kind, ErrorKind::ValidationFailure);
    // an unnamed form is rejected
    let mut data = new_form_data(3);
    data.name = String::new();
    let e = forms.create(&mut store, data, T0).unwrap_err();
    assert_eq!(e.kind, ErrorKind::ValidationFailure);
    // nothing was stored by any of the rejected attempts
    let forms_now = forms.get(&store);
    assert_eq!(forms_now.unwrap().len(), 0);
}

#[test]
fn draft_update_cannot_cut_capacity_below_assigned_positions() {
    let config = config();
    let mut store = Store::new();
    let token = login(&mut store, "a@example.com");
    let forms = FormService::new(&config, token.clone());
    let respondents = RespondentService::new(&config, token.clone());
    let submissions = SubmissionService::new(&config, token);
    let form_id = forms.create(&mut store, new_form_data(5), T0).unwrap();
    let r1 = respondents
        .create(&mut store, new_respondent("\u{410}\u{411}123456", "0671234567"), T0)
        .unwrap();
    let r2 = respondents
        .create(&mut store, new_respondent("\u{412}\u{413}123456", "0671234568"), T0)
        .unwrap();
    submissions.create(&mut store, form_id, r1, T0).unwrap();
    submissions.create(&mut store, form_id, r2, T0).unwrap();
    // two positions are assigned: the capacity cannot drop below 2
    let cut = UpdateFromData {
        name: None,
        limit: Some(1),
        time_frame_duration: None,
        start_date: None,
        end_date: None,
        exclude_form_ids: None,
    };
    let e = forms.update(&mut store, form_id, cut).unwrap_err();
    assert_eq!(e.kind, ErrorKind::ValidationFailure);
    let keep = UpdateFromData {
        name: None,
        limit: Some(2),
        time_frame_duration: None,
        start_date: None,
        end_date: None,
        exclude_form_ids: None,
    };
    forms.update(&mut store, form_id, keep).unwrap();
    assert_eq!(forms.get_by_id(&store, form_id).unwrap().limit, 2);
}

#[test]
fn a_matching_password_always_yields_a_token() {
    let config = config();
    let auth = AuthService::new(&config);
    let mut store = Store::new();
    auth.create(
        &mut store,
        CreateInputData { email: "a@example.com".to_string(), password: "longenough".to_string() },
        "argon2id".to_string(),
        "hash".to_string(),
        T0,
    )
    .unwrap();
    let user = auth
        .login_begin(
            &store,
            &LoginInputData { email: "a@example.com".to_string(), password: "longenough".to_string() },
        )
        .unwrap();
    // issuing is total: a verified password is never answered with a failure
    let token = auth.login_finish(&mut store, &user, true, T0).unwrap();
    assert!(!token.is_empty());
    assert!(UserService::new(&config, token).get_current_user(&store).is_ok());
}

#[test]
fn validation_failures_name_their_fields() {
    let config = config();
    let mut store = Store::new();
    let token = login(&mut store, "a@example.com");
    let forms = FormService::new(&config, token.clone());
    let respondents = RespondentService::new(&config, token.clone());
    let submissions = SubmissionService::new(&config, token);
    // form: an empty name and a zero capacity are both reported, per field
    let mut data = new_form_data(0);
    data.name = String::new();
    let e = forms.create(&mut store, data, T0).unwrap_err();
    assert_eq!(e.message, "");
    let fields = e.fields.unwrap();
    assert!(fields.iter().any(|f| f.field == "name"));
    assert!(fields.iter().any(|f| f.field == "limit"));
    // respondent: the failing fields are named
    let mut bad = new_respondent("nope", "also-nope");
    bad.region = "Nowhere".to_string();
    let e = respondents.create(&mut store, bad, T0).unwrap_err();
    let fields = e.fields.unwrap();
    assert!(fields.iter().any(|f| f.field == "passport_id"));
    assert!(fields.iter().any(|f| f.field == "phone"));
    assert!(fields.iter().any(|f| f.field == "region"));
    // submission status: the unknown spelling is reported on its field
    let e = submissions.status(&mut store, 1, "banana").unwrap_err();
    assert_eq!(e.kind, ErrorKind::ValidationFailure);
    let fields = e.fields.unwrap();
    assert_eq!(fields.len(), 1);
    assert_eq!(fields[0].field, "status");
}
