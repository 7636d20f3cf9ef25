//! Form use cases: create, read, update, delete and the status
//! transitions, each behind the authentication gate.
//!
//! The `*_checked` functions hold the business rules themselves; the
//! service methods resolve the caller first and then apply them, so the
//! rules are verified independently of how the caller was resolved.

use vstd::prelude::*;

use crate::config::Config;
use crate::errors::{BaseError, ErrorKind, FieldError};
use crate::form::{form_schedule_valid, form_transition_allowed, Form, FormModel, FormStatus};
use crate::jwt::Claims;
use crate::store::{
    lemma_max_sub_order_ge, max_sub_order, spec_find_form, Store,
};
use crate::user_service::{claims_authenticate, UserService};
use crate::util::lemma_find_first_characterize;
use vstd::string::StrSliceExecFns;

verus! {

/// Fields of a new form.
pub struct CreateFromData {
    pub name: String,
    pub limit: u16,
    pub time_frame_duration: u16,
    pub start_date: u64,
    pub end_date: u64,
    pub exclude_form_ids: Vec<u64>,
}

/// A partial update: only the provided fields change.
pub struct UpdateFromData {
    pub name: Option<String>,
    pub limit: Option<u16>,
    pub time_frame_duration: Option<u16>,
    pub start_date: Option<u64>,
    pub end_date: Option<u64>,
    pub exclude_form_ids: Option<Vec<u64>>,
}

/// What a new form must satisfy: a named campaign with a positive
/// capacity, a positive slot that fits inside the window, bounds the
/// arithmetic accepts, and a window that does not lie in the past.
pub open spec fn create_form_valid(
    name: Seq<char>,
    limit: u16,
    time_frame_duration: u16,
    start_date: u64,
    end_date: u64,
    now: u64,
) -> bool {
    &&& name.len() >= 1
    &&& form_schedule_valid(limit, time_frame_duration, start_date, end_date)
    &&& start_date >= now
    &&& end_date >= now
}

/// Checks the fields of a new form, collecting the field messages.
fn validate_create_form(data: &CreateFromData, now: u64) -> (r: Result<(), BaseError>)
    ensures
        r is Ok <==> create_form_valid(
            data.name@,
            data.limit,
            data.time_frame_duration,
            data.start_date,
            data.end_date,
            now,
        ),
        r matches Err(e) ==> (e.kind == ErrorKind::ValidationFailure && e.message@ == ""@
            && (e.fields matches Some(fs) && fs@.len() >= 1)),
{
    let mut fields: Vec<FieldError> = Vec::new();
    if data.name.as_str().unicode_len() < 1 {
        fields.push(
            FieldError {
                field: "name".to_owned(),
                message: "The first name length should be min 1 symbols".to_owned(),
            },
        );
    }
    if data.limit < 1 {
        fields.push(
            FieldError {
                field: "limit".to_owned(),
                message: "The limit should be at least 1".to_owned(),
            },
        );
    }
    if data.time_frame_duration < 1 {
        fields.push(
            FieldError {
                field: "time_frame_duration".to_owned(),
                message: "The time frame duration should be at least 1".to_owned(),
            },
        );
    }
    let span_ok = data.end_date <= crate::MAX_EPOCH_SECONDS && data.start_date <= data.end_date
        && (data.time_frame_duration as u64) <= data.end_date - data.start_date;
    let window_ok = span_ok && (data.start_date >= 1 || data.end_date - (data.time_frame_duration
        as u64) >= data.limit as u64);
    if !window_ok {
        fields.push(
            FieldError {
                field: "end_date".to_owned(),
                message: "The window must hold at least one slot".to_owned(),
            },
        );
    }
    if !crate::types::validate_date_not_past(data.start_date, now)
        || !crate::types::validate_date_not_past(data.end_date, now) {
        fields.push(
            FieldError { field: "start_date".to_owned(), message: "Date is not valid".to_owned() },
        );
    }
    if fields.len() == 0 {
        Ok(())
    } else {
        Err(BaseError::validation(fields))
    }
}

/// Creates a form in Draft with the given fields; exactly when the
/// fields are valid and the id space is not exhausted.
pub fn create_form_checked(store: &mut Store, data: CreateFromData, now: u64) -> (r: Result<
    u64,
    BaseError,
>)
    requires
        old(store).wf(),
    ensures
        final(store).wf(),
        r is Ok <==> (create_form_valid(
            data.name@,
            data.limit,
            data.time_frame_duration,
            data.start_date,
            data.end_date,
            now,
        ) && old(store).spec_next_id() < u64::MAX),
        r matches Ok(id) ==> {
            &&& id == old(store).spec_next_id()
            &&& final(store).spec_next_id() == old(store).spec_next_id() + 1
            &&& final(store).forms_view() == old(store).forms_view().push(
                FormModel {
                    id: id,
                    name: data.name@,
                    limit: data.limit,
                    status: FormStatus::Draft,
                    time_frame_duration: data.time_frame_duration,
                    start_date: data.start_date,
                    end_date: data.end_date,
                    created_at: now,
                    exclude_form_ids: data.exclude_form_ids@,
                },
            )
        },
        r is Err ==> *final(store) == *old(store),
        !create_form_valid(
            data.name@,
            data.limit,
            data.time_frame_duration,
            data.start_date,
            data.end_date,
            now,
        ) ==> (r matches Err(e) && e.kind == ErrorKind::ValidationFailure),
        r matches Err(e) ==> (e.kind == ErrorKind::ValidationFailure || e.kind
            == ErrorKind::StoreFailure),
        r matches Err(e) ==> (e.kind == ErrorKind::ValidationFailure ==> (e.message@ == ""@
                && (e.fields matches Some(fs) && fs@.len() >= 1))),
        final(store).resps_view() == old(store).resps_view(),
        final(store).subs_view() == old(store).subs_view(),
        final(store).users_view() == old(store).users_view(),
        final(store).tokens_view() == old(store).tokens_view(),
{
    match validate_create_form(&data, now) {
        Ok(_) => (),
        Err(e) => {
            return Err(e);
        },
    }
    store.insert_form(
        data.name,
        data.limit,
        FormStatus::Draft,
        data.start_date,
        data.end_date,
        data.time_frame_duration,
        data.exclude_form_ids,
        now,
    )
}

/// The form after a partial update: provided fields replace the old
/// ones; id, status and creation instant never change this way.
pub open spec fn apply_update(f: FormModel, d: UpdateFromData) -> FormModel {
    FormModel {
        id: f.id,
        name: match d.name {
            Some(n) => n@,
            None => f.name,
        },
        limit: match d.limit {
            Some(l) => l,
            None => f.limit,
        },
        status: f.status,
        time_frame_duration: match d.time_frame_duration {
            Some(t) => t,
            None => f.time_frame_duration,
        },
        start_date: match d.start_date {
            Some(s) => s,
            None => f.start_date,
        },
        end_date: match d.end_date {
            Some(e) => e,
            None => f.end_date,
        },
        created_at: f.created_at,
        exclude_form_ids: match d.exclude_form_ids {
            Some(v) => v@,
            None => f.exclude_form_ids,
        },
    }
}

/// Whether the updated form may be stored: a valid schedule whose
/// capacity is not below a position already assigned.
pub open spec fn update_admissible(g: FormModel, subs: Seq<crate::submission::SubmissionRecord>) -> bool {
    &&& form_schedule_valid(g.limit, g.time_frame_duration, g.start_date, g.end_date)
    &&& max_sub_order(subs, g.id) <= g.limit
}

/// Applies a partial update to the form with `id`: only in Draft, and
/// only to a record that stays valid.
pub fn update_form_checked(store: &mut Store, id: u64, data: UpdateFromData) -> (r: Result<
    (),
    BaseError,
>)
    requires
        old(store).wf(),
    ensures
        final(store).wf(),
        match spec_find_form(old(store).forms_view(), id) {
            None => r matches Err(e) && e.kind == ErrorKind::NotFound && *final(store) == *old(
                store,
            ),
            Some(f) => {
                &&& (f.status != FormStatus::Draft ==> (r matches Err(e) && e.kind
                    == ErrorKind::Forbidden && *final(store) == *old(store)))
                &&& (f.status == FormStatus::Draft && !update_admissible(
                    apply_update(f, data),
                    old(store).subs_view(),
                ) ==> (r matches Err(e) && e.kind == ErrorKind::ValidationFailure && *final(store)
                    == *old(store)))
                &&& (f.status == FormStatus::Draft && update_admissible(
                    apply_update(f, data),
                    old(store).subs_view(),
                ) ==> {
                    &&& r is Ok
                    &&& final(store).forms_view().len() == old(store).forms_view().len()
                    &&& forall|j: int|
                        0 <= j < final(store).forms_view().len() ==> #[trigger] final(store).forms_view()[j] == if old(store).forms_view()[j].id == id {
                            apply_update(f, data)
                        } else {
                            old(store).forms_view()[j]
                        }
                })
            },
        },
        final(store).resps_view() == old(store).resps_view(),
        final(store).subs_view() == old(store).subs_view(),
        final(store).users_view() == old(store).users_view(),
        final(store).tokens_view() == old(store).tokens_view(),
        final(store).spec_next_id() == old(store).spec_next_id(),
{
    let found = match store.find_form_by_id(id) {
        Some(f) => f,
        None => {
            return Err(BaseError::not_found("Form not found".to_owned()));
        },
    };
    proof {
        lemma_find_first_characterize(store.forms_view(), |f: FormModel| f.id == id);
    }
    if !matches!(found.status, FormStatus::Draft) {
        return Err(BaseError::forbidden());
    }
    let merged = Form {
        id: found.id,
        name: match data.name {
            Some(n) => n,
            None => found.name,
        },
        limit: match data.limit {
            Some(l) => l,
            None => found.limit,
        },
        status: found.status,
        time_frame_duration: match data.time_frame_duration {
            Some(t) => t,
            None => found.time_frame_duration,
        },
        start_date: match data.start_date {
            Some(s) => s,
            None => found.start_date,
        },
        end_date: match data.end_date {
            Some(e) => e,
            None => found.end_date,
        },
        created_at: found.created_at,
        exclude_form_ids: match data.exclude_form_ids {
            Some(v) => v,
            None => found.exclude_form_ids,
        },
    };
    let span_ok = merged.limit >= 1 && merged.time_frame_duration >= 1 && merged.end_date
        <= crate::MAX_EPOCH_SECONDS && merged.start_date <= merged.end_date
        && (merged.time_frame_duration as u64) <= merged.end_date - merged.start_date;
    let schedule_ok = span_ok && (merged.start_date >= 1 || merged.end_date
        - (merged.time_frame_duration as u64) >= merged.limit as u64);
    let highest = store.highest_sub_order(id);
    let capacity_ok = highest <= merged.limit as u32;
    if !(schedule_ok && capacity_ok) {
        let mut fields: Vec<FieldError> = Vec::new();
        fields.push(
            FieldError {
                field: "limit".to_owned(),
                message: "The update would make the form invalid".to_owned(),
            },
        );
        return Err(BaseError::validation(fields));
    }
    proof {
        assert forall|k: int|
            0 <= k < store.subs_view().len() && (#[trigger] store.subs_view()[k]).form_id == id
            implies store.subs_view()[k].sub_order <= merged@.limit by {
            lemma_max_sub_order_ge(store.subs_view(), id, k);
        }
    }
    store.update_form(id, merged)
}

/// Requests a status for the form with `id`: the current status is a
/// no-op success, a forward transition is applied, anything else is
/// Forbidden.
pub fn set_form_status(store: &mut Store, id: u64, value: FormStatus) -> (r: Result<
    (),
    BaseError,
>)
    requires
        old(store).wf(),
    ensures
        final(store).wf(),
        match spec_find_form(old(store).forms_view(), id) {
            None => r matches Err(e) && e.kind == ErrorKind::NotFound && *final(store) == *old(
                store,
            ),
            Some(f) => {
                &&& (r is Ok <==> form_transition_allowed(f.status, value))
                &&& (!form_transition_allowed(f.status, value) ==> (r matches Err(e) && e.kind
                    == ErrorKind::Forbidden && *final(store) == *old(store)))
                &&& (r is Ok ==> {
                    &&& final(store).forms_view().len() == old(store).forms_view().len()
                    &&& forall|j: int|
                        0 <= j < final(store).forms_view().len() ==> #[trigger] final(store).forms_view()[j] == if old(store).forms_view()[j].id == id {
                            FormModel { status: value, ..old(store).forms_view()[j] }
                        } else {
                            old(store).forms_view()[j]
                        }
                })
            },
        },
        final(store).resps_view() == old(store).resps_view(),
        final(store).subs_view() == old(store).subs_view(),
        final(store).users_view() == old(store).users_view(),
        final(store).tokens_view() == old(store).tokens_view(),
        final(store).spec_next_id() == old(store).spec_next_id(),
{
    let ghost old_forms = store.forms_view();
    let found = match store.find_form_by_id(id) {
        Some(f) => f,
        None => {
            return Err(BaseError::not_found("Form not found".to_owned()));
        },
    };
    proof {
        lemma_find_first_characterize(old_forms, |f: FormModel| f.id == id);
    }
    if found.status == value {
        proof {
            assert forall|j: int|
                0 <= j < store.forms_view().len() implies #[trigger] store.forms_view()[j] == if
            old_forms[j].id == id {
                FormModel { status: value, ..old_forms[j] }
            } else {
                old_forms[j]
            } by {
                if old_forms[j].id == id {
                    let k = choose|k: int| 0 <= k < old_forms.len() && old_forms[k] == found@;
                    assert(old_forms[j] == found@);
                    assert(old_forms[j] =~= FormModel { status: value, ..old_forms[j] });
                }
            }
        }
        return Ok(());
    }
    let next = match found.status.transition(value) {
        Ok(s) => s,
        Err(e) => {
            return Err(e);
        },
    };
    let mut updated = found;
    updated.status = next;
    proof {
        let k = choose|k: int| 0 <= k < old_forms.len() && old_forms[k] == found@;
        assert forall|s: int|
            0 <= s < store.subs_view().len() && (#[trigger] store.subs_view()[s]).form_id == id
            implies store.subs_view()[s].sub_order <= updated@.limit by {
            assert(store.subs_view()[s].sub_order <= old_forms[k].limit);
        }
    }
    store.update_form(id, updated)
}

/// Deletes the form with `id`: permitted only while it is in Draft.
pub fn delete_form_checked(store: &mut Store, id: u64) -> (r: Result<(), BaseError>)
    requires
        old(store).wf(),
    ensures
        final(store).wf(),
        match spec_find_form(old(store).forms_view(), id) {
            None => r matches Err(e) && e.kind == ErrorKind::NotFound && *final(store) == *old(
                store,
            ),
            Some(f) => {
                &&& (r is Ok <==> f.status == FormStatus::Draft)
                &&& (f.status != FormStatus::Draft ==> (r matches Err(e) && e.kind
                    == ErrorKind::Forbidden && *final(store) == *old(store)))
                &&& (r is Ok ==> {
                    &&& spec_find_form(final(store).forms_view(), id) is None
                    &&& forall|j: u64|
                        j != id ==> #[trigger] spec_find_form(final(store).forms_view(), j)
                            == spec_find_form(old(store).forms_view(), j)
                    &&& exists|i: int|
                        0 <= i < old(store).forms_view().len() && (#[trigger] old(
                            store,
                        ).forms_view()[i]).id == id && final(store).forms_view() == old(
                            store,
                        ).forms_view().remove(i)
                })
            },
        },
        final(store).resps_view() == old(store).resps_view(),
        final(store).subs_view() == old(store).subs_view(),
        final(store).users_view() == old(store).users_view(),
        final(store).tokens_view() == old(store).tokens_view(),
        final(store).spec_next_id() == old(store).spec_next_id(),
{
    let found = match store.find_form_by_id(id) {
        Some(f) => f,
        None => {
            return Err(BaseError::not_found("Form not found".to_owned()));
        },
    };
    if !matches!(found.status, FormStatus::Draft) {
        return Err(BaseError::forbidden());
    }
    store.delete_form(id)
}

/// Form use cases behind the authentication gate.
pub struct FormService {
    user_service: UserService,
}

impl FormService {
    /// The bearer string this service authenticates with.
    pub closed spec fn spec_token(&self) -> Seq<char> {
        self.user_service.spec_token()
    }

    pub fn new(config: &Config, token: String) -> (r: FormService)
        ensures
            r.spec_token() == token@,
    {
        FormService { user_service: UserService::new(config, token) }
    }

    /// Validates, authenticates, then creates the form in Draft.
    pub fn create(&self, store: &mut Store, data: CreateFromData, now: u64) -> (r: Result<
        u64,
        BaseError,
    >)
        requires
            old(store).wf(),
        ensures
            final(store).wf(),
            r matches Ok(id) ==> {
                &&& exists|c: Claims|
                    #[trigger] claims_authenticate(*old(store), c, self.spec_token())
                &&& id == old(store).spec_next_id()
                &&& final(store).forms_view() == old(store).forms_view().push(
                    FormModel {
                        id: id,
                        name: data.name@,
                        limit: data.limit,
                        status: FormStatus::Draft,
                        time_frame_duration: data.time_frame_duration,
                        start_date: data.start_date,
                        end_date: data.end_date,
                        created_at: now,
                        exclude_form_ids: data.exclude_form_ids@,
                    },
                )
            },
            r is Err ==> *final(store) == *old(store),
            !create_form_valid(
                data.name@,
                data.limit,
                data.time_frame_duration,
                data.start_date,
                data.end_date,
                now,
            ) ==> (r matches Err(e) && e.kind == ErrorKind::ValidationFailure),
            r matches Err(e) ==> (e.kind == ErrorKind::ValidationFailure ==> (e.message@ == ""@
                && (e.fields matches Some(fs) && fs@.len() >= 1))),
    {
        match validate_create_form(&data, now) {
            Ok(_) => (),
            Err(e) => {
                return Err(e);
            },
        }
        let caller = match self.user_service.get_current_user(store) {
            Ok(u) => u,
            Err(e) => {
                return Err(e);
            },
        };
        proof {
            let c = choose|c: Claims|
                claims_authenticate(*store, c, self.user_service.spec_token()) && Some(caller@)
                    == crate::store::spec_find_user(store.users_view(), c.sub);
            assert(claims_authenticate(*old(store), c, self.spec_token()));
        }
        create_form_checked(store, data, now)
    }

    /// Authenticates, then applies a partial update (Draft only).
    pub fn update(&self, store: &mut Store, id: u64, data: UpdateFromData) -> (r: Result<
        (),
        BaseError,
    >)
        requires
            old(store).wf(),
        ensures
            final(store).wf(),
            r is Err ==> *final(store) == *old(store),
            r is Ok ==> {
                &&& exists|c: Claims|
                    #[trigger] claims_authenticate(*old(store), c, self.spec_token())
                &&& match spec_find_form(old(store).forms_view(), id) {
                    Some(f) => f.status == FormStatus::Draft && update_admissible(
                        apply_update(f, data),
                        old(store).subs_view(),
                    ) && final(store).forms_view().len() == old(store).forms_view().len()
                        && forall|j: int|
                        0 <= j < final(store).forms_view().len() ==> #[trigger] final(store).forms_view()[j] == if old(store).forms_view()[j].id == id {
                            apply_update(f, data)
                        } else {
                            old(store).forms_view()[j]
                        },
                    None => false,
                }
            },
    {
        let caller = match self.user_service.get_current_user(store) {
            Ok(u) => u,
            Err(e) => {
                return Err(e);
            },
        };
        proof {
            let c = choose|c: Claims|
                claims_authenticate(*store, c, self.user_service.spec_token()) && Some(caller@)
                    == crate::store::spec_find_user(store.users_view(), c.sub);
            assert(claims_authenticate(*old(store), c, self.spec_token()));
        }
        update_form_checked(store, id, data)
    }

    /// Authenticates, then deletes the form (Draft only).
    pub fn delete(&self, store: &mut Store, id: u64) -> (r: Result<(), BaseError>)
        requires
            old(store).wf(),
        ensures
            final(store).wf(),
            r is Err ==> *final(store) == *old(store),
            r is Ok ==> {
                &&& exists|c: Claims|
                    #[trigger] claims_authenticate(*old(store), c, self.spec_token())
                &&& match spec_find_form(old(store).forms_view(), id) {
                    Some(f) => f.status == FormStatus::Draft && spec_find_form(
                        final(store).forms_view(),
                        id,
                    ) is None,
                    None => false,
                }
            },
    {
        let caller = match self.user_service.get_current_user(store) {
            Ok(u) => u,
            Err(e) => {
                return Err(e);
            },
        };
        proof {
            let c = choose|c: Claims|
                claims_authenticate(*store, c, self.user_service.spec_token()) && Some(caller@)
                    == crate::store::spec_find_user(store.users_view(), c.sub);
            assert(claims_authenticate(*old(store), c, self.spec_token()));
        }
        delete_form_checked(store, id)
    }

    /// Authenticates, then requests a status for the form.
    pub fn status(&self, store: &mut Store, id: u64, value: FormStatus) -> (r: Result<
        (),
        BaseError,
    >)
        requires
            old(store).wf(),
        ensures
            final(store).wf(),
            r is Err ==> *final(store) == *old(store),
            r is Ok ==> {
                &&& exists|c: Claims|
                    #[trigger] claims_authenticate(*old(store), c, self.spec_token())
                &&& match spec_find_form(old(store).forms_view(), id) {
                    Some(f) => form_transition_allowed(f.status, value) && final(store).forms_view().len() == old(store).forms_view().len() && forall|j: int|
                        0 <= j < final(store).forms_view().len() ==> #[trigger] final(store).forms_view()[j] == if old(store).forms_view()[j].id == id {
                            FormModel { status: value, ..old(store).forms_view()[j] }
                        } else {
                            old(store).forms_view()[j]
                        },
                    None => false,
                }
            },
    {
        let caller = match self.user_service.get_current_user(store) {
            Ok(u) => u,
            Err(e) => {
                return Err(e);
            },
        };
        proof {
            let c = choose|c: Claims|
                claims_authenticate(*store, c, self.user_service.spec_token()) && Some(caller@)
                    == crate::store::spec_find_user(store.users_view(), c.sub);
            assert(claims_authenticate(*old(store), c, self.spec_token()));
        }
        set_form_status(store, id, value)
    }

    /// Authenticates, then lists every form.
    pub fn get(&self, store: &Store) -> (r: Result<Vec<Form>, BaseError>)
        ensures
            r matches Ok(v) ==> {
                &&& exists|c: Claims| #[trigger] claims_authenticate(*store, c, self.spec_token())
                &&& v@.len() == store.forms_view().len()
                &&& forall|i: int| 0 <= i < v@.len() ==> (#[trigger] v@[i])@ == store.forms_view()[i]
            },
    {
        let caller = match self.user_service.get_current_user(store) {
            Ok(u) => u,
            Err(e) => {
                return Err(e);
            },
        };
        proof {
            let c = choose|c: Claims|
                claims_authenticate(*store, c, self.user_service.spec_token()) && Some(caller@)
                    == crate::store::spec_find_user(store.users_view(), c.sub);
            assert(claims_authenticate(*store, c, self.spec_token()));
        }
        Ok(store.find_forms())
    }

    /// Authenticates, then fetches one form by id.
    pub fn get_by_id(&self, store: &Store, id: u64) -> (r: Result<Form, BaseError>)
        ensures
            r matches Ok(f) ==> {
                &&& exists|c: Claims| #[trigger] claims_authenticate(*store, c, self.spec_token())
                &&& spec_find_form(store.forms_view(), id) == Some(f@)
            },
            r matches Err(e) ==> (e.kind == ErrorKind::NotFound || e.kind
                == ErrorKind::Unauthenticated),
    {
        let caller = match self.user_service.get_current_user(store) {
            Ok(u) => u,
            Err(e) => {
                return Err(e);
            },
        };
        proof {
            let c = choose|c: Claims|
                claims_authenticate(*store, c, self.user_service.spec_token()) && Some(caller@)
                    == crate::store::spec_find_user(store.users_view(), c.sub);
            assert(claims_authenticate(*store, c, self.spec_token()));
        }
        match store.find_form_by_id(id) {
            Some(f) => Ok(f),
            None => Err(BaseError::not_found("Form not found".to_owned())),
        }
    }
}

} // verus!
