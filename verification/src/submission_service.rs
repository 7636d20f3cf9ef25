//! Submission use cases: registration under the capacity protocol,
//! status updates, listing and deletion, each behind the authentication
//! gate.
//!
//! Registration must check the capacity and insert as one atomic unit;
//! here both happen under one exclusive borrow of the store, so two
//! concurrent attempts can never both see the same free position.

use vstd::prelude::*;

use crate::config::Config;
use crate::errors::{BaseError, ErrorKind, FieldError};
use crate::form::FormModel;
use crate::jwt::Claims;
use crate::respondent::RespondentModel;
use crate::slots::{calculate_arrival_date, slot_of_form};
use crate::store::{
    joined_submissions, max_sub_order, spec_find_form, spec_find_resp, spec_find_sub,
    spec_joined_sub_by_id, Store,
};
use crate::submission::{
    submission_status_of_chars, Submission, SubmissionRecord, SubmissionStatus,
};
use crate::user_service::{claims_authenticate, UserService};
use crate::util::lemma_find_first_characterize;

verus! {

/// A submission find query: by form, by respondent, or both.
pub struct GetQuery {
    pub form_id: Option<u64>,
    pub respondent_id: Option<u64>,
}

/// Whether a registration of `respondent_id` into `form_id` would be
/// accepted against this store: both exist, the respondent holds no
/// submission in the form yet, and the next position fits the capacity.
pub open spec fn submission_accepted(s: Store, form_id: u64, respondent_id: u64) -> bool {
    &&& spec_find_form(s.forms_view(), form_id) is Some
    &&& spec_find_resp(s.resps_view(), respondent_id) is Some
    &&& !(exists|k: int|
        0 <= k < s.subs_view().len() && (#[trigger] s.subs_view()[k]).form_id == form_id
            && s.subs_view()[k].respondent_id == respondent_id)
    &&& max_sub_order(s.subs_view(), form_id) + 1
        <= spec_find_form(s.forms_view(), form_id)->Some_0.limit
}

/// Registers `respondent_id` into `form_id`: checks existence, the
/// one-submission-per-respondent rule, and the capacity, then assigns
/// the next position and its arrival instant.  Check and insert happen
/// under one exclusive borrow: the atomic capacity protocol.
pub fn create_submission_checked(
    store: &mut Store,
    form_id: u64,
    respondent_id: u64,
    now: u64,
) -> (r: Result<u64, BaseError>)
    requires
        old(store).wf(),
    ensures
        final(store).wf(),
        r is Ok <==> (submission_accepted(*old(store), form_id, respondent_id) && old(
            store,
        ).spec_next_id() < u64::MAX),
        spec_find_form(old(store).forms_view(), form_id) is None ==> (r matches Err(e) && e.kind
            == ErrorKind::NotFound),
        spec_find_form(old(store).forms_view(), form_id) is Some && spec_find_resp(
            old(store).resps_view(),
            respondent_id,
        ) is None ==> (r matches Err(e) && e.kind == ErrorKind::NotFound),
        spec_find_form(old(store).forms_view(), form_id) is Some && spec_find_resp(
            old(store).resps_view(),
            respondent_id,
        ) is Some && (exists|k: int|
            0 <= k < old(store).subs_view().len() && (#[trigger] old(store).subs_view()[k]).form_id
                == form_id && old(store).subs_view()[k].respondent_id == respondent_id) ==> (
        r matches Err(e) && e.kind == ErrorKind::Conflict),
        spec_find_form(old(store).forms_view(), form_id) is Some && spec_find_resp(
            old(store).resps_view(),
            respondent_id,
        ) is Some && !(exists|k: int|
            0 <= k < old(store).subs_view().len() && (#[trigger] old(store).subs_view()[k]).form_id
                == form_id && old(store).subs_view()[k].respondent_id == respondent_id)
            && max_sub_order(old(store).subs_view(), form_id) + 1 > spec_find_form(
            old(store).forms_view(),
            form_id,
        )->Some_0.limit ==> (r matches Err(e) && e.kind == ErrorKind::Forbidden),
        r matches Ok(id) ==> {
            &&& id == old(store).spec_next_id()
            &&& final(store).spec_next_id() == old(store).spec_next_id() + 1
            &&& final(store).subs_view() == old(store).subs_view().push(
                SubmissionRecord {
                    id: id,
                    form_id: form_id,
                    respondent_id: respondent_id,
                    arrival_date: slot_of_form(
                        spec_find_form(old(store).forms_view(), form_id)->Some_0,
                        max_sub_order(old(store).subs_view(), form_id) + 1 as int,
                    ) as u64,
                    sub_order: (max_sub_order(old(store).subs_view(), form_id) + 1) as u32,
                    status: SubmissionStatus::Received,
                    created_at: now,
                },
            )
        },
        r is Err ==> *final(store) == *old(store),
        final(store).forms_view() == old(store).forms_view(),
        final(store).resps_view() == old(store).resps_view(),
        final(store).users_view() == old(store).users_view(),
        final(store).tokens_view() == old(store).tokens_view(),
{
    let ghost old_forms = store.forms_view();
    let ghost old_subs = store.subs_view();
    let form = match store.find_form_by_id(form_id) {
        Some(f) => f,
        None => {
            return Err(BaseError::not_found("Form not found".to_owned()));
        },
    };
    proof {
        lemma_find_first_characterize(old_forms, |f: FormModel| f.id == form_id);
    }
    if store.find_respondent_by_id(respondent_id).is_none() {
        return Err(BaseError::not_found("Respondent not found".to_owned()));
    }
    proof {
        lemma_find_first_characterize(
            store.resps_view(),
            |x: RespondentModel| x.id == respondent_id,
        );
    }
    if store.has_submission_for(form_id, respondent_id) {
        return Err(BaseError::conflict("This respondent already have submission".to_owned()));
    }
    let highest = store.highest_sub_order(form_id);
    proof {
        let k = choose|k: int| 0 <= k < old_forms.len() && old_forms[k] == form@;
        crate::store::lemma_max_sub_order_reached(old_subs, form_id);
        if max_sub_order(old_subs, form_id) != 0 {
            let s = choose|s: int|
                0 <= s < old_subs.len() && (#[trigger] old_subs[s]).form_id == form_id
                    && old_subs[s].sub_order == max_sub_order(old_subs, form_id);
            assert(old_subs[s].sub_order <= old_forms[k].limit);
        }
    }
    let sub_order = highest + 1;
    if sub_order > form.limit as u32 {
        return Err(BaseError::forbidden());
    }
    let arrival_date = calculate_arrival_date(&form, sub_order as u16);
    proof {
        let k = choose|k: int| 0 <= k < old_forms.len() && old_forms[k] == form@;
        assert forall|j: int|
            0 <= j < old_forms.len() && (#[trigger] old_forms[j]).id == form_id
            implies sub_order <= old_forms[j].limit by {
            if j != k {
                assert(old_forms[j].id != old_forms[k].id);
            }
        }
        assert forall|s: int|
            0 <= s < old_subs.len() && (#[trigger] old_subs[s]).form_id == form_id
            implies old_subs[s].sub_order != sub_order && old_subs[s].respondent_id
            != respondent_id by {
            crate::store::lemma_max_sub_order_ge(old_subs, form_id, s);
        }
        assert(form_id < store.spec_next_id());
        assert(respondent_id < store.spec_next_id());
    }
    store.insert_submission(
        form_id,
        respondent_id,
        arrival_date,
        sub_order,
        SubmissionStatus::Received,
        now,
    )
}

/// The field message of a status request whose spelling is unknown.
fn unknown_status_fields() -> (r: Vec<FieldError>)
    ensures
        r@.len() == 1,
{
    let mut fields: Vec<FieldError> = Vec::new();
    fields.push(
        FieldError { field: "status".to_owned(), message: "Status is not valid".to_owned() },
    );
    fields
}

/// Sets a submission's status from its storage spelling: an unknown
/// spelling is a validation failure, a missing submission is NotFound,
/// the current status is a no-op success, and any known status may be
/// set; no direction is restricted.
pub fn set_submission_status_checked(store: &mut Store, id: u64, status: &str) -> (r: Result<
    (),
    BaseError,
>)
    requires
        old(store).wf(),
    ensures
        final(store).wf(),
        submission_status_of_chars(status@) is None ==> (r matches Err(e) && e.kind
            == ErrorKind::ValidationFailure && e.message@ == ""@ && (e.fields matches Some(fs)
            && fs@.len() >= 1) && *final(store) == *old(store)),
        submission_status_of_chars(status@) is Some && spec_joined_sub_by_id(
            old(store).subs_view(),
            old(store).forms_view(),
            old(store).resps_view(),
            id,
        ) is None ==> (r matches Err(e) && e.kind == ErrorKind::NotFound && *final(store) == *old(
            store,
        )),
        r is Ok <==> (submission_status_of_chars(status@) is Some && spec_joined_sub_by_id(
            old(store).subs_view(),
            old(store).forms_view(),
            old(store).resps_view(),
            id,
        ) is Some),
        r is Ok ==> {
            &&& final(store).subs_view().len() == old(store).subs_view().len()
            &&& forall|j: int|
                0 <= j < final(store).subs_view().len() ==> #[trigger] final(store).subs_view()[j]
                    == if old(store).subs_view()[j].id == id {
                    SubmissionRecord {
                        status: submission_status_of_chars(status@)->Some_0,
                        ..old(store).subs_view()[j]
                    }
                } else {
                    old(store).subs_view()[j]
                }
        },
        final(store).forms_view() == old(store).forms_view(),
        final(store).resps_view() == old(store).resps_view(),
        final(store).users_view() == old(store).users_view(),
        final(store).tokens_view() == old(store).tokens_view(),
        final(store).spec_next_id() == old(store).spec_next_id(),
{
    let ghost old_subs = store.subs_view();
    let sub_status = match SubmissionStatus::from_str(status) {
        Some(s) => s,
        None => {
            return Err(BaseError::validation(unknown_status_fields()));
        },
    };
    let submission = match store.find_submission_by_id(id) {
        Some(s) => s,
        None => {
            return Err(BaseError::not_found("Submission not found".to_owned()));
        },
    };
    if submission.status == sub_status {
        proof {
            lemma_find_first_characterize(old_subs, |s: SubmissionRecord| s.id == id);
            assert forall|j: int|
                0 <= j < store.subs_view().len() implies #[trigger] store.subs_view()[j] == if
            old_subs[j].id == id {
                SubmissionRecord { status: sub_status, ..old_subs[j] }
            } else {
                old_subs[j]
            } by {
                if old_subs[j].id == id {
                    let rec = spec_find_sub(old_subs, id)->Some_0;
                    let k = choose|k: int| 0 <= k < old_subs.len() && old_subs[k] == rec;
                    assert(old_subs[j] == rec);
                }
            }
        }
        return Ok(());
    }
    let next = match submission.status.transition(sub_status) {
        Ok(s) => s,
        Err(e) => {
            return Err(e);
        },
    };
    store.update_submission(id, next)
}

/// Submission use cases behind the authentication gate.
pub struct SubmissionService {
    user_service: UserService,
}

impl SubmissionService {
    /// The bearer string this service authenticates with.
    pub closed spec fn spec_token(&self) -> Seq<char> {
        self.user_service.spec_token()
    }

    pub fn new(config: &Config, token: String) -> (r: SubmissionService)
        ensures
            r.spec_token() == token@,
    {
        SubmissionService { user_service: UserService::new(config, token) }
    }

    /// Authenticates, then registers the respondent into the form under
    /// the atomic capacity protocol.
    pub fn create(&self, store: &mut Store, form_id: u64, respondent_id: u64, now: u64) -> (r:
        Result<u64, BaseError>)
        requires
            old(store).wf(),
        ensures
            final(store).wf(),
            r is Err ==> *final(store) == *old(store),
            r matches Ok(id) ==> {
                &&& exists|c: Claims|
                    #[trigger] claims_authenticate(*old(store), c, self.spec_token())
                &&& submission_accepted(*old(store), form_id, respondent_id)
                &&& id == old(store).spec_next_id()
                &&& final(store).subs_view() == old(store).subs_view().push(
                    SubmissionRecord {
                        id: id,
                        form_id: form_id,
                        respondent_id: respondent_id,
                        arrival_date: slot_of_form(
                            spec_find_form(old(store).forms_view(), form_id)->Some_0,
                            max_sub_order(old(store).subs_view(), form_id) + 1 as int,
                        ) as u64,
                        sub_order: (max_sub_order(old(store).subs_view(), form_id) + 1) as u32,
                        status: SubmissionStatus::Received,
                        created_at: now,
                    },
                )
            },
    {
        let caller = match self.user_service.get_current_user(store) {
            Ok(u) => u,
            Err(e) => {
                return Err(e);
            },
        };
        proof {
            let c = choose|c: Claims|
                claims_authenticate(*store, c, self.user_service.spec_token()) && Some(caller@)
                    == crate::store::spec_find_user(store.users_view(), c.sub);
            assert(claims_authenticate(*old(store), c, self.spec_token()));
        }
        create_submission_checked(store, form_id, respondent_id, now)
    }

    /// Authenticates, then removes the submission; no lifecycle
    /// restricts it, and a missing id is a silent success.
    pub fn delete(&self, store: &mut Store, id: u64) -> (r: Result<(), BaseError>)
        requires
            old(store).wf(),
        ensures
            final(store).wf(),
            r is Err ==> *final(store) == *old(store),
            r is Ok ==> {
                &&& exists|c: Claims|
                    #[trigger] claims_authenticate(*old(store), c, self.spec_token())
                &&& spec_find_sub(final(store).subs_view(), id) is None
                &&& forall|j: u64|
                    j != id ==> #[trigger] spec_find_sub(final(store).subs_view(), j)
                        == spec_find_sub(old(store).subs_view(), j)
            },
    {
        let caller = match self.user_service.get_current_user(store) {
            Ok(u) => u,
            Err(e) => {
                return Err(e);
            },
        };
        proof {
            let c = choose|c: Claims|
                claims_authenticate(*store, c, self.user_service.spec_token()) && Some(caller@)
                    == crate::store::spec_find_user(store.users_view(), c.sub);
            assert(claims_authenticate(*old(store), c, self.spec_token()));
        }
        store.delete_submission(id)
    }

    /// Parses the requested status, authenticates, then sets it.
    pub fn status(&self, store: &mut Store, id: u64, status: &str) -> (r: Result<(), BaseError>)
        requires
            old(store).wf(),
        ensures
            final(store).wf(),
            r is Err ==> *final(store) == *old(store),
            r is Ok ==> {
                &&& exists|c: Claims|
                    #[trigger] claims_authenticate(*old(store), c, self.spec_token())
                &&& submission_status_of_chars(status@) is Some
                &&& final(store).subs_view().len() == old(store).subs_view().len()
                &&& forall|j: int|
                    0 <= j < final(store).subs_view().len() ==> #[trigger] final(store).subs_view()[j] == if old(store).subs_view()[j].id == id {
                        SubmissionRecord {
                            status: submission_status_of_chars(status@)->Some_0,
                            ..old(store).subs_view()[j]
                        }
                    } else {
                        old(store).subs_view()[j]
                    }
            },
    {
        if SubmissionStatus::from_str(status).is_none() {
            return Err(BaseError::validation(unknown_status_fields()));
        }
        let caller = match self.user_service.get_current_user(store) {
            Ok(u) => u,
            Err(e) => {
                return Err(e);
            },
        };
        proof {
            let c = choose|c: Claims|
                claims_authenticate(*store, c, self.user_service.spec_token()) && Some(caller@)
                    == crate::store::spec_find_user(store.users_view(), c.sub);
            assert(claims_authenticate(*old(store), c, self.spec_token()));
        }
        set_submission_status_checked(store, id, status)
    }

    /// Authenticates, then lists the joined submissions answering the
    /// query.
    pub fn get(&self, store: &Store, query: GetQuery) -> (r: Result<Vec<Submission>, BaseError>)
        ensures
            r matches Ok(v) ==> {
                &&& exists|c: Claims| #[trigger] claims_authenticate(*store, c, self.spec_token())
                &&& v@.map_values(|x: Submission| x@) == joined_submissions(
                    store.subs_view(),
                    store.forms_view(),
                    store.resps_view(),
                    query.form_id,
                    query.respondent_id,
                )
            },
    {
        let caller = match self.user_service.get_current_user(store) {
            Ok(u) => u,
            Err(e) => {
                return Err(e);
            },
        };
        proof {
            let c = choose|c: Claims|
                claims_authenticate(*store, c, self.user_service.spec_token()) && Some(caller@)
                    == crate::store::spec_find_user(store.users_view(), c.sub);
            assert(claims_authenticate(*store, c, self.spec_token()));
        }
        Ok(store.find_submissions(query.form_id, query.respondent_id))
    }
}

} // verus!
