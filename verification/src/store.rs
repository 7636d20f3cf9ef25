//! The in-memory store: one concrete implementation of the repository
//! operations the services depend on.
//!
//! Every operation takes the store by exclusive borrow, so a read that
//! decides and the write that follows form one atomic unit against this
//! store; in particular the capacity check and the submission insert can
//! never interleave.  The well-formedness invariant `Store::wf` carries
//! the facts the services rely on: unique ids, unique positions per form,
//! one submission per respondent per form, valid schedules, and at most
//! one token per (user, label) pair.

use vstd::prelude::*;

use crate::errors::BaseError;
use crate::form::{form_valid, Form, FormModel, FormStatus};
use crate::respondent::{opt_chars, Respondent, RespondentModel};
use crate::submission::{
    submission_model, Submission, SubmissionModel, SubmissionRecord, SubmissionStatus,
};
use crate::user::{TokenRecord, TokenRecordModel, User, UserModel, UserToken, UserTokenModel};
use crate::util::{
    find_first, lemma_find_first_at, lemma_find_first_characterize, lemma_find_first_none,
    lemma_take_all,
};
use vstd::utf8::encode_utf8;

verus! {

broadcast use vstd::seq_lib::group_seq_properties;

/// An ASCII letter lowered; other bytes unchanged.
pub open spec fn lower_byte(b: u8) -> u8 {
    if 65 <= b <= 90 {
        (b + 32) as u8
    } else {
        b
    }
}

/// A byte string lowered ASCII-wise.
pub open spec fn lower_bytes(s: Seq<u8>) -> Seq<u8> {
    s.map_values(|b: u8| lower_byte(b))
}

/// Case-insensitive equality of two texts, byte for byte over their UTF-8
/// encodings with ASCII letters folded; how the store compares emails.
pub open spec fn emails_equiv(a: Seq<char>, b: Seq<char>) -> bool {
    lower_bytes(encode_utf8(a)) == lower_bytes(encode_utf8(b))
}

/// The first form with the given id.
pub open spec fn spec_find_form(forms: Seq<FormModel>, id: u64) -> Option<FormModel> {
    find_first(forms, |f: FormModel| f.id == id)
}

/// The first respondent with the given id.
pub open spec fn spec_find_resp(resps: Seq<RespondentModel>, id: u64) -> Option<RespondentModel> {
    find_first(resps, |r: RespondentModel| r.id == id)
}

/// The first submission record with the given id.
pub open spec fn spec_find_sub(subs: Seq<SubmissionRecord>, id: u64) -> Option<SubmissionRecord> {
    find_first(subs, |s: SubmissionRecord| s.id == id)
}

/// The first user with the given id.
pub open spec fn spec_find_user(users: Seq<UserModel>, id: u64) -> Option<UserModel> {
    find_first(users, |u: UserModel| u.id == id)
}

/// The first user whose email matches case-insensitively.
pub open spec fn spec_find_user_by_email(users: Seq<UserModel>, email: Seq<char>) -> Option<
    UserModel,
> {
    find_first(users, |u: UserModel| emails_equiv(u.email, email))
}

/// The token slot a user holds under a device label, if any.
pub open spec fn spec_find_token_slot(
    tokens: Seq<TokenRecordModel>,
    user_id: u64,
    used_for: Seq<char>,
) -> Option<TokenRecordModel> {
    find_first(tokens, |t: TokenRecordModel| t.user_id == user_id && t.used_for == used_for)
}

/// Whether `token` is among `user_id`'s currently live credentials.
pub open spec fn token_live(tokens: Seq<TokenRecordModel>, user_id: u64, token: Seq<char>) -> bool {
    exists|i: int|
        0 <= i < tokens.len() && tokens[i].user_id == user_id && tokens[i].token == token
}

/// The largest sequence position assigned in `form_id`, 0 when none.
pub open spec fn max_sub_order(subs: Seq<SubmissionRecord>, form_id: u64) -> nat
    decreases subs.len(),
{
    if subs.len() == 0 {
        0
    } else {
        let rest = max_sub_order(subs.drop_last(), form_id);
        if subs.last().form_id == form_id && subs.last().sub_order > rest {
            subs.last().sub_order as nat
        } else {
            rest
        }
    }
}

/// How many submissions `form_id` holds.
pub open spec fn count_for_form(subs: Seq<SubmissionRecord>, form_id: u64) -> nat
    decreases subs.len(),
{
    if subs.len() == 0 {
        0
    } else {
        count_for_form(subs.drop_last(), form_id) + if subs.last().form_id == form_id {
            1nat
        } else {
            0nat
        }
    }
}

/// Forms: unique ids below the allocation counter, valid schedules.
pub open spec fn forms_wf(forms: Seq<FormModel>, next_id: u64) -> bool {
    &&& forall|i: int|
        0 <= i < forms.len() ==> (#[trigger] forms[i]).id < next_id && form_valid(forms[i])
    &&& forall|i: int, j: int|
        0 <= i < j < forms.len() ==> (#[trigger] forms[i]).id != (#[trigger] forms[j]).id
}

/// Respondents: unique ids below the allocation counter.
pub open spec fn resps_wf(resps: Seq<RespondentModel>, next_id: u64) -> bool {
    &&& forall|i: int| 0 <= i < resps.len() ==> (#[trigger] resps[i]).id < next_id
    &&& forall|i: int, j: int|
        0 <= i < j < resps.len() ==> (#[trigger] resps[i]).id != (#[trigger] resps[j]).id
}

/// Users: unique ids below the allocation counter, and no two accounts
/// whose emails coincide case-insensitively.
pub open spec fn users_wf(users: Seq<UserModel>, next_id: u64) -> bool {
    &&& forall|i: int| 0 <= i < users.len() ==> (#[trigger] users[i]).id < next_id
    &&& forall|i: int, j: int|
        0 <= i < j < users.len() ==> (#[trigger] users[i]).id != (#[trigger] users[j]).id
    &&& forall|i: int, j: int|
        0 <= i < j < users.len() ==> !emails_equiv(
            (#[trigger] users[i]).email,
            (#[trigger] users[j]).email,
        )
}

/// Submissions: unique ids, positions that are 1-based, unique per form
/// and within the owning form's capacity, and at most one submission per
/// respondent per form.
pub open spec fn subs_wf(
    subs: Seq<SubmissionRecord>,
    forms: Seq<FormModel>,
    next_id: u64,
) -> bool {
    &&& forall|i: int|
        0 <= i < subs.len() ==> {
            &&& (#[trigger] subs[i]).id < next_id
            &&& subs[i].form_id < next_id
            &&& subs[i].respondent_id < next_id
            &&& subs[i].sub_order >= 1
        }
    &&& forall|i: int, j: int|
        0 <= i < j < subs.len() ==> (#[trigger] subs[i]).id != (#[trigger] subs[j]).id
    &&& forall|i: int, j: int|
        0 <= i < j < subs.len() && (#[trigger] subs[i]).form_id == (
        #[trigger] subs[j]).form_id ==> {
            &&& subs[i].sub_order != subs[j].sub_order
            &&& subs[i].respondent_id != subs[j].respondent_id
        }
    &&& forall|i: int, j: int|
        0 <= i < subs.len() && 0 <= j < forms.len() && (#[trigger] subs[i]).form_id == (
        #[trigger] forms[j]).id ==> subs[i].sub_order <= forms[j].limit
}

/// Tokens: at most one slot per (user, label) pair.
pub open spec fn tokens_wf(tokens: Seq<TokenRecordModel>) -> bool {
    forall|i: int, j: int|
        0 <= i < j < tokens.len() ==> !((#[trigger] tokens[i]).user_id == (
        #[trigger] tokens[j]).user_id && tokens[i].used_for == tokens[j].used_for)
}

/// The in-memory store.
pub struct Store {
    forms: Vec<Form>,
    respondents: Vec<Respondent>,
    submissions: Vec<SubmissionRecord>,
    users: Vec<User>,
    tokens: Vec<TokenRecord>,
    next_id: u64,
}

impl Store {
    /// The forms, as mathematical values.
    pub closed spec fn forms_view(&self) -> Seq<FormModel> {
        self.forms@.map_values(|f: Form| f@)
    }

    /// The respondents, as mathematical values.
    pub closed spec fn resps_view(&self) -> Seq<RespondentModel> {
        self.respondents@.map_values(|r: Respondent| r@)
    }

    /// The submission records.
    pub closed spec fn subs_view(&self) -> Seq<SubmissionRecord> {
        self.submissions@
    }

    /// The accounts, as mathematical values.
    pub closed spec fn users_view(&self) -> Seq<UserModel> {
        self.users@.map_values(|u: User| u@)
    }

    /// The live token slots, as mathematical values.
    pub closed spec fn tokens_view(&self) -> Seq<TokenRecordModel> {
        self.tokens@.map_values(|t: TokenRecord| t@)
    }

    /// The id the next insertion will take.
    pub closed spec fn spec_next_id(&self) -> u64 {
        self.next_id
    }

    /// The store's invariant; every operation preserves it.
    pub open spec fn wf(&self) -> bool {
        &&& self.spec_next_id() >= 1
        &&& forms_wf(self.forms_view(), self.spec_next_id())
        &&& resps_wf(self.resps_view(), self.spec_next_id())
        &&& users_wf(self.users_view(), self.spec_next_id())
        &&& subs_wf(self.subs_view(), self.forms_view(), self.spec_next_id())
        &&& tokens_wf(self.tokens_view())
    }

    /// An empty store.
    pub fn new() -> (r: Store)
        ensures
            r.wf(),
            r.forms_view() =~= Seq::<FormModel>::empty(),
            r.resps_view() =~= Seq::<RespondentModel>::empty(),
            r.subs_view() =~= Seq::<SubmissionRecord>::empty(),
            r.users_view() =~= Seq::<UserModel>::empty(),
            r.tokens_view() =~= Seq::<TokenRecordModel>::empty(),
            r.spec_next_id() == 1,
    {
        Store {
            forms: Vec::new(),
            respondents: Vec::new(),
            submissions: Vec::new(),
            users: Vec::new(),
            tokens: Vec::new(),
            next_id: 1,
        }
    }

    /// Inserts a form and hands back its fresh id; fails only when the id
    /// space is exhausted, leaving the store unchanged.
    pub fn insert_form(
        &mut self,
        name: String,
        limit: u16,
        status: FormStatus,
        start_date: u64,
        end_date: u64,
        time_frame_duration: u16,
        exclude_form_ids: Vec<u64>,
        now: u64,
    ) -> (r: Result<u64, BaseError>)
        requires
            old(self).wf(),
            crate::form::form_schedule_valid(limit, time_frame_duration, start_date, end_date),
        ensures
            final(self).wf(),
            r is Ok <==> old(self).spec_next_id() < u64::MAX,
            r matches Ok(id) ==> {
                &&& id == old(self).spec_next_id()
                &&& final(self).spec_next_id() == old(self).spec_next_id() + 1
                &&& final(self).forms_view() == old(self).forms_view().push(
                    FormModel {
                        id: id,
                        name: name@,
                        limit: limit,
                        status: status,
                        time_frame_duration: time_frame_duration,
                        start_date: start_date,
                        end_date: end_date,
                        created_at: now,
                        exclude_form_ids: exclude_form_ids@,
                    },
                )
            },
            r is Err ==> *final(self) == *old(self),
            r matches Err(e) ==> e.kind == crate::errors::ErrorKind::StoreFailure,
            final(self).resps_view() == old(self).resps_view(),
            final(self).subs_view() == old(self).subs_view(),
            final(self).users_view() == old(self).users_view(),
            final(self).tokens_view() == old(self).tokens_view(),
    {
        if self.next_id == u64::MAX {
            return Err(BaseError::new("Id space exhausted".to_owned()));
        }
        let id = self.next_id;
        let form = Form {
            id,
            name,
            limit,
            status,
            time_frame_duration,
            start_date,
            end_date,
            created_at: now,
            exclude_form_ids,
        };
        let ghost old_view = self.forms_view();
        self.forms.push(form);
        self.next_id = id + 1;
        proof {
            assert(self.forms_view() =~= old_view.push(
                FormModel {
                    id: id,
                    name: form.name@,
                    limit: limit,
                    status: status,
                    time_frame_duration: time_frame_duration,
                    start_date: start_date,
                    end_date: end_date,
                    created_at: now,
                    exclude_form_ids: form.exclude_form_ids@,
                },
            ));
            assert(self.resps_view() =~= old(self).resps_view());
            assert(self.users_view() =~= old(self).users_view());
            assert(self.tokens_view() =~= old(self).tokens_view());
        }
        Ok(id)
    }

    /// All forms, as copies.
    pub fn find_forms(&self) -> (r: Vec<Form>)
        ensures
            r@.len() == self.forms_view().len(),
            forall|i: int| 0 <= i < r@.len() ==> (#[trigger] r@[i])@ == self.forms_view()[i],
    {
        let mut out: Vec<Form> = Vec::new();
        let mut i: usize = 0;
        while i < self.forms.len()
            invariant
                0 <= i <= self.forms.len(),
                out@.len() == i,
                forall|j: int| 0 <= j < i ==> (#[trigger] out@[j])@ == self.forms_view()[j],
            decreases self.forms.len() - i,
        {
            out.push(self.forms[i].duplicate());
            i += 1;
        }
        out
    }

    /// The form with the given id, if any, as a copy.
    pub fn find_form_by_id(&self, id: u64) -> (r: Option<Form>)
        ensures
            match r {
                Some(f) => spec_find_form(self.forms_view(), id) == Some(f@),
                None => spec_find_form(self.forms_view(), id) is None,
            },
    {
        let ghost fv = self.forms_view();
        let mut i: usize = 0;
        while i < self.forms.len()
            invariant
                0 <= i <= self.forms.len(),
                fv == self.forms_view(),
                forall|j: int| 0 <= j < i ==> (#[trigger] fv[j]).id != id,
            decreases self.forms.len() - i,
        {
            if self.forms[i].id == id {
                let found = self.forms[i].duplicate();
                proof {
                    lemma_find_first_at(fv, |f: FormModel| f.id == id, i as int);
                }
                return Some(found);
            }
            i += 1;
        }
        proof {
            lemma_find_first_none(fv, |f: FormModel| f.id == id);
        }
        None
    }

    /// Replaces the form with `id` by `f`; a missing id is a silent
    /// success with nothing changed, as a conditional write would be.
    pub fn update_form(&mut self, id: u64, f: Form) -> (r: Result<(), BaseError>)
        requires
            old(self).wf(),
            f@.id == id,
            form_valid(f@),
            forall|k: int|
                0 <= k < old(self).subs_view().len() && (#[trigger] old(self).subs_view()[k])
                    .form_id == id ==> old(self).subs_view()[k].sub_order <= f@.limit,
        ensures
            final(self).wf(),
            r is Ok,
            final(self).forms_view().len() == old(self).forms_view().len(),
            forall|j: int|
                0 <= j < final(self).forms_view().len() ==> #[trigger] final(self).forms_view()[j]
                    == if old(self).forms_view()[j].id == id {
                    f@
                } else {
                    old(self).forms_view()[j]
                },
            final(self).resps_view() == old(self).resps_view(),
            final(self).subs_view() == old(self).subs_view(),
            final(self).users_view() == old(self).users_view(),
            final(self).tokens_view() == old(self).tokens_view(),
            final(self).spec_next_id() == old(self).spec_next_id(),
    {
        let ghost old_forms = self.forms_view();
        let mut i: usize = 0;
        while i < self.forms.len()
            invariant
                0 <= i <= self.forms.len(),
                self == old(self),
                forall|j: int| 0 <= j < i ==> (#[trigger] old_forms[j]).id != id,
                old_forms == self.forms_view(),
            decreases self.forms.len() - i,
        {
            if self.forms[i].id == id {
                proof {
                    assert(old(self).wf());
                    assert(old_forms[i as int].id == id);
                }
                self.forms[i] = f;
                proof {
                    assert(self.forms_view() =~= old_forms.update(i as int, f@));
                    assert(self.resps_view() =~= old(self).resps_view());
                    assert(self.users_view() =~= old(self).users_view());
                    assert(self.tokens_view() =~= old(self).tokens_view());
                    assert forall|j: int|
                        0 <= j < self.forms_view().len() implies #[trigger] self.forms_view()[j]
                        == if old_forms[j].id == id {
                        f@
                    } else {
                        old_forms[j]
                    } by {
                        if j != i as int && old_forms[j].id == id {
                            assert(false);
                        }
                    }
                }
                return Ok(());
            }
            i += 1;
        }
        proof {
            assert(self.forms_view() =~= old_forms);
            assert(self.resps_view() =~= old(self).resps_view());
            assert(self.users_view() =~= old(self).users_view());
            assert(self.tokens_view() =~= old(self).tokens_view());
        }
        Ok(())
    }

    /// Removes the form with `id`; a missing id is a silent success.
    pub fn delete_form(&mut self, id: u64) -> (r: Result<(), BaseError>)
        requires
            old(self).wf(),
        ensures
            final(self).wf(),
            r is Ok,
            match spec_find_form(old(self).forms_view(), id) {
                Some(_) => exists|i: int|
                    0 <= i < old(self).forms_view().len() && (#[trigger] old(
                        self,
                    ).forms_view()[i]).id == id && final(self).forms_view() == old(
                        self,
                    ).forms_view().remove(i),
                None => final(self).forms_view() == old(self).forms_view(),
            },
            forall|j: u64|
                j != id ==> #[trigger] spec_find_form(final(self).forms_view(), j)
                    == spec_find_form(old(self).forms_view(), j),
            spec_find_form(final(self).forms_view(), id) is None,
            final(self).resps_view() == old(self).resps_view(),
            final(self).subs_view() == old(self).subs_view(),
            final(self).users_view() == old(self).users_view(),
            final(self).tokens_view() == old(self).tokens_view(),
            final(self).spec_next_id() == old(self).spec_next_id(),
    {
        let ghost old_forms = self.forms_view();
        let mut i: usize = 0;
        while i < self.forms.len()
            invariant
                0 <= i <= self.forms.len(),
                self == old(self),
                forall|j: int| 0 <= j < i ==> (#[trigger] old_forms[j]).id != id,
                old_forms == self.forms_view(),
            decreases self.forms.len() - i,
        {
            if self.forms[i].id == id {
                self.forms.remove(i);
                proof {
                    assert(self.forms_view() =~= old_forms.remove(i as int));
                    assert(self.resps_view() =~= old(self).resps_view());
                    assert(self.users_view() =~= old(self).users_view());
                    assert(self.tokens_view() =~= old(self).tokens_view());
                    lemma_find_first_at(old_forms, |f: FormModel| f.id == id, i as int);
                    lemma_form_delete_effect(old_forms, i as int, id);
                }
                return Ok(());
            }
            i += 1;
        }
        proof {
            assert(self.forms_view() =~= old_forms);
            assert(self.resps_view() =~= old(self).resps_view());
            assert(self.users_view() =~= old(self).users_view());
            assert(self.tokens_view() =~= old(self).tokens_view());
            lemma_find_first_none(old_forms, |f: FormModel| f.id == id);
        }
        Ok(())
    }
}

/// Removing the only form with `id` keeps every other lookup intact and
/// leaves no form with `id` behind.
proof fn lemma_form_delete_effect(forms: Seq<FormModel>, i: int, id: u64)
    requires
        0 <= i < forms.len(),
        forms[i].id == id,
        forall|a: int, b: int|
            0 <= a < b < forms.len() ==> (#[trigger] forms[a]).id != (#[trigger] forms[b]).id,
    ensures
        spec_find_form(forms.remove(i), id) is None,
        forall|j: u64|
            j != id ==> #[trigger] spec_find_form(forms.remove(i), j) == spec_find_form(forms, j),
{
    let removed = forms.remove(i);
    assert forall|k: int| 0 <= k < removed.len() implies (#[trigger] removed[k]).id != id by {
        if k < i {
            assert(removed[k] == forms[k]);
        } else {
            assert(removed[k] == forms[k + 1]);
        }
    }
    lemma_find_first_none(removed, |f: FormModel| f.id == id);
    assert forall|j: u64|
        j != id implies #[trigger] spec_find_form(removed, j) == spec_find_form(forms, j) by {
        lemma_find_unique_stable_under_remove(forms, i, |f: FormModel| f.id == j);
    }
}

/// Whether a respondent answers a find query: an optional byte-wise name
/// prefix against first or last name, and an optional exact passport id.
pub open spec fn resp_query_matches(
    r: RespondentModel,
    by_name: Option<Seq<char>>,
    by_passport: Option<Seq<char>>,
) -> bool {
    &&& match by_name {
        Some(n) => crate::util::is_byte_prefix(n, r.first_name) || crate::util::is_byte_prefix(
            n,
            r.last_name,
        ),
        None => true,
    }
    &&& match by_passport {
        Some(p) => r.passport_id == p,
        None => true,
    }
}

/// The respondent-query predicate as a value, shared by spec and proofs.
pub open spec fn resp_query_pred(
    by_name: Option<Seq<char>>,
    by_passport: Option<Seq<char>>,
) -> spec_fn(RespondentModel) -> bool {
    |r: RespondentModel| resp_query_matches(r, by_name, by_passport)
}

/// Whether a submission record answers a find query.
pub open spec fn sub_query_matches(
    s: SubmissionRecord,
    by_form: Option<u64>,
    by_respondent: Option<u64>,
) -> bool {
    &&& match by_form {
        Some(id) => s.form_id == id,
        None => true,
    }
    &&& match by_respondent {
        Some(id) => s.respondent_id == id,
        None => true,
    }
}

/// Maps a record to its joined value when it answers the query and both
/// snapshots exist; records without their form or respondent are dropped,
/// as an inner join would drop them.
pub open spec fn join_one(
    forms: Seq<FormModel>,
    resps: Seq<RespondentModel>,
    by_form: Option<u64>,
    by_respondent: Option<u64>,
) -> spec_fn(SubmissionRecord) -> Option<SubmissionModel> {
    |rec: SubmissionRecord|
        if sub_query_matches(rec, by_form, by_respondent) {
            match (spec_find_form(forms, rec.form_id), spec_find_resp(resps, rec.respondent_id)) {
                (Some(f), Some(r)) => Some(submission_model(rec, f, r)),
                _ => None,
            }
        } else {
            None
        }
}

/// The joined submissions answering a query, in insertion order.
pub open spec fn joined_submissions(
    subs: Seq<SubmissionRecord>,
    forms: Seq<FormModel>,
    resps: Seq<RespondentModel>,
    by_form: Option<u64>,
    by_respondent: Option<u64>,
) -> Seq<SubmissionModel> {
    subs.filter_map(join_one(forms, resps, by_form, by_respondent))
}

/// The joined submission with a given id, if the record and both its
/// snapshots exist.
pub open spec fn spec_joined_sub_by_id(
    subs: Seq<SubmissionRecord>,
    forms: Seq<FormModel>,
    resps: Seq<RespondentModel>,
    id: u64,
) -> Option<SubmissionModel> {
    match spec_find_sub(subs, id) {
        Some(rec) => match (
            spec_find_form(forms, rec.form_id),
            spec_find_resp(resps, rec.respondent_id),
        ) {
            (Some(f), Some(r)) => Some(submission_model(rec, f, r)),
            _ => None,
        },
        None => None,
    }
}

impl Store {
    /// Inserts a respondent and hands back its fresh id; fails only when
    /// the id space is exhausted, leaving the store unchanged.
    pub fn insert_respondent(
        &mut self,
        first_name: String,
        last_name: String,
        passport_id: String,
        phone: String,
        region: String,
        children: u8,
        idp_code: Option<String>,
        now: u64,
    ) -> (r: Result<u64, BaseError>)
        requires
            old(self).wf(),
        ensures
            final(self).wf(),
            r is Ok <==> old(self).spec_next_id() < u64::MAX,
            r matches Ok(id) ==> {
                &&& id == old(self).spec_next_id()
                &&& final(self).spec_next_id() == old(self).spec_next_id() + 1
                &&& final(self).resps_view() == old(self).resps_view().push(
                    RespondentModel {
                        id: id,
                        passport_id: passport_id@,
                        idp_code: opt_chars(idp_code),
                        first_name: first_name@,
                        last_name: last_name@,
                        phone: phone@,
                        region: region@,
                        children: children,
                        created_at: now,
                    },
                )
            },
            r is Err ==> *final(self) == *old(self),
            r matches Err(e) ==> e.kind == crate::errors::ErrorKind::StoreFailure,
            final(self).forms_view() == old(self).forms_view(),
            final(self).subs_view() == old(self).subs_view(),
            final(self).users_view() == old(self).users_view(),
            final(self).tokens_view() == old(self).tokens_view(),
    {
        if self.next_id == u64::MAX {
            return Err(BaseError::new("Id space exhausted".to_owned()));
        }
        let id = self.next_id;
        let ghost model = RespondentModel {
            id: id,
            passport_id: passport_id@,
            idp_code: opt_chars(idp_code),
            first_name: first_name@,
            last_name: last_name@,
            phone: phone@,
            region: region@,
            children: children,
            created_at: now,
        };
        let rec = Respondent {
            id,
            passport_id,
            idp_code,
            first_name,
            last_name,
            phone,
            region,
            children,
            created_at: now,
        };
        let ghost old_view = self.resps_view();
        self.respondents.push(rec);
        self.next_id = id + 1;
        proof {
            assert(self.resps_view() =~= old_view.push(model));
            assert(self.forms_view() =~= old(self).forms_view());
            assert(self.users_view() =~= old(self).users_view());
            assert(self.tokens_view() =~= old(self).tokens_view());
        }
        Ok(id)
    }

    /// The respondents answering a query, as copies, in insertion order.
    pub fn find_respondents(&self, by_name: &Option<String>, by_passport: &Option<String>) -> (r:
        Vec<Respondent>)
        ensures
            r@.map_values(|x: Respondent| x@) == self.resps_view().filter(
                resp_query_pred(opt_chars(*by_name), opt_chars(*by_passport)),
            ),
    {
        let ghost nq = opt_chars(*by_name);
        let ghost pq = opt_chars(*by_passport);
        let ghost pred = resp_query_pred(nq, pq);
        let mut out: Vec<Respondent> = Vec::new();
        let mut i: usize = 0;
        while i < self.respondents.len()
            invariant
                0 <= i <= self.respondents.len(),
                out@.map_values(|x: Respondent| x@) == self.resps_view().take(i as int).filter(
                    pred,
                ),
            decreases self.respondents.len() - i,
        {
            let rec = &self.respondents[i];
            let name_ok = match by_name {
                Some(n) => crate::util::str_prefix(n.as_str(), rec.first_name.as_str())
                    || crate::util::str_prefix(n.as_str(), rec.last_name.as_str()),
                None => true,
            };
            let pass_ok = match by_passport {
                Some(p) => crate::types::str_eq(p.as_str(), rec.passport_id.as_str()),
                None => true,
            };
            let ghost prev = out@.map_values(|x: Respondent| x@);
            if name_ok && pass_ok {
                out.push(rec.duplicate());
                proof {
                    assert(pred(self.resps_view()[i as int]));
                    assert(out@.map_values(|x: Respondent| x@) =~= prev.push(
                        self.resps_view()[i as int],
                    ));
                }
            }
            proof {
                assert(!(name_ok && pass_ok) ==> !pred(self.resps_view()[i as int]));
                crate::util::lemma_filter_take_succ(self.resps_view(), pred, i as int);
            }
            i += 1;
        }
        proof {
            lemma_take_all(self.resps_view());
        }
        out
    }

    /// The respondent with the given id, if any, as a copy.
    pub fn find_respondent_by_id(&self, id: u64) -> (r: Option<Respondent>)
        ensures
            match r {
                Some(x) => spec_find_resp(self.resps_view(), id) == Some(x@),
                None => spec_find_resp(self.resps_view(), id) is None,
            },
    {
        let ghost rv = self.resps_view();
        let mut i: usize = 0;
        while i < self.respondents.len()
            invariant
                0 <= i <= self.respondents.len(),
                forall|j: int| 0 <= j < i ==> (#[trigger] rv[j]).id != id,
            decreases self.respondents.len() - i,
        {
            if self.respondents[i].id == id {
                let found = self.respondents[i].duplicate();
                proof {
                    lemma_find_first_at(rv, |x: RespondentModel| x.id == id, i as int);
                }
                return Some(found);
            }
            i += 1;
        }
        proof {
            lemma_find_first_none(rv, |x: RespondentModel| x.id == id);
        }
        None
    }

    /// Replaces the respondent with `id` by `x`; a missing id is a silent
    /// success with nothing changed.
    pub fn update_respondent(&mut self, id: u64, x: Respondent) -> (r: Result<(), BaseError>)
        requires
            old(self).wf(),
            x@.id == id,
        ensures
            final(self).wf(),
            r is Ok,
            final(self).resps_view().len() == old(self).resps_view().len(),
            forall|j: int|
                0 <= j < final(self).resps_view().len() ==> #[trigger] final(self).resps_view()[j]
                    == if old(self).resps_view()[j].id == id {
                    x@
                } else {
                    old(self).resps_view()[j]
                },
            final(self).forms_view() == old(self).forms_view(),
            final(self).subs_view() == old(self).subs_view(),
            final(self).users_view() == old(self).users_view(),
            final(self).tokens_view() == old(self).tokens_view(),
            final(self).spec_next_id() == old(self).spec_next_id(),
    {
        let ghost old_resps = self.resps_view();
        let mut i: usize = 0;
        while i < self.respondents.len()
            invariant
                0 <= i <= self.respondents.len(),
                self == old(self),
                forall|j: int| 0 <= j < i ==> (#[trigger] old_resps[j]).id != id,
            decreases self.respondents.len() - i,
        {
            if self.respondents[i].id == id {
                proof {
                    assert(old(self).wf());
                    assert(old_resps[i as int].id == id);
                }
                self.respondents[i] = x;
                proof {
                    assert(self.resps_view() =~= old_resps.update(i as int, x@));
                    assert(self.forms_view() =~= old(self).forms_view());
                    assert(self.users_view() =~= old(self).users_view());
                    assert(self.tokens_view() =~= old(self).tokens_view());
                    assert forall|j: int|
                        0 <= j < self.resps_view().len() implies #[trigger] self.resps_view()[j]
                        == if old_resps[j].id == id {
                        x@
                    } else {
                        old_resps[j]
                    } by {
                        if j != i as int && old_resps[j].id == id {
                            assert(false);
                        }
                    }
                }
                return Ok(());
            }
            i += 1;
        }
        proof {
            assert(self.resps_view() =~= old_resps);
            assert(self.forms_view() =~= old(self).forms_view());
            assert(self.users_view() =~= old(self).users_view());
            assert(self.tokens_view() =~= old(self).tokens_view());
        }
        Ok(())
    }

    /// Removes the respondent with `id`; a missing id is a silent success.
    pub fn delete_respondent(&mut self, id: u64) -> (r: Result<(), BaseError>)
        requires
            old(self).wf(),
        ensures
            final(self).wf(),
            r is Ok,
            match spec_find_resp(old(self).resps_view(), id) {
                Some(_) => exists|i: int|
                    0 <= i < old(self).resps_view().len() && (#[trigger] old(
                        self,
                    ).resps_view()[i]).id == id && final(self).resps_view() == old(
                        self,
                    ).resps_view().remove(i),
                None => final(self).resps_view() == old(self).resps_view(),
            },
            forall|j: u64|
                j != id ==> #[trigger] spec_find_resp(final(self).resps_view(), j)
                    == spec_find_resp(old(self).resps_view(), j),
            spec_find_resp(final(self).resps_view(), id) is None,
            final(self).forms_view() == old(self).forms_view(),
            final(self).subs_view() == old(self).subs_view(),
            final(self).users_view() == old(self).users_view(),
            final(self).tokens_view() == old(self).tokens_view(),
            final(self).spec_next_id() == old(self).spec_next_id(),
    {
        let ghost old_resps = self.resps_view();
        let mut i: usize = 0;
        while i < self.respondents.len()
            invariant
                0 <= i <= self.respondents.len(),
                self == old(self),
                forall|j: int| 0 <= j < i ==> (#[trigger] old_resps[j]).id != id,
            decreases self.respondents.len() - i,
        {
            if self.respondents[i].id == id {
                self.respondents.remove(i);
                proof {
                    assert(self.resps_view() =~= old_resps.remove(i as int));
                    assert(self.forms_view() =~= old(self).forms_view());
                    assert(self.users_view() =~= old(self).users_view());
                    assert(self.tokens_view() =~= old(self).tokens_view());
                    lemma_find_first_at(old_resps, |x: RespondentModel| x.id == id, i as int);
                    lemma_resp_delete_effect(old_resps, i as int, id);
                }
                return Ok(());
            }
            i += 1;
        }
        proof {
            assert(self.resps_view() =~= old_resps);
            assert(self.forms_view() =~= old(self).forms_view());
            assert(self.users_view() =~= old(self).users_view());
            assert(self.tokens_view() =~= old(self).tokens_view());
            lemma_find_first_none(old_resps, |x: RespondentModel| x.id == id);
        }
        Ok(())
    }
}

/// Removing the only respondent with `id` keeps every other lookup intact.
proof fn lemma_resp_delete_effect(resps: Seq<RespondentModel>, i: int, id: u64)
    requires
        0 <= i < resps.len(),
        resps[i].id == id,
        forall|a: int, b: int|
            0 <= a < b < resps.len() ==> (#[trigger] resps[a]).id != (#[trigger] resps[b]).id,
    ensures
        spec_find_resp(resps.remove(i), id) is None,
        forall|j: u64|
            j != id ==> #[trigger] spec_find_resp(resps.remove(i), j) == spec_find_resp(resps, j),
{
    let removed = resps.remove(i);
    assert forall|k: int| 0 <= k < removed.len() implies (#[trigger] removed[k]).id != id by {
        if k < i {
            assert(removed[k] == resps[k]);
        } else {
            assert(removed[k] == resps[k + 1]);
        }
    }
    lemma_find_first_none(removed, |x: RespondentModel| x.id == id);
    assert forall|j: u64|
        j != id implies #[trigger] spec_find_resp(removed, j) == spec_find_resp(resps, j) by {
        lemma_find_unique_stable_under_remove(resps, i, |x: RespondentModel| x.id == j);
    }
}

/// Every assigned position in a form is bounded by the form's maximum.
pub proof fn lemma_max_sub_order_ge(subs: Seq<SubmissionRecord>, form_id: u64, k: int)
    requires
        0 <= k < subs.len(),
        subs[k].form_id == form_id,
    ensures
        subs[k].sub_order <= max_sub_order(subs, form_id),
    decreases subs.len(),
{
    if k == subs.len() - 1 {
        assert(subs.last() == subs[k]);
    } else {
        lemma_max_sub_order_ge(subs.drop_last(), form_id, k);
        assert(subs.drop_last()[k] == subs[k]);
    }
}

/// A form's maximum position is 0 or one actually assigned in it.
pub proof fn lemma_max_sub_order_reached(subs: Seq<SubmissionRecord>, form_id: u64)
    ensures
        max_sub_order(subs, form_id) == 0 || exists|k: int|
            0 <= k < subs.len() && (#[trigger] subs[k]).form_id == form_id && subs[k].sub_order
                == max_sub_order(subs, form_id),
    decreases subs.len(),
{
    if subs.len() > 0 {
        let m = max_sub_order(subs, form_id);
        let rest = max_sub_order(subs.drop_last(), form_id);
        if subs.last().form_id == form_id && subs.last().sub_order > rest {
            assert(subs[subs.len() - 1].form_id == form_id && subs[subs.len() - 1].sub_order == m);
        } else {
            lemma_max_sub_order_reached(subs.drop_last(), form_id);
            if rest != 0 {
                let k = choose|k: int|
                    0 <= k < subs.drop_last().len() && (#[trigger] subs.drop_last()[k]).form_id
                        == form_id && subs.drop_last()[k].sub_order == rest;
                assert(subs[k].form_id == form_id && subs[k].sub_order == m);
            }
        }
    }
}

impl Store {
    /// The largest sequence position assigned in `form_id` so far; the
    /// next submission takes the position one above it, so positions of
    /// deleted submissions are never reused.
    pub fn highest_sub_order(&self, form_id: u64) -> (r: u32)
        ensures
            r as nat == max_sub_order(self.subs_view(), form_id),
    {
        let ghost sv = self.subs_view();
        let mut cur: u32 = 0;
        let mut i: usize = 0;
        while i < self.submissions.len()
            invariant
                0 <= i <= self.submissions.len(),
                cur as nat == max_sub_order(sv.take(i as int), form_id),
            decreases self.submissions.len() - i,
        {
            let rec = self.submissions[i];
            proof {
                assert(sv.take(i + 1 as int).drop_last() =~= sv.take(i as int));
                assert(sv.take(i + 1 as int).last() == sv[i as int]);
            }
            if rec.form_id == form_id && rec.sub_order > cur {
                cur = rec.sub_order;
            }
            i += 1;
        }
        proof {
            lemma_take_all(sv);
        }
        cur
    }

    /// Inserts a submission record and hands back its fresh id.  The
    /// caller settles position uniqueness and capacity first; check and
    /// insert stay one atomic unit because both happen under the same
    /// exclusive borrow.
    pub fn insert_submission(
        &mut self,
        form_id: u64,
        respondent_id: u64,
        arrival_date: u64,
        sub_order: u32,
        status: SubmissionStatus,
        now: u64,
    ) -> (r: Result<u64, BaseError>)
        requires
            old(self).wf(),
            sub_order >= 1,
            form_id < old(self).spec_next_id(),
            respondent_id < old(self).spec_next_id(),
            forall|k: int|
                0 <= k < old(self).subs_view().len() && (#[trigger] old(self).subs_view()[k])
                    .form_id == form_id ==> old(self).subs_view()[k].sub_order != sub_order && old(
                    self,
                ).subs_view()[k].respondent_id != respondent_id,
            forall|j: int|
                0 <= j < old(self).forms_view().len() && (#[trigger] old(self).forms_view()[j]).id
                    == form_id ==> sub_order <= old(self).forms_view()[j].limit,
        ensures
            final(self).wf(),
            r is Ok <==> old(self).spec_next_id() < u64::MAX,
            r matches Ok(id) ==> {
                &&& id == old(self).spec_next_id()
                &&& final(self).spec_next_id() == old(self).spec_next_id() + 1
                &&& final(self).subs_view() == old(self).subs_view().push(
                    SubmissionRecord {
                        id: id,
                        form_id: form_id,
                        respondent_id: respondent_id,
                        arrival_date: arrival_date,
                        sub_order: sub_order,
                        status: status,
                        created_at: now,
                    },
                )
            },
            r is Err ==> *final(self) == *old(self),
            r matches Err(e) ==> e.kind == crate::errors::ErrorKind::StoreFailure,
            final(self).forms_view() == old(self).forms_view(),
            final(self).resps_view() == old(self).resps_view(),
            final(self).users_view() == old(self).users_view(),
            final(self).tokens_view() == old(self).tokens_view(),
    {
        if self.next_id == u64::MAX {
            return Err(BaseError::new("Id space exhausted".to_owned()));
        }
        let id = self.next_id;
        let rec = SubmissionRecord {
            id,
            form_id,
            respondent_id,
            arrival_date,
            sub_order,
            status,
            created_at: now,
        };
        self.submissions.push(rec);
        self.next_id = id + 1;
        proof {
            assert(self.forms_view() =~= old(self).forms_view());
            assert(self.resps_view() =~= old(self).resps_view());
            assert(self.users_view() =~= old(self).users_view());
            assert(self.tokens_view() =~= old(self).tokens_view());
        }
        Ok(id)
    }

    /// The submissions answering a query, each joined with copies of its
    /// form and respondent snapshots, in insertion order.
    pub fn find_submissions(&self, by_form: Option<u64>, by_respondent: Option<u64>) -> (r: Vec<
        Submission,
    >)
        ensures
            r@.map_values(|x: Submission| x@) == joined_submissions(
                self.subs_view(),
                self.forms_view(),
                self.resps_view(),
                by_form,
                by_respondent,
            ),
    {
        let ghost f = join_one(self.forms_view(), self.resps_view(), by_form, by_respondent);
        let ghost sv = self.subs_view();
        let mut out: Vec<Submission> = Vec::new();
        let mut i: usize = 0;
        while i < self.submissions.len()
            invariant
                0 <= i <= self.submissions.len(),
                out@.map_values(|x: Submission| x@) == sv.take(i as int).filter_map(f),
            decreases self.submissions.len() - i,
        {
            let rec = self.submissions[i];
            proof {
                sv.lemma_filter_map_take_succ(f, i as int);
                assert(sv[i as int] == rec);
            }
            let query_ok = (match by_form {
                Some(fid) => rec.form_id == fid,
                None => true,
            }) && (match by_respondent {
                Some(rid) => rec.respondent_id == rid,
                None => true,
            });
            let ghost prev = out@.map_values(|x: Submission| x@);
            if query_ok {
                match (self.find_form_by_id(rec.form_id), self.find_respondent_by_id(
                    rec.respondent_id,
                )) {
                    (Some(fm), Some(rm)) => {
                        let joined = Submission {
                            id: rec.id,
                            form: fm,
                            respondent: rm,
                            arrival_date: rec.arrival_date,
                            sub_order: rec.sub_order,
                            status: rec.status,
                            created_at: rec.created_at,
                        };
                        out.push(joined);
                        proof {
                            assert(f(rec) == Some(joined@));
                            assert(out@.map_values(|x: Submission| x@) =~= prev.push(joined@));
                            assert(out@.map_values(|x: Submission| x@) =~= sv.take(
                                i + 1 as int,
                            ).filter_map(f));
                        }
                    },
                    _ => {
                        proof {
                            assert(f(rec) is None);
                            assert(out@.map_values(|x: Submission| x@) =~= sv.take(
                                i + 1 as int,
                            ).filter_map(f));
                        }
                    },
                }
            } else {
                proof {
                    assert(f(rec) is None);
                    assert(out@.map_values(|x: Submission| x@) =~= sv.take(i + 1 as int).filter_map(
                        f,
                    ));
                }
            }
            i += 1;
        }
        proof {
            lemma_take_all(sv);
        }
        out
    }

    /// The submission with the given id, joined with copies of its form
    /// and respondent snapshots; `None` when the record or either
    /// snapshot is missing.
    pub fn find_submission_by_id(&self, id: u64) -> (r: Option<Submission>)
        ensures
            match r {
                Some(x) => spec_joined_sub_by_id(
                    self.subs_view(),
                    self.forms_view(),
                    self.resps_view(),
                    id,
                ) == Some(x@),
                None => spec_joined_sub_by_id(
                    self.subs_view(),
                    self.forms_view(),
                    self.resps_view(),
                    id,
                ) is None,
            },
    {
        let ghost sv = self.subs_view();
        let mut i: usize = 0;
        while i < self.submissions.len()
            invariant
                0 <= i <= self.submissions.len(),
                forall|j: int| 0 <= j < i ==> (#[trigger] sv[j]).id != id,
            decreases self.submissions.len() - i,
        {
            let rec = self.submissions[i];
            if rec.id == id {
                proof {
                    lemma_find_first_at(sv, |s: SubmissionRecord| s.id == id, i as int);
                }
                return match (self.find_form_by_id(rec.form_id), self.find_respondent_by_id(
                    rec.respondent_id,
                )) {
                    (Some(fm), Some(rm)) => Some(
                        Submission {
                            id: rec.id,
                            form: fm,
                            respondent: rm,
                            arrival_date: rec.arrival_date,
                            sub_order: rec.sub_order,
                            status: rec.status,
                            created_at: rec.created_at,
                        },
                    ),
                    _ => None,
                };
            }
            i += 1;
        }
        proof {
            lemma_find_first_none(sv, |s: SubmissionRecord| s.id == id);
        }
        None
    }

    /// Sets the status of the submission with `id`; a missing id is a
    /// silent success with nothing changed.
    pub fn update_submission(&mut self, id: u64, status: SubmissionStatus) -> (r: Result<
        (),
        BaseError,
    >)
        requires
            old(self).wf(),
        ensures
            final(self).wf(),
            r is Ok,
            final(self).subs_view().len() == old(self).subs_view().len(),
            forall|j: int|
                0 <= j < final(self).subs_view().len() ==> #[trigger] final(self).subs_view()[j]
                    == if old(self).subs_view()[j].id == id {
                    SubmissionRecord { status: status, ..old(self).subs_view()[j] }
                } else {
                    old(self).subs_view()[j]
                },
            final(self).forms_view() == old(self).forms_view(),
            final(self).resps_view() == old(self).resps_view(),
            final(self).users_view() == old(self).users_view(),
            final(self).tokens_view() == old(self).tokens_view(),
            final(self).spec_next_id() == old(self).spec_next_id(),
    {
        let ghost old_subs = self.subs_view();
        let mut i: usize = 0;
        while i < self.submissions.len()
            invariant
                0 <= i <= self.submissions.len(),
                self == old(self),
                forall|j: int| 0 <= j < i ==> (#[trigger] old_subs[j]).id != id,
            decreases self.submissions.len() - i,
        {
            if self.submissions[i].id == id {
                proof {
                    assert(old(self).wf());
                    assert(old_subs[i as int].id == id);
                }
                let mut rec = self.submissions[i];
                rec.status = status;
                self.submissions[i] = rec;
                proof {
                    assert(self.subs_view() =~= old_subs.update(i as int, rec));
                    assert(self.forms_view() =~= old(self).forms_view());
                    assert(self.resps_view() =~= old(self).resps_view());
                    assert(self.users_view() =~= old(self).users_view());
                    assert(self.tokens_view() =~= old(self).tokens_view());
                    assert forall|j: int|
                        0 <= j < self.subs_view().len() implies #[trigger] self.subs_view()[j]
                        == if old_subs[j].id == id {
                        SubmissionRecord { status: status, ..old_subs[j] }
                    } else {
                        old_subs[j]
                    } by {
                        if j != i as int && old_subs[j].id == id {
                            assert(false);
                        }
                    }
                }
                return Ok(());
            }
            i += 1;
        }
        proof {
            assert(self.subs_view() =~= old_subs);
            assert(self.forms_view() =~= old(self).forms_view());
            assert(self.resps_view() =~= old(self).resps_view());
            assert(self.users_view() =~= old(self).users_view());
            assert(self.tokens_view() =~= old(self).tokens_view());
        }
        Ok(())
    }

    /// Removes the submission with `id`; a missing id is a silent
    /// success.  The freed position is not reused: later inserts go above
    /// the highest position ever assigned.
    pub fn delete_submission(&mut self, id: u64) -> (r: Result<(), BaseError>)
        requires
            old(self).wf(),
        ensures
            final(self).wf(),
            r is Ok,
            match spec_find_sub(old(self).subs_view(), id) {
                Some(_) => exists|i: int|
                    0 <= i < old(self).subs_view().len() && (#[trigger] old(
                        self,
                    ).subs_view()[i]).id == id && final(self).subs_view() == old(
                        self,
                    ).subs_view().remove(i),
                None => final(self).subs_view() == old(self).subs_view(),
            },
            forall|j: u64|
                j != id ==> #[trigger] spec_find_sub(final(self).subs_view(), j) == spec_find_sub(
                    old(self).subs_view(),
                    j,
                ),
            spec_find_sub(final(self).subs_view(), id) is None,
            final(self).forms_view() == old(self).forms_view(),
            final(self).resps_view() == old(self).resps_view(),
            final(self).users_view() == old(self).users_view(),
            final(self).tokens_view() == old(self).tokens_view(),
            final(self).spec_next_id() == old(self).spec_next_id(),
    {
        let ghost old_subs = self.subs_view();
        let mut i: usize = 0;
        while i < self.submissions.len()
            invariant
                0 <= i <= self.submissions.len(),
                self == old(self),
                forall|j: int| 0 <= j < i ==> (#[trigger] old_subs[j]).id != id,
            decreases self.submissions.len() - i,
        {
            if self.submissions[i].id == id {
                self.submissions.remove(i);
                proof {
                    assert(self.subs_view() =~= old_subs.remove(i as int));
                    assert(self.forms_view() =~= old(self).forms_view());
                    assert(self.resps_view() =~= old(self).resps_view());
                    assert(self.users_view() =~= old(self).users_view());
                    assert(self.tokens_view() =~= old(self).tokens_view());
                    lemma_find_first_at(old_subs, |s: SubmissionRecord| s.id == id, i as int);
                    lemma_sub_delete_effect(old_subs, i as int, id);
                }
                return Ok(());
            }
            i += 1;
        }
        proof {
            assert(self.subs_view() =~= old_subs);
            assert(self.forms_view() =~= old(self).forms_view());
            assert(self.resps_view() =~= old(self).resps_view());
            assert(self.users_view() =~= old(self).users_view());
            assert(self.tokens_view() =~= old(self).tokens_view());
            lemma_find_first_none(old_subs, |s: SubmissionRecord| s.id == id);
        }
        Ok(())
    }
}

/// Removing the only submission with `id` keeps every other lookup intact.
proof fn lemma_sub_delete_effect(subs: Seq<SubmissionRecord>, i: int, id: u64)
    requires
        0 <= i < subs.len(),
        subs[i].id == id,
        forall|a: int, b: int|
            0 <= a < b < subs.len() ==> (#[trigger] subs[a]).id != (#[trigger] subs[b]).id,
    ensures
        spec_find_sub(subs.remove(i), id) is None,
        forall|j: u64|
            j != id ==> #[trigger] spec_find_sub(subs.remove(i), j) == spec_find_sub(subs, j),
{
    let removed = subs.remove(i);
    assert forall|k: int| 0 <= k < removed.len() implies (#[trigger] removed[k]).id != id by {
        if k < i {
            assert(removed[k] == subs[k]);
        } else {
            assert(removed[k] == subs[k + 1]);
        }
    }
    lemma_find_first_none(removed, |s: SubmissionRecord| s.id == id);
    assert forall|j: u64|
        j != id implies #[trigger] spec_find_sub(removed, j) == spec_find_sub(subs, j) by {
        lemma_find_unique_stable_under_remove(subs, i, |s: SubmissionRecord| s.id == j);
    }
}

/// The views of a list of token strings.
pub open spec fn chars_of_list(list: Seq<String>) -> Seq<Seq<char>> {
    list.map_values(|s: String| s@)
}

/// Whether a text is among a list of texts.
pub open spec fn chars_list_has(list: Seq<Seq<char>>, tok: Seq<char>) -> bool {
    exists|i: int| 0 <= i < list.len() && list[i] == tok
}

/// The keep-predicate of a token removal: a slot stays unless it belongs
/// to `user_id` and its token string is on the removal list.
pub open spec fn keep_token_pred(user_id: u64, toks: Seq<Seq<char>>) -> spec_fn(
    TokenRecordModel,
) -> bool {
    |t: TokenRecordModel| !(t.user_id == user_id && chars_list_has(toks, t.token))
}

/// Projects a slot of `user_id` to the pair handed back to callers.
pub open spec fn user_token_proj(user_id: u64) -> spec_fn(TokenRecordModel) -> Option<
    UserTokenModel,
> {
    |t: TokenRecordModel|
        if t.user_id == user_id {
            Some(UserTokenModel { token: t.token, used_for: t.used_for })
        } else {
            None
        }
}

/// The live tokens of a user, in insertion order.
pub open spec fn user_tokens_of(tokens: Seq<TokenRecordModel>, user_id: u64) -> Seq<
    UserTokenModel,
> {
    tokens.filter_map(user_token_proj(user_id))
}

impl Store {
    /// Compares two emails case-insensitively, byte for byte.
    pub fn email_eq(a: &str, b: &str) -> (r: bool)
        ensures
            r == emails_equiv(a@, b@),
    {
        let ab = a.as_bytes();
        let bb = b.as_bytes();
        if ab.len() != bb.len() {
            proof {
                assert(lower_bytes(ab@).len() == ab@.len());
                assert(lower_bytes(bb@).len() == bb@.len());
            }
            return false;
        }
        let mut i: usize = 0;
        while i < ab.len()
            invariant
                0 <= i <= ab@.len(),
                ab@.len() == bb@.len(),
                forall|j: int| 0 <= j < i ==> lower_byte(ab@[j]) == lower_byte(bb@[j]),
            decreases ab@.len() - i,
        {
            let x = *vstd::slice::slice_index_get(ab, i);
            let y = *vstd::slice::slice_index_get(bb, i);
            let xl: u8 = if x >= 65 && x <= 90 {
                x + 32
            } else {
                x
            };
            let yl: u8 = if y >= 65 && y <= 90 {
                y + 32
            } else {
                y
            };
            if xl != yl {
                proof {
                    assert(lower_bytes(ab@)[i as int] != lower_bytes(bb@)[i as int]);
                }
                return false;
            }
            i += 1;
        }
        proof {
            assert(lower_bytes(ab@) =~= lower_bytes(bb@));
        }
        true
    }

    /// Creates an account.  A duplicate email, compared case-
    /// insensitively, is a conflict; the id space running out is a store
    /// failure; both leave the store unchanged.
    pub fn insert_user(
        &mut self,
        email: String,
        password_hash: String,
        password_alg: String,
        now: u64,
    ) -> (r: Result<u64, BaseError>)
        requires
            old(self).wf(),
        ensures
            final(self).wf(),
            r is Ok <==> (spec_find_user_by_email(old(self).users_view(), email@) is None && old(
                self,
            ).spec_next_id() < u64::MAX),
            spec_find_user_by_email(old(self).users_view(), email@) is Some ==> (r matches Err(e)
                && e.kind == crate::errors::ErrorKind::Conflict),
            r matches Ok(id) ==> {
                &&& id == old(self).spec_next_id()
                &&& final(self).spec_next_id() == old(self).spec_next_id() + 1
                &&& final(self).users_view() == old(self).users_view().push(
                    UserModel {
                        id: id,
                        email: email@,
                        password_alg: password_alg@,
                        password_hash: password_hash@,
                        created_at: now,
                    },
                )
            },
            r is Err ==> *final(self) == *old(self),
            r matches Err(e) ==> (e.kind == crate::errors::ErrorKind::Conflict || e.kind
                == crate::errors::ErrorKind::StoreFailure),
            final(self).forms_view() == old(self).forms_view(),
            final(self).resps_view() == old(self).resps_view(),
            final(self).subs_view() == old(self).subs_view(),
            final(self).tokens_view() == old(self).tokens_view(),
    {
        let existing = self.find_user_by_email(email.as_str());
        if existing.is_some() {
            return Err(BaseError::conflict("The email already using".to_owned()));
        }
        if self.next_id == u64::MAX {
            return Err(BaseError::new("Id space exhausted".to_owned()));
        }
        let id = self.next_id;
        let ghost model = UserModel {
            id: id,
            email: email@,
            password_alg: password_alg@,
            password_hash: password_hash@,
            created_at: now,
        };
        let rec = User { id, email, password_alg, password_hash, created_at: now };
        let ghost old_view = self.users_view();
        self.users.push(rec);
        self.next_id = id + 1;
        proof {
            assert(self.users_view() =~= old_view.push(model));
            assert(self.forms_view() =~= old(self).forms_view());
            assert(self.resps_view() =~= old(self).resps_view());
            assert(self.tokens_view() =~= old(self).tokens_view());
            lemma_find_first_characterize(
                old_view,
                |u: UserModel| emails_equiv(u.email, email@),
            );
        }
        Ok(id)
    }

    /// The account whose email matches case-insensitively, if any, as a
    /// copy.
    pub fn find_user_by_email(&self, email: &str) -> (r: Option<User>)
        ensures
            match r {
                Some(u) => spec_find_user_by_email(self.users_view(), email@) == Some(u@),
                None => spec_find_user_by_email(self.users_view(), email@) is None,
            },
    {
        let ghost uv = self.users_view();
        let mut i: usize = 0;
        while i < self.users.len()
            invariant
                0 <= i <= self.users.len(),
                forall|j: int| 0 <= j < i ==> !emails_equiv((#[trigger] uv[j]).email, email@),
            decreases self.users.len() - i,
        {
            if Self::email_eq(self.users[i].email.as_str(), email) {
                let found = self.users[i].duplicate();
                proof {
                    lemma_find_first_at(uv, |u: UserModel| emails_equiv(u.email, email@), i as int);
                }
                return Some(found);
            }
            i += 1;
        }
        proof {
            lemma_find_first_none(uv, |u: UserModel| emails_equiv(u.email, email@));
        }
        None
    }

    /// The account with the given id, if any, as a copy.
    pub fn find_user_by_id(&self, id: u64) -> (r: Option<User>)
        ensures
            match r {
                Some(u) => spec_find_user(self.users_view(), id) == Some(u@),
                None => spec_find_user(self.users_view(), id) is None,
            },
    {
        let ghost uv = self.users_view();
        let mut i: usize = 0;
        while i < self.users.len()
            invariant
                0 <= i <= self.users.len(),
                forall|j: int| 0 <= j < i ==> (#[trigger] uv[j]).id != id,
            decreases self.users.len() - i,
        {
            if self.users[i].id == id {
                let found = self.users[i].duplicate();
                proof {
                    lemma_find_first_at(uv, |u: UserModel| u.id == id, i as int);
                }
                return Some(found);
            }
            i += 1;
        }
        proof {
            lemma_find_first_none(uv, |u: UserModel| u.id == id);
        }
        None
    }

    /// Stores `token` as the one live credential of (`user_id`,
    /// `used_for`): replaces the slot if the pair already holds one,
    /// inserts it otherwise.  Afterwards exactly the new token, and the
    /// user's tokens under other labels, are live for that user.
    pub fn upsert_user_token(&mut self, user_id: u64, token: String, used_for: String) -> (r:
        Result<bool, BaseError>)
        requires
            old(self).wf(),
        ensures
            final(self).wf(),
            r == Ok::<bool, BaseError>(true),
            token_live(final(self).tokens_view(), user_id, token@),
            forall|t: Seq<char>|
                #[trigger] token_live(final(self).tokens_view(), user_id, t) <==> (t == token@
                    || exists|j: int|
                    0 <= j < old(self).tokens_view().len() && (#[trigger] old(
                        self,
                    ).tokens_view()[j]).user_id == user_id && old(self).tokens_view()[j].token == t
                        && old(self).tokens_view()[j].used_for != used_for@),
            forall|u: u64, t: Seq<char>|
                u != user_id ==> (#[trigger] token_live(final(self).tokens_view(), u, t)
                    <==> token_live(old(self).tokens_view(), u, t)),
            final(self).forms_view() == old(self).forms_view(),
            final(self).resps_view() == old(self).resps_view(),
            final(self).subs_view() == old(self).subs_view(),
            final(self).users_view() == old(self).users_view(),
            final(self).spec_next_id() == old(self).spec_next_id(),
    {
        let ghost tv = self.tokens_view();
        let ghost newmodel = TokenRecordModel {
            user_id: user_id,
            token: token@,
            used_for: used_for@,
        };
        let mut i: usize = 0;
        while i < self.tokens.len()
            invariant
                0 <= i <= self.tokens.len(),
                self == old(self),
                forall|j: int|
                    0 <= j < i ==> !((#[trigger] tv[j]).user_id == user_id && tv[j].used_for
                        == used_for@),
            decreases self.tokens.len() - i,
        {
            let same_user = self.tokens[i].user_id == user_id;
            let same_label = crate::types::str_eq(
                self.tokens[i].used_for.as_str(),
                used_for.as_str(),
            );
            if same_user && same_label {
                let rec = TokenRecord { user_id, token, used_for };
                self.tokens[i] = rec;
                proof {
                    assert(self.tokens_view() =~= tv.update(i as int, newmodel));
                    assert(self.forms_view() =~= old(self).forms_view());
                    assert(self.resps_view() =~= old(self).resps_view());
                    assert(self.subs_view() =~= old(self).subs_view());
                    assert(self.users_view() =~= old(self).users_view());
                    lemma_upsert_replaced_liveness(tv, i as int, user_id, token@, used_for@);
                    let ntv = self.tokens_view();
                    assert forall|a: int, b: int|
                        0 <= a < b < ntv.len() implies !((#[trigger] ntv[a]).user_id == (
                    #[trigger] ntv[b]).user_id && ntv[a].used_for == ntv[b].used_for) by {
                        if a == i as int {
                            assert(!(tv[i as int].user_id == tv[b].user_id && tv[i as int].used_for
                                == tv[b].used_for));
                        } else if b == i as int {
                            assert(!(tv[a].user_id == tv[i as int].user_id && tv[a].used_for
                                == tv[i as int].used_for));
                        } else {
                            assert(tv[a] == ntv[a] && tv[b] == ntv[b]);
                        }
                    }
                }
                return Ok(true);
            }
            i += 1;
        }
        let rec = TokenRecord { user_id, token, used_for };
        self.tokens.push(rec);
        proof {
            assert(self.tokens_view() =~= tv.push(newmodel));
            assert(self.forms_view() =~= old(self).forms_view());
            assert(self.resps_view() =~= old(self).resps_view());
            assert(self.subs_view() =~= old(self).subs_view());
            assert(self.users_view() =~= old(self).users_view());
            lemma_upsert_pushed_liveness(tv, user_id, token@, used_for@);
        }
        Ok(true)
    }

    /// Removes exactly the listed token strings of `user_id` and nothing
    /// else; absent tokens are a silent success.
    pub fn remove_user_tokens(&mut self, user_id: u64, tokens: &Vec<String>) -> (r: Result<
        (),
        BaseError,
    >)
        requires
            old(self).wf(),
        ensures
            final(self).wf(),
            r is Ok,
            final(self).tokens_view() == old(self).tokens_view().filter(
                keep_token_pred(user_id, chars_of_list(tokens@)),
            ),
            forall|u: u64, t: Seq<char>|
                #[trigger] token_live(final(self).tokens_view(), u, t) <==> (token_live(
                    old(self).tokens_view(),
                    u,
                    t,
                ) && !(u == user_id && chars_list_has(chars_of_list(tokens@), t))),
            final(self).forms_view() == old(self).forms_view(),
            final(self).resps_view() == old(self).resps_view(),
            final(self).subs_view() == old(self).subs_view(),
            final(self).users_view() == old(self).users_view(),
            final(self).spec_next_id() == old(self).spec_next_id(),
    {
        let ghost tv = self.tokens_view();
        let ghost keep = keep_token_pred(user_id, chars_of_list(tokens@));
        let mut out: Vec<TokenRecord> = Vec::new();
        let mut i: usize = 0;
        while i < self.tokens.len()
            invariant
                0 <= i <= self.tokens.len(),
                self == old(self),
                out@.map_values(|t: TokenRecord| t@) == tv.take(i as int).filter(keep),
                forall|a: int|
                    0 <= a < out@.len() ==> exists|k: int|
                        0 <= k < i && (#[trigger] out@[a])@ == tv[k],
                forall|a: int, b: int|
                    0 <= a < b < out@.len() ==> !((#[trigger] out@[a])@.user_id == (
                    #[trigger] out@[b])@.user_id && out@[a]@.used_for == out@[b]@.used_for),
            decreases self.tokens.len() - i,
        {
            let rec = &self.tokens[i];
            let drop_it = rec.user_id == user_id && Self::token_list_contains(tokens, &rec.token);
            let ghost prev = out@.map_values(|t: TokenRecord| t@);
            if !drop_it {
                let copy = TokenRecord {
                    user_id: rec.user_id,
                    token: rec.token.clone(),
                    used_for: rec.used_for.clone(),
                };
                proof {
                    assert(copy@ == tv[i as int]);
                    assert(keep(tv[i as int]));
                }
                out.push(copy);
                proof {
                    assert(out@.map_values(|t: TokenRecord| t@) =~= prev.push(tv[i as int]));
                    assert forall|a: int| 0 <= a < out@.len() implies exists|k: int|
                        0 <= k < i + 1 && (#[trigger] out@[a])@ == tv[k] by {
                        if a < out@.len() - 1 {
                            let k = choose|k: int| 0 <= k < i && out@[a]@ == tv[k];
                            assert(0 <= k < i + 1 && out@[a]@ == tv[k]);
                        } else {
                            assert(out@[a]@ == tv[i as int]);
                        }
                    }
                    assert forall|a: int, b: int|
                        0 <= a < b < out@.len() implies !((#[trigger] out@[a])@.user_id == (
                    #[trigger] out@[b])@.user_id && out@[a]@.used_for == out@[b]@.used_for) by {
                        if b == out@.len() - 1 {
                            let k = choose|k: int| 0 <= k < i && out@[a]@ == tv[k];
                            assert(out@[b]@ == tv[i as int]);
                            assert(!(tv[k].user_id == tv[i as int].user_id && tv[k].used_for
                                == tv[i as int].used_for));
                        }
                    }
                }
            } else {
                proof {
                    assert(!keep(tv[i as int]));
                }
            }
            proof {
                crate::util::lemma_filter_take_succ(tv, keep, i as int);
            }
            i += 1;
        }
        proof {
            lemma_take_all(tv);
        }
        self.tokens = out;
        proof {
            let newtv = self.tokens_view();
            assert(newtv == tv.filter(keep));
            assert(self.forms_view() =~= old(self).forms_view());
            assert(self.resps_view() =~= old(self).resps_view());
            assert(self.subs_view() =~= old(self).subs_view());
            assert(self.users_view() =~= old(self).users_view());
            assert forall|u: u64, t: Seq<char>| #[trigger]
                token_live(newtv, u, t) implies (token_live(tv, u, t) && !(u == user_id
                && chars_list_has(chars_of_list(tokens@), t))) by {
                let a = choose|a: int|
                    0 <= a < newtv.len() && newtv[a].user_id == u && newtv[a].token == t;
                tv.lemma_filter_pred(keep, a);
                tv.lemma_filter_contains_rev(keep, newtv[a]);
                let k = choose|k: int| 0 <= k < tv.len() && tv[k] == newtv[a];
                assert(tv[k].user_id == u && tv[k].token == t);
            }
            assert forall|u: u64, t: Seq<char>|
                (token_live(tv, u, t) && !(u == user_id && chars_list_has(
                    chars_of_list(tokens@),
                    t,
                ))) implies #[trigger] token_live(newtv, u, t) by {
                let k = choose|k: int| 0 <= k < tv.len() && tv[k].user_id == u && tv[k].token == t;
                assert(keep(tv[k]));
                tv.lemma_filter_contains(keep, k);
                let a = choose|a: int| 0 <= a < newtv.len() && newtv[a] == tv[k];
                assert(newtv[a].user_id == u && newtv[a].token == t);
            }
        }
        Ok(())
    }

    /// Whether `token` is among `user_id`'s live credentials.
    pub fn token_is_live(&self, user_id: u64, token: &str) -> (r: bool)
        ensures
            r == token_live(self.tokens_view(), user_id, token@),
    {
        let ghost tv = self.tokens_view();
        let mut i: usize = 0;
        while i < self.tokens.len()
            invariant
                0 <= i <= self.tokens.len(),
                forall|j: int|
                    0 <= j < i ==> !((#[trigger] tv[j]).user_id == user_id && tv[j].token
                        == token@),
            decreases self.tokens.len() - i,
        {
            if self.tokens[i].user_id == user_id && crate::types::str_eq(
                self.tokens[i].token.as_str(),
                token,
            ) {
                proof {
                    assert(tv[i as int].user_id == user_id && tv[i as int].token == token@);
                }
                return true;
            }
            i += 1;
        }
        false
    }

    /// Whether `respondent_id` already holds a submission in `form_id`.
    pub fn has_submission_for(&self, form_id: u64, respondent_id: u64) -> (r: bool)
        ensures
            r == exists|k: int|
                0 <= k < self.subs_view().len() && (#[trigger] self.subs_view()[k]).form_id
                    == form_id && self.subs_view()[k].respondent_id == respondent_id,
    {
        let ghost sv = self.subs_view();
        let mut i: usize = 0;
        while i < self.submissions.len()
            invariant
                0 <= i <= self.submissions.len(),
                forall|j: int|
                    0 <= j < i ==> !((#[trigger] sv[j]).form_id == form_id && sv[j].respondent_id
                        == respondent_id),
            decreases self.submissions.len() - i,
        {
            if self.submissions[i].form_id == form_id && self.submissions[i].respondent_id
                == respondent_id {
                proof {
                    assert(sv[i as int].form_id == form_id && sv[i as int].respondent_id
                        == respondent_id);
                }
                return true;
            }
            i += 1;
        }
        false
    }

    /// Whether `tok`'s text is in `list`.
    fn token_list_contains(list: &Vec<String>, tok: &String) -> (r: bool)
        ensures
            r == chars_list_has(chars_of_list(list@), tok@),
    {
        let mut i: usize = 0;
        while i < list.len()
            invariant
                0 <= i <= list@.len(),
                forall|j: int| 0 <= j < i ==> chars_of_list(list@)[j] != tok@,
            decreases list@.len() - i,
        {
            if crate::types::str_eq(list[i].as_str(), tok.as_str()) {
                proof {
                    assert(chars_of_list(list@)[i as int] == tok@);
                }
                return true;
            }
            i += 1;
        }
        false
    }

    /// The live tokens of `user_id`, as copies, in insertion order.
    pub fn find_tokens(&self, user_id: u64) -> (r: Vec<UserToken>)
        ensures
            r@.map_values(|t: UserToken| t@) == user_tokens_of(self.tokens_view(), user_id),
    {
        let ghost f = user_token_proj(user_id);
        let ghost tv = self.tokens_view();
        let mut out: Vec<UserToken> = Vec::new();
        let mut i: usize = 0;
        while i < self.tokens.len()
            invariant
                0 <= i <= self.tokens.len(),
                out@.map_values(|t: UserToken| t@) == tv.take(i as int).filter_map(f),
            decreases self.tokens.len() - i,
        {
            let rec = &self.tokens[i];
            proof {
                tv.lemma_filter_map_take_succ(f, i as int);
            }
            let ghost prev = out@.map_values(|t: UserToken| t@);
            if rec.user_id == user_id {
                let copy = UserToken { token: rec.token.clone(), used_for: rec.used_for.clone() };
                out.push(copy);
                proof {
                    assert(f(tv[i as int]) == Some(copy@));
                    assert(out@.map_values(|t: UserToken| t@) =~= prev.push(copy@));
                    assert(out@.map_values(|t: UserToken| t@) =~= tv.take(i + 1 as int).filter_map(
                        f,
                    ));
                }
            } else {
                proof {
                    assert(f(tv[i as int]) is None);
                    assert(out@.map_values(|t: UserToken| t@) =~= tv.take(i + 1 as int).filter_map(
                        f,
                    ));
                }
            }
            i += 1;
        }
        proof {
            lemma_take_all(tv);
        }
        out
    }
}

/// After replacing the one slot of (`user_id`, `used_for`), the live
/// tokens of that user are the new token plus those under other labels;
/// other users are untouched.
proof fn lemma_upsert_replaced_liveness(
    tv: Seq<TokenRecordModel>,
    i: int,
    user_id: u64,
    token: Seq<char>,
    used_for: Seq<char>,
)
    requires
        0 <= i < tv.len(),
        tv[i].user_id == user_id,
        tv[i].used_for == used_for,
        tokens_wf(tv),
    ensures
        token_live(
            tv.update(i, TokenRecordModel { user_id, token, used_for }),
            user_id,
            token,
        ),
        forall|t: Seq<char>|
            #[trigger] token_live(
                tv.update(i, TokenRecordModel { user_id, token, used_for }),
                user_id,
                t,
            ) <==> (t == token || exists|j: int|
                0 <= j < tv.len() && (#[trigger] tv[j]).user_id == user_id && tv[j].token == t
                    && tv[j].used_for != used_for),
        forall|u: u64, t: Seq<char>|
            u != user_id ==> (#[trigger] token_live(
                tv.update(i, TokenRecordModel { user_id, token, used_for }),
                u,
                t,
            ) <==> token_live(tv, u, t)),
{
    let newtv = tv.update(i, TokenRecordModel { user_id, token, used_for });
    assert(newtv[i] == TokenRecordModel { user_id, token, used_for });
    assert forall|t: Seq<char>| #[trigger]
        token_live(newtv, user_id, t) implies (t == token || exists|j: int|
        0 <= j < tv.len() && (#[trigger] tv[j]).user_id == user_id && tv[j].token == t
            && tv[j].used_for != used_for) by {
        let k = choose|k: int|
            0 <= k < newtv.len() && newtv[k].user_id == user_id && newtv[k].token == t;
        if k != i {
            assert(tv[k].used_for != used_for);
        }
    }
    assert forall|t: Seq<char>|
        (t == token || exists|j: int|
            0 <= j < tv.len() && (#[trigger] tv[j]).user_id == user_id && tv[j].token == t
                && tv[j].used_for != used_for) implies #[trigger] token_live(
        newtv,
        user_id,
        t,
    ) by {
        if t == token {
            assert(newtv[i].user_id == user_id && newtv[i].token == t);
        } else {
            let j = choose|j: int|
                0 <= j < tv.len() && tv[j].user_id == user_id && tv[j].token == t && tv[j].used_for
                    != used_for;
            assert(j != i);
            assert(newtv[j] == tv[j]);
            assert(newtv[j].user_id == user_id && newtv[j].token == t);
        }
    }
    assert forall|u: u64, t: Seq<char>| u != user_id implies (#[trigger] token_live(newtv, u, t)
        <==> token_live(tv, u, t)) by {
        if token_live(newtv, u, t) {
            let k = choose|k: int|
                0 <= k < newtv.len() && newtv[k].user_id == u && newtv[k].token == t;
            assert(k != i);
            assert(tv[k] == newtv[k]);
        }
        if token_live(tv, u, t) {
            let k = choose|k: int| 0 <= k < tv.len() && tv[k].user_id == u && tv[k].token == t;
            assert(k != i);
            assert(newtv[k] == tv[k]);
        }
    }
}

/// After inserting a slot for a pair that held none, the live tokens of
/// that user are the new token plus those under other labels; other
/// users are untouched.
proof fn lemma_upsert_pushed_liveness(
    tv: Seq<TokenRecordModel>,
    user_id: u64,
    token: Seq<char>,
    used_for: Seq<char>,
)
    requires
        forall|j: int|
            0 <= j < tv.len() ==> !((#[trigger] tv[j]).user_id == user_id && tv[j].used_for
                == used_for),
    ensures
        token_live(tv.push(TokenRecordModel { user_id, token, used_for }), user_id, token),
        forall|t: Seq<char>|
            #[trigger] token_live(
                tv.push(TokenRecordModel { user_id, token, used_for }),
                user_id,
                t,
            ) <==> (t == token || exists|j: int|
                0 <= j < tv.len() && (#[trigger] tv[j]).user_id == user_id && tv[j].token == t
                    && tv[j].used_for != used_for),
        forall|u: u64, t: Seq<char>|
            u != user_id ==> (#[trigger] token_live(
                tv.push(TokenRecordModel { user_id, token, used_for }),
                u,
                t,
            ) <==> token_live(tv, u, t)),
{
    let newtv = tv.push(TokenRecordModel { user_id, token, used_for });
    assert(newtv[tv.len() as int] == TokenRecordModel { user_id, token, used_for });
    assert forall|t: Seq<char>| #[trigger]
        token_live(newtv, user_id, t) implies (t == token || exists|j: int|
        0 <= j < tv.len() && (#[trigger] tv[j]).user_id == user_id && tv[j].token == t
            && tv[j].used_for != used_for) by {
        let k = choose|k: int|
            0 <= k < newtv.len() && newtv[k].user_id == user_id && newtv[k].token == t;
        if k < tv.len() {
            assert(tv[k].used_for != used_for);
        }
    }
    assert forall|t: Seq<char>|
        (t == token || exists|j: int|
            0 <= j < tv.len() && (#[trigger] tv[j]).user_id == user_id && tv[j].token == t
                && tv[j].used_for != used_for) implies #[trigger] token_live(
        newtv,
        user_id,
        t,
    ) by {
        if t == token {
            assert(newtv[tv.len() as int].user_id == user_id && newtv[tv.len() as int].token == t);
        } else {
            let j = choose|j: int|
                0 <= j < tv.len() && tv[j].user_id == user_id && tv[j].token == t && tv[j].used_for
                    != used_for;
            assert(newtv[j] == tv[j]);
            assert(newtv[j].user_id == user_id && newtv[j].token == t);
        }
    }
    assert forall|u: u64, t: Seq<char>| u != user_id implies (#[trigger] token_live(newtv, u, t)
        <==> token_live(tv, u, t)) by {
        if token_live(newtv, u, t) {
            let k = choose|k: int|
                0 <= k < newtv.len() && newtv[k].user_id == u && newtv[k].token == t;
            assert(k < tv.len());
            assert(tv[k] == newtv[k]);
        }
        if token_live(tv, u, t) {
            let k = choose|k: int| 0 <= k < tv.len() && tv[k].user_id == u && tv[k].token == t;
            assert(newtv[k] == tv[k]);
        }
    }
}

/// Removing an element that the predicate rejects leaves the first
/// match of that predicate unchanged.
proof fn lemma_find_unique_stable_under_remove<T>(s: Seq<T>, i: int, p: spec_fn(T) -> bool)
    requires
        0 <= i < s.len(),
        !p(s[i]),
    ensures
        find_first(s.remove(i), p) == find_first(s, p),
    decreases s.len(),
{
    if i == 0 {
        assert(s.remove(0) =~= s.drop_first());
    } else {
        if p(s[0]) {
            assert(s.remove(i)[0] == s[0]);
        } else {
            assert(s.remove(i)[0] == s[0]);
            lemma_find_unique_stable_under_remove(s.drop_first(), i - 1, p);
            assert(s.remove(i).drop_first() =~= s.drop_first().remove(i - 1));
        }
    }
}

} // verus!
