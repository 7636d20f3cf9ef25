//! Respondent use cases: create, read, update, delete, and the
//! validating merge stub, each behind the authentication gate.

use vstd::prelude::*;

use crate::config::Config;
use crate::errors::{BaseError, ErrorKind, FieldError};
use crate::jwt::Claims;
use crate::respondent::{opt_chars, Respondent, RespondentModel};
use crate::store::{resp_query_pred, spec_find_resp, Store};
use crate::types::{
    name_pattern, passport_pattern, phone_pattern, regex_compiles, regex_match, region_allowed,
    Name, Passport, Phone, Region,
};
use crate::user_service::{claims_authenticate, UserService};
use vstd::utf8::encode_utf8;

verus! {

/// Fields of a new respondent.
pub struct CreateData {
    pub first_name: String,
    pub last_name: String,
    pub passport_id: String,
    pub idp_code: Option<String>,
    pub phone: String,
    pub region: String,
    pub children: u8,
}

/// A partial update: only the provided fields change.
pub struct UpdateData {
    pub first_name: Option<String>,
    pub last_name: Option<String>,
    pub passport_id: Option<String>,
    pub idp_code: Option<String>,
    pub phone: Option<String>,
    pub region: Option<String>,
    pub children: Option<u8>,
}

/// The other respondent of a merge request.
pub struct MergeData {
    pub from_id: u64,
}

/// A respondent find query: an optional name prefix and an optional
/// exact passport id.
pub struct GetQuery {
    pub name: Option<String>,
    pub passport_id: Option<String>,
}

/// Whether the three regular patterns compile; the shape checks decide
/// nothing else about the engine.
pub open spec fn person_patterns_compile() -> bool {
    &&& regex_compiles(name_pattern())
    &&& regex_compiles(passport_pattern())
    &&& regex_compiles(phone_pattern())
}

/// What a respondent's fields must satisfy: both names, passport and
/// phone match their patterns, the region is on the list, and a
/// displaced-person code has at most 32 bytes.
pub open spec fn respondent_fields_valid(
    first_name: Seq<char>,
    last_name: Seq<char>,
    passport_id: Seq<char>,
    phone: Seq<char>,
    region: Seq<char>,
    idp_code: Option<Seq<char>>,
) -> bool {
    &&& regex_match(name_pattern(), first_name)
    &&& regex_match(name_pattern(), last_name)
    &&& regex_match(passport_pattern(), passport_id)
    &&& regex_match(phone_pattern(), phone)
    &&& region_allowed(region)
    &&& match idp_code {
        Some(c) => encode_utf8(c).len() <= 32,
        None => true,
    }
}

/// Checks a displaced-person code: at most 32 bytes when present.
fn idp_code_ok(idp_code: &Option<String>) -> (r: bool)
    ensures
        r == match opt_chars(*idp_code) {
            Some(c) => encode_utf8(c).len() <= 32,
            None => true,
        },
{
    match idp_code {
        Some(code) => code.as_str().as_bytes().len() <= 32,
        None => true,
    }
}

/// Checks the fields of a new respondent, collecting the field messages.
fn validate_create_data(data: &CreateData) -> (r: Result<(), BaseError>)
    ensures
        person_patterns_compile() ==> (r is Ok <==> respondent_fields_valid(
            data.first_name@,
            data.last_name@,
            data.passport_id@,
            data.phone@,
            data.region@,
            opt_chars(data.idp_code),
        )),
        !person_patterns_compile() ==> r is Err,
        r matches Err(e) ==> (e.kind == ErrorKind::ValidationFailure && e.message@ == ""@
            && (e.fields matches Some(fs) && fs@.len() >= 1)),
{
    let mut fields: Vec<FieldError> = Vec::new();
    if Name::parse(data.first_name.as_str()).is_err() {
        fields.push(
            FieldError {
                field: "first_name".to_owned(),
                message: "Прізвище містить заборонені символ".to_owned(),
            },
        );
    }
    if Name::parse(data.last_name.as_str()).is_err() {
        fields.push(
            FieldError {
                field: "last_name".to_owned(),
                message: "Ім'я містить заборонені символи".to_owned(),
            },
        );
    }
    if Passport::parse(data.passport_id.as_str()).is_err() {
        fields.push(
            FieldError {
                field: "passport_id".to_owned(),
                message: "Паспортні дані неправильні".to_owned(),
            },
        );
    }
    if Phone::parse(data.phone.as_str()).is_err() {
        fields.push(
            FieldError {
                field: "phone".to_owned(),
                message: "Номер телефону неправильний".to_owned(),
            },
        );
    }
    if Region::parse(data.region.as_str()).is_err() {
        fields.push(
            FieldError {
                field: "region".to_owned(),
                message: "Область є обов'язковою".to_owned(),
            },
        );
    }
    if !idp_code_ok(&data.idp_code) {
        fields.push(
            FieldError {
                field: "idp_code".to_owned(),
                message: "Код ВПО не повинен перевищувати 32-ох символів".to_owned(),
            },
        );
    }
    if fields.len() == 0 {
        Ok(())
    } else {
        Err(BaseError::validation(fields))
    }
}

/// The respondent after a partial update: provided fields replace the
/// old ones; id and creation instant never change this way.
pub open spec fn apply_respondent_update(r: RespondentModel, d: UpdateData) -> RespondentModel {
    RespondentModel {
        id: r.id,
        first_name: match d.first_name {
            Some(v) => v@,
            None => r.first_name,
        },
        last_name: match d.last_name {
            Some(v) => v@,
            None => r.last_name,
        },
        passport_id: match d.passport_id {
            Some(v) => v@,
            None => r.passport_id,
        },
        phone: match d.phone {
            Some(v) => v@,
            None => r.phone,
        },
        region: match d.region {
            Some(v) => v@,
            None => r.region,
        },
        idp_code: match d.idp_code {
            Some(v) => Some(v@),
            None => r.idp_code,
        },
        children: match d.children {
            Some(v) => v,
            None => r.children,
        },
        created_at: r.created_at,
    }
}

/// Whether each provided field of a partial update passes its own check;
/// fields left out are not re-checked, as they passed at creation.
pub open spec fn update_fields_valid(d: UpdateData) -> bool {
    &&& match d.first_name {
        Some(v) => regex_match(name_pattern(), v@),
        None => true,
    }
    &&& match d.last_name {
        Some(v) => regex_match(name_pattern(), v@),
        None => true,
    }
    &&& match d.passport_id {
        Some(v) => regex_match(passport_pattern(), v@),
        None => true,
    }
    &&& match d.phone {
        Some(v) => regex_match(phone_pattern(), v@),
        None => true,
    }
    &&& match d.region {
        Some(v) => region_allowed(v@),
        None => true,
    }
    &&& match d.idp_code {
        Some(v) => encode_utf8(v@).len() <= 32,
        None => true,
    }
}

/// Checks the provided fields of a partial update.
fn validate_update_data(data: &UpdateData) -> (r: Result<(), BaseError>)
    ensures
        person_patterns_compile() ==> (r is Ok <==> update_fields_valid(*data)),
        r matches Err(e) ==> (e.kind == ErrorKind::ValidationFailure && e.message@ == ""@
            && (e.fields matches Some(fs) && fs@.len() >= 1)),
{
    let mut fields: Vec<FieldError> = Vec::new();
    let first_ok = match &data.first_name {
        Some(v) => Name::parse(v.as_str()).is_ok(),
        None => true,
    };
    if !first_ok {
        fields.push(
            FieldError {
                field: "first_name".to_owned(),
                message: "Прізвище містить заборонені символ".to_owned(),
            },
        );
    }
    let last_ok = match &data.last_name {
        Some(v) => Name::parse(v.as_str()).is_ok(),
        None => true,
    };
    if !last_ok {
        fields.push(
            FieldError {
                field: "last_name".to_owned(),
                message: "Ім'я містить заборонені символи".to_owned(),
            },
        );
    }
    let passport_ok = match &data.passport_id {
        Some(v) => Passport::parse(v.as_str()).is_ok(),
        None => true,
    };
    if !passport_ok {
        fields.push(
            FieldError {
                field: "passport_id".to_owned(),
                message: "Паспортні дані неправильні".to_owned(),
            },
        );
    }
    let phone_ok = match &data.phone {
        Some(v) => Phone::parse(v.as_str()).is_ok(),
        None => true,
    };
    if !phone_ok {
        fields.push(
            FieldError {
                field: "phone".to_owned(),
                message: "Номер телефону неправильний".to_owned(),
            },
        );
    }
    let region_ok = match &data.region {
        Some(v) => Region::parse(v.as_str()).is_ok(),
        None => true,
    };
    if !region_ok {
        fields.push(
            FieldError {
                field: "region".to_owned(),
                message: "Область є обов'язковою".to_owned(),
            },
        );
    }
    let idp_ok = idp_code_ok(&data.idp_code);
    if !idp_ok {
        fields.push(
            FieldError {
                field: "idp_code".to_owned(),
                message: "Код ВПО не повинен перевищувати 32-ох символів".to_owned(),
            },
        );
    }
    if first_ok && last_ok && passport_ok && phone_ok && region_ok && idp_ok {
        Ok(())
    } else {
        Err(BaseError::validation(fields))
    }
}

/// Creates a respondent; exactly when the fields are valid and the id
/// space is not exhausted.
pub fn create_respondent_checked(store: &mut Store, data: CreateData, now: u64) -> (r: Result<
    u64,
    BaseError,
>)
    requires
        old(store).wf(),
    ensures
        final(store).wf(),
        person_patterns_compile() ==> (r is Ok <==> (respondent_fields_valid(
            data.first_name@,
            data.last_name@,
            data.passport_id@,
            data.phone@,
            data.region@,
            opt_chars(data.idp_code),
        ) && old(store).spec_next_id() < u64::MAX)),
        r matches Ok(id) ==> {
            &&& id == old(store).spec_next_id()
            &&& final(store).spec_next_id() == old(store).spec_next_id() + 1
            &&& final(store).resps_view() == old(store).resps_view().push(
                RespondentModel {
                    id: id,
                    passport_id: data.passport_id@,
                    idp_code: opt_chars(data.idp_code),
                    first_name: data.first_name@,
                    last_name: data.last_name@,
                    phone: data.phone@,
                    region: data.region@,
                    children: data.children,
                    created_at: now,
                },
            )
        },
        r is Err ==> *final(store) == *old(store),
        person_patterns_compile() && !respondent_fields_valid(
            data.first_name@,
            data.last_name@,
            data.passport_id@,
            data.phone@,
            data.region@,
            opt_chars(data.idp_code),
        ) ==> (r matches Err(e) && e.kind == ErrorKind::ValidationFailure),
        r matches Err(e) ==> (e.kind == ErrorKind::ValidationFailure ==> (e.message@ == ""@
                && (e.fields matches Some(fs) && fs@.len() >= 1))),
        final(store).forms_view() == old(store).forms_view(),
        final(store).subs_view() == old(store).subs_view(),
        final(store).users_view() == old(store).users_view(),
        final(store).tokens_view() == old(store).tokens_view(),
{
    match validate_create_data(&data) {
        Ok(_) => (),
        Err(e) => {
            return Err(e);
        },
    }
    store.insert_respondent(
        data.first_name,
        data.last_name,
        data.passport_id,
        data.phone,
        data.region,
        data.children,
        data.idp_code,
        now,
    )
}

/// Applies a partial update to the respondent with `id`; a missing id is
/// a silent success, as a conditional write would be.
pub fn update_respondent_checked(store: &mut Store, id: u64, data: UpdateData) -> (r: Result<
    (),
    BaseError,
>)
    requires
        old(store).wf(),
    ensures
        final(store).wf(),
        person_patterns_compile() ==> (r is Ok <==> update_fields_valid(data)),
        r matches Err(e) ==> (e.kind == ErrorKind::ValidationFailure && *final(store) == *old(store)),
        r is Ok ==> {
            &&& final(store).resps_view().len() == old(store).resps_view().len()
            &&& forall|j: int|
                0 <= j < final(store).resps_view().len() ==> #[trigger] final(store).resps_view()[j] == if old(store).resps_view()[j].id == id {
                    apply_respondent_update(old(store).resps_view()[j], data)
                } else {
                    old(store).resps_view()[j]
                }
        },
        final(store).forms_view() == old(store).forms_view(),
        final(store).subs_view() == old(store).subs_view(),
        final(store).users_view() == old(store).users_view(),
        final(store).tokens_view() == old(store).tokens_view(),
        final(store).spec_next_id() == old(store).spec_next_id(),
{
    match validate_update_data(&data) {
        Ok(_) => (),
        Err(e) => {
            return Err(e);
        },
    }
    let found = match store.find_respondent_by_id(id) {
        Some(x) => x,
        None => {
            proof {
                crate::util::lemma_find_first_characterize(
                    store.resps_view(),
                    |x: RespondentModel| x.id == id,
                );
            }
            return Ok(());
        },
    };
    proof {
        crate::util::lemma_find_first_characterize(
            store.resps_view(),
            |x: RespondentModel| x.id == id,
        );
    }
    let merged = Respondent {
        id: found.id,
        first_name: match data.first_name {
            Some(v) => v,
            None => found.first_name,
        },
        last_name: match data.last_name {
            Some(v) => v,
            None => found.last_name,
        },
        passport_id: match data.passport_id {
            Some(v) => v,
            None => found.passport_id,
        },
        phone: match data.phone {
            Some(v) => v,
            None => found.phone,
        },
        region: match data.region {
            Some(v) => v,
            None => found.region,
        },
        idp_code: match data.idp_code {
            Some(v) => Some(v),
            None => found.idp_code,
        },
        children: match data.children {
            Some(v) => v,
            None => found.children,
        },
        created_at: found.created_at,
    };
    let r = store.update_respondent(id, merged);
    proof {
        assert forall|j: int|
            0 <= j < store.resps_view().len() implies #[trigger] store.resps_view()[j] == if old(store).resps_view()[j].id == id {
            apply_respondent_update(old(store).resps_view()[j], data)
        } else {
            old(store).resps_view()[j]
        } by {
            if old(store).resps_view()[j].id == id {
                assert(old(store).resps_view()[j] == found@);
                assert(merged@ =~= apply_respondent_update(found@, data));
            }
        }
    }
    r
}

/// Removes the respondent with `id`; no lifecycle restricts it, and a
/// missing id is a silent success.
pub fn delete_respondent_checked(store: &mut Store, id: u64) -> (r: Result<(), BaseError>)
    requires
        old(store).wf(),
    ensures
        final(store).wf(),
        r is Ok,
        spec_find_resp(final(store).resps_view(), id) is None,
        forall|j: u64|
            j != id ==> #[trigger] spec_find_resp(final(store).resps_view(), j) == spec_find_resp(
                old(store).resps_view(),
                j,
            ),
        final(store).forms_view() == old(store).forms_view(),
        final(store).subs_view() == old(store).subs_view(),
        final(store).users_view() == old(store).users_view(),
        final(store).tokens_view() == old(store).tokens_view(),
        final(store).spec_next_id() == old(store).spec_next_id(),
{
    store.delete_respondent(id)
}

/// Validates a merge request: both respondents must exist; no data moves,
/// the consolidation itself is not part of this core.
pub fn merge_respondents_checked(store: &Store, id: u64, data: &MergeData) -> (r: Result<
    (),
    BaseError,
>)
    ensures
        r is Ok <==> (data.from_id == id || (spec_find_resp(store.resps_view(), id) is Some
            && spec_find_resp(store.resps_view(), data.from_id) is Some)),
        r matches Err(e) ==> e.kind == ErrorKind::NotFound,
{
    if data.from_id == id {
        return Ok(());
    }
    if store.find_respondent_by_id(id).is_none() {
        return Err(BaseError::not_found("Respondent not found".to_owned()));
    }
    if store.find_respondent_by_id(data.from_id).is_none() {
        return Err(BaseError::not_found("Respondent not found".to_owned()));
    }
    Ok(())
}

/// Respondent use cases behind the authentication gate.
pub struct RespondentService {
    user_service: UserService,
}

impl RespondentService {
    /// The bearer string this service authenticates with.
    pub closed spec fn spec_token(&self) -> Seq<char> {
        self.user_service.spec_token()
    }

    pub fn new(config: &Config, token: String) -> (r: RespondentService)
        ensures
            r.spec_token() == token@,
    {
        RespondentService { user_service: UserService::new(config, token) }
    }

    /// Validates, authenticates, then creates the respondent.
    pub fn create(&self, store: &mut Store, data: CreateData, now: u64) -> (r: Result<
        u64,
        BaseError,
    >)
        requires
            old(store).wf(),
        ensures
            final(store).wf(),
            r matches Ok(id) ==> {
                &&& exists|c: Claims|
                    #[trigger] claims_authenticate(*old(store), c, self.spec_token())
                &&& id == old(store).spec_next_id()
                &&& final(store).resps_view() == old(store).resps_view().push(
                    RespondentModel {
                        id: id,
                        passport_id: data.passport_id@,
                        idp_code: opt_chars(data.idp_code),
                        first_name: data.first_name@,
                        last_name: data.last_name@,
                        phone: data.phone@,
                        region: data.region@,
                        children: data.children,
                        created_at: now,
                    },
                )
            },
            r is Err ==> *final(store) == *old(store),
            person_patterns_compile() && !respondent_fields_valid(
                data.first_name@,
                data.last_name@,
                data.passport_id@,
                data.phone@,
                data.region@,
                opt_chars(data.idp_code),
            ) ==> (r matches Err(e) && e.kind == ErrorKind::ValidationFailure),
            r matches Err(e) ==> (e.kind == ErrorKind::ValidationFailure ==> (e.message@ == ""@
                && (e.fields matches Some(fs) && fs@.len() >= 1))),
    {
        match validate_create_data(&data) {
            Ok(_) => (),
            Err(e) => {
                return Err(e);
            },
        }
        let caller = match self.user_service.get_current_user(store) {
            Ok(u) => u,
            Err(e) => {
                return Err(e);
            },
        };
        proof {
            let c = choose|c: Claims|
                claims_authenticate(*store, c, self.user_service.spec_token()) && Some(caller@)
                    == crate::store::spec_find_user(store.users_view(), c.sub);
            assert(claims_authenticate(*old(store), c, self.spec_token()));
        }
        create_respondent_checked(store, data, now)
    }

    /// Validates, authenticates, then applies a partial update.
    pub fn update(&self, store: &mut Store, id: u64, data: UpdateData) -> (r: Result<
        (),
        BaseError,
    >)
        requires
            old(store).wf(),
        ensures
            final(store).wf(),
            r is Err ==> *final(store) == *old(store),
            r is Ok ==> {
                &&& exists|c: Claims|
                    #[trigger] claims_authenticate(*old(store), c, self.spec_token())
                &&& final(store).resps_view().len() == old(store).resps_view().len()
                &&& forall|j: int|
                    0 <= j < final(store).resps_view().len() ==> #[trigger] final(store).resps_view()[j] == if old(store).resps_view()[j].id == id {
                        apply_respondent_update(old(store).resps_view()[j], data)
                    } else {
                        old(store).resps_view()[j]
                    }
            },
    {
        match validate_update_data(&data) {
            Ok(_) => (),
            Err(e) => {
                return Err(e);
            },
        }
        let caller = match self.user_service.get_current_user(store) {
            Ok(u) => u,
            Err(e) => {
                return Err(e);
            },
        };
        proof {
            let c = choose|c: Claims|
                claims_authenticate(*store, c, self.user_service.spec_token()) && Some(caller@)
                    == crate::store::spec_find_user(store.users_view(), c.sub);
            assert(claims_authenticate(*old(store), c, self.spec_token()));
        }
        update_respondent_checked(store, id, data)
    }

    /// Authenticates, then removes the respondent.
    pub fn delete(&self, store: &mut Store, id: u64) -> (r: Result<(), BaseError>)
        requires
            old(store).wf(),
        ensures
            final(store).wf(),
            r is Err ==> *final(store) == *old(store),
            r is Ok ==> {
                &&& exists|c: Claims|
                    #[trigger] claims_authenticate(*old(store), c, self.spec_token())
                &&& spec_find_resp(final(store).resps_view(), id) is None
                &&& forall|j: u64|
                    j != id ==> #[trigger] spec_find_resp(final(store).resps_view(), j)
                        == spec_find_resp(old(store).resps_view(), j)
            },
    {
        let caller = match self.user_service.get_current_user(store) {
            Ok(u) => u,
            Err(e) => {
                return Err(e);
            },
        };
        proof {
            let c = choose|c: Claims|
                claims_authenticate(*store, c, self.user_service.spec_token()) && Some(caller@)
                    == crate::store::spec_find_user(store.users_view(), c.sub);
            assert(claims_authenticate(*old(store), c, self.spec_token()));
        }
        delete_respondent_checked(store, id)
    }

    /// Authenticates, then lists the respondents answering the query.
    pub fn get(&self, store: &Store, query: GetQuery) -> (r: Result<Vec<Respondent>, BaseError>)
        ensures
            r matches Ok(v) ==> {
                &&& exists|c: Claims| #[trigger] claims_authenticate(*store, c, self.spec_token())
                &&& v@.map_values(|x: Respondent| x@) == store.resps_view().filter(
                    resp_query_pred(opt_chars(query.name), opt_chars(query.passport_id)),
                )
            },
    {
        let caller = match self.user_service.get_current_user(store) {
            Ok(u) => u,
            Err(e) => {
                return Err(e);
            },
        };
        proof {
            let c = choose|c: Claims|
                claims_authenticate(*store, c, self.user_service.spec_token()) && Some(caller@)
                    == crate::store::spec_find_user(store.users_view(), c.sub);
            assert(claims_authenticate(*store, c, self.spec_token()));
        }
        Ok(store.find_respondents(&query.name, &query.passport_id))
    }

    /// Authenticates, then fetches one respondent by id.
    pub fn get_by_id(&self, store: &Store, id: u64) -> (r: Result<Respondent, BaseError>)
        ensures
            r matches Ok(x) ==> {
                &&& exists|c: Claims| #[trigger] claims_authenticate(*store, c, self.spec_token())
                &&& spec_find_resp(store.resps_view(), id) == Some(x@)
            },
            r matches Err(e) ==> (e.kind == ErrorKind::NotFound || e.kind
                == ErrorKind::Unauthenticated),
    {
        let caller = match self.user_service.get_current_user(store) {
            Ok(u) => u,
            Err(e) => {
                return Err(e);
            },
        };
        proof {
            let c = choose|c: Claims|
                claims_authenticate(*store, c, self.user_service.spec_token()) && Some(caller@)
                    == crate::store::spec_find_user(store.users_view(), c.sub);
            assert(claims_authenticate(*store, c, self.spec_token()));
        }
        match store.find_respondent_by_id(id) {
            Some(x) => Ok(x),
            None => Err(BaseError::not_found("Respondent not found".to_owned())),
        }
    }

    /// Authenticates, then validates the merge request; a same-id merge
    /// is a silent success and no data is consolidated.
    pub fn merge(&self, store: &Store, id: u64, data: &MergeData) -> (r: Result<(), BaseError>)
        ensures
            r is Ok ==> {
                &&& exists|c: Claims| #[trigger] claims_authenticate(*store, c, self.spec_token())
                &&& (data.from_id == id || (spec_find_resp(store.resps_view(), id) is Some
                    && spec_find_resp(store.resps_view(), data.from_id) is Some))
            },
    {
        let caller = match self.user_service.get_current_user(store) {
            Ok(u) => u,
            Err(e) => {
                return Err(e);
            },
        };
        proof {
            let c = choose|c: Claims|
                claims_authenticate(*store, c, self.user_service.spec_token()) && Some(caller@)
                    == crate::store::spec_find_user(store.users_view(), c.sub);
            assert(claims_authenticate(*store, c, self.spec_token()));
        }
        merge_respondents_checked(store, id, data)
    }
}

} // verus!
