//! Forms: capacity-bounded, time-windowed intake campaigns, and their
//! status machine.

use vstd::prelude::*;

use crate::errors::{BaseError, ErrorKind};
use crate::util::clone_id_vec;
use crate::MAX_EPOCH_SECONDS;

verus! {

/// Lifecycle states of a form: Draft (initial), Open, Close (terminal).
#[derive(Clone, Copy, PartialEq, Eq, Structural, Debug)]
pub enum FormStatus {
    Draft,
    Open,
    Close,
}

/// The storage spelling of each status.
pub open spec fn form_status_chars(s: FormStatus) -> Seq<char> {
    match s {
        FormStatus::Draft => "draft"@,
        FormStatus::Open => "open"@,
        FormStatus::Close => "close"@,
    }
}

/// The status named by a storage string, if any.
pub open spec fn form_status_of_chars(s: Seq<char>) -> Option<FormStatus> {
    if s == "open"@ {
        Some(FormStatus::Open)
    } else if s == "close"@ {
        Some(FormStatus::Close)
    } else if s == "draft"@ {
        Some(FormStatus::Draft)
    } else {
        None
    }
}

/// The forward-only transition relation: staying put is always allowed,
/// otherwise only Draft to Open and Open to Close.
pub open spec fn form_transition_allowed(from: FormStatus, to: FormStatus) -> bool {
    ||| from == to
    ||| (from == FormStatus::Draft && to == FormStatus::Open)
    ||| (from == FormStatus::Open && to == FormStatus::Close)
}

impl FormStatus {
    /// Parses a storage string; an unrecognized value is an error, never a
    /// crash, so the store boundary can reject malformed rows.
    pub fn from_str(input: &str) -> (r: Option<FormStatus>)
        ensures
            r == form_status_of_chars(input@),
    {
        let owned = input.to_owned();
        if owned == "open".to_owned() {
            Some(FormStatus::Open)
        } else if owned == "close".to_owned() {
            Some(FormStatus::Close)
        } else if owned == "draft".to_owned() {
            Some(FormStatus::Draft)
        } else {
            None
        }
    }

    /// The storage spelling of this status.
    pub fn as_str(&self) -> (r: &'static str)
        ensures
            r@ == form_status_chars(*self),
    {
        match self {
            FormStatus::Draft => "draft",
            FormStatus::Open => "open",
            FormStatus::Close => "close",
        }
    }

    /// Applies the transition guard: the new status when the request is
    /// legal, Forbidden otherwise.  Requesting the current status is a
    /// no-op success.
    pub fn transition(&self, to: FormStatus) -> (r: Result<FormStatus, BaseError>)
        ensures
            r is Ok <==> form_transition_allowed(*self, to),
            r matches Ok(s) ==> s == to,
            r matches Err(e) ==> e.kind == ErrorKind::Forbidden,
    {
        if *self == to {
            Ok(to)
        } else if *self == FormStatus::Draft && to == FormStatus::Open {
            Ok(to)
        } else if *self == FormStatus::Open && to == FormStatus::Close {
            Ok(to)
        } else {
            Err(BaseError::forbidden())
        }
    }
}

/// Writing a status and reading it back yields the same status.
pub proof fn lemma_form_status_round_trip(s: FormStatus)
    ensures
        form_status_of_chars(form_status_chars(s)) == Some(s),
{
    broadcast use vstd::string::group_string_axioms;

    reveal_strlit("draft");
    reveal_strlit("open");
    reveal_strlit("close");
    assert("draft"@.len() == 5);
    assert("open"@.len() == 4);
    assert("close"@.len() == 5);
    assert("draft"@[0] == 'd');
    assert("close"@[0] == 'c');
}

/// A capacity-bounded, time-windowed intake campaign.
#[derive(Debug)]
pub struct Form {
    pub id: u64,
    pub name: String,
    /// Capacity: the maximum number of submissions accepted.
    pub limit: u16,
    pub status: FormStatus,
    /// Length of one appointment slot, in seconds.
    pub time_frame_duration: u16,
    /// Scheduled window bounds, epoch seconds.
    pub start_date: u64,
    pub end_date: u64,
    pub created_at: u64,
    /// Informational list of excluded form ids; nothing is enforced on it.
    pub exclude_form_ids: Vec<u64>,
}

/// The mathematical value of a form record.
#[verifier::ext_equal]
pub struct FormModel {
    pub id: u64,
    pub name: Seq<char>,
    pub limit: u16,
    pub status: FormStatus,
    pub time_frame_duration: u16,
    pub start_date: u64,
    pub end_date: u64,
    pub created_at: u64,
    pub exclude_form_ids: Seq<u64>,
}

impl View for Form {
    type V = FormModel;

    open spec fn view(&self) -> FormModel {
        FormModel {
            id: self.id,
            name: self.name@,
            limit: self.limit,
            status: self.status,
            time_frame_duration: self.time_frame_duration,
            start_date: self.start_date,
            end_date: self.end_date,
            created_at: self.created_at,
            exclude_form_ids: self.exclude_form_ids@,
        }
    }
}

/// Well-formedness of a form's schedule fields: positive capacity, a slot
/// that fits inside the window, and bounds that keep the slot arithmetic
/// inside `u64`.  A window starting at the epoch itself is admitted only
/// when the usable span covers the capacity; otherwise the first position
/// would be nudged to the second before the epoch, an instant no unsigned
/// clock can carry.
pub open spec fn form_schedule_valid(
    limit: u16,
    time_frame_duration: u16,
    start_date: u64,
    end_date: u64,
) -> bool {
    &&& limit >= 1
    &&& time_frame_duration >= 1
    &&& start_date + time_frame_duration <= end_date
    &&& end_date <= MAX_EPOCH_SECONDS
    &&& (start_date == 0 ==> end_date - time_frame_duration >= limit)
}

/// Well-formedness of a whole form record.
pub open spec fn form_valid(f: FormModel) -> bool {
    form_schedule_valid(f.limit, f.time_frame_duration, f.start_date, f.end_date)
}

impl Form {
    /// A field-for-field copy.
    pub fn duplicate(&self) -> (r: Form)
        ensures
            r@ == self@,
    {
        let r = Form {
            id: self.id,
            name: self.name.clone(),
            limit: self.limit,
            status: self.status,
            time_frame_duration: self.time_frame_duration,
            start_date: self.start_date,
            end_date: self.end_date,
            created_at: self.created_at,
            exclude_form_ids: clone_id_vec(&self.exclude_form_ids),
        };
        assert(r@ =~= self@);
        r
    }
}

} // verus!
