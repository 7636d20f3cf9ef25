//! Submissions: one respondent's registration into one form, carrying an
//! assigned arrival instant and a sequence position, plus the submission
//! status machine.

use vstd::prelude::*;

use crate::errors::BaseError;
use crate::form::{Form, FormModel};
use crate::respondent::{Respondent, RespondentModel};

verus! {

/// Lifecycle states of a submission: Received (initial), Confirmed,
/// Completed.  Unlike the form machine, no direction is restricted.
#[derive(Clone, Copy, PartialEq, Eq, Structural, Debug)]
pub enum SubmissionStatus {
    Received,
    Confirmed,
    Completed,
}

/// The storage spelling of each status.
pub open spec fn submission_status_chars(s: SubmissionStatus) -> Seq<char> {
    match s {
        SubmissionStatus::Received => "received"@,
        SubmissionStatus::Confirmed => "confirmed"@,
        SubmissionStatus::Completed => "completed"@,
    }
}

/// The status named by a storage string, if any.
pub open spec fn submission_status_of_chars(s: Seq<char>) -> Option<SubmissionStatus> {
    if s == "received"@ {
        Some(SubmissionStatus::Received)
    } else if s == "confirmed"@ {
        Some(SubmissionStatus::Confirmed)
    } else if s == "completed"@ {
        Some(SubmissionStatus::Completed)
    } else {
        None
    }
}

impl SubmissionStatus {
    /// Parses a storage string; an unrecognized value is an error, never a
    /// crash, so the store boundary can reject malformed rows.
    pub fn from_str(input: &str) -> (r: Option<SubmissionStatus>)
        ensures
            r == submission_status_of_chars(input@),
    {
        let owned = input.to_owned();
        if owned == "received".to_owned() {
            Some(SubmissionStatus::Received)
        } else if owned == "confirmed".to_owned() {
            Some(SubmissionStatus::Confirmed)
        } else if owned == "completed".to_owned() {
            Some(SubmissionStatus::Completed)
        } else {
            None
        }
    }

    /// The storage spelling of this status.
    pub fn as_str(&self) -> (r: &'static str)
        ensures
            r@ == submission_status_chars(*self),
    {
        match self {
            SubmissionStatus::Received => "received",
            SubmissionStatus::Confirmed => "confirmed",
            SubmissionStatus::Completed => "completed",
        }
    }

    /// The transition guard of the submission machine.  Requesting the
    /// current status is a no-op success, and no other direction is
    /// restricted, so every request succeeds; the guard exists so the
    /// looseness is a stated decision rather than an accident.
    pub fn transition(&self, to: SubmissionStatus) -> (r: Result<SubmissionStatus, BaseError>)
        ensures
            r == Ok::<SubmissionStatus, BaseError>(to),
    {
        Ok(to)
    }
}

/// Writing a status and reading it back yields the same status.
pub proof fn lemma_submission_status_round_trip(s: SubmissionStatus)
    ensures
        submission_status_of_chars(submission_status_chars(s)) == Some(s),
{
    broadcast use vstd::string::group_string_axioms;

    reveal_strlit("received");
    reveal_strlit("confirmed");
    reveal_strlit("completed");
    assert("received"@.len() == 8);
    assert("confirmed"@.len() == 9);
    assert("completed"@.len() == 9);
    assert("confirmed"@[2] == 'n');
    assert("completed"@[2] == 'm');
}

/// What the store keeps for one submission: references by id, the assigned
/// arrival instant and the 1-based sequence position.
#[derive(Clone, Copy, PartialEq, Eq, Structural, Debug)]
pub struct SubmissionRecord {
    pub id: u64,
    pub form_id: u64,
    pub respondent_id: u64,
    /// Assigned arrival instant, epoch seconds.
    pub arrival_date: u64,
    /// 1-based sequence position, unique within the form.
    pub sub_order: u32,
    pub status: SubmissionStatus,
    pub created_at: u64,
}

/// A submission as handed back to callers: the record joined with a
/// snapshot of its form and respondent, read at query time.
#[derive(Debug)]
pub struct Submission {
    pub id: u64,
    pub form: Form,
    pub respondent: Respondent,
    pub arrival_date: u64,
    pub sub_order: u32,
    pub status: SubmissionStatus,
    pub created_at: u64,
}

/// The mathematical value of a joined submission.
#[verifier::ext_equal]
pub struct SubmissionModel {
    pub id: u64,
    pub form: FormModel,
    pub respondent: RespondentModel,
    pub arrival_date: u64,
    pub sub_order: u32,
    pub status: SubmissionStatus,
    pub created_at: u64,
}

impl View for Submission {
    type V = SubmissionModel;

    open spec fn view(&self) -> SubmissionModel {
        SubmissionModel {
            id: self.id,
            form: self.form@,
            respondent: self.respondent@,
            arrival_date: self.arrival_date,
            sub_order: self.sub_order,
            status: self.status,
            created_at: self.created_at,
        }
    }
}

/// The joined value produced from a record and the snapshots it references.
pub open spec fn submission_model(
    rec: SubmissionRecord,
    form: FormModel,
    respondent: RespondentModel,
) -> SubmissionModel {
    SubmissionModel {
        id: rec.id,
        form: form,
        respondent: respondent,
        arrival_date: rec.arrival_date,
        sub_order: rec.sub_order,
        status: rec.status,
        created_at: rec.created_at,
    }
}

} // verus!
