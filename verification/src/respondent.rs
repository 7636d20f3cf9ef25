//! Respondents: the people registered into forms.

use vstd::prelude::*;

use crate::util::clone_opt_string;

verus! {

/// A registered person.  The passport identifier is unique per natural
/// person by convention; nothing in the store enforces it.
#[derive(Debug)]
pub struct Respondent {
    pub id: u64,
    pub passport_id: String,
    /// Optional displaced-person code.
    pub idp_code: Option<String>,
    pub first_name: String,
    pub last_name: String,
    pub phone: String,
    pub region: String,
    /// Number of dependents.
    pub children: u8,
    pub created_at: u64,
}

/// The mathematical value of a respondent record.
#[verifier::ext_equal]
pub struct RespondentModel {
    pub id: u64,
    pub passport_id: Seq<char>,
    pub idp_code: Option<Seq<char>>,
    pub first_name: Seq<char>,
    pub last_name: Seq<char>,
    pub phone: Seq<char>,
    pub region: Seq<char>,
    pub children: u8,
    pub created_at: u64,
}

/// The view of an optional string.
pub open spec fn opt_chars(s: Option<String>) -> Option<Seq<char>> {
    match s {
        Some(v) => Some(v@),
        None => None,
    }
}

impl View for Respondent {
    type V = RespondentModel;

    open spec fn view(&self) -> RespondentModel {
        RespondentModel {
            id: self.id,
            passport_id: self.passport_id@,
            idp_code: opt_chars(self.idp_code),
            first_name: self.first_name@,
            last_name: self.last_name@,
            phone: self.phone@,
            region: self.region@,
            children: self.children,
            created_at: self.created_at,
        }
    }
}

impl Respondent {
    /// A field-for-field copy.
    pub fn duplicate(&self) -> (r: Respondent)
        ensures
            r@ == self@,
    {
        let r = Respondent {
            id: self.id,
            passport_id: self.passport_id.clone(),
            idp_code: clone_opt_string(&self.idp_code),
            first_name: self.first_name.clone(),
            last_name: self.last_name.clone(),
            phone: self.phone.clone(),
            region: self.region.clone(),
            children: self.children,
            created_at: self.created_at,
        };
        assert(r@ =~= self@);
        r
    }
}

} // verus!
