//! Validated field types: personal names, passport ids, phone numbers and
//! regions, plus the field checks shared by the services.
//!
//! The shape checks are delegated to the regex engine; what a pattern
//! accepts is named by `regex_match`, a function of pattern and text alone.

use vstd::prelude::*;

verus! {

/// Whether `pattern`, compiled as a regular expression, matches `text`.
/// Named, not defined: the matcher's result depends on its two arguments
/// alone, and the engine is the authority on its value.
pub uninterp spec fn regex_match(pattern: Seq<char>, text: Seq<char>) -> bool;

/// Whether `pattern` compiles as a regular expression: a function of the
/// pattern alone.
pub uninterp spec fn regex_compiles(pattern: Seq<char>) -> bool;

/// Relies on `regex::Regex::new` and `regex::Regex::is_match`: compiling a
/// pattern and testing a text is a function of pattern and text alone.
/// `None` only when the pattern itself does not compile.
#[verifier::external_body]
fn regex_is_match(pattern: &str, text: &str) -> (r: Option<bool>)
    ensures
        r is Some <==> regex_compiles(pattern@),
        r matches Some(b) ==> b == regex_match(pattern@, text@),
{
    match regex::Regex::new(pattern) {
        Ok(re) => Some(re.is_match(text)),
        Err(_) => None,
    }
}

/// String equality by content.
pub fn str_eq(a: &str, b: &str) -> (r: bool)
    ensures
        r == (a@ == b@),
{
    a.to_owned() == b.to_owned()
}

/// The pattern accepted for a personal name: Cyrillic letters with inner
/// apostrophes or hyphens, 2 to 64 characters.
pub open spec fn name_pattern() -> Seq<char> {
    "^([\u{404}-\u{42f}\u{430}-\u{44f}\u{456}\u{457}\u{454}\u{451}\u{401}\u{491}\u{490}][\u{404}-\u{42f}\u{430}-\u{44f}\u{456}\u{457}\u{454}\u{451}\u{401}\u{491}\u{490}'\u{2bc}`-]{0,62}[\u{404}-\u{42f}\u{430}-\u{44f}\u{456}\u{457}\u{454}\u{451}\u{401}\u{491}\u{490}])$"@
}

/// A personal name that passed the shape check.
#[derive(Debug)]
pub struct Name(pub String);

impl Name {
    /// Accepts exactly the texts the name pattern matches.
    pub fn parse(value: &str) -> (r: Result<Name, String>)
        ensures
            regex_compiles(name_pattern()) ==> (r is Ok <==> regex_match(name_pattern(), value@)),
            r matches Ok(n) ==> regex_match(name_pattern(), value@) && n.0@ == value@,
            !regex_compiles(name_pattern()) ==> r is Err,
    {
        let matched = regex_is_match(
            "^([\u{404}-\u{42f}\u{430}-\u{44f}\u{456}\u{457}\u{454}\u{451}\u{401}\u{491}\u{490}][\u{404}-\u{42f}\u{430}-\u{44f}\u{456}\u{457}\u{454}\u{451}\u{401}\u{491}\u{490}'\u{2bc}`-]{0,62}[\u{404}-\u{42f}\u{430}-\u{44f}\u{456}\u{457}\u{454}\u{451}\u{401}\u{491}\u{490}])$",
            value,
        );
        match matched {
            Some(true) => Ok(Name(value.to_owned())),
            _ => Err("Name is not valid".to_owned()),
        }
    }
}

/// The pattern accepted for a passport id: two Cyrillic letters and six
/// digits, or nine digits.
pub open spec fn passport_pattern() -> Seq<char> {
    "^[\u{404}-\u{42f}\u{401}\u{490}]{2}\\d{6}$|^\\d{9}$"@
}

/// A passport identifier that passed the shape check.
#[derive(Debug)]
pub struct Passport(pub String);

impl Passport {
    /// Accepts exactly the texts the passport pattern matches.
    pub fn parse(value: &str) -> (r: Result<Passport, String>)
        ensures
            regex_compiles(passport_pattern()) ==> (r is Ok <==> regex_match(passport_pattern(),
                value@)),
            r matches Ok(p) ==> regex_match(passport_pattern(), value@) && p.0@ == value@,
            !regex_compiles(passport_pattern()) ==> r is Err,
    {
        let matched = regex_is_match("^[\u{404}-\u{42f}\u{401}\u{490}]{2}\\d{6}$|^\\d{9}$", value);
        match matched {
            Some(true) => Ok(Passport(value.to_owned())),
            _ => Err("Passport is not valid".to_owned()),
        }
    }
}

/// The pattern accepted for a phone number: ten digits, optionally behind
/// the +38 country prefix.
pub open spec fn phone_pattern() -> Seq<char> {
    "^(\\+38)?\\d{10}$"@
}

/// A phone number that passed the shape check.
#[derive(Debug)]
pub struct Phone(pub String);

impl Phone {
    /// Accepts exactly the texts the phone pattern matches.
    pub fn parse(value: &str) -> (r: Result<Phone, String>)
        ensures
            regex_compiles(phone_pattern()) ==> (r is Ok <==> regex_match(phone_pattern(),
                value@)),
            r matches Ok(p) ==> regex_match(phone_pattern(), value@) && p.0@ == value@,
            !regex_compiles(phone_pattern()) ==> r is Err,
    {
        let matched = regex_is_match("^(\\+38)?\\d{10}$", value);
        match matched {
            Some(true) => Ok(Phone(value.to_owned())),
            _ => Err("Phone is not valid".to_owned()),
        }
    }
}

/// The pattern accepted for an account email, the usual address shape:
/// a local part, an `@`, and dot-separated domain labels.
pub open spec fn email_pattern() -> Seq<char> {
    "^[a-zA-Z0-9.!#$%&'*+/=?^_`{|}~-]+@[a-zA-Z0-9](?:[a-zA-Z0-9-]{0,61}[a-zA-Z0-9])?(?:\\.[a-zA-Z0-9](?:[a-zA-Z0-9-]{0,61}[a-zA-Z0-9])?)*$"@
}

/// Whether `value` has the shape of an email address; `None` only when the
/// pattern itself does not compile.
pub fn email_shaped(value: &str) -> (r: Option<bool>)
    ensures
        r is Some <==> regex_compiles(email_pattern()),
        r matches Some(b) ==> b == regex_match(email_pattern(), value@),
{
    regex_is_match(
        "^[a-zA-Z0-9.!#$%&'*+/=?^_`{|}~-]+@[a-zA-Z0-9](?:[a-zA-Z0-9-]{0,61}[a-zA-Z0-9])?(?:\\.[a-zA-Z0-9](?:[a-zA-Z0-9-]{0,61}[a-zA-Z0-9])?)*$",
        value,
    )
}

/// Whether an instant is not in the past, instants being epoch seconds.
pub fn validate_date_not_past(date: u64, now: u64) -> (r: bool)
    ensures
        r == (date >= now),
{
    date >= now
}

/// The closed list of accepted region names.
pub open spec fn region_allowed(s: Seq<char>) -> bool {
    ||| s == "АР Крим"@
    ||| s == "Вінницька"@
    ||| s == "Волинська"@
    ||| s == "Дніпропетровська"@
    ||| s == "Донецька"@
    ||| s == "Житомирська"@
    ||| s == "Закарпатська"@
    ||| s == "Запорізька"@
    ||| s == "ІваноФранківська"@
    ||| s == "Київська"@
    ||| s == "Кіровоградська"@
    ||| s == "Луганська"@
    ||| s == "Львівська"@
    ||| s == "Миколаївська"@
    ||| s == "Одеська"@
    ||| s == "Полтавська"@
    ||| s == "Рівненська"@
    ||| s == "Сумська"@
    ||| s == "Тернопільська"@
    ||| s == "Харківська"@
    ||| s == "Херсонська"@
    ||| s == "Хмельницька"@
    ||| s == "Черкаська"@
    ||| s == "Чернівецька"@
    ||| s == "Чернігівська"@
}

/// A region name out of the closed list.
#[derive(Debug)]
pub struct Region(pub String);

impl Region {
    /// Accepts exactly the names on the list.
    pub fn parse(value: &str) -> (r: Result<Region, String>)
        ensures
            r is Ok <==> region_allowed(value@),
            r matches Ok(reg) ==> reg.0@ == value@,
            r matches Err(e) ==> e@ == "Region is not valid"@,
    {
        let accepted = str_eq(value, "АР Крим") || str_eq(value, "Вінницька") || str_eq(
            value,
            "Волинська",
        ) || str_eq(value, "Дніпропетровська") || str_eq(value, "Донецька") || str_eq(
            value,
            "Житомирська",
        ) || str_eq(value, "Закарпатська") || str_eq(value, "Запорізька") || str_eq(
            value,
            "ІваноФранківська",
        ) || str_eq(value, "Київська") || str_eq(value, "Кіровоградська") || str_eq(
            value,
            "Луганська",
        ) || str_eq(value, "Львівська") || str_eq(value, "Миколаївська") || str_eq(
            value,
            "Одеська",
        ) || str_eq(value, "Полтавська") || str_eq(value, "Рівненська") || str_eq(
            value,
            "Сумська",
        ) || str_eq(value, "Тернопільська") || str_eq(value, "Харківська") || str_eq(
            value,
            "Херсонська",
        ) || str_eq(value, "Хмельницька") || str_eq(value, "Черкаська") || str_eq(
            value,
            "Чернівецька",
        ) || str_eq(value, "Чернігівська");
        if accepted {
            Ok(Region(value.to_owned()))
        } else {
            Err("Region is not valid".to_owned())
        }
    }
}

} // verus!
