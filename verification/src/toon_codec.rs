//! Documents in TOON, with JSON as the form that they are exchanged in.
use vstd::prelude::*;

use crate::errors::AppError;
use crate::json::json_error;
use crate::text::{cat3, chars_of, trim_start};

verus! {

broadcast use vstd::string::group_string_axioms;

/// What `serde_toon` writes for the value of a JSON document, or the error.
pub uninterp spec fn toon_of(json: Seq<char>) -> Result<Seq<char>, Seq<char>>;

/// What `serde_toon` reads out of a TOON document, written as JSON by
/// `serde_json`, or the error.
pub uninterp spec fn json_of(toon: Seq<char>) -> Result<Seq<char>, Seq<char>>;

/// A result with its texts as characters.
pub open spec fn result_texts(r: Result<String, String>) -> Result<Seq<char>, Seq<char>> {
    match r {
        Ok(text) => Ok(text@),
        Err(reason) => Err(reason@),
    }
}

/// `serde_toon::to_string` on the value of a JSON document, which is a function of
/// the document alone.
#[verifier::external_body]
fn encode(json: &str) -> (r: Result<String, String>)
    requires
        crate::json::json_problem(json@) is None,
    ensures
        result_texts(r) == toon_of(json@),
{
    match serde_json::from_str::<serde_json::Value>(json) {
        Ok(value) => serde_toon::to_string(&value).map_err(|error| error.to_string()),
        Err(error) => Err(error.to_string()),
    }
}

/// `serde_toon::from_str` into a `serde_json::Value`, and its text: a function of
/// the text alone. That a document comes back as it was encoded is not said:
/// `1.0` is encoded as `1`, and comes back as `1`.
#[verifier::external_body]
fn decode(toon: &str) -> (r: Result<String, String>)
    ensures
        result_texts(r) == json_of(toon@),
{
    serde_toon::from_str::<serde_json::Value>(toon)
        .map(|value| value.to_string())
        .map_err(|error| error.to_string())
}

/// What the encoding of a document comes to, given why it is no JSON, where it is
/// none, and what it is encoded as: each error in its own kind.
pub open spec fn encoded(
    problem: Option<Seq<char>>,
    toon: Result<Seq<char>, Seq<char>>,
    r: Result<String, AppError>,
) -> bool {
    match problem {
        Some(reason) => r matches Err(AppError::Json(t)) && t@ == reason,
        None => match toon {
            Ok(text) => r matches Ok(t) && t@ == text,
            Err(reason) => r matches Err(AppError::Toon(t)) && t@ == reason,
        },
    }
}

/// What has been encoded, with an error in its own kind.
pub fn take_encoded(toon: Result<String, String>) -> (r: Result<String, AppError>)
    ensures
        encoded(None, result_texts(toon), r),
{
    match toon {
        Ok(text) => Ok(text),
        Err(reason) => Err(AppError::Toon(reason)),
    }
}

/// The TOON text of a JSON document.
pub fn to_string(json: &str) -> (r: Result<String, AppError>)
    ensures
        encoded(crate::json::json_problem(json@), toon_of(json@), r),
{
    match json_error(json) {
        Some(reason) => Err(AppError::Json(reason)),
        None => take_encoded(encode(json)),
    }
}

/// The JSON text of a TOON document.
pub fn from_str(raw: &str) -> (r: Result<String, AppError>)
    ensures
        match json_of(raw@) {
            Ok(text) => r matches Ok(t) && t@ == text,
            Err(reason) => r matches Err(AppError::Toon(t)) && t@ == reason,
        },
{
    match decode(raw) {
        Ok(text) => Ok(text),
        Err(reason) => Err(AppError::Toon(reason)),
    }
}

/// Whether a document looks like JSON: its first mark opens an object or a list.
pub open spec fn looks_like_json(raw: Seq<char>) -> bool {
    let t = crate::text::trim_start_of(raw);
    t.len() > 0 && (t[0] == '{' || t[0] == '[')
}

/// What a document that may be in either form is read as. One that looks like
/// JSON is, where it can be, and TOON otherwise; any other is TOON where it can
/// be, and JSON otherwise.
pub open spec fn read_as<T>(
    raw: Seq<char>,
    json: Result<T, String>,
    toon: Result<T, String>,
    r: Result<T, AppError>,
) -> bool {
    if looks_like_json(raw) {
        match json {
            Ok(value) => r == Ok::<T, AppError>(value),
            Err(_) => match toon {
                Ok(value) => r == Ok::<T, AppError>(value),
                Err(reason) => r matches Err(AppError::Toon(t)) && t@ == reason@,
            },
        }
    } else {
        match toon {
            Ok(value) => r == Ok::<T, AppError>(value),
            Err(toon_error) => match json {
                Ok(value) => r == Ok::<T, AppError>(value),
                Err(json_error) => r matches Err(AppError::Toon(t)) && t@ == toon_error@
                    + "; JSON fallback failed: "@ + json_error@,
            },
        }
    }
}

fn opens_json(raw: &str) -> (r: bool)
    ensures
        r == looks_like_json(raw@),
{
    let cs = chars_of(trim_start(raw));
    cs.len() > 0 && (cs[0] == '{' || cs[0] == '[')
}

/// Chooses between what a document is in either form.
pub fn pick_decoded<T>(raw: &str, json: Result<T, String>, toon: Result<T, String>) -> (r: Result<
    T,
    AppError,
>)
    ensures
        read_as(raw@, json, toon, r),
{
    if opens_json(raw) {
        return match json {
            Ok(value) => Ok(value),
            Err(_) => match toon {
                Ok(value) => Ok(value),
                Err(reason) => Err(AppError::Toon(reason)),
            },
        };
    }
    match toon {
        Ok(value) => Ok(value),
        Err(toon_error) => match json {
            Ok(value) => Ok(value),
            Err(json_error) => Err(
                AppError::Toon(
                    cat3(
                        toon_error.as_str(),
                        "; JSON fallback failed: ",
                        json_error.as_str(),
                    ),
                ),
            ),
        },
    }
}

/// The JSON text of a document in either form.
pub fn from_str_or_json(raw: &str) -> (r: Result<String, AppError>)
    ensures
        exists|json: Result<String, String>, toon: Result<String, String>| #[trigger]
            either_form(raw@, json, toon) && read_as(raw@, json, toon, r),
{
    let json = match json_error(raw) {
        Some(reason) => Err(reason),
        None => Ok(raw.to_string()),
    };
    let toon = decode(raw);
    assert(either_form(raw@, json, toon));
    pick_decoded(raw, json, toon)
}

/// Whether `json` and `toon` are what a document is in each form.
pub open spec fn either_form(
    raw: Seq<char>,
    json: Result<String, String>,
    toon: Result<String, String>,
) -> bool {
    &&& match crate::json::json_problem(raw) {
        Some(reason) => json matches Err(t) && t@ == reason,
        None => json matches Ok(t) && t@ == raw,
    }
    &&& result_texts(toon) == json_of(raw)
}

/// A document that can be read in either form is read; which form comes first is
/// told by how it begins: one with a brace or a bracket is JSON first, any other
/// TOON.
pub proof fn documents_are_read_in_either_form<T>(
    raw: Seq<char>,
    json: Result<T, String>,
    toon: Result<T, String>,
    r: Result<T, AppError>,
)
    requires
        read_as(raw, json, toon, r),
    ensures
        json is Ok || toon is Ok ==> r is Ok,
        json is Err && toon is Err ==> (r matches Err(AppError::Toon(t))),
        looks_like_json(raw) && json is Ok ==> r == Ok::<T, AppError>(json->Ok_0),
        !looks_like_json(raw) && toon is Ok ==> r == Ok::<T, AppError>(toon->Ok_0),
        json is Ok && toon is Err ==> r == Ok::<T, AppError>(json->Ok_0),
        json is Err && toon is Ok ==> r == Ok::<T, AppError>(toon->Ok_0),
{
}

/// White space before a document does not change how it begins.
pub proof fn documents_begin_behind_white_space(raw: Seq<char>, c: char)
    requires
        crate::text::white_space(c),
    ensures
        looks_like_json(seq![c] + raw) == looks_like_json(raw),
        raw.len() > 0 && (raw[0] == '{' || raw[0] == '[') ==> looks_like_json(raw),
        raw.len() > 0 && !crate::text::white_space(raw[0]) && raw[0] != '{' && raw[0] != '['
            ==> !looks_like_json(raw),
{
    assert((seq![c] + raw).skip(1) =~= raw);
}

/// What is no JSON is not written as TOON; what is, is written as it is.
pub proof fn only_json_is_written(
    problem: Option<Seq<char>>,
    toon: Result<Seq<char>, Seq<char>>,
    r: Result<String, AppError>,
)
    requires
        encoded(problem, toon, r),
    ensures
        problem is Some ==> (r matches Err(AppError::Json(t)) && Some(t@) == problem),
        problem is None && toon is Ok ==> r is Ok && r->Ok_0@ == toon->Ok_0,
        problem is None && toon is Err ==> (r matches Err(AppError::Toon(t)) && t@ == toon->Err_0),
{
}

} // verus!
