//! The routes of the record API: what a request asks for.

use crate::codec::{decode, parse, DecodeError};
use vstd::prelude::*;
use vstd::string::*;
use vstd::utf8::is_ascii_chars;

verus! {

/// The method of a request, as far as the record API tells methods apart.
#[derive(Debug, Clone, Copy, PartialEq, Eq, Structural)]
pub enum Method {
    Get,
    Post,
    /// Any method that no route takes.
    Other,
}

/// Why an admitted request reaches no operation of the record service.
#[derive(Debug, Clone, Copy, PartialEq, Eq, Structural)]
pub enum RouteError {
    /// No route has this path.
    NotFound,
    /// A route has this path, but not with this method.
    MethodNotAllowed,
    /// The path names a record by something that is no identifier.
    BadId(DecodeError),
    /// The request is to make a record and brings no text for it.
    BadBody,
}

/// An operation of the record service.
#[derive(Debug, Clone, PartialEq, Eq)]
pub enum Operation {
    /// List all records.
    List,
    /// Fetch the record under an identifier.
    Fetch(i64),
    /// Make a record of a text.
    Create(String),
}

/// An operation of the record service as the contracts see it.
pub enum OperationModel {
    List,
    Fetch(i64),
    Create(Seq<char>),
}

impl View for Operation {
    type V = OperationModel;

    open spec fn view(&self) -> OperationModel {
        match self {
            Operation::List => OperationModel::List,
            Operation::Fetch(id) => OperationModel::Fetch(*id),
            Operation::Create(text) => OperationModel::Create(text@),
        }
    }
}

/// The text that a request brings, if it brings one.
pub open spec fn text_of(text: Option<String>) -> Option<Seq<char>> {
    match text {
        Some(t) => Some(t@),
        None => None,
    }
}

/// The path of the collection of records.
pub open spec fn items_path() -> Seq<char> {
    seq!['/', 'i', 't', 'e', 'm', 's']
}

/// What a request to the collection of records asks for.
pub open spec fn on_collection(method: Method, text: Option<Seq<char>>) -> Result<
    OperationModel,
    RouteError,
> {
    match method {
        Method::Get => Ok(OperationModel::List),
        Method::Post => match text {
            Some(t) => Ok(OperationModel::Create(t)),
            None => Err(RouteError::BadBody),
        },
        Method::Other => Err(RouteError::MethodNotAllowed),
    }
}

/// What a request to the record named `name` asks for.
pub open spec fn on_item(method: Method, name: Seq<char>) -> Result<OperationModel, RouteError> {
    match method {
        Method::Get => match parse(name) {
            Ok(id) => Ok(OperationModel::Fetch(id)),
            Err(e) => Err(RouteError::BadId(e)),
        },
        _ => Err(RouteError::MethodNotAllowed),
    }
}

/// What a request asks for.
///
/// The record API has two paths: that of the collection, and below it, after
/// a slash, that of one record, named by its identifier.  The name of a
/// record is not empty and holds no slash.  A path holds ASCII characters
/// only.
pub open spec fn route_of(method: Method, path: Seq<char>, text: Option<Seq<char>>) -> Result<
    OperationModel,
    RouteError,
> {
    if !is_ascii_chars(path) {
        Err(RouteError::NotFound)
    } else if path == items_path() {
        on_collection(method, text)
    } else if path.len() > 7 && path.subrange(0, 6) == items_path() && path[6] == '/'
        && !path.subrange(7, path.len() as int).contains('/') {
        on_item(method, path.subrange(7, path.len() as int))
    } else {
        Err(RouteError::NotFound)
    }
}

/// Whether `bytes` begins with the path of the collection of records.
fn begins_with_items(bytes: &[u8]) -> (b: bool)
    ensures
        b <==> bytes@.len() >= 6 && bytes@[0] == 47 && bytes@[1] == 105 && bytes@[2] == 116
            && bytes@[3] == 101 && bytes@[4] == 109 && bytes@[5] == 115,
{
    bytes.len() >= 6 && bytes[0] == 47 && bytes[1] == 105 && bytes[2] == 116 && bytes[3] == 101
        && bytes[4] == 109 && bytes[5] == 115
}

/// Matches a request against the routes of the record API.
pub fn route(method: Method, path: &str, text: Option<String>) -> (r: Result<
    Operation,
    RouteError,
>)
    ensures
        match r {
            Ok(op) => route_of(method, path@, text_of(text)) == Ok::<OperationModel, RouteError>(
                op@,
            ),
            Err(e) => route_of(method, path@, text_of(text)) == Err::<OperationModel, RouteError>(
                e,
            ),
        },
{
    broadcast use is_ascii_spec_bytes;

    if !path.is_ascii() {
        return Err(RouteError::NotFound);
    }
    let bytes = path.as_bytes();
    let n = bytes.len();
    if !begins_with_items(bytes) {
        return Err(RouteError::NotFound);
    }
    assert(path@.subrange(0, 6) =~= items_path());
    if n == 6 {
        assert(path@ =~= items_path());
        return match method {
            Method::Get => Ok(Operation::List),
            Method::Post => match text {
                Some(t) => Ok(Operation::Create(t)),
                None => Err(RouteError::BadBody),
            },
            Method::Other => Err(RouteError::MethodNotAllowed),
        };
    }
    if n == 7 || bytes[6] != 47 {
        return Err(RouteError::NotFound);
    }
    let ghost name = path@.subrange(7, n as int);
    let mut i: usize = 7;
    while i < n
        invariant
            7 <= i <= n,
            n == bytes@.len(),
            n == path@.len(),
            name == path@.subrange(7, n as int),
            is_ascii_chars(path@),
            forall|j: int| 0 <= j < n ==> bytes@[j] == #[trigger] path@[j] as u8,
            forall|j: int| 0 <= j < i - 7 ==> name[j] != '/',
        decreases n - i,
    {
        assert(name[i - 7] == path@[i as int]);
        if bytes[i] == 47 {
            return Err(RouteError::NotFound);
        }
        i = i + 1;
    }
    match method {
        Method::Get => match decode(path.substring_ascii(7, n)) {
            Ok(id) => Ok(Operation::Fetch(id)),
            Err(e) => Err(RouteError::BadId(e)),
        },
        _ => Err(RouteError::MethodNotAllowed),
    }
}

} // verus!
