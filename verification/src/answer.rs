//! Answers: what goes back to the client, before it is put into the shape
//! of the wire.

use crate::bucket::Decision;
use crate::record::{wire_of, StoreError, Todo, TodoModel, WireTodo, WireTodoModel};
use crate::route::RouteError;
use vstd::prelude::*;

verus! {

/// The status of an answer that carries what was asked for.
pub const STATUS_OK: u16 = 200;

/// The status of the answer to a request that made a record.
pub const STATUS_CREATED: u16 = 201;

/// The status of the answer to a request that is malformed, or that the
/// record service failed on.
pub const STATUS_BAD_REQUEST: u16 = 400;

/// The status of the answer to a request for what is not there.
pub const STATUS_NOT_FOUND: u16 = 404;

/// The status of the answer to a request whose method the path does not
/// take.
pub const STATUS_METHOD_NOT_ALLOWED: u16 = 405;

/// The status of the answer to a request that the limiter denied.
pub const STATUS_TOO_MANY_REQUESTS: u16 = 429;

/// What an answer carries.
#[derive(Debug, Clone, PartialEq, Eq)]
pub enum Body {
    /// Records, in the order in which the record service gave them.
    Records(Vec<WireTodo>),
    /// One record.
    Record(WireTodo),
    /// The words of the record service on its failure.
    Message(String),
    /// What the limiter tells a client that it turned away: the capacity of
    /// its bucket, the whole tokens left in it, and the seconds after which
    /// a request will be admitted.
    RateLimited { limit: u32, remaining: u32, retry_after_secs: u64 },
    /// Nothing.
    Empty,
}

/// What an answer carries, as the contracts see it.
pub enum BodyModel {
    Records(Seq<WireTodoModel>),
    Record(WireTodoModel),
    Message(Seq<char>),
    RateLimited { limit: u32, remaining: u32, retry_after_secs: u64 },
    Empty,
}

/// The records of `rows` as the contracts see them.
pub open spec fn wire_models(rows: Seq<WireTodo>) -> Seq<WireTodoModel> {
    Seq::new(rows.len(), |i: int| rows[i]@)
}

/// The records of `rows` as the contracts see them.
pub open spec fn todo_models(rows: Seq<Todo>) -> Seq<TodoModel> {
    Seq::new(rows.len(), |i: int| rows[i]@)
}

impl View for Body {
    type V = BodyModel;

    open spec fn view(&self) -> BodyModel {
        match self {
            Body::Records(rows) => BodyModel::Records(wire_models(rows@)),
            Body::Record(row) => BodyModel::Record(row@),
            Body::Message(text) => BodyModel::Message(text@),
            Body::RateLimited { limit, remaining, retry_after_secs } => BodyModel::RateLimited {
                limit: *limit,
                remaining: *remaining,
                retry_after_secs: *retry_after_secs,
            },
            Body::Empty => BodyModel::Empty,
        }
    }
}

/// The answer to a request.
#[derive(Debug, Clone, PartialEq, Eq)]
pub struct Response {
    pub status: u16,
    pub body: Body,
}

/// The answer to a request, as the contracts see it.
pub struct ResponseModel {
    pub status: u16,
    pub body: BodyModel,
}

impl View for Response {
    type V = ResponseModel;

    open spec fn view(&self) -> ResponseModel {
        ResponseModel { status: self.status, body: self.body@ }
    }
}

/// The record that the record service gave, if it gave one, as the
/// contracts see it.
pub open spec fn row_model(row: Option<Todo>) -> Option<TodoModel> {
    match row {
        Some(t) => Some(t@),
        None => None,
    }
}

/// The whole seconds that cover `nanos` nanoseconds.
pub open spec fn seconds_covering(nanos: u64) -> u64 {
    if nanos % 1_000_000_000 == 0 {
        (nanos / 1_000_000_000) as u64
    } else {
        (nanos / 1_000_000_000 + 1) as u64
    }
}

/// The answer to a request that the limiter denied.
pub open spec fn rejected_response(d: Decision) -> ResponseModel {
    ResponseModel {
        status: STATUS_TOO_MANY_REQUESTS,
        body: BodyModel::RateLimited {
            limit: d.limit,
            remaining: d.remaining,
            retry_after_secs: seconds_covering(d.retry_after_nanos),
        },
    }
}

/// The answer to an admitted request that reaches no operation.
pub open spec fn refused_response(e: RouteError) -> ResponseModel {
    ResponseModel {
        status: match e {
            RouteError::NotFound => STATUS_NOT_FOUND,
            RouteError::MethodNotAllowed => STATUS_METHOD_NOT_ALLOWED,
            RouteError::BadId(_) => STATUS_BAD_REQUEST,
            RouteError::BadBody => STATUS_BAD_REQUEST,
        },
        body: BodyModel::Empty,
    }
}

/// The answer to a request for all records, of which the record service
/// gave `rows`.
pub open spec fn listed_response(rows: Seq<TodoModel>) -> ResponseModel {
    ResponseModel {
        status: STATUS_OK,
        body: BodyModel::Records(Seq::new(rows.len(), |i: int| wire_of(rows[i]))),
    }
}

/// The answer to a request for one record, for which the record service
/// gave `row`.
pub open spec fn found_response(row: Option<TodoModel>) -> ResponseModel {
    match row {
        Some(t) => ResponseModel { status: STATUS_OK, body: BodyModel::Record(wire_of(t)) },
        None => ResponseModel { status: STATUS_NOT_FOUND, body: BodyModel::Empty },
    }
}

/// The answer to a request that made the record `row`.
pub open spec fn created_response(row: TodoModel) -> ResponseModel {
    ResponseModel { status: STATUS_CREATED, body: BodyModel::Record(wire_of(row)) }
}

/// The answer to a request on which the record service failed with the
/// words `message`.
pub open spec fn failed_response(message: Seq<char>) -> ResponseModel {
    ResponseModel { status: STATUS_BAD_REQUEST, body: BodyModel::Message(message) }
}

/// Answers a request that the limiter denied: the client learns how many
/// tokens are left and after how many seconds, rounded up, a request will
/// be admitted.
pub fn reject(decision: &Decision) -> (r: Response)
    ensures
        r@ == rejected_response(*decision),
{
    let nanos = decision.retry_after_nanos;
    let whole = nanos / 1_000_000_000;
    let retry_after_secs = if nanos % 1_000_000_000 == 0 {
        whole
    } else {
        whole + 1
    };
    Response {
        status: STATUS_TOO_MANY_REQUESTS,
        body: Body::RateLimited {
            limit: decision.limit,
            remaining: decision.remaining,
            retry_after_secs,
        },
    }
}

/// Answers an admitted request that reaches no operation.
pub fn refuse(error: RouteError) -> (r: Response)
    ensures
        r@ == refused_response(error),
{
    let status = match error {
        RouteError::NotFound => STATUS_NOT_FOUND,
        RouteError::MethodNotAllowed => STATUS_METHOD_NOT_ALLOWED,
        RouteError::BadId(_) => STATUS_BAD_REQUEST,
        RouteError::BadBody => STATUS_BAD_REQUEST,
    };
    Response { status, body: Body::Empty }
}

/// Answers a request for all records with the records that the record
/// service gave.
pub fn listed(rows: Vec<Todo>) -> (r: Response)
    ensures
        r@ == listed_response(todo_models(rows@)),
{
    let mut wire: Vec<WireTodo> = Vec::new();
    let mut i: usize = 0;
    while i < rows.len()
        invariant
            i <= rows@.len(),
            wire@.len() == i,
            forall|j: int| 0 <= j < i ==> (#[trigger] wire@[j])@ == wire_of(rows@[j]@),
        decreases rows@.len() - i,
    {
        wire.push(rows[i].to_wire());
        i = i + 1;
    }
    let r = Response { status: STATUS_OK, body: Body::Records(wire) };
    assert(r@.body =~= listed_response(todo_models(rows@)).body) by {
        assert(wire_models(wire@) =~= Seq::new(
            rows@.len(),
            |i: int| wire_of(todo_models(rows@)[i]),
        ));
    }
    r
}

/// Answers a request for one record with the record that the record
/// service gave, or says that there is none.
pub fn found(row: Option<Todo>) -> (r: Response)
    ensures
        r@ == found_response(row_model(row)),
{
    match row {
        Some(t) => Response { status: STATUS_OK, body: Body::Record(t.to_wire()) },
        None => Response { status: STATUS_NOT_FOUND, body: Body::Empty },
    }
}

/// Answers a request that made a record with the record as stored.
pub fn created(row: Todo) -> (r: Response)
    ensures
        r@ == created_response(row@),
{
    Response { status: STATUS_CREATED, body: Body::Record(row.to_wire()) }
}

/// Answers a request on which the record service failed with the words of
/// the service.
pub fn failed(error: StoreError) -> (r: Response)
    ensures
        r@ == failed_response(error@),
{
    Response { status: STATUS_BAD_REQUEST, body: Body::Message(error.message) }
}

/// What the record service said to an operation.
#[derive(Debug, Clone, PartialEq, Eq)]
pub enum Outcome {
    /// All records.
    Listed(Vec<Todo>),
    /// The record that was asked for, if there is one.
    Found(Option<Todo>),
    /// The record that was made.
    Created(Todo),
    /// The service failed.
    Failed(StoreError),
}

/// The answer to a request to which the record service said `outcome`.
pub open spec fn concluded(outcome: Outcome) -> ResponseModel {
    match outcome {
        Outcome::Listed(rows) => listed_response(todo_models(rows@)),
        Outcome::Found(row) => found_response(row_model(row)),
        Outcome::Created(row) => created_response(row@),
        Outcome::Failed(error) => failed_response(error@),
    }
}

/// Answers a request with what the record service said to it.
pub fn conclude(outcome: Outcome) -> (r: Response)
    ensures
        r@ == concluded(outcome),
{
    match outcome {
        Outcome::Listed(rows) => listed(rows),
        Outcome::Found(row) => found(row),
        Outcome::Created(row) => created(row),
        Outcome::Failed(error) => failed(error),
    }
}

} // verus!
