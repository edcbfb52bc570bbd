//! The request gate: the way of a request from the peer to the record
//! service and back.
//!
//! It derives the client's key from the address of the peer, asks the
//! limiter, and turns a denied request away at once.  An admitted request is
//! matched against the routes of the record API, handed to the record
//! service, and answered with what the service said, every identifier
//! written as a decimal string.

use crate::answer::{
    created, created_response, failed, failed_response, found, found_response, listed,
    listed_response, refuse, refused_response, reject, rejected_response, row_model, todo_models,
    Response, ResponseModel,
};
use crate::bucket::{BucketModel, Decision, QuotaModel, Verdict};
use crate::peer::{client_key, key_of};
use crate::record::{Dao, StoreError, Todo, TodoModel};
use crate::route::{route, route_of, text_of, Method, Operation, OperationModel, RouteError};
use crate::store::{bucket_or_fresh, decision_of, LimiterStore};
use vstd::prelude::*;

verus! {

/// What becomes of a request once the limiter has decided on it.
#[derive(Debug, Clone, PartialEq, Eq)]
pub enum Admission {
    /// The request is answered without the record service.
    Answered(Response),
    /// The request goes to the record service with this operation.
    Forwarded(Operation),
}

/// What becomes of a request, as the contracts see it.
pub enum AdmissionModel {
    Answered(ResponseModel),
    Forwarded(OperationModel),
}

impl View for Admission {
    type V = AdmissionModel;

    open spec fn view(&self) -> AdmissionModel {
        match self {
            Admission::Answered(r) => AdmissionModel::Answered(r@),
            Admission::Forwarded(op) => AdmissionModel::Forwarded(op@),
        }
    }
}

/// What becomes of a request on which the limiter decided `d`.
///
/// A denied request is answered with the limiter's guidance, whatever it
/// asks for.  An admitted request that matches no route is answered with
/// the reason.  Any other goes to the record service.
pub open spec fn admission_of(
    d: Decision,
    method: Method,
    path: Seq<char>,
    text: Option<Seq<char>>,
) -> AdmissionModel {
    match d.verdict {
        Verdict::Deny => AdmissionModel::Answered(rejected_response(d)),
        Verdict::Allow => match route_of(method, path, text) {
            Err(e) => AdmissionModel::Answered(refused_response(e)),
            Ok(op) => AdmissionModel::Forwarded(op),
        },
    }
}

/// Decides what becomes of a request on which the limiter has decided.
pub fn dispatch(decision: &Decision, method: Method, path: &str, text: Option<String>) -> (a:
    Admission)
    ensures
        a@ == admission_of(*decision, method, path@, text_of(text)),
{
    match decision.verdict {
        Verdict::Deny => Admission::Answered(reject(decision)),
        Verdict::Allow => match route(method, path, text) {
            Err(e) => Admission::Answered(refuse(e)),
            Ok(op) => Admission::Forwarded(op),
        },
    }
}

/// Whether `r` answers a request for the record under `id` with what the
/// record service `dao` gives for it.
pub open spec fn fetched<D: Dao<Todo>>(dao: &D, id: i64, r: ResponseModel) -> bool {
    exists|row: Option<Todo>| #[trigger]
        call_ensures(D::get_by_id, (dao, id), row) && r == found_response(row_model(row))
}

/// Whether `r` answers a request for all records with what the record
/// service `dao` gives.
pub open spec fn fetched_all<D: Dao<Todo>>(dao: &D, r: ResponseModel) -> bool {
    exists|rows: Vec<Todo>| #[trigger]
        call_ensures(D::get_all, (dao,), rows) && r == listed_response(todo_models(rows@))
}

/// The answer to a request to make a record, for which the record service
/// gave `saved`: the record as stored, or the words on its failure.
pub open spec fn saved_response(saved: Result<Todo, StoreError>) -> ResponseModel {
    match saved {
        Ok(row) => created_response(row@),
        Err(error) => failed_response(error@),
    }
}

/// Fetches the record under `id` from the record service and answers with
/// it, or says that there is none.
pub fn retrieve<D: Dao<Todo>>(dao: &D, id: i64) -> (r: Response)
    ensures
        fetched(dao, id, r@),
{
    found(dao.get_by_id(id))
}

/// Fetches all records from the record service and answers with them.
pub fn bulk_retrieve<D: Dao<Todo>>(dao: &D) -> (r: Response)
    ensures
        fetched_all(dao, r@),
{
    listed(dao.get_all())
}

/// Has the record service make a record of `text` and answers with the
/// record as stored, or with the words of the service on its failure.
///
/// The service is asked once, to store a record with that text, and the
/// answer follows what it gave.
pub fn add<D: Dao<Todo>>(dao: &mut D, text: String) -> (r: Response)
    ensures
        exists|place: &mut D, asked: Todo, saved: Result<Todo, StoreError>| #[trigger]
            call_ensures(D::save, (place, asked), saved) && mut_ref_current(place) == *old(dao)
                && mut_ref_future(place) == *final(dao) && asked@ == (TodoModel {
                id: 0,
                text: text@,
            }) && r@ == saved_response(saved),
{
    match dao.save(Todo { id: 0, text }) {
        Ok(row) => created(row),
        Err(error) => failed(error),
    }
}

/// A request, cut down to what the decision on it needs.
#[derive(Debug, Clone, PartialEq, Eq)]
pub struct Request {
    /// The octets of the address of the peer; empty if it is not known.
    pub peer: Vec<u8>,
    pub method: Method,
    /// The path, without a query.
    pub path: String,
    /// The text for a new record, if the request brings one.
    pub text: Option<String>,
}

/// The bucket that a request of the peer `peer` at `now` meets: the
/// client's, or a full one if the client is not known.
pub open spec fn met(
    m: Map<u128, BucketModel>,
    q: QuotaModel,
    peer: Seq<u8>,
    now: nat,
) -> BucketModel {
    bucket_or_fresh(m, q, key_of(peer), now)
}

/// Handles a request that arrives at `now`.
///
/// The client's bucket is asked for a token, whatever the request is.  A
/// denied request is answered at once and the record service is left
/// alone.  An admitted request that matches no route is answered likewise.
/// Any other is handed to the record service, and the answer says what the
/// service said.
pub fn handle<D: Dao<Todo>>(
    store: &mut LimiterStore,
    dao: &mut D,
    request: Request,
    now: u64,
) -> (r: Response)
    requires
        old(store).wf(),
        old(store).tokens_in_range(),
    ensures
        final(store).wf(),
        final(store).tokens_in_range(),
        final(store).quota_model() == old(store).quota_model(),
        final(store).idle_threshold() == old(store).idle_threshold(),
        final(store).shard_total() == old(store).shard_total(),
        final(store)@ == old(store)@.insert(
            key_of(request.peer@),
            met(old(store)@, old(store).quota_model(), request.peer@, now as nat).after_check(
                old(store).quota_model(),
                now as nat,
            ),
        ),
        match admission_of(
            decision_of(
                met(old(store)@, old(store).quota_model(), request.peer@, now as nat),
                old(store).quota_model(),
                now as nat,
            ),
            request.method,
            request.path@,
            text_of(request.text),
        ) {
            AdmissionModel::Answered(answer) => r@ == answer && *final(dao) == *old(dao),
            AdmissionModel::Forwarded(OperationModel::List) => fetched_all(&*old(dao), r@)
                && *final(dao) == *old(dao),
            AdmissionModel::Forwarded(OperationModel::Fetch(id)) => fetched(&*old(dao), id, r@)
                && *final(dao) == *old(dao),
            AdmissionModel::Forwarded(OperationModel::Create(text)) => exists|
                place: &mut D,
                asked: Todo,
                saved: Result<Todo, StoreError>,
            | #[trigger]
                call_ensures(D::save, (place, asked), saved) && mut_ref_current(place) == *old(dao)
                    && mut_ref_future(place) == *final(dao) && asked@ == (TodoModel {
                    id: 0,
                    text,
                }) && r@ == saved_response(saved),
        },
{
    let key = client_key(request.peer.as_slice());
    let decision = store.check(key, now);
    match dispatch(&decision, request.method, request.path.as_str(), request.text) {
        Admission::Answered(r) => r,
        Admission::Forwarded(Operation::List) => bulk_retrieve(dao),
        Admission::Forwarded(Operation::Fetch(id)) => retrieve(dao, id),
        Admission::Forwarded(Operation::Create(text)) => self::add(dao, text),
    }
}

} // verus!
