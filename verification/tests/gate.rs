use boraxpr::bucket::{Decision, Quota, Verdict};
use boraxpr::codec::DecodeError;
use boraxpr::answer::{
    conclude, created, failed, found, listed, refuse, reject, Body, Outcome, Response,
};
use boraxpr::gate::{add, bulk_retrieve, dispatch, handle, retrieve, Admission, Request};
use boraxpr::peer::{client_key, ClientKey};
use boraxpr::record::{Dao, MemoryDao, StoreError, Todo, WireTodo};
use boraxpr::route::{route, Method, Operation, RouteError};
use boraxpr::store::LimiterStore;

const SECOND: u64 = 1_000_000_000;

fn wire(id: &str, text: &str) -> WireTodo {
    WireTodo { id: id.to_string(), text: text.to_string() }
}

fn request(peer: &[u8], method: Method, path: &str, text: Option<&str>) -> Request {
    Request {
        peer: peer.to_vec(),
        method,
        path: path.to_string(),
        text: text.map(|t| t.to_string()),
    }
}

fn store(capacity: u32) -> LimiterStore {
    LimiterStore::new(Quota::per_second(1, capacity).unwrap(), 60 * SECOND, 4).unwrap()
}

#[test]
fn an_address_of_four_octets_is_mapped_into_the_sixth_version() {
    assert_eq!(client_key(&[127, 0, 0, 1]), ClientKey(0xFFFF_7F00_0001));
    assert_eq!(client_key(&[0, 0, 0, 0]), ClientKey(0xFFFF_0000_0000));
    assert_eq!(client_key(&[255, 255, 255, 255]), ClientKey(0xFFFF_FFFF_FFFF));
}

#[test]
fn an_address_of_sixteen_octets_is_its_own_number() {
    let mut octets = [0u8; 16];
    octets[15] = 1;
    assert_eq!(client_key(&octets), ClientKey(1));
    octets[0] = 0x20;
    octets[1] = 0x01;
    assert_eq!(client_key(&octets), ClientKey(0x2001_0000_0000_0000_0000_0000_0000_0001));
    assert_eq!(client_key(&[255u8; 16]), ClientKey(u128::MAX));
}

#[test]
fn what_is_no_address_shares_one_key() {
    assert_eq!(client_key(&[]), ClientKey(0));
    assert_eq!(client_key(&[1, 2, 3]), ClientKey(0));
    assert_eq!(client_key(&[1, 2, 3, 4, 5]), ClientKey(0));
    assert_eq!(client_key(&[9u8; 17]), ClientKey(0));
}

#[test]
fn the_collection_lists_and_creates() {
    assert_eq!(route(Method::Get, "/items", None), Ok(Operation::List));
    assert_eq!(route(Method::Get, "/items", Some("ignored".to_string())), Ok(Operation::List));
    assert_eq!(
        route(Method::Post, "/items", Some("hello".to_string())),
        Ok(Operation::Create("hello".to_string()))
    );
    assert_eq!(route(Method::Post, "/items", None), Err(RouteError::BadBody));
    assert_eq!(route(Method::Other, "/items", None), Err(RouteError::MethodNotAllowed));
}

#[test]
fn a_record_is_fetched_by_its_identifier() {
    assert_eq!(route(Method::Get, "/items/42", None), Ok(Operation::Fetch(42)));
    assert_eq!(route(Method::Get, "/items/-7", None), Ok(Operation::Fetch(-7)));
    assert_eq!(
        route(Method::Get, "/items/9223372036854775807", None),
        Ok(Operation::Fetch(i64::MAX))
    );
    assert_eq!(
        route(Method::Get, "/items/abc", None),
        Err(RouteError::BadId(DecodeError::InvalidDigit))
    );
    assert_eq!(
        route(Method::Get, "/items/9223372036854775808", None),
        Err(RouteError::BadId(DecodeError::Overflow))
    );
    assert_eq!(route(Method::Post, "/items/42", None), Err(RouteError::MethodNotAllowed));
    assert_eq!(route(Method::Other, "/items/abc", None), Err(RouteError::MethodNotAllowed));
}

#[test]
fn other_paths_lead_nowhere() {
    for path in
        ["", "/", "/item", "/items/", "/itemsx", "/items/1/2", "/items//1", "/todos", "items", "/Items", "/items/é"]
    {
        assert_eq!(route(Method::Get, path, None), Err(RouteError::NotFound));
        assert_eq!(route(Method::Post, path, Some("t".to_string())), Err(RouteError::NotFound));
    }
}

#[test]
fn refusals_have_their_status() {
    assert_eq!(refuse(RouteError::NotFound), Response { status: 404, body: Body::Empty });
    assert_eq!(refuse(RouteError::MethodNotAllowed), Response { status: 405, body: Body::Empty });
    assert_eq!(refuse(RouteError::BadBody), Response { status: 400, body: Body::Empty });
    assert_eq!(
        refuse(RouteError::BadId(DecodeError::Empty)),
        Response { status: 400, body: Body::Empty }
    );
}

#[test]
fn a_rejection_tells_the_wait_in_whole_seconds() {
    let d = |nanos: u64| Decision {
        verdict: Verdict::Deny,
        limit: 5,
        remaining: 0,
        retry_after_nanos: nanos,
    };
    let after = |nanos: u64| match reject(&d(nanos)) {
        Response { status: 429, body: Body::RateLimited { limit: 5, remaining: 0, retry_after_secs } } => {
            retry_after_secs
        },
        other => panic!("{:?}", other),
    };
    assert_eq!(after(0), 0);
    assert_eq!(after(1), 1);
    assert_eq!(after(SECOND), 1);
    assert_eq!(after(SECOND + 1), 2);
    assert_eq!(after(u64::MAX), 18_446_744_074);
}

#[test]
fn answers_carry_what_the_service_said() {
    assert_eq!(
        listed(vec![
            Todo { id: 1, text: "a".to_string() },
            Todo { id: 9007199254740993, text: "b".to_string() }
        ]),
        Response {
            status: 200,
            body: Body::Records(vec![wire("1", "a"), wire("9007199254740993", "b")])
        }
    );
    assert_eq!(listed(Vec::new()), Response { status: 200, body: Body::Records(Vec::new()) });
    assert_eq!(
        found(Some(Todo { id: -3, text: "c".to_string() })),
        Response { status: 200, body: Body::Record(wire("-3", "c")) }
    );
    assert_eq!(found(None), Response { status: 404, body: Body::Empty });
    assert_eq!(
        created(Todo { id: 12, text: "d".to_string() }),
        Response { status: 201, body: Body::Record(wire("12", "d")) }
    );
    assert_eq!(
        failed(StoreError { message: "connection refused".to_string() }),
        Response { status: 400, body: Body::Message("connection refused".to_string()) }
    );
}

#[test]
fn the_three_operations_on_a_service_in_memory() {
    let mut dao = MemoryDao::new();
    assert_eq!(bulk_retrieve(&dao), Response { status: 200, body: Body::Records(Vec::new()) });
    assert_eq!(retrieve(&dao, 1), Response { status: 404, body: Body::Empty });
    assert_eq!(
        add(&mut dao, "hello".to_string()),
        Response { status: 201, body: Body::Record(wire("1", "hello")) }
    );
    assert_eq!(retrieve(&dao, 1), Response { status: 200, body: Body::Record(wire("1", "hello")) });
    assert_eq!(
        bulk_retrieve(&dao),
        Response { status: 200, body: Body::Records(vec![wire("1", "hello")]) }
    );
}

#[test]
fn create_hello_then_fetch_it_through_the_front_door() {
    let mut limiter = store(10);
    let mut dao = MemoryDao::new();
    let peer = [10u8, 0, 0, 1];
    let made = handle(&mut limiter, &mut dao, request(&peer, Method::Post, "/items", Some("hello")), 0);
    let id = match made {
        Response { status: 201, body: Body::Record(WireTodo { id, text }) } => {
            assert_eq!(text, "hello");
            id
        },
        other => panic!("{:?}", other),
    };
    let path = format!("/items/{}", id);
    let got = handle(&mut limiter, &mut dao, request(&peer, Method::Get, &path, None), 1);
    assert_eq!(got, Response { status: 200, body: Body::Record(wire(&id, "hello")) });
    let all = handle(&mut limiter, &mut dao, request(&peer, Method::Get, "/items", None), 2);
    assert_eq!(all, Response { status: 200, body: Body::Records(vec![wire(&id, "hello")]) });
}

#[test]
fn a_denied_request_does_not_reach_the_service() {
    let mut limiter = store(1);
    let mut dao = MemoryDao::new();
    let peer = [10u8, 0, 0, 2];
    let first = handle(&mut limiter, &mut dao, request(&peer, Method::Post, "/items", Some("one")), 0);
    assert_eq!(first.status, 201);
    let second = handle(&mut limiter, &mut dao, request(&peer, Method::Post, "/items", Some("two")), 0);
    assert_eq!(
        second,
        Response {
            status: 429,
            body: Body::RateLimited { limit: 1, remaining: 0, retry_after_secs: 1 }
        }
    );
    assert_eq!(dao.get_all().len(), 1);
    // Another peer is not held up.
    let other = handle(&mut limiter, &mut dao, request(&[10, 0, 0, 3], Method::Get, "/items/1", None), 0);
    assert_eq!(other, Response { status: 200, body: Body::Record(wire("1", "one")) });
}

#[test]
fn peers_without_an_address_share_a_bucket() {
    let mut limiter = store(2);
    let mut dao = MemoryDao::new();
    let a = handle(&mut limiter, &mut dao, request(&[], Method::Get, "/items", None), 0);
    let b = handle(&mut limiter, &mut dao, request(&[1, 2, 3], Method::Get, "/items", None), 0);
    let c = handle(&mut limiter, &mut dao, request(&[7; 20], Method::Get, "/items", None), 0);
    assert_eq!((a.status, b.status, c.status), (200, 200, 429));
    assert_eq!(limiter.len(), 1);
    assert!(limiter.peek(ClientKey(0)).is_some());
}

#[test]
fn a_request_that_matches_no_route_spends_a_token_all_the_same() {
    let mut limiter = store(2);
    let mut dao = MemoryDao::new();
    let peer = [192u8, 168, 0, 1];
    let lost = handle(&mut limiter, &mut dao, request(&peer, Method::Get, "/nowhere", None), 0);
    assert_eq!(lost, Response { status: 404, body: Body::Empty });
    let bad = handle(&mut limiter, &mut dao, request(&peer, Method::Get, "/items/x", None), 0);
    assert_eq!(bad, Response { status: 400, body: Body::Empty });
    let late = handle(&mut limiter, &mut dao, request(&peer, Method::Get, "/items", None), 0);
    assert_eq!(late.status, 429);
    let body = handle(&mut limiter, &mut dao, request(&peer, Method::Post, "/items", None), SECOND);
    assert_eq!(body, Response { status: 400, body: Body::Empty });
    let method = handle(&mut limiter, &mut dao, request(&peer, Method::Other, "/items", None), 2 * SECOND);
    assert_eq!(method, Response { status: 405, body: Body::Empty });
    assert_eq!(dao.get_all().len(), 0);
}

#[test]
fn identifiers_beyond_two_to_the_53_pass_unharmed() {
    let mut limiter = store(10);
    let mut dao = MemoryDao::starting_at(9007199254740993);
    let peer = [10u8, 1, 1, 1];
    let made = handle(&mut limiter, &mut dao, request(&peer, Method::Post, "/items", Some("big")), 0);
    assert_eq!(made, Response { status: 201, body: Body::Record(wire("9007199254740993", "big")) });
    let got = handle(
        &mut limiter,
        &mut dao,
        request(&peer, Method::Get, "/items/9007199254740993", None),
        0,
    );
    assert_eq!(got, Response { status: 200, body: Body::Record(wire("9007199254740993", "big")) });
    let miss = handle(
        &mut limiter,
        &mut dao,
        request(&peer, Method::Get, "/items/9007199254740992", None),
        0,
    );
    assert_eq!(miss, Response { status: 404, body: Body::Empty });
}

#[test]
fn addresses_that_differ_have_keys_that_differ() {
    let mut seen = Vec::new();
    for last in 0..=255u8 {
        seen.push(client_key(&[10, 0, 0, last]));
        seen.push(client_key(&[10, 0, last, 0]));
        let mut long = [0u8; 16];
        long[15] = last;
        long[0] = 0xfe;
        seen.push(client_key(&long));
    }
    seen.sort_by_key(|key| key.0);
    seen.dedup();
    // 10.0.0.0 was made twice.
    assert_eq!(seen.len(), 3 * 256 - 1);
}

#[test]
fn a_denied_request_is_answered_whatever_it_asks_for() {
    let denied = Decision { verdict: Verdict::Deny, limit: 3, remaining: 0, retry_after_nanos: 1 };
    let answer = Admission::Answered(Response {
        status: 429,
        body: Body::RateLimited { limit: 3, remaining: 0, retry_after_secs: 1 },
    });
    assert_eq!(dispatch(&denied, Method::Get, "/items", None), answer);
    assert_eq!(dispatch(&denied, Method::Get, "/nowhere", None), answer);
    assert_eq!(dispatch(&denied, Method::Post, "/items", Some("text".to_string())), answer);
}

#[test]
fn an_admitted_request_goes_where_its_route_leads() {
    let allowed = Decision { verdict: Verdict::Allow, limit: 3, remaining: 2, retry_after_nanos: 0 };
    assert_eq!(
        dispatch(&allowed, Method::Get, "/items", None),
        Admission::Forwarded(Operation::List)
    );
    assert_eq!(
        dispatch(&allowed, Method::Get, "/items/5", None),
        Admission::Forwarded(Operation::Fetch(5))
    );
    assert_eq!(
        dispatch(&allowed, Method::Post, "/items", Some("text".to_string())),
        Admission::Forwarded(Operation::Create("text".to_string()))
    );
    assert_eq!(
        dispatch(&allowed, Method::Get, "/nowhere", None),
        Admission::Answered(Response { status: 404, body: Body::Empty })
    );
    assert_eq!(
        dispatch(&allowed, Method::Get, "/items/five", None),
        Admission::Answered(Response { status: 400, body: Body::Empty })
    );
}

#[test]
fn an_outcome_is_concluded_as_its_kind_is() {
    let row = Todo { id: 4, text: "x".to_string() };
    assert_eq!(conclude(Outcome::Listed(vec![row.clone()])), listed(vec![row.clone()]));
    assert_eq!(conclude(Outcome::Found(Some(row.clone()))), found(Some(row.clone())));
    assert_eq!(conclude(Outcome::Found(None)), Response { status: 404, body: Body::Empty });
    assert_eq!(conclude(Outcome::Created(row.clone())), created(row));
    assert_eq!(
        conclude(Outcome::Failed(StoreError { message: "down".to_string() })),
        Response { status: 400, body: Body::Message("down".to_string()) }
    );
}
