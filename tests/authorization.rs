use tower_auth::auth::{AuthorizeRequest, Basic, Bearer};
use tower_auth::message::{Request, Response};
use tower_auth::middleware::{
    Admission, Kind, RequireAuthorization, RequireAuthorizationLayer, ResponseFuture, Step,
};

fn request_with(value: Option<&str>) -> Request<Vec<u8>> {
    let mut req = Request::new(b"payload".to_vec());
    if let Some(v) = value {
        req.insert_header(b"Authorization".to_vec(), v.as_bytes().to_vec());
    }
    req
}

fn challenge(res: &Response) -> Option<Vec<u8>> {
    res.header(b"WWW-Authenticate").cloned()
}

/// A stand-in inner service that counts the calls it receives.
struct Counting {
    calls: u32,
}

fn serve<T: AuthorizeRequest>(
    svc: &mut RequireAuthorization<Counting, T>,
    req: Request<Vec<u8>>,
) -> u16 {
    match svc.call(req) {
        Admission::Forward(_req) => {
            svc.get_mut().calls += 1;
            200
        }
        Admission::Reject(res) => res.status,
    }
}

#[test]
fn bearer_admits_matching_token() {
    let mut svc = RequireAuthorization::bearer(Counting { calls: 0 }, "passwordlol");
    assert_eq!(serve(&mut svc, request_with(Some("Bearer passwordlol"))), 200);
    assert_eq!(svc.get_ref().calls, 1);
}

#[test]
fn bearer_rejects_missing_header() {
    let mut svc = RequireAuthorization::bearer(Counting { calls: 0 }, "passwordlol");
    assert_eq!(serve(&mut svc, request_with(None)), 401);
    assert_eq!(svc.get_ref().calls, 0);
}

#[test]
fn bearer_rejects_wrong_token_and_case() {
    let mut svc = RequireAuthorization::bearer(Counting { calls: 0 }, "passwordlol");
    assert_eq!(serve(&mut svc, request_with(Some("Bearer PasswordLol"))), 401);
    assert_eq!(serve(&mut svc, request_with(Some("bearer passwordlol"))), 401);
    assert_eq!(serve(&mut svc, request_with(Some("Bearer passwordlol "))), 401);
    assert_eq!(svc.into_inner().calls, 0);
}

#[test]
fn header_name_matches_any_case() {
    let mut svc = RequireAuthorization::bearer(Counting { calls: 0 }, "t");
    let mut req = Request::new(Vec::new());
    req.insert_header(b"AUTHORIZATION".to_vec(), b"Bearer t".to_vec());
    assert_eq!(serve(&mut svc, req), 200);
}

#[test]
fn first_authorization_header_decides() {
    let mut svc = RequireAuthorization::bearer(Counting { calls: 0 }, "t");
    let mut req = Request::new(Vec::new());
    req.insert_header(b"authorization".to_vec(), b"Bearer x".to_vec());
    req.insert_header(b"authorization".to_vec(), b"Bearer t".to_vec());
    assert_eq!(serve(&mut svc, req), 401);
}

#[test]
fn forwarded_request_is_unchanged() {
    let mut svc = RequireAuthorization::bearer(Counting { calls: 0 }, "passwordlol");
    match svc.call(request_with(Some("Bearer passwordlol"))) {
        Admission::Forward(req) => {
            assert_eq!(req.body, b"payload".to_vec());
            assert_eq!(req.headers.len(), 1);
            assert_eq!(req.headers[0].value, b"Bearer passwordlol".to_vec());
        }
        Admission::Reject(_) => panic!("expected the request to be forwarded"),
    }
}

#[test]
fn bearer_rejection_has_no_challenge() {
    let mut svc = RequireAuthorization::bearer(Counting { calls: 0 }, "passwordlol");
    match svc.call(request_with(Some("Bearer nope"))) {
        Admission::Reject(res) => {
            assert_eq!(res.status, 401);
            assert!(res.headers.is_empty());
            assert!(res.body.is_empty());
            assert_eq!(challenge(&res), None);
        }
        Admission::Forward(_) => panic!("expected a rejection"),
    }
}

#[test]
fn basic_header_value_is_base64_of_credentials() {
    let basic = Basic::new("u", "p");
    assert_eq!(basic.header_value(), b"Basic dTpw");
    let other = Basic::new("aladdin", "opensesame");
    assert_eq!(other.header_value(), b"Basic YWxhZGRpbjpvcGVuc2VzYW1l");
}

#[test]
fn basic_admits_matching_credentials() {
    let mut svc = RequireAuthorization::basic(Counting { calls: 0 }, "u", "p");
    assert_eq!(serve(&mut svc, request_with(Some("Basic dTpw"))), 200);
    assert_eq!(svc.get_ref().calls, 1);
}

#[test]
fn basic_rejects_other_values_with_challenge() {
    let mut svc = RequireAuthorization::basic(Counting { calls: 0 }, "u", "p");
    for value in [None, Some("Basic dTpx"), Some("Bearer dTpw"), Some("Basic u:p")] {
        match svc.call(request_with(value)) {
            Admission::Reject(res) => {
                assert_eq!(res.status, 401);
                assert_eq!(challenge(&res), Some(b"Basic".to_vec()));
            }
            Admission::Forward(_) => panic!("expected a rejection"),
        }
    }
    assert_eq!(svc.get_ref().calls, 0);
}

#[test]
fn bearer_token_must_be_a_header_value() {
    assert!(Bearer::try_new("line\nbreak").is_none());
    assert!(Bearer::try_new("del\u{7f}").is_none());
    let ok = Bearer::try_new("tab\tok").unwrap();
    assert_eq!(ok.header_value(), b"Bearer tab\tok");
}

#[test]
fn layer_gives_each_service_the_scheme() {
    let layer = RequireAuthorizationLayer::bearer("passwordlol");
    let mut a = layer.layer(Counting { calls: 0 });
    let mut b = layer.layer(Counting { calls: 0 });
    assert_eq!(serve(&mut a, request_with(Some("Bearer passwordlol"))), 200);
    assert_eq!(serve(&mut b, request_with(None)), 401);
    let basic = RequireAuthorizationLayer::basic("u", "p");
    let mut c = basic.layer(Counting { calls: 0 });
    assert_eq!(serve(&mut c, request_with(Some("Basic dTpw"))), 200);
    let custom = RequireAuthorizationLayer::custom(Bearer::new("x"));
    let mut d = custom.layer(Counting { calls: 0 });
    assert_eq!(serve(&mut d, request_with(Some("Bearer x"))), 200);
}

#[test]
fn custom_middleware_uses_given_scheme() {
    let mut svc = RequireAuthorization::custom(Counting { calls: 0 }, Basic::new("a", "b"));
    assert_eq!(serve(&mut svc, request_with(Some("Basic YTpi"))), 200);
    let mut plain = RequireAuthorization::new(Counting { calls: 0 }, Bearer::new("z"));
    assert_eq!(serve(&mut plain, request_with(Some("Bearer z"))), 200);
}

#[test]
fn rejection_is_handed_out_once() {
    let res = Response { status: 401, headers: Vec::new(), body: Vec::new() };
    let mut fut: ResponseFuture<u8> = ResponseFuture::reject(res);
    match fut.poll() {
        Step::Ready(r) => assert_eq!(r.status, 401),
        Step::Delegate => panic!("expected the rejection"),
    }
    assert!(matches!(fut.kind, Kind::Error(None)));
}

#[test]
fn forwarding_result_delegates() {
    let mut fut = ResponseFuture::forward(7u8);
    assert!(matches!(fut.poll(), Step::Delegate));
    assert!(matches!(fut.poll(), Step::Delegate));
    assert!(matches!(fut.kind, Kind::Future(7)));
}
