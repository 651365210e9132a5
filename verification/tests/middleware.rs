use axum_cookie::middleware::cookie_header;
use axum_cookie::middleware::emit;
use axum_cookie::text::join;
use axum_cookie::Cookie;
use axum_cookie::CookieLayer;
use axum_cookie::CookieManager;
use axum_cookie::CookieMiddleware;
use axum_cookie::EmitError;
use axum_cookie::ParseOutcome;
use axum_cookie::Rejection;
use http::header::HeaderName;
use http::header::COOKIE;
use http::header::SET_COOKIE;
use http::Extensions;
use http::HeaderMap;
use http::HeaderValue;

fn request(values: &[&str]) -> HeaderMap {
    let mut headers = HeaderMap::new();
    for value in values {
        headers.append(COOKIE, HeaderValue::from_str(value).unwrap());
    }
    headers
}

fn set_cookies(headers: &HeaderMap) -> Vec<String> {
    headers
        .get_all(SET_COOKIE)
        .iter()
        .map(|v| String::from_utf8(v.as_bytes().to_vec()).unwrap())
        .collect()
}

fn rejection(outcome: ParseOutcome) -> Rejection {
    match outcome {
        Ok(_) => panic!("a manager where a rejection was expected"),
        Err(rejection) => rejection,
    }
}

#[test]
fn default_layer_is_lenient_and_strict_layer_is_strict() {
    assert!(!CookieLayer::default().is_strict());
    assert!(CookieLayer::strict().is_strict());
    assert!(!CookieLayer::default().layer(()).is_strict());
    assert!(CookieLayer::strict().layer(()).is_strict());
}

#[test]
fn layer_wraps_the_service_it_is_given() {
    let mut middleware = CookieLayer::strict().layer(7u32);
    assert_eq!(*middleware.inner(), 7);
    *middleware.inner_mut() = 8;
    assert_eq!(*middleware.inner(), 8);
    assert!(middleware.is_strict());
}

#[test]
fn join_puts_the_separator_between_neighbours() {
    assert_eq!(join(&vec![]), "");
    assert_eq!(join(&vec!["a=1".to_string()]), "a=1");
    assert_eq!(join(&vec!["a=1".to_string(), "b=2".to_string()]), "a=1; b=2");
    assert_eq!(
        join(&vec!["a=1".to_string(), String::new(), "c=3; d=4".to_string()]),
        "a=1; ; c=3; d=4"
    );
}

#[test]
fn cookie_header_of_a_request() {
    assert_eq!(cookie_header(&request(&[])), Ok(String::new()));
    assert_eq!(cookie_header(&request(&["a=1"])), Ok("a=1".to_string()));
    assert_eq!(cookie_header(&request(&["a=1", "b=2; c=3"])), Ok("a=1; b=2; c=3".to_string()));
    let mut other = HeaderMap::new();
    other.insert("x-other", HeaderValue::from_static("a=1"));
    assert_eq!(cookie_header(&other), Ok(String::new()));
}

#[test]
fn cookie_header_that_cannot_be_read() {
    let mut headers = request(&["a=1"]);
    headers.append(COOKIE, HeaderValue::from_bytes(b"b=\xfa").unwrap());
    assert_eq!(cookie_header(&headers), Err("failed to convert header to a str".to_string()));
}

#[test]
fn decoding_key_value_gives_a_cookie_of_that_value() {
    let mut extensions = Extensions::new();
    let outcome = CookieLayer::default().layer(()).on_request(&request(&["key=value"]), &mut extensions);
    let manager = outcome.unwrap();
    assert_eq!(manager.get("key").unwrap().value(), "value");
}

#[test]
fn decoding_two_pairs_gives_two_cookies() {
    let mut extensions = Extensions::new();
    let outcome = CookieLayer::default().layer(()).on_request(&request(&["a=1; b=2"]), &mut extensions);
    let manager = outcome.unwrap();
    assert_eq!(manager.cookie().len(), 2);
    assert_eq!(manager.get("a"), Some(Cookie::new("a", "1")));
    assert_eq!(manager.get("b"), Some(Cookie::new("b", "2")));
}

#[test]
fn several_cookie_headers_are_decoded_as_one() {
    for layer in [CookieLayer::default(), CookieLayer::strict()] {
        let mut extensions = Extensions::new();
        let outcome = layer.layer(()).on_request(&request(&["a=1", "b=2; c=3"]), &mut extensions);
        let manager = outcome.unwrap();
        assert_eq!(
            manager.cookie(),
            vec![Cookie::new("a", "1"), Cookie::new("b", "2"), Cookie::new("c", "3")]
        );
    }
}

#[test]
fn request_without_cookie_header_gets_an_empty_jar() {
    for layer in [CookieLayer::default(), CookieLayer::strict()] {
        let mut extensions = Extensions::new();
        let outcome = layer.layer(()).on_request(&HeaderMap::new(), &mut extensions);
        let manager = outcome.unwrap();
        assert!(manager.cookie().is_empty());
        assert!(manager.as_header_value().is_empty());
    }
}

#[test]
fn strict_mode_rejects_a_pair_without_equals_sign() {
    let mut extensions = Extensions::new();
    let outcome = CookieLayer::strict().layer(()).on_request(&request(&["a=1; novalue"]), &mut extensions);
    let rejection = rejection(outcome);
    assert!(matches!(rejection, Rejection::BadRequest(_)));
    assert_eq!(rejection.status(), 400);
    assert_eq!(rejection.message(), "missed pair: Name-Value");
}

#[test]
fn strict_mode_rejects_a_pair_without_name() {
    let mut extensions = Extensions::new();
    let outcome = CookieLayer::strict().layer(()).on_request(&request(&["=1"]), &mut extensions);
    let rejection = rejection(outcome);
    assert_eq!(rejection.status(), 400);
    assert_eq!(rejection.message(), "the provided name is empty.");
}

#[test]
fn lenient_mode_gives_what_the_lenient_decoding_gives() {
    for text in ["", "a=1", " ; a=1;; b = 2 ;", "a=1; a=2", "a=1; novalue", "=1"] {
        let mut extensions = Extensions::new();
        let outcome = CookieLayer::default().layer(()).on_request(&request(&[text]), &mut extensions);
        match axum_cookie::jar::decode(text.to_string(), false) {
            Ok(jar) => {
                let manager = outcome.unwrap();
                assert_eq!(manager.cookie(), axum_cookie::jar::list(&jar));
            }
            Err(message) => {
                let rejection = rejection(outcome);
                assert_eq!(rejection.status(), 400);
                assert_eq!(rejection.message(), message);
            }
        }
    }
}

#[test]
fn lenient_mode_skips_empty_segments() {
    let mut extensions = Extensions::new();
    let outcome = CookieLayer::default().layer(()).on_request(&request(&[" ; a=1;; b = 2 ;"]), &mut extensions);
    let manager = outcome.unwrap();
    assert_eq!(manager.cookie(), vec![Cookie::new("a", "1"), Cookie::new("b", "2")]);
}

#[test]
fn unreadable_header_is_a_bad_request() {
    let mut headers = HeaderMap::new();
    headers.append(COOKIE, HeaderValue::from_bytes(b"a=\xff").unwrap());
    for layer in [CookieLayer::default(), CookieLayer::strict()] {
        let mut extensions = Extensions::new();
        let rejection = rejection(layer.layer(()).on_request(&headers, &mut extensions));
        assert!(matches!(rejection, Rejection::BadRequest(_)));
        assert_eq!(rejection.status(), 400);
        assert_eq!(rejection.message(), "failed to convert header to a str");
    }
}

#[test]
fn handler_gets_the_published_manager() {
    let mut extensions = Extensions::new();
    let outcome = CookieLayer::default().layer(()).on_request(&request(&["a=1"]), &mut extensions);
    let layer_copy = outcome.unwrap();
    let handler_copy = CookieManager::from_request_parts(&extensions).unwrap();
    handler_copy.add(Cookie::new("b", "2"));
    assert_eq!(layer_copy.get("b"), Some(Cookie::new("b", "2")));
    let second_copy = CookieManager::from_request_parts(&extensions).unwrap();
    assert_eq!(second_copy.get("b"), Some(Cookie::new("b", "2")));
}

#[test]
fn handler_gets_the_recorded_failure() {
    let mut extensions = Extensions::new();
    let outcome = CookieLayer::strict().layer(()).on_request(&request(&["novalue"]), &mut extensions);
    assert!(outcome.is_err());
    let rejection = rejection(CookieManager::from_request_parts(&extensions));
    assert!(matches!(rejection, Rejection::BadRequest(_)));
    assert_eq!(rejection.status(), 400);
    assert_eq!(rejection.message(), "missed pair: Name-Value");
}

#[test]
fn handler_without_the_layer_gets_the_not_installed_error() {
    let extensions = Extensions::new();
    let rejection = rejection(CookieManager::from_request_parts(&extensions));
    assert!(matches!(rejection, Rejection::NotInstalled));
    assert_eq!(rejection.status(), 500);
    assert_eq!(rejection.message(), "CookieLayer is not initialized");
}

#[test]
fn a_later_request_replaces_the_published_outcome() {
    let mut extensions = Extensions::new();
    let middleware = CookieLayer::default().layer(());
    middleware.on_request(&request(&["a=1"]), &mut extensions).unwrap();
    middleware.on_request(&request(&["b=2"]), &mut extensions).unwrap();
    let manager = CookieManager::from_request_parts(&extensions).unwrap();
    assert_eq!(manager.cookie(), vec![Cookie::new("b", "2")]);
}

#[test]
fn counter_goes_from_request_to_request() {
    let middleware = CookieLayer::default().layer(());

    let mut extensions = Extensions::new();
    let outcome = middleware.on_request(&HeaderMap::new(), &mut extensions);
    let manager = CookieManager::from_request_parts(&extensions).unwrap();
    assert_eq!(manager.get("counter"), None);
    manager.add(Cookie::new("counter", "1"));
    let mut response = HeaderMap::new();
    assert_eq!(CookieMiddleware::<()>::on_response(&outcome, &mut response), Ok(()));
    assert_eq!(set_cookies(&response), vec!["counter=1"]);
    assert_eq!(response.len(), 1);

    let mut extensions = Extensions::new();
    let outcome = middleware.on_request(&request(&["counter=1"]), &mut extensions);
    let manager = CookieManager::from_request_parts(&extensions).unwrap();
    let seen: u32 = manager.get("counter").unwrap().value().parse().unwrap();
    assert_eq!(seen, 1);
    manager.add(Cookie::new("counter", &(seen + 1).to_string()));
    let mut response = HeaderMap::new();
    assert_eq!(CookieMiddleware::<()>::on_response(&outcome, &mut response), Ok(()));
    assert_eq!(set_cookies(&response), vec!["counter=2"]);
    assert_eq!(response.len(), 1);
}

#[test]
fn untouched_cookies_are_not_set_again() {
    let mut extensions = Extensions::new();
    let outcome = CookieLayer::default().layer(()).on_request(&request(&["a=1; b=2"]), &mut extensions);
    let mut response = HeaderMap::new();
    assert_eq!(CookieMiddleware::<()>::on_response(&outcome, &mut response), Ok(()));
    assert!(response.is_empty());
}

#[test]
fn changes_are_set_in_ascending_order_of_names() {
    let mut extensions = Extensions::new();
    let outcome = CookieLayer::default().layer(()).on_request(&request(&["old=1"]), &mut extensions);
    let manager = CookieManager::from_request_parts(&extensions).unwrap();
    manager.add(Cookie::new("z", "26").with_path("/"));
    manager.remove("old");
    manager.add(Cookie::new("a", "1"));
    let mut response = HeaderMap::new();
    response.insert("content-type", HeaderValue::from_static("text/plain"));
    response.append(SET_COOKIE, HeaderValue::from_static("earlier=0"));
    assert_eq!(CookieMiddleware::<()>::on_response(&outcome, &mut response), Ok(()));
    assert_eq!(
        set_cookies(&response),
        vec!["earlier=0", "a=1", "old=removed; Max-Age=0", "z=26; Path=/"]
    );
    assert_eq!(response.get("content-type").unwrap(), "text/plain");
    assert_eq!(response.len(), 5);
}

#[test]
fn failed_decoding_sets_no_cookie() {
    let mut extensions = Extensions::new();
    let outcome = CookieLayer::strict().layer(()).on_request(&request(&["novalue"]), &mut extensions);
    let mut response = HeaderMap::new();
    response.append(SET_COOKIE, HeaderValue::from_static("earlier=0"));
    assert_eq!(CookieMiddleware::<()>::on_response(&outcome, &mut response), Ok(()));
    assert_eq!(set_cookies(&response), vec!["earlier=0"]);
}

#[test]
fn emit_adds_each_line_as_one_header() {
    let mut headers = HeaderMap::new();
    let lines = vec!["a=1".to_string(), "b=2; Secure".to_string(), "c=\u{e9}".to_string()];
    assert_eq!(emit(&mut headers, &lines), Ok(()));
    assert_eq!(set_cookies(&headers), lines);
    assert_eq!(emit(&mut headers, &vec![]), Ok(()));
    assert_eq!(set_cookies(&headers), lines);
}

#[test]
fn emit_stops_at_a_value_that_cannot_be_sent() {
    let mut headers = HeaderMap::new();
    let lines = vec!["a=1".to_string(), "b=line\nbreak".to_string(), "c=3".to_string()];
    assert_eq!(emit(&mut headers, &lines), Err(EmitError::InvalidValue(1)));
    assert_eq!(set_cookies(&headers), vec!["a=1"]);
    assert_eq!(emit(&mut headers, &vec!["d=\u{7f}".to_string()]), Err(EmitError::InvalidValue(0)));
    assert_eq!(emit(&mut headers, &vec!["e=\ttab".to_string()]), Ok(()));
    assert_eq!(set_cookies(&headers), vec!["a=1", "e=\ttab"]);
}

#[test]
fn response_stops_at_a_cookie_that_cannot_be_sent() {
    let mut extensions = Extensions::new();
    let outcome = CookieLayer::default().layer(()).on_request(&HeaderMap::new(), &mut extensions);
    let manager = CookieManager::from_request_parts(&extensions).unwrap();
    manager.add(Cookie::new("a", "1"));
    manager.add(Cookie::new("b", "line\nbreak"));
    manager.add(Cookie::new("c", "3"));
    let mut response = HeaderMap::new();
    assert_eq!(
        CookieMiddleware::<()>::on_response(&outcome, &mut response),
        Err(EmitError::InvalidValue(1))
    );
    assert_eq!(set_cookies(&response), vec!["a=1"]);
}

#[test]
fn emit_stops_where_the_headers_cannot_grow() {
    let mut headers = HeaderMap::new();
    let mut i = 0u32;
    while headers
        .try_append(
            HeaderName::from_bytes(format!("x-filler-{i}").as_bytes()).unwrap(),
            HeaderValue::from_static("0"),
        )
        .is_ok()
    {
        i += 1;
    }
    let before = headers.len();
    let lines = vec!["a=1".to_string(), "b=2".to_string()];
    assert_eq!(emit(&mut headers, &lines), Err(EmitError::TooManyHeaders(0)));
    assert_eq!(headers.len(), before);
    assert!(set_cookies(&headers).is_empty());
}

#[test]
fn lenient_mode_rejects_a_pair_without_equals_sign_as_the_codec_does() {
    let mut extensions = Extensions::new();
    let outcome = CookieLayer::default().layer(()).on_request(&request(&["a=1; novalue"]), &mut extensions);
    let rejection = rejection(outcome);
    assert!(matches!(rejection, Rejection::BadRequest(_)));
    assert_eq!(rejection.status(), 400);
    assert_eq!(rejection.message(), "missed pair: Name-Value");
    let mut response = HeaderMap::new();
    let recorded = CookieManager::from_request_parts(&extensions);
    assert_eq!(CookieMiddleware::<()>::on_response(&recorded, &mut response), Ok(()));
    assert!(response.is_empty());
}

#[test]
fn changes_without_control_characters_are_all_sent() {
    let mut extensions = Extensions::new();
    let outcome = CookieLayer::default().layer(()).on_request(&HeaderMap::new(), &mut extensions);
    let manager = CookieManager::from_request_parts(&extensions).unwrap();
    manager.add(
        Cookie::new("plain", "v\u{e9}\u{4e2d}\u{1f36a} \t~")
            .with_domain("example.com")
            .with_expires("Wed, 21 Oct 2025 07:28:00 GMT")
            .with_max_age(u64::MAX)
            .with_path("/\u{e9}"),
    );
    manager.remove("gone\u{e9}");
    let mut response = HeaderMap::new();
    assert_eq!(CookieMiddleware::<()>::on_response(&outcome, &mut response), Ok(()));
    assert_eq!(
        set_cookies(&response),
        vec![
            "gone\u{e9}=removed; Max-Age=0".to_string(),
            "plain=v\u{e9}\u{4e2d}\u{1f36a} \t~; Domain=example.com; Expires=Wed, 21 Oct 2025 \
             07:28:00 GMT; Max-Age=18446744073709551615; Path=/\u{e9}"
                .to_string(),
        ]
    );
}

#[test]
fn a_control_character_in_an_attribute_or_a_removed_name_cannot_be_sent() {
    let mut extensions = Extensions::new();
    let outcome = CookieLayer::default().layer(()).on_request(&HeaderMap::new(), &mut extensions);
    let manager = CookieManager::from_request_parts(&extensions).unwrap();
    manager.add(Cookie::new("a", "1").with_path("/\r\n"));
    let mut response = HeaderMap::new();
    assert_eq!(
        CookieMiddleware::<()>::on_response(&outcome, &mut response),
        Err(EmitError::InvalidValue(0))
    );

    let mut extensions = Extensions::new();
    let outcome = CookieLayer::default().layer(()).on_request(&HeaderMap::new(), &mut extensions);
    let manager = CookieManager::from_request_parts(&extensions).unwrap();
    manager.add(Cookie::new("a", "1"));
    manager.remove("b\u{0}");
    let mut response = HeaderMap::new();
    assert_eq!(
        CookieMiddleware::<()>::on_response(&outcome, &mut response),
        Err(EmitError::InvalidValue(1))
    );
    assert_eq!(set_cookies(&response), vec!["a=1"]);
}
