use keyproxy::proxy::{
    complete, prepare, FetchOutcome, KeyTransport, Method, Prepared, ProxyRequest,
};
use keyproxy::registry::{Registry, API};

fn weather_registry() -> Registry {
    Registry::new(vec![API {
        identifier: String::from("weather"),
        metadata: String::from("Weather API"),
        api_key: Some(String::from("XYZ")),
    }])
}

fn secretless_registry() -> Registry {
    Registry::new(vec![API {
        identifier: String::from("open"),
        metadata: String::from("Open API"),
        api_key: None,
    }])
}

fn request(identifier: &str, uri: &str, transport: Option<KeyTransport>) -> ProxyRequest {
    ProxyRequest {
        identifier: String::from(identifier),
        uri: String::from(uri),
        method: Method::Get,
        transport,
    }
}

#[test]
fn unknown_identifier_is_404_without_dispatch() {
    let registry = weather_registry();
    let mut outbound_calls = 0;
    let p = prepare(
        &registry,
        request("missing", "https://api.example.com/v1/data", None),
    );
    match p {
        Prepared::Done(r) => {
            assert_eq!(r.status, 404);
            assert!(r.body.is_none());
        }
        Prepared::Dispatch(_) => {
            outbound_calls += 1;
        }
    }
    assert_eq!(outbound_calls, 0);
}

#[test]
fn no_transport_leaves_request_unchanged() {
    let registry = weather_registry();
    let p = prepare(
        &registry,
        request("weather", "https://api.example.com/v1/data", None),
    );
    match p {
        Prepared::Dispatch(out) => {
            assert_eq!(out.uri, "https://api.example.com/v1/data");
            assert!(out.headers.is_empty());
            assert!(matches!(out.method, Method::Get));
        }
        Prepared::Done(_) => panic!("expected a dispatch"),
    }
}

#[test]
fn replace_transport_substitutes_every_occurrence() {
    let registry = weather_registry();
    let p = prepare(
        &registry,
        request(
            "weather",
            "https://api.example.com/KEY/data?key=KEY",
            Some(KeyTransport::Replace(String::from("KEY"))),
        ),
    );
    match p {
        Prepared::Dispatch(out) => {
            assert_eq!(out.uri, "https://api.example.com/XYZ/data?key=XYZ");
            assert!(out.headers.is_empty());
        }
        Prepared::Done(_) => panic!("expected a dispatch"),
    }
}

#[test]
fn weather_scenario_dispatches_substituted_get() {
    let registry = weather_registry();
    let p = prepare(
        &registry,
        request(
            "weather",
            "https://api.example.com/v1/data?key=PLACEHOLDER",
            Some(KeyTransport::Replace(String::from("PLACEHOLDER"))),
        ),
    );
    match p {
        Prepared::Dispatch(out) => {
            assert_eq!(out.uri, "https://api.example.com/v1/data?key=XYZ");
            assert!(out.headers.is_empty());
            assert!(matches!(out.method, Method::Get));
        }
        Prepared::Done(_) => panic!("expected a dispatch"),
    }
}

#[test]
fn replace_transport_without_occurrence_keeps_uri() {
    let registry = weather_registry();
    let p = prepare(
        &registry,
        request(
            "weather",
            "https://api.example.com/v1/data",
            Some(KeyTransport::Replace(String::from("PLACEHOLDER"))),
        ),
    );
    match p {
        Prepared::Dispatch(out) => {
            assert_eq!(out.uri, "https://api.example.com/v1/data");
            assert!(out.headers.is_empty());
        }
        Prepared::Done(_) => panic!("expected a dispatch"),
    }
}

#[test]
fn header_transport_carries_secret() {
    let registry = weather_registry();
    let p = prepare(
        &registry,
        request(
            "weather",
            "https://api.example.com/v1/data",
            Some(KeyTransport::Header(String::from("x-api-key"))),
        ),
    );
    match p {
        Prepared::Dispatch(out) => {
            assert_eq!(out.uri, "https://api.example.com/v1/data");
            assert_eq!(out.headers.len(), 1);
            assert_eq!(out.headers[0].0, "x-api-key");
            assert_eq!(out.headers[0].1, "XYZ");
        }
        Prepared::Done(_) => panic!("expected a dispatch"),
    }
}

#[test]
fn invalid_header_name_is_500_without_dispatch() {
    let registry = weather_registry();
    let p = prepare(
        &registry,
        request(
            "weather",
            "https://api.example.com/v1/data",
            Some(KeyTransport::Header(String::from("bad header\n"))),
        ),
    );
    match p {
        Prepared::Done(r) => {
            assert_eq!(r.status, 500);
            assert!(r.body.is_none());
        }
        Prepared::Dispatch(_) => panic!("expected the call to settle locally"),
    }
}

#[test]
fn missing_secret_ignores_header_transport() {
    let registry = secretless_registry();
    let p = prepare(
        &registry,
        request(
            "open",
            "https://api.example.com/v1/data",
            Some(KeyTransport::Header(String::from("x-api-key"))),
        ),
    );
    match p {
        Prepared::Dispatch(out) => {
            assert_eq!(out.uri, "https://api.example.com/v1/data");
            assert!(out.headers.is_empty());
        }
        Prepared::Done(_) => panic!("expected a dispatch"),
    }
}

#[test]
fn missing_secret_ignores_replace_transport() {
    let registry = secretless_registry();
    let p = prepare(
        &registry,
        request(
            "open",
            "https://api.example.com/KEY/data",
            Some(KeyTransport::Replace(String::from("KEY"))),
        ),
    );
    match p {
        Prepared::Dispatch(out) => {
            assert_eq!(out.uri, "https://api.example.com/KEY/data");
            assert!(out.headers.is_empty());
        }
        Prepared::Done(_) => panic!("expected a dispatch"),
    }
}

#[test]
fn post_body_travels_unchanged() {
    let registry = weather_registry();
    let p = prepare(
        &registry,
        ProxyRequest {
            identifier: String::from("weather"),
            uri: String::from("https://api.example.com/v1/data"),
            method: Method::Post(String::from("{\"q\": 1}")),
            transport: None,
        },
    );
    match p {
        Prepared::Dispatch(out) => match out.method {
            Method::Post(body) => assert_eq!(body, "{\"q\": 1}"),
            _ => panic!("expected a POST"),
        },
        Prepared::Done(_) => panic!("expected a dispatch"),
    }
}

#[test]
fn upstream_response_keeps_status_and_body() {
    let r = complete(FetchOutcome::Response {
        status: 203,
        body: Some(String::from("payload")),
    });
    assert_eq!(r.status, 203);
    assert_eq!(r.body.as_deref(), Some("payload"));
}

#[test]
fn undecodable_body_keeps_upstream_status() {
    let r = complete(FetchOutcome::Response { status: 200, body: None });
    assert_eq!(r.status, 200);
    assert!(r.body.is_none());
}

#[test]
fn transport_failure_maps_to_500_and_serving_continues() {
    let registry = weather_registry();
    let r = complete(FetchOutcome::Failure);
    assert_eq!(r.status, 500);
    assert!(r.body.is_none());
    // the failure settles one call; the next request is served as usual
    let p = prepare(
        &registry,
        request("weather", "https://api.example.com/v1/data", None),
    );
    assert!(matches!(p, Prepared::Dispatch(_)));
}
