use http::{HeaderMap, HeaderName, HeaderValue};
use llm_proxy::headers::{
    build_forward_headers, inject_api_key, is_event_stream, names_fit, prepare_request_headers,
    prepare_response_headers, strip_response_hop_by_hop, try_forward_headers, try_pass_headers,
    MAX_HEADER_NAMES,
};

fn headers(list: &[(&str, &str)]) -> HeaderMap {
    let mut map = HeaderMap::new();
    for (name, value) in list {
        map.append(
            HeaderName::from_bytes(name.as_bytes()).unwrap(),
            HeaderValue::from_str(value).unwrap(),
        );
    }
    map
}

fn list(map: &HeaderMap) -> Vec<(String, String)> {
    let mut list: Vec<(String, String)> = map
        .iter()
        .map(|(name, value)| (name.to_string(), value.to_str().unwrap().to_string()))
        .collect();
    list.sort();
    list
}

fn pairs(list: &[(&str, &str)]) -> Vec<(String, String)> {
    list.iter()
        .map(|(name, value)| (name.to_string(), value.to_string()))
        .collect()
}

#[test]
fn hop_by_hop_headers_are_not_forwarded() {
    let request = headers(&[
        ("Host", "x"),
        ("Connection", "x"),
        ("Content-Length", "1"),
        ("Transfer-Encoding", "x"),
        ("Keep-Alive", "x"),
        ("Proxy-Authorization", "x"),
        ("TE", "x"),
        ("Trailer", "x"),
        ("Upgrade", "x"),
        ("Authorization", "Bearer client"),
        ("X-Custom", "one"),
        ("X-Custom", "two"),
        ("Accept", "text/plain"),
    ]);
    assert_eq!(
        list(&build_forward_headers(&request, false)),
        pairs(&[
            ("accept", "text/plain"),
            ("authorization", "Bearer client"),
            ("x-custom", "two")
        ])
    );
    assert_eq!(
        list(&build_forward_headers(&request, true)),
        pairs(&[("accept", "text/plain"), ("x-custom", "two")])
    );
}

#[test]
fn response_headers_are_stripped() {
    let response = headers(&[
        ("content-length", "1"),
        ("content-encoding", "gzip"),
        ("transfer-encoding", "chunked"),
        ("connection", "close"),
        ("keep-alive", "x"),
        ("te", "kept"),
        ("content-type", "application/json"),
    ]);
    assert_eq!(
        list(&strip_response_hop_by_hop(&response)),
        pairs(&[("content-type", "application/json"), ("te", "kept")])
    );
}

#[test]
fn configured_keys_replace_the_clients() {
    let request = headers(&[("authorization", "Bearer client"), ("a", "b")]);
    for flag in [false, true] {
        let forwarded = build_forward_headers(&request, flag);
        assert_eq!(
            list(&inject_api_key(forwarded, Some("mine")).unwrap()),
            pairs(&[("a", "b"), ("authorization", "Bearer mine")])
        );
    }
    let kept = inject_api_key(build_forward_headers(&request, false), None).unwrap();
    assert_eq!(kept.get("authorization").unwrap(), "Bearer client");
    let odd = inject_api_key(HeaderMap::new(), Some("line\nbreak")).unwrap();
    assert_eq!(odd.get("authorization").unwrap(), "Bearer");
    let umlaut = inject_api_key(HeaderMap::new(), Some("ä")).unwrap();
    assert_eq!(
        umlaut.get("authorization").unwrap().as_bytes(),
        "Bearer ä".as_bytes()
    );
}

#[test]
fn event_streams_are_recognised() {
    assert!(is_event_stream(&headers(&[(
        "Content-Type",
        "text/event-stream; charset=utf-8"
    )])));
    assert!(!is_event_stream(&headers(&[(
        "content-type",
        "application/json"
    )])));
    assert!(!is_event_stream(&headers(&[])));
    assert!(!is_event_stream(&headers(&[
        ("content-type", "text/plain"),
        ("content-type", "text/event-stream")
    ])));
    assert!(!is_event_stream(&headers(&[(
        "content-type",
        "text/event-stream ä"
    )])));
}

#[test]
fn streams_get_a_content_type() {
    assert_eq!(
        list(&prepare_response_headers(&headers(&[("connection", "x")]), true).unwrap()),
        pairs(&[("content-type", "text/event-stream")])
    );
    assert_eq!(
        list(&prepare_response_headers(&headers(&[("content-type", "x/y")]), true).unwrap()),
        pairs(&[("content-type", "x/y")])
    );
}

#[test]
fn headers_are_prepared() {
    let request = headers(&[("host", "x"), ("authorization", "Bearer client"), ("a", "b")]);
    assert_eq!(
        list(&prepare_request_headers(&request, false, Some("k")).unwrap()),
        pairs(&[("a", "b"), ("authorization", "Bearer k")])
    );
    assert_eq!(
        list(&prepare_request_headers(&request, false, None).unwrap()),
        pairs(&[("a", "b"), ("authorization", "Bearer client")])
    );
    let response = headers(&[("connection", "x"), ("a", "b")]);
    assert_eq!(
        list(&prepare_response_headers(&response, false).unwrap()),
        pairs(&[("a", "b")])
    );
    assert_eq!(
        list(&prepare_response_headers(&response, true).unwrap()),
        pairs(&[("a", "b"), ("content-type", "text/event-stream")])
    );
}

#[test]
fn many_headers_are_copied() {
    let mut many = HeaderMap::new();
    for i in 0..MAX_HEADER_NAMES {
        let name = HeaderName::from_bytes(format!("x-{}", i).as_bytes()).unwrap();
        many.append(name.clone(), HeaderValue::from_static("1"));
        many.append(name, HeaderValue::from_static("2"));
    }
    assert!(names_fit(&many));
    let copied = prepare_request_headers(&many, true, Some("k")).unwrap();
    assert_eq!(copied.len(), MAX_HEADER_NAMES as usize + 1);
    assert_eq!(copied.get("x-7").unwrap(), "2");
    many.insert("one-more", HeaderValue::from_static("3"));
    assert!(!names_fit(&many));
    assert_eq!(
        try_forward_headers(&many, false).unwrap().len(),
        MAX_HEADER_NAMES as usize + 1
    );
    assert_eq!(
        try_pass_headers(&many).unwrap().len(),
        MAX_HEADER_NAMES as usize + 1
    );
}

#[test]
fn a_full_map_takes_no_more() {
    let mut full = HeaderMap::new();
    let mut i = 0;
    loop {
        let name = HeaderName::from_bytes(format!("y-{}", i).as_bytes()).unwrap();
        if full.try_insert(name, HeaderValue::from_static("1")).is_err() {
            break;
        }
        i += 1;
    }
    assert!(i > MAX_HEADER_NAMES as usize);
    assert!(inject_api_key(full.clone(), None).is_some());
    assert!(inject_api_key(full, Some("k")).is_none());
}
