use httprs::auth::Auth;
use httprs::cli::{Method, RequestItem};
use httprs::json::json_object_string;
use httprs::request::{
    BodyType, RequestBody, VerboseInfo, assemble_request, detect_body_type, mask_header_value,
};

#[test]
fn test_detect_body_type_json() {
    let items = vec![
        RequestItem::Body("name".to_string(), "alice".to_string()),
        RequestItem::Body("age".to_string(), "30".to_string()),
    ];
    assert_eq!(detect_body_type(&items), Some(BodyType::Json));
}

#[test]
fn test_detect_body_type_multipart() {
    let items = vec![
        RequestItem::Body("title".to_string(), "test".to_string()),
        RequestItem::FormFile("file".to_string(), "/path/to/file".to_string()),
    ];
    assert_eq!(detect_body_type(&items), Some(BodyType::Multipart));
}

#[test]
fn test_detect_body_type_none() {
    let items = vec![
        RequestItem::Header("Authorization".to_string(), "Bearer token".to_string()),
        RequestItem::QueryParam("page".to_string(), "1".to_string()),
    ];
    assert_eq!(detect_body_type(&items), None);
}

#[test]
fn test_verbose_info_new() {
    let info = VerboseInfo::new("GET", "https://example.com");
    assert_eq!(info.method, "GET");
    assert_eq!(info.url, "https://example.com");
    assert!(info.headers.is_empty());
    assert!(info.query_params.is_empty());
    assert!(info.body.is_none());
    assert!(info.files.is_empty());
}

#[test]
fn test_verbose_info_add_header() {
    let mut info = VerboseInfo::new("POST", "https://example.com");
    info.add_header("Content-Type".to_string(), "application/json".to_string());
    assert_eq!(info.headers.len(), 1);
    assert_eq!(
        info.headers[0],
        ("Content-Type".to_string(), "application/json".to_string())
    );
}

#[test]
fn test_verbose_info_add_query_param() {
    let mut info = VerboseInfo::new("GET", "https://example.com");
    info.add_query_param("page".to_string(), "1".to_string());
    assert_eq!(info.query_params.len(), 1);
    assert_eq!(
        info.query_params[0],
        ("page".to_string(), "1".to_string())
    );
}

#[test]
fn test_verbose_info_set_body() {
    let mut info = VerboseInfo::new("POST", "https://example.com");
    info.set_body(r#"{"name":"test"}"#.to_string());
    assert_eq!(info.body, Some(r#"{"name":"test"}"#.to_string()));
}

#[test]
fn test_verbose_info_add_file() {
    let mut info = VerboseInfo::new("POST", "https://example.com");
    info.add_file("photo".to_string(), "/path/to/image.jpg".to_string());
    assert_eq!(info.files.len(), 1);
    assert_eq!(
        info.files[0],
        ("photo".to_string(), "/path/to/image.jpg".to_string())
    );
}

#[test]
fn test_detect_body_type_mixed() {
    // Should prioritize multipart when both body and file present
    let items = vec![
        RequestItem::Body("title".to_string(), "test".to_string()),
        RequestItem::FormFile("file".to_string(), "/path/to/file".to_string()),
        RequestItem::Body("description".to_string(), "desc".to_string()),
    ];
    assert_eq!(detect_body_type(&items), Some(BodyType::Multipart));
}

#[test]
fn test_detect_body_type_only_headers() {
    let items = vec![
        RequestItem::Header("Authorization".to_string(), "Bearer token".to_string()),
        RequestItem::Header("Accept".to_string(), "application/json".to_string()),
    ];
    assert_eq!(detect_body_type(&items), None);
}

#[test]
fn test_detect_body_type_only_query_params() {
    let items = vec![
        RequestItem::QueryParam("page".to_string(), "1".to_string()),
        RequestItem::QueryParam("limit".to_string(), "10".to_string()),
    ];
    assert_eq!(detect_body_type(&items), None);
}

#[test]
fn test_body_type_equality() {
    assert_eq!(BodyType::Json, BodyType::Json);
    assert_eq!(BodyType::Multipart, BodyType::Multipart);
    assert_ne!(BodyType::Json, BodyType::Multipart);
}

#[test]
fn assemble_header_only_round_trip() {
    // one header item: it lands in the headers, nothing else is produced
    let items = vec![
        RequestItem::Header("Authorization".to_string(), "Bearer token".to_string()),
    ];
    let out = assemble_request(Method::Get, "https://example.com", &items, &None, false);
    assert_eq!(
        out.descriptor.headers,
        vec![("Authorization".to_string(), "Bearer token".to_string())]
    );
    assert_eq!(out.descriptor.body, RequestBody::Empty);
    assert!(out.descriptor.query.is_empty());
    assert!(out.warnings.is_empty());
    assert!(out.verbose.is_none());
}

#[test]
fn assemble_json_body_in_item_order() {
    let items = vec![
        RequestItem::Body("name".to_string(), "alice".to_string()),
        RequestItem::Body("age".to_string(), "30".to_string()),
    ];
    assert_eq!(detect_body_type(&items), Some(BodyType::Json));
    let out = assemble_request(Method::Post, "https://example.com", &items, &None, false);
    match &out.descriptor.body {
        RequestBody::Json(pairs) => {
            assert_eq!(
                pairs,
                &vec![
                    ("name".to_string(), "alice".to_string()),
                    ("age".to_string(), "30".to_string()),
                ]
            );
            assert_eq!(json_object_string(pairs), r#"{"name":"alice","age":"30"}"#);
        },
        other => panic!("expected a JSON body, got {:?}", other),
    }
}

#[test]
fn assemble_mixed_multipart() {
    let items = vec![
        RequestItem::Body("title".to_string(), "t".to_string()),
        RequestItem::FormFile("file".to_string(), "/tmp/x.txt".to_string()),
    ];
    assert_eq!(detect_body_type(&items), Some(BodyType::Multipart));
    let out = assemble_request(Method::Post, "https://example.com", &items, &None, false);
    match &out.descriptor.body {
        RequestBody::Multipart { texts, files } => {
            assert_eq!(texts, &vec![("title".to_string(), "t".to_string())]);
            assert_eq!(files.len(), 1);
            assert_eq!(files[0].key, "file");
            assert_eq!(files[0].path, "/tmp/x.txt");
            assert_eq!(files[0].filename, "x.txt");
            assert_eq!(files[0].mime, "text/plain");
        },
        other => panic!("expected a multipart body, got {:?}", other),
    }
}

#[test]
fn assemble_drops_body_on_get_with_warning() {
    let items = vec![RequestItem::Body("x".to_string(), "1".to_string())];
    let out = assemble_request(Method::Get, "https://example.com", &items, &None, false);
    assert_eq!(out.descriptor.body, RequestBody::Empty);
    assert_eq!(
        out.warnings,
        vec!["Warning: Ignoring body parameter 'x' in GET request".to_string()]
    );
}

#[test]
fn assemble_applies_auth_header_first() {
    let items = vec![
        RequestItem::Header("Accept".to_string(), "application/json".to_string()),
    ];
    let auth = Some(Auth::Bearer("token123".to_string()));
    let out = assemble_request(Method::Get, "https://example.com", &items, &auth, true);
    assert_eq!(
        out.descriptor.headers,
        vec![
            ("Authorization".to_string(), "Bearer token123".to_string()),
            ("Accept".to_string(), "application/json".to_string()),
        ]
    );
    let info = out.verbose.expect("verbose info requested");
    assert_eq!(info.method, "GET");
    assert_eq!(info.headers, out.descriptor.headers);
}

#[test]
fn assemble_mime_guess_depends_on_extension() {
    // a wrapper that handed back its argument could not produce these
    let items = vec![
        RequestItem::FormFile("photo".to_string(), "/path/to/image.jpg".to_string()),
        RequestItem::FormFile("blob".to_string(), "/path/to/unknown.zzz-ext".to_string()),
    ];
    let out = assemble_request(Method::Post, "https://example.com", &items, &None, false);
    match &out.descriptor.body {
        RequestBody::Multipart { texts, files } => {
            assert!(texts.is_empty());
            assert_eq!(files[0].mime, "image/jpeg");
            assert_eq!(files[0].filename, "image.jpg");
            assert_eq!(files[1].mime, "application/octet-stream");
        },
        other => panic!("expected a multipart body, got {:?}", other),
    }
}

#[test]
fn assemble_repeated_body_key_keeps_position_last_value() {
    let items = vec![
        RequestItem::Body("a".to_string(), "1".to_string()),
        RequestItem::Body("b".to_string(), "2".to_string()),
        RequestItem::Body("a".to_string(), "3".to_string()),
    ];
    let out = assemble_request(Method::Post, "https://example.com", &items, &None, false);
    match &out.descriptor.body {
        RequestBody::Json(pairs) => {
            assert_eq!(
                pairs,
                &vec![
                    ("a".to_string(), "3".to_string()),
                    ("b".to_string(), "2".to_string()),
                ]
            );
        },
        other => panic!("expected a JSON body, got {:?}", other),
    }
}

#[test]
fn assemble_repeated_headers_and_queries_kept() {
    let items = vec![
        RequestItem::Header("X-Tag".to_string(), "one".to_string()),
        RequestItem::Header("X-Tag".to_string(), "two".to_string()),
        RequestItem::QueryParam("q".to_string(), "1".to_string()),
        RequestItem::QueryParam("q".to_string(), "2".to_string()),
    ];
    let out = assemble_request(Method::Get, "https://example.com", &items, &None, false);
    assert_eq!(out.descriptor.headers.len(), 2);
    assert_eq!(
        out.descriptor.query,
        vec![
            ("q".to_string(), "1".to_string()),
            ("q".to_string(), "2".to_string()),
        ]
    );
}

#[test]
fn mask_header_value_long_and_short() {
    // 25 characters: first 10, ellipsis, last 5
    let long = "abcdefghijklmnopqrstuvwxy";
    assert_eq!(long.len(), 25);
    assert_eq!(mask_header_value(long), "abcdefghij...uvwxy");

    // 15 characters: unmasked
    let short = "abcdefghijklmno";
    assert_eq!(short.len(), 15);
    assert_eq!(mask_header_value(short), "abcdefghijklmno");
}

#[test]
fn trace_lines_render_request() {
    let items = vec![
        RequestItem::QueryParam("page".to_string(), "1".to_string()),
        RequestItem::Header("Accept".to_string(), "application/json".to_string()),
        RequestItem::Body("name".to_string(), "test".to_string()),
    ];
    let auth = Some(Auth::Bearer("0123456789abcdefghijklmno".to_string()));
    let out = assemble_request(Method::Post, "https://example.com/send", &items, &auth, true);
    let info = out.verbose.expect("verbose info requested");
    assert_eq!(info.full_url(), "https://example.com/send?page=1");
    let lines = info.trace_lines();
    assert_eq!(lines[0], "POST /send?page=1 HTTP/1.1");
    assert_eq!(lines[1], "Host: example.com");
    // "Bearer 0123456789abcdefghijklmno" is 32 characters, so it is masked
    assert_eq!(lines[2], "Authorization: Bearer 012...klmno");
    assert_eq!(lines[3], "Accept: application/json");
    assert_eq!(lines[4], "Content-Type: application/json");
    assert_eq!(lines[5], "");
    // the JSON body pretty-prints over three lines
    assert_eq!(lines[6], "{");
    assert_eq!(lines[7], "  \"name\": \"test\"");
    assert_eq!(lines[8], "}");
    assert_eq!(lines.len(), 9);
}

#[test]
fn trace_lines_list_files() {
    let items = vec![
        RequestItem::FormFile("photo".to_string(), "/path/to/image.jpg".to_string()),
    ];
    let out = assemble_request(Method::Post, "https://example.com/up", &items, &None, true);
    let info = out.verbose.expect("verbose info requested");
    let lines = info.trace_lines();
    assert_eq!(lines[0], "POST /up HTTP/1.1");
    assert_eq!(lines[1], "Host: example.com");
    assert_eq!(lines[2], "Content-Type: multipart/form-data");
    assert_eq!(lines[3], "");
    assert_eq!(lines[4], "Files:");
    assert_eq!(lines[5], "photo @ image.jpg");
    assert_eq!(lines[6], "");
}
