use httprs::cli::{Cli, Command, Method, OutputFilter, ParseError, RequestArgs, RequestItem};
use httprs::parse_request_item;

fn plain_args(url: &str) -> RequestArgs {
    RequestArgs {
        url: url.to_string(),
        items: vec![],
        auth: None,
        verbose: false,
        timeout: 30,
        follow_redirects: false,
        max_redirects: 10,
        headers_only: false,
        body_only: false,
        download: false,
        output: None,
    }
}

#[test]
fn parse_request_item_works() {
    assert_eq!(
        parse_request_item("Authorization:Bearer token").unwrap(),
        RequestItem::Header("Authorization".into(), "Bearer token".into())
    );

    assert_eq!(
        parse_request_item("name=alice").unwrap(),
        RequestItem::Body("name".into(), "alice".into())
    );

    assert_eq!(
        parse_request_item("page==1").unwrap(),
        RequestItem::QueryParam("page".into(), "1".into())
    );

    assert_eq!(
        parse_request_item("search==hello world").unwrap(),
        RequestItem::QueryParam("search".into(), "hello world".into())
    );

    assert_eq!(
        parse_request_item("token=abc=def").unwrap(),
        RequestItem::Body("token".into(), "abc=def".into())
    );

    assert_eq!(
        parse_request_item("formula==a==b").unwrap(),
        RequestItem::QueryParam("formula".into(), "a==b".into())
    );

    assert!(parse_request_item("invalid").is_err());
    assert!(parse_request_item(":no-key").is_err());
    assert!(parse_request_item("=no-key").is_err());
    assert!(parse_request_item("==no-key").is_err());
}

#[test]
fn parse_query_param_edge_cases() {
    assert_eq!(
        parse_request_item("page==").unwrap(),
        RequestItem::QueryParam("page".into(), "".into())
    );

    assert_eq!(
        parse_request_item("query==hello&world").unwrap(),
        RequestItem::QueryParam("query".into(), "hello&world".into())
    );

    assert_eq!(
        parse_request_item("city==北京").unwrap(),
        RequestItem::QueryParam("city".into(), "北京".into())
    );
}

#[test]
fn output_filter_works() {
    let mut args = plain_args("http://example.com");
    args.headers_only = true;

    assert_eq!(args.output_filter(), OutputFilter::HeadersOnly);
}

#[test]
fn output_filter_body_only() {
    let mut args = plain_args("http://example.com");
    args.body_only = true;

    assert_eq!(args.output_filter(), OutputFilter::BodyOnly);
}

#[test]
fn output_filter_all() {
    let args = plain_args("http://example.com");

    assert_eq!(args.output_filter(), OutputFilter::All);
}

#[test]
fn command_method_works() {
    let get_cmd = Command::Get(plain_args("http://example.com"));

    assert_eq!(get_cmd.method(), Method::Get);
}

#[test]
fn command_args_and_cli() {
    let cli = Cli { command: Command::Post(plain_args("http://example.com")) };
    assert_eq!(cli.command.method(), Method::Post);
    assert_eq!(cli.command.args().url, "http://example.com");
    assert_eq!(cli.command.method().name(), "POST");
    assert!(Method::Head.drops_body());
    assert!(Method::Options.drops_body());
    assert!(Method::Get.drops_body());
    assert!(!Method::Put.drops_body());
}

#[test]
fn parse_header_with_spaces() {
    assert_eq!(
        parse_request_item("  Content-Type  :  application/json  ").unwrap(),
        RequestItem::Header("Content-Type".into(), "application/json".into())
    );
}

#[test]
fn parse_body_with_equals() {
    // Body value contains single equals sign (not double)
    assert_eq!(
        parse_request_item("encoded=abc=def").unwrap(),
        RequestItem::Body("encoded".into(), "abc=def".into())
    );
}

#[test]
fn parse_empty_values() {
    assert_eq!(
        parse_request_item("key=").unwrap(),
        RequestItem::Body("key".into(), "".into())
    );

    assert_eq!(
        parse_request_item("Header:").unwrap(),
        RequestItem::Header("Header".into(), "".into())
    );
}

#[test]
fn parse_email_address_in_body() {
    assert_eq!(
        parse_request_item("email=test@example.com").unwrap(),
        RequestItem::Body("email".into(), "test@example.com".into())
    );

    assert_eq!(
        parse_request_item("contact=user@domain.org").unwrap(),
        RequestItem::Body("contact".into(), "user@domain.org".into())
    );
}

#[test]
fn parse_email_in_query_param() {
    assert_eq!(
        parse_request_item("email==admin@test.com").unwrap(),
        RequestItem::QueryParam("email".into(), "admin@test.com".into())
    );
}

#[test]
fn parse_file_upload() {
    assert_eq!(
        parse_request_item("photo@/path/to/image.jpg").unwrap(),
        RequestItem::FormFile("photo".into(), "/path/to/image.jpg".into())
    );

    assert_eq!(
        parse_request_item("document@../files/report.pdf").unwrap(),
        RequestItem::FormFile("document".into(), "../files/report.pdf".into())
    );
}

#[test]
fn parse_file_upload_with_special_chars() {
    assert_eq!(
        parse_request_item("file@/home/user/file@backup.txt").unwrap(),
        RequestItem::FormFile("file".into(), "/home/user/file@backup.txt".into())
    );
}

#[test]
fn parse_value_with_multiple_at_signs() {
    assert_eq!(
        parse_request_item("mentions=@user1,@user2,@user3").unwrap(),
        RequestItem::Body("mentions".into(), "@user1,@user2,@user3".into())
    );
}

#[test]
fn parse_complex_email_scenarios() {
    assert_eq!(
        parse_request_item("from=John Doe
  <john@example.com>").unwrap(),
        RequestItem::Body("from".into(), "John Doe
  <john@example.com>".into())
    );
}

#[test]
fn parse_errors_on_invalid_file() {
    assert!(parse_request_item("@no-key").is_err());
    assert!(parse_request_item("key@").is_err());
}

#[test]
fn parse_error_kinds() {
    assert!(matches!(
        parse_request_item("@no-key"),
        Err(ParseError::EmptyKey(_))
    ));
    assert!(matches!(
        parse_request_item("key@"),
        Err(ParseError::EmptyValue(_))
    ));
    assert!(matches!(
        parse_request_item("invalid"),
        Err(ParseError::InvalidFormat(_))
    ));
    let msg = parse_request_item("invalid").unwrap_err().message();
    assert!(msg.contains("invalid"));
}

#[test]
fn reclassify_exceptions_from_trimmed_whitespace() {
    // A body value beginning with '=' arises only when whitespace around
    // the operator was trimmed away; its serialized form reads as a query
    // parameter instead.
    let body = parse_request_item("a= =b").unwrap();
    assert_eq!(body, RequestItem::Body("a".into(), "=b".into()));
    assert_eq!(
        parse_request_item("a==b").unwrap(),
        RequestItem::QueryParam("a".into(), "b".into())
    );

    // Likewise a query key ending in '=' shifts the split when serialized.
    let query = parse_request_item("a= ==b").unwrap();
    assert_eq!(query, RequestItem::QueryParam("a=".into(), "b".into()));
    assert_eq!(
        parse_request_item("a===b").unwrap(),
        RequestItem::QueryParam("a".into(), "=b".into())
    );
}

#[test]
fn reclassify_serialized_items() {
    // classify, serialize as key + operator + value, classify again
    let header = parse_request_item("Header:a:b:c").unwrap();
    if let RequestItem::Header(k, v) = &header {
        let again = parse_request_item(&format!("{}:{}", k, v)).unwrap();
        assert_eq!(again, header);
    } else {
        panic!("expected a header");
    }

    let query = parse_request_item("formula==a==b").unwrap();
    if let RequestItem::QueryParam(k, v) = &query {
        let again = parse_request_item(&format!("{}=={}", k, v)).unwrap();
        assert_eq!(again, query);
    } else {
        panic!("expected a query parameter");
    }

    let body = parse_request_item("token=abc=def").unwrap();
    if let RequestItem::Body(k, v) = &body {
        let again = parse_request_item(&format!("{}={}", k, v)).unwrap();
        assert_eq!(again, body);
    } else {
        panic!("expected a body field");
    }
}
