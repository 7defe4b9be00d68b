use httprs::download::{
    determine_filename, extract_filename_from_url, filename_from_content_disposition,
};

#[test]
fn content_disposition_plain_filename() {
    assert_eq!(
        filename_from_content_disposition("attachment; filename=report.pdf"),
        Some("report.pdf".to_string())
    );
    assert_eq!(
        filename_from_content_disposition("attachment; filename=\"report.pdf\""),
        Some("report.pdf".to_string())
    );
    assert_eq!(
        filename_from_content_disposition("attachment; filename='report.pdf'"),
        Some("report.pdf".to_string())
    );
}

#[test]
fn content_disposition_extended_filename() {
    assert_eq!(
        filename_from_content_disposition("attachment; filename*=UTF-8''na%C3%AFve.txt"),
        Some("na%C3%AFve.txt".to_string())
    );
}

#[test]
fn content_disposition_first_match_wins() {
    assert_eq!(
        filename_from_content_disposition("inline; filename=a.txt; filename*=UTF-8''b.txt"),
        Some("a.txt".to_string())
    );
    // an empty plain name is passed over in favor of a later parameter
    assert_eq!(
        filename_from_content_disposition("inline; filename=\"\"; filename*=UTF-8''b.txt"),
        Some("b.txt".to_string())
    );
}

#[test]
fn content_disposition_without_filename() {
    assert_eq!(filename_from_content_disposition("inline"), None);
    assert_eq!(filename_from_content_disposition("attachment; filename="), None);
    assert_eq!(
        filename_from_content_disposition("attachment; filename*=missing-marker"),
        None
    );
}

#[test]
fn test_extract_filename_from_url() {
    assert_eq!(
        extract_filename_from_url("https://example.com/file.zip"),
        "file.zip"
    );
    assert_eq!(
        extract_filename_from_url("https://example.com/path/to/document.pdf"),
        "document.pdf"
    );
    assert_eq!(
        extract_filename_from_url("https://example.com/"),
        "index.html"
    );
    assert_eq!(
        extract_filename_from_url("https://example.com"),
        "index.html"
    );
}

#[test]
fn test_extract_filename_from_url_with_query() {
    assert_eq!(
        extract_filename_from_url("https://example.com/file.zip?version=1"),
        "file.zip"
    );
}

#[test]
fn test_extract_filename_invalid_url() {
    assert_eq!(extract_filename_from_url("not a url"), "index.html");
}

#[test]
fn test_extract_filename_with_trailing_slash() {
    // Trailing slash after a path segment still extracts the segment name
    assert_eq!(
        extract_filename_from_url("https://example.com/path/"),
        "path"
    );

    // Root path with trailing slash returns index.html
    assert_eq!(
        extract_filename_from_url("https://example.com/"),
        "index.html"
    );
}

#[test]
fn test_extract_filename_with_fragment() {
    assert_eq!(
        extract_filename_from_url("https://example.com/file.pdf#section1"),
        "file.pdf"
    );
}

#[test]
fn test_extract_filename_nested_path() {
    assert_eq!(
        extract_filename_from_url("https://example.com/a/b/c/d/file.txt"),
        "file.txt"
    );
}

#[test]
fn test_extract_filename_no_extension() {
    assert_eq!(
        extract_filename_from_url("https://example.com/downloads/myfile"),
        "myfile"
    );
}

#[test]
fn filename_choice_order() {
    let url = "https://example.com/file.zip";
    assert_eq!(
        determine_filename(&Some("out.bin".to_string()), &Some("from-header.txt".to_string()), url),
        "out.bin"
    );
    assert_eq!(
        determine_filename(&None, &Some("from-header.txt".to_string()), url),
        "from-header.txt"
    );
    assert_eq!(determine_filename(&None, &None, url), "file.zip");
}
