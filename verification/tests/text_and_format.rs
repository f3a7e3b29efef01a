use interfere::format::MimeType;
use interfere::format::detect_mime_type;
use interfere::format::format_response;
use interfere::model::HttpMethod;
use interfere::model::MyErr;
use interfere::request::strip_url;
use interfere::ui::Icons;
use interfere::ui::match_icon;

#[test]
fn method_names_round_trip() {
    assert_eq!(HttpMethod::GET.as_str(), "GET");
    assert_eq!(HttpMethod::POST.as_str(), "POST");
    assert_eq!(HttpMethod::parse("GET"), Ok(HttpMethod::GET));
    assert_eq!(HttpMethod::parse("POST"), Ok(HttpMethod::POST));
    assert_eq!(HttpMethod::parse("get"), Err(()));
    assert_eq!(HttpMethod::parse(""), Err(()));
    assert_eq!(HttpMethod::parse(HttpMethod::POST.as_str()), Ok(HttpMethod::POST));
    assert_eq!("GET".parse::<HttpMethod>(), Ok(HttpMethod::GET));
    assert_eq!("PUT".parse::<HttpMethod>(), Err(()));
}

#[test]
fn error_banners_name_their_kind() {
    assert_eq!(
        MyErr::Unknown("x".to_string()).message(),
        "Unknown error: x"
    );
    assert_eq!(
        MyErr::Client("bad scheme".to_string()).message(),
        "Interfere error: bad scheme"
    );
}

#[test]
fn strip_url_drops_the_scheme() {
    assert_eq!(strip_url("https://example.com/a"), "example.com/a");
    assert_eq!(strip_url("http://example.com"), "example.com");
    assert_eq!(strip_url("ftp://example.com"), "ftp://example.com");
    assert_eq!(strip_url(""), "");
}

#[test]
fn sniffer_recognises_the_content_kinds() {
    assert_eq!(detect_mime_type(""), MimeType::Plain);
    assert_eq!(detect_mime_type("   \n"), MimeType::Plain);
    assert_eq!(detect_mime_type("{\"a\": 1}"), MimeType::Json);
    assert_eq!(detect_mime_type("  [1, 2]  "), MimeType::Json);
    assert_eq!(detect_mime_type("{oops"), MimeType::Plain);
    assert_eq!(
        detect_mime_type("<!DOCTYPE html><html><body></body></html>"),
        MimeType::Html
    );
    assert_eq!(detect_mime_type("<svg><rect/></svg>"), MimeType::Svg);
    assert_eq!(
        detect_mime_type("<?xml version=\"1.0\"?><root></root>"),
        MimeType::Xml
    );
    assert_eq!(detect_mime_type("<note><to>x</to></note>"), MimeType::Xml);
    assert_eq!(detect_mime_type("--- \nkey: value"), MimeType::Yaml);
    assert_eq!(detect_mime_type("a: 1\nlist:\n- x"), MimeType::Yaml);
    assert_eq!(detect_mime_type("key: value other: 2"), MimeType::Plain);
    assert_eq!(detect_mime_type("just some text"), MimeType::Plain);
}

#[test]
fn json_is_pretty_printed() {
    assert_eq!(format_response("{\"a\":1}"), "{\n  \"a\": 1\n}");
    assert_eq!(format_response("  {\"a\":[1,2]}  "), "{\n  \"a\": [\n    1,\n    2\n  ]\n}");
}

#[test]
fn plain_text_passes_through_unchanged() {
    assert_eq!(format_response("hello there"), "hello there");
    assert_eq!(format_response("key: value\nx: 1"), "key: value\nx: 1");
}

#[test]
fn html_goes_through_the_formatter() {
    let input = "<!DOCTYPE html><html><head></head><body><p>hi</p></body></html>";
    let out = format_response(input);
    assert!(out.contains('\n'));
    assert!(out.contains("<p>hi</p>"));
}

#[test]
fn icons_map_to_their_asset_files() {
    assert_eq!(match_icon(Icons::Plus), "add.svg");
    assert_eq!(match_icon(Icons::Enter), "enter.svg");
    assert_eq!(match_icon(Icons::Left), "arrow-left.svg");
    assert_eq!(match_icon(Icons::Format), "format.svg");
}
