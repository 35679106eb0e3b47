use ubuntu_ami::get_latest;
use ubuntu_ami::LookupError;

fn row(
    region: &str,
    release_name: &str,
    release_number: &str,
    architecture: &str,
    instance_type: &str,
    date: &str,
    markup: &str,
    hvm: &str,
) -> String {
    format!(
        "[\"{}\",\"{}\",\"{}\",\"{}\",\"{}\",\"{}\",\"{}\",\"{}\"]",
        region, release_name, release_number, architecture, instance_type, date, markup, hvm
    )
}

/// A raw catalog body with the upstream defect: a trailing comma before
/// the closing brace, inside the last ten characters.
fn raw_body(rows: &[String]) -> String {
    format!("{{\"aaData\":[{}],        }}", rows.join(","))
}

fn two_rows() -> Vec<String> {
    vec![
        row(
            "us-east-1",
            "bionic",
            "18.04",
            "amd64",
            "hvm:ebs-ssd",
            "20200101",
            "<a href=\\\"u\\\">ami-111</a>",
            "hvm",
        ),
        row(
            "us-east-1",
            "bionic",
            "18.04",
            "amd64",
            "hvm:ebs-ssd",
            "20200301",
            "<a href=\\\"u\\\">ami-222</a>",
            "hvm",
        ),
    ]
}

#[test]
fn full_pipeline_later_date_wins() {
    let body = raw_body(&two_rows());
    let r = get_latest(
        &body,
        "us-east-1",
        Some("bionic"),
        None,
        Some("hvm:ebs-ssd"),
        Some("amd64"),
    );
    assert_eq!(r.unwrap(), "ami-222");
}

#[test]
fn full_pipeline_no_match_is_not_found() {
    let body = raw_body(&two_rows());
    let r = get_latest(
        &body,
        "us-east-1",
        Some("bionic"),
        None,
        Some("hvm:ebs-ssd"),
        Some("arm64"),
    );
    assert_eq!(r, Err(LookupError::NotFoundError));
}

#[test]
fn short_body_is_malformed_payload() {
    assert_eq!(
        get_latest("", "us-east-1", None, None, None, None),
        Err(LookupError::MalformedPayloadError)
    );
    // Exactly at the patch window length: still malformed, no panic.
    assert_eq!(
        get_latest("0123456789", "us-east-1", None, None, None, None),
        Err(LookupError::MalformedPayloadError)
    );
}

#[test]
fn body_above_window_reaches_the_parser() {
    // Above the window: the patch succeeds, the parse fails.
    assert_eq!(
        get_latest("not json at all", "us-east-1", None, None, None, None),
        Err(LookupError::DecodeError)
    );
}

#[test]
fn top_level_not_an_object_is_decode_error() {
    assert_eq!(
        get_latest("[1]           ", "us-east-1", None, None, None, None),
        Err(LookupError::DecodeError)
    );
}

#[test]
fn object_without_properties_is_decode_error() {
    assert_eq!(
        get_latest("{          }", "us-east-1", None, None, None, None),
        Err(LookupError::DecodeError)
    );
}

#[test]
fn first_property_not_an_array_is_decode_error() {
    assert_eq!(
        get_latest("{\"a\":1     }", "us-east-1", None, None, None, None),
        Err(LookupError::DecodeError)
    );
}

#[test]
fn row_not_an_array_is_decode_error() {
    assert_eq!(
        get_latest("{\"a\":[1]          }", "us-east-1", None, None, None, None),
        Err(LookupError::DecodeError)
    );
}

#[test]
fn row_element_not_a_string_is_decode_error() {
    assert_eq!(
        get_latest(
            "{\"a\":[[1,2,3,4,5,6,7,8]]          }",
            "us-east-1",
            None,
            None,
            None,
            None
        ),
        Err(LookupError::DecodeError)
    );
}

#[test]
fn row_of_wrong_arity_is_decode_error() {
    assert_eq!(
        get_latest(
            "{\"a\":[[\"x\",\"y\"]]          }",
            "us-east-1",
            None,
            None,
            None,
            None
        ),
        Err(LookupError::DecodeError)
    );
}

#[test]
fn bad_markup_is_extraction_error() {
    let rows = vec![row(
        "us-east-1",
        "bionic",
        "18.04",
        "amd64",
        "hvm:ebs-ssd",
        "20200101",
        "no delimiters here",
        "hvm",
    )];
    let body = raw_body(&rows);
    let r = get_latest(&body, "us-east-1", None, None, None, None);
    assert_eq!(r, Err(LookupError::ExtractionError));
}
