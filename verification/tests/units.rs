use ubuntu_ami::filter_records;
use ubuntu_ami::lookup_in_rows;
use ubuntu_ami::parse_ami;
use ubuntu_ami::patch_tail;
use ubuntu_ami::record_of_row;
use ubuntu_ami::records_of_rows;
use ubuntu_ami::select_latest;
use ubuntu_ami::CatalogRecord;
use ubuntu_ami::LookupError;

fn rec(region: &str, date: &str, markup: &str) -> CatalogRecord {
    CatalogRecord {
        region: region.to_string(),
        release_name: "bionic".to_string(),
        release_number: "18.04".to_string(),
        architecture: "amd64".to_string(),
        instance_type: "hvm:ebs-ssd".to_string(),
        publish_date: date.to_string(),
        image_markup: markup.to_string(),
        hvm_flag: "hvm".to_string(),
    }
}

fn plain_row(region: &str, date: &str, markup: &str) -> Vec<String> {
    vec![
        region.to_string(),
        "bionic".to_string(),
        "18.04".to_string(),
        "amd64".to_string(),
        "hvm:ebs-ssd".to_string(),
        date.to_string(),
        markup.to_string(),
        "hvm".to_string(),
    ]
}

#[test]
fn patch_replaces_commas_only_in_the_window() {
    // 14 characters; the last 10 start at 'd,ef...'.
    let r = patch_tail("a,bcd,ef,ghij,").unwrap();
    assert_eq!(r, "a,bcd ef ghij ");
}

#[test]
fn patch_keeps_positions() {
    let r = patch_tail("0123456789,123456789").unwrap();
    assert_eq!(r.len(), 20);
    assert_eq!(r, "0123456789 123456789");
}

#[test]
fn patch_rejects_short_bodies() {
    assert_eq!(patch_tail(""), Err(LookupError::MalformedPayloadError));
    assert_eq!(patch_tail("123456789"), Err(LookupError::MalformedPayloadError));
    assert_eq!(patch_tail("0123456789"), Err(LookupError::MalformedPayloadError));
    assert!(patch_tail("0123456789a").is_ok());
}

#[test]
fn extract_finds_identifier_between_delimiters() {
    assert_eq!(parse_ami("<a href=\"x\">ami-0abc</a>"), Some("ami-0abc"));
    let long = "<a href=\"https://console.aws.amazon.com/ec2/home?region=us-east-1#launchAmi=ami-085925f297f89fce1\">ami-085925f297f89fce1</a>";
    assert_eq!(parse_ami(long), Some("ami-085925f297f89fce1"));
}

#[test]
fn extract_rejects_missing_or_inverted_delimiters() {
    assert_eq!(parse_ami("ami-0abc"), None);
    assert_eq!(parse_ami("no closing delimiter >"), None);
    assert_eq!(parse_ami("< inverted >"), None);
    assert_eq!(parse_ami(""), None);
}

#[test]
fn decode_maps_fields_positionally() {
    let rows = vec![
        plain_row("us-east-1", "20200101", "<a href=\"u\">ami-111</a>"),
        plain_row("eu-west-1", "20200301", "<a href=\"u\">ami-222</a>"),
    ];
    let recs = records_of_rows(&rows).unwrap();
    assert_eq!(recs.len(), 2);
    assert_eq!(recs[0].region, "us-east-1");
    assert_eq!(recs[0].release_name, "bionic");
    assert_eq!(recs[0].release_number, "18.04");
    assert_eq!(recs[0].architecture, "amd64");
    assert_eq!(recs[0].instance_type, "hvm:ebs-ssd");
    assert_eq!(recs[0].publish_date, "20200101");
    assert_eq!(recs[0].image_markup, "<a href=\"u\">ami-111</a>");
    assert_eq!(recs[0].hvm_flag, "hvm");
    assert_eq!(recs[1].region, "eu-west-1");
}

#[test]
fn decode_rejects_wrong_arity() {
    let short: Vec<String> = vec!["only".to_string(), "two".to_string()];
    assert!(matches!(record_of_row(&short), Err(LookupError::DecodeError)));
    let rows = vec![plain_row("us-east-1", "20200101", "m"), short.clone()];
    assert!(matches!(records_of_rows(&rows), Err(LookupError::DecodeError)));
}

#[test]
fn filter_without_optionals_keeps_all_of_the_region() {
    let records = vec![
        rec("us-east-1", "20200101", "a"),
        rec("eu-west-1", "20200102", "b"),
        rec("us-east-1", "20200103", "c"),
    ];
    let out = filter_records(&records, "us-east-1", None, None, None, None);
    assert_eq!(out.len(), 2);
    assert_eq!(out[0].image_markup, "a");
    assert_eq!(out[1].image_markup, "c");
}

#[test]
fn filter_with_all_criteria_takes_the_intersection() {
    let mut other = rec("us-east-1", "20200104", "d");
    other.architecture = "arm64".to_string();
    let records = vec![rec("us-east-1", "20200101", "a"), other];
    let all = filter_records(
        &records,
        "us-east-1",
        Some("bionic"),
        Some("18.04"),
        Some("hvm:ebs-ssd"),
        Some("amd64"),
    );
    assert_eq!(all.len(), 1);
    assert_eq!(all[0].image_markup, "a");
    let none = filter_records(&records, "us-east-1", Some("focal"), None, None, None);
    assert_eq!(none.len(), 0);
}

#[test]
fn filter_matches_exactly_no_normalization() {
    let records = vec![rec("US-EAST-1", "20200101", "a")];
    assert_eq!(filter_records(&records, "us-east-1", None, None, None, None).len(), 0);
    assert_eq!(filter_records(&records, "US-EAST-1", None, None, None, None).len(), 1);
}

#[test]
fn select_on_empty_set_is_not_found() {
    let records: Vec<CatalogRecord> = Vec::new();
    assert!(matches!(select_latest(&records), Err(LookupError::NotFoundError)));
}

#[test]
fn select_takes_greater_date_in_either_order() {
    let early = rec("us-east-1", "20200101", "early");
    let late = rec("us-east-1", "20200301", "late");
    let one = select_latest(&vec![early.clone(), late.clone()]).unwrap();
    assert_eq!(one.image_markup, "late");
    let two = select_latest(&vec![late, early]).unwrap();
    assert_eq!(two.image_markup, "late");
}

#[test]
fn select_on_equal_dates_takes_the_last() {
    let a = rec("us-east-1", "20200101", "first");
    let b = rec("us-east-1", "20200101", "second");
    let chosen = select_latest(&vec![a, b]).unwrap();
    assert_eq!(chosen.image_markup, "second");
}

#[test]
fn lookup_in_rows_scenario_later_date_wins() {
    let rows = vec![
        plain_row("us-east-1", "20200101", "<a href=\"u\">ami-111</a>"),
        plain_row("us-east-1", "20200301", "<a href=\"u\">ami-222</a>"),
    ];
    let r = lookup_in_rows(
        &rows,
        "us-east-1",
        Some("bionic"),
        None,
        Some("hvm:ebs-ssd"),
        Some("amd64"),
    );
    assert_eq!(r.unwrap(), "ami-222");
}

#[test]
fn lookup_in_rows_no_match_is_not_found() {
    let rows = vec![
        plain_row("us-east-1", "20200101", "<a href=\"u\">ami-111</a>"),
        plain_row("us-east-1", "20200301", "<a href=\"u\">ami-222</a>"),
    ];
    let r = lookup_in_rows(&rows, "us-east-1", Some("bionic"), None, None, Some("arm64"));
    assert_eq!(r, Err(LookupError::NotFoundError));
}
