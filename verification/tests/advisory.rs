use audit_check::advisory::{
    parse_caps, parse_rustsec, text_or, CRATE_FIELD, ID_FIELD, SOLUTION_FIELD, URL_FIELD,
    WARNING_FIELD,
};
use audit_check::field::{find_field, find_in_lines, head_of, line_begins_with, value_of_line};
use audit_check::text::chars_of;

#[test]
fn parse_rustsec_reads_every_field() {
    let block = "Crate:     smallvec\nVersion:   0.4.5\nWarning:   unsound\nTitle:     smallvec creates uninitialized value of any type\nDate:      2018-09-25\nID:        RUSTSEC-2018-0018\nURL:       https://rustsec.org/advisories/RUSTSEC-2018-0018\nSolution:  Upgrade to >=0.6.3\nDependency tree:\nsmallvec 0.4.5";
    let record = parse_rustsec(block);
    assert_eq!(record.id, "RUSTSEC-2018-0018");
    assert_eq!(record.url, "https://rustsec.org/advisories/RUSTSEC-2018-0018");
    assert_eq!(record.krate, "smallvec");
    assert_eq!(record.version, "0.4.5");
    assert_eq!(record.warning, "unsound");
    assert_eq!(
        record.title,
        "smallvec creates uninitialized value of any type"
    );
    assert_eq!(record.date, "2018-09-25");
    assert_eq!(record.solution, "Upgrade to >=0.6.3");
    assert_eq!(record.raw, block);
}

#[test]
fn parse_rustsec_fills_in_what_a_block_does_not_say() {
    let record = parse_rustsec("nothing of use");
    assert_eq!(record.id, "unknown");
    assert_eq!(record.url, "No URL");
    assert_eq!(record.krate, "No Crate");
    assert_eq!(record.version, "No Version");
    assert_eq!(record.warning, "No Warning");
    assert_eq!(record.title, "No Title");
    assert_eq!(record.date, "No Date");
    assert_eq!(record.solution, "No Solution");
    assert_eq!(record.raw, "nothing of use");
}

#[test]
fn parse_rustsec_of_a_block_with_its_identifier_only() {
    let record = parse_rustsec("ID:        RUSTSEC-2021-0065");
    assert_eq!(record.id, "RUSTSEC-2021-0065");
    assert_eq!(record.url, "No URL");
    assert_eq!(record.krate, "No Crate");
    assert_eq!(record.version, "No Version");
    assert_eq!(record.warning, "No Warning");
    assert_eq!(record.title, "No Title");
    assert_eq!(record.date, "No Date");
    assert_eq!(record.solution, "No Solution");
}

#[test]
fn parse_rustsec_without_an_id_line_is_unknown() {
    let record = parse_rustsec("Crate:     aovec\nVersion:   1.1.0\nDate:      2020-12-10");
    assert_eq!(record.id, "unknown");
    assert_eq!(record.krate, "aovec");
    assert_eq!(record.version, "1.1.0");
    assert_eq!(record.date, "2020-12-10");
}

#[test]
fn parse_rustsec_takes_whatever_value_a_field_has() {
    assert_eq!(parse_rustsec("ID:  CVE-2020-1").id, "CVE-2020-1");
    assert_eq!(parse_rustsec("ID:  RUSTSEC-2020-1").id, "RUSTSEC-2020-1");
    assert_eq!(parse_rustsec("ID:  17").id, "17");
    assert_eq!(
        parse_rustsec("URL: http://example.org").url,
        "http://example.org"
    );
    assert_eq!(
        parse_rustsec("URL: https://example.org").url,
        "https://example.org"
    );
    assert_eq!(parse_rustsec("URL: not an address").url, "not an address");
    assert_eq!(parse_rustsec("Date: tomorrow").date, "tomorrow");
    assert_eq!(parse_rustsec("Version: latest").version, "latest");
}

#[test]
fn parse_rustsec_reads_an_address_that_is_not_https() {
    let record = parse_rustsec(
        "ID:        RUSTSEC-2021-0065\nURL:       http://example.org/RUSTSEC-2021-0065",
    );
    assert_eq!(record.url, "http://example.org/RUSTSEC-2021-0065");
    assert_eq!(record.id, "RUSTSEC-2021-0065");
}

#[test]
fn parse_rustsec_reads_a_field_from_its_own_line_only() {
    let record = parse_rustsec(
        "Title:     supersedes ID: RUSTSEC-2000-0001\nID:        RUSTSEC-2021-0065",
    );
    assert_eq!(record.id, "RUSTSEC-2021-0065");
    assert_eq!(record.title, "supersedes ID: RUSTSEC-2000-0001");
}

#[test]
fn a_field_name_inside_a_value_is_no_field() {
    let record = parse_rustsec(
        "Title: see URL: https://a.example and Crate: x\nSolution: Date: 2001-01-01 Version: 2\nWarning: Title: none",
    );
    assert_eq!(record.title, "see URL: https://a.example and Crate: x");
    assert_eq!(record.solution, "Date: 2001-01-01 Version: 2");
    assert_eq!(record.warning, "Title: none");
    assert_eq!(record.url, "No URL");
    assert_eq!(record.krate, "No Crate");
    assert_eq!(record.date, "No Date");
    assert_eq!(record.version, "No Version");
    assert_eq!(record.id, "unknown");
}

#[test]
fn a_field_begins_its_line() {
    assert_eq!(parse_rustsec(" ID: RUSTSEC-1").id, "unknown");
    assert_eq!(parse_rustsec("\tID: RUSTSEC-1").id, "unknown");
    assert_eq!(parse_rustsec("XID: RUSTSEC-1").id, "unknown");
    assert_eq!(parse_rustsec("first\nID: RUSTSEC-1").id, "RUSTSEC-1");
    assert_eq!(parse_rustsec("first\r\nID: RUSTSEC-1\r\nlast").id, "RUSTSEC-1");
}

#[test]
fn fields_are_trimmed() {
    let record = parse_rustsec("Crate:   tab \t \nID: RUSTSEC-0000-0009  \r\nTitle:  \t spaced out\u{a0}\n");
    assert_eq!(record.krate, "tab");
    assert_eq!(record.id, "RUSTSEC-0000-0009");
    assert_eq!(record.title, "spaced out");
}

#[test]
fn a_field_needs_a_space_after_its_colon() {
    assert_eq!(parse_rustsec("Crate:aovec").krate, "No Crate");
    assert_eq!(parse_rustsec("Crate:\taovec").krate, "No Crate");
    assert_eq!(parse_rustsec("Crate:").krate, "No Crate");
    assert_eq!(parse_rustsec("Crate aovec").krate, "No Crate");
    assert_eq!(parse_rustsec("crate: aovec").krate, "No Crate");
    assert_eq!(parse_rustsec("Crate: aovec").krate, "aovec");
    assert_eq!(parse_rustsec("Crate: \taovec").krate, "aovec");
    assert_eq!(parse_rustsec("Crate: ").krate, "");
    assert_eq!(parse_rustsec("Crate:     ").krate, "");
}

#[test]
fn the_first_line_of_a_field_is_taken() {
    let record = parse_rustsec("Crate: one\nCrate: two");
    assert_eq!(record.krate, "one");
    let record = parse_rustsec("Crate:\nCrate: two\nCrate: three");
    assert_eq!(record.krate, "two");
}

#[test]
fn parse_caps_gives_the_default_where_nothing_is_found() {
    assert_eq!(parse_caps(ID_FIELD, "ID: RUSTSEC-1", "none"), "RUSTSEC-1");
    assert_eq!(parse_caps(ID_FIELD, "Crate: x", "none"), "none");
    assert_eq!(parse_caps(CRATE_FIELD, "Crate:  x ", "none"), "x");
    assert_eq!(parse_caps(URL_FIELD, "", "No URL"), "No URL");
}

#[test]
fn parse_caps_takes_any_name() {
    assert_eq!(parse_caps("Dependency tree", "a\nDependency tree: b", "none"), "b");
    assert_eq!(parse_caps("", ": value", "none"), "value");
    assert_eq!(parse_caps("a.*", "abc: x\na.*: y", "none"), "y");
    assert_eq!(parse_caps("Severity", "ID: RUSTSEC-1", "none"), "none");
}

#[test]
fn find_field_tells_a_found_field_from_a_missing_one() {
    assert_eq!(
        find_field(WARNING_FIELD, "Warning:   unsound"),
        Some("unsound".to_string())
    );
    assert_eq!(find_field(WARNING_FIELD, "Title:   unsound"), None);
    assert_eq!(find_field(WARNING_FIELD, "Warning: "), Some(String::new()));
    assert_eq!(find_field(SOLUTION_FIELD, ""), None);
    assert_eq!(find_field(SOLUTION_FIELD, "\n\n"), None);
}

#[test]
fn find_in_lines_takes_the_first_line_that_gives_the_field() {
    let lines = vec![
        chars_of("Title: ID: no"),
        chars_of("ID:"),
        chars_of("ID:   first  "),
        chars_of("ID: second"),
    ];
    assert_eq!(find_in_lines(&lines, "ID"), Some("first".to_string()));
    assert_eq!(find_in_lines(&lines, "Title"), Some("ID: no".to_string()));
    assert_eq!(find_in_lines(&lines, "URL"), None);
    assert_eq!(find_in_lines(&Vec::new(), "ID"), None);
}

#[test]
fn value_of_line_is_what_follows_the_head() {
    let head = head_of("Date");
    assert_eq!(head, chars_of("Date: "));
    assert_eq!(
        value_of_line(&chars_of("Date:      2020-12-10"), &head),
        Some("2020-12-10".to_string())
    );
    assert_eq!(value_of_line(&chars_of("Date: "), &head), Some(String::new()));
    assert_eq!(value_of_line(&chars_of("Date:"), &head), None);
    assert_eq!(value_of_line(&chars_of("Dat"), &head), None);
    assert_eq!(value_of_line(&chars_of("Update: 1"), &head), None);
    assert_eq!(value_of_line(&chars_of(""), &head), None);
}

#[test]
fn line_begins_with_compares_the_first_characters() {
    assert!(line_begins_with(&chars_of("ID: x"), &chars_of("ID: ")));
    assert!(line_begins_with(&chars_of("ID: "), &chars_of("ID: ")));
    assert!(line_begins_with(&chars_of("anything"), &chars_of("")));
    assert!(line_begins_with(&chars_of(""), &chars_of("")));
    assert!(!line_begins_with(&chars_of("ID:"), &chars_of("ID: ")));
    assert!(!line_begins_with(&chars_of("Id: x"), &chars_of("ID: ")));
    assert!(!line_begins_with(&chars_of(" ID: x"), &chars_of("ID: ")));
    assert!(!line_begins_with(&chars_of(""), &chars_of("ID: ")));
}

#[test]
fn text_or_prefers_the_value() {
    assert_eq!(text_or(Some("value".to_string()), "default"), "value");
    assert_eq!(text_or(Some(String::new()), "default"), "");
    assert_eq!(text_or(None, "default"), "default");
}
