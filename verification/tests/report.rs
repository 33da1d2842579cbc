use audit_check::advisory::parse_rustsec;
use audit_check::issue::{generate_body, generate_title};
use audit_check::report::{parse, AdvisoryReportSet};

const TEST_RUSTSEC: &str = r"Crate:     aovec
Version:   1.1.0
Title:     Aovec<T> lacks bound on its Send and Sync traits allowing data races
Date:      2020-12-10
ID:        RUSTSEC-2020-0099
URL:       https://rustsec.org/advisories/RUSTSEC-2020-0099
Solution:  No fixed upgrade is available!
Dependency tree:
aovec 1.1.0
└── audit-check-test 0.1.0

Crate:     owning_ref
Version:   0.3.3
Title:     Multiple soundness issues in `owning_ref`
Date:      2022-01-26
ID:        RUSTSEC-2022-0040
URL:       https://rustsec.org/advisories/RUSTSEC-2022-0040
Solution:  No fixed upgrade is available!
Dependency tree:
owning_ref 0.3.3
└── parking_lot 0.4.8
    └── aovec 1.1.0
        └── audit-check-test 0.1.0

Crate:     anymap
Version:   0.12.1
Warning:   unmaintained
Title:     anymap is unmaintained.
Date:      2021-05-07
ID:        RUSTSEC-2021-0065
URL:       https://rustsec.org/advisories/RUSTSEC-2021-0065
Dependency tree:
anymap 0.12.1
└── audit-check-test 0.1.0

Crate:     smallvec
Version:   0.4.5
Warning:   unsound
Title:     smallvec creates uninitialized value of any type
Date:      2018-09-25
ID:        RUSTSEC-2018-0018
URL:       https://rustsec.org/advisories/RUSTSEC-2018-0018
Dependency tree:
smallvec 0.4.5
└── aovec 1.1.0
    └── audit-check-test 0.1.0
";

#[test]
fn parse_works() {
    assert_eq!(4, parse(TEST_RUSTSEC).len());
}

#[test]
fn generate_title_works() {
    let rustsec_map = parse(TEST_RUSTSEC);
    assert_eq!(
        "RUSTSEC-2018-0018, RUSTSEC-2020-0099, RUSTSEC-2021-0065, RUSTSEC-2022-0040",
        generate_title(&rustsec_map)
    );
}

#[test]
fn parse_twice_gives_the_same_set() {
    let first = parse(TEST_RUSTSEC);
    let second = parse(TEST_RUSTSEC);
    assert_eq!(first.len(), second.len());
    for i in 0..first.len() {
        let a = first.record(i);
        let b = second.record(i);
        assert_eq!(a.id, b.id);
        assert_eq!(a.url, b.url);
        assert_eq!(a.krate, b.krate);
        assert_eq!(a.version, b.version);
        assert_eq!(a.warning, b.warning);
        assert_eq!(a.title, b.title);
        assert_eq!(a.date, b.date);
        assert_eq!(a.solution, b.solution);
        assert_eq!(a.raw, b.raw);
    }
}

#[test]
fn parse_reads_the_fields_of_each_advisory() {
    let set = parse(TEST_RUSTSEC);
    let anymap = set.get("RUSTSEC-2021-0065").unwrap();
    assert_eq!(anymap.id, "RUSTSEC-2021-0065");
    assert_eq!(anymap.url, "https://rustsec.org/advisories/RUSTSEC-2021-0065");
    assert_eq!(anymap.krate, "anymap");
    assert_eq!(anymap.version, "0.12.1");
    assert_eq!(anymap.warning, "unmaintained");
    assert_eq!(anymap.title, "anymap is unmaintained.");
    assert_eq!(anymap.date, "2021-05-07");
    assert_eq!(anymap.solution, "No Solution");
    assert_eq!(
        anymap.raw,
        "Crate:     anymap\nVersion:   0.12.1\nWarning:   unmaintained\nTitle:     anymap is unmaintained.\nDate:      2021-05-07\nID:        RUSTSEC-2021-0065\nURL:       https://rustsec.org/advisories/RUSTSEC-2021-0065\nDependency tree:\nanymap 0.12.1\n└── audit-check-test 0.1.0"
    );

    let owning_ref = set.get("RUSTSEC-2022-0040").unwrap();
    assert_eq!(owning_ref.warning, "No Warning");
    assert_eq!(owning_ref.solution, "No fixed upgrade is available!");
    assert!(set.get("RUSTSEC-1999-0001").is_none());
}

#[test]
fn parse_hands_the_advisories_out_in_ascending_order() {
    let set = parse(TEST_RUSTSEC);
    assert!(!set.is_empty());
    assert_eq!(set.record(0).id, "RUSTSEC-2018-0018");
    assert_eq!(set.record(1).id, "RUSTSEC-2020-0099");
    assert_eq!(set.record(2).id, "RUSTSEC-2021-0065");
    assert_eq!(set.record(3).id, "RUSTSEC-2022-0040");
}

#[test]
fn parse_takes_the_header_off_the_first_block_only() {
    let text = "ID: RUSTSEC-0000-0001\nsecond\nthird\nfourth\nCrate: a\nID: RUSTSEC-0000-0002\n\none\ntwo\nthree\nfour\nID: RUSTSEC-0000-0003\n";
    let set = parse(text);
    assert_eq!(set.len(), 2);
    assert!(set.get("RUSTSEC-0000-0001").is_none());
    let first = set.get("RUSTSEC-0000-0002").unwrap();
    assert_eq!(first.raw, "Crate: a\nID: RUSTSEC-0000-0002");
    assert_eq!(first.krate, "a");
    let second = set.get("RUSTSEC-0000-0003").unwrap();
    assert_eq!(second.raw, "one\ntwo\nthree\nfour\nID: RUSTSEC-0000-0003\n");
}

#[test]
fn parse_of_a_short_first_block_leaves_it_empty() {
    let set = parse("one\ntwo\nID: RUSTSEC-0000-0001");
    assert_eq!(set.len(), 1);
    let only = set.record(0);
    assert_eq!(only.id, "unknown");
    assert_eq!(only.raw, "");
}

#[test]
fn parse_of_an_empty_text_gives_one_unknown_advisory() {
    let set = parse("");
    assert_eq!(set.len(), 1);
    assert_eq!(set.record(0).id, "unknown");
    assert_eq!(set.record(0).raw, "");
}

#[test]
fn parse_keeps_the_later_of_two_blocks_with_one_identifier() {
    let text = "a\nb\nc\nd\nCrate: first\nID: RUSTSEC-0000-0007\n\nCrate: second\nID: RUSTSEC-0000-0007";
    let set = parse(text);
    assert_eq!(set.len(), 1);
    assert_eq!(set.record(0).krate, "second");
    assert_eq!(set.record(0).raw, "Crate: second\nID: RUSTSEC-0000-0007");
}

#[test]
fn parse_gives_a_block_without_identifier_the_identifier_unknown() {
    let text = "a\nb\nc\nd\nCrate:  alpha\nVersion: 1.0.0\n\nCrate:  beta\nID:     RUSTSEC-0000-0002";
    let set = parse(text);
    assert_eq!(set.len(), 2);
    assert_eq!(set.record(0).id, "RUSTSEC-0000-0002");
    assert_eq!(set.record(1).id, "unknown");
    assert_eq!(set.record(1).krate, "alpha");
    assert_eq!(generate_title(&set), "RUSTSEC-0000-0002, unknown");
}

#[test]
fn generate_title_of_an_empty_set_is_empty() {
    let set = AdvisoryReportSet::new();
    assert!(set.is_empty());
    assert_eq!(set.len(), 0);
    assert_eq!(generate_title(&set), "");
    assert_eq!(generate_body(&set), "");
}

#[test]
fn generate_title_of_one_advisory_has_no_separator() {
    let mut set = AdvisoryReportSet::new();
    set.insert(parse_rustsec("ID: RUSTSEC-0000-0001"));
    assert_eq!(generate_title(&set), "RUSTSEC-0000-0001");
}

#[test]
fn insert_keeps_the_order_and_replaces_an_advisory() {
    let mut set = AdvisoryReportSet::new();
    set.insert(parse_rustsec("ID: RUSTSEC-0000-0003\nCrate: c"));
    set.insert(parse_rustsec("ID: RUSTSEC-0000-0001\nCrate: a"));
    set.insert(parse_rustsec("ID: RUSTSEC-0000-0002\nCrate: b"));
    set.insert(parse_rustsec("ID: RUSTSEC-0000-0001\nCrate: z"));
    assert_eq!(set.len(), 3);
    assert_eq!(
        generate_title(&set),
        "RUSTSEC-0000-0001, RUSTSEC-0000-0002, RUSTSEC-0000-0003"
    );
    assert_eq!(set.record(0).krate, "z");
    assert_eq!(set.get("RUSTSEC-0000-0002").unwrap().krate, "b");
}

#[test]
fn identifiers_are_ordered_by_code_point() {
    let mut set = AdvisoryReportSet::new();
    set.insert(parse_rustsec("ID: RUSTSEC-b"));
    set.insert(parse_rustsec("ID: RUSTSEC-B"));
    set.insert(parse_rustsec("ID: RUSTSEC-"));
    set.insert(parse_rustsec("ID: RUSTSEC-\u{e9}"));
    set.insert(parse_rustsec("ID: RUSTSEC-10"));
    set.insert(parse_rustsec("ID: RUSTSEC-9"));
    assert_eq!(
        generate_title(&set),
        "RUSTSEC-, RUSTSEC-10, RUSTSEC-9, RUSTSEC-B, RUSTSEC-b, RUSTSEC-\u{e9}"
    );
}

#[test]
fn generate_body_shows_every_advisory_with_its_block() {
    let text = "a\nb\nc\nd\nID: RUSTSEC-0000-0002\nURL: https://example.org/2\n\nID: RUSTSEC-0000-0001\nTitle: no address";
    let set = parse(text);
    assert_eq!(
        generate_body(&set),
        "# \u{203c}\u{fe0f} RUSTSEC-0000-0001 \u{203c}\u{fe0f}\nNo URL\n\n````\nID: RUSTSEC-0000-0001\nTitle: no address\n````\n\n# \u{203c}\u{fe0f} RUSTSEC-0000-0002 \u{203c}\u{fe0f}\nhttps://example.org/2\n\n````\nID: RUSTSEC-0000-0002\nURL: https://example.org/2\n````\n\n"
    );
}
