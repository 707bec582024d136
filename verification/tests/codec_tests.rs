use traceparent::{from_literal, make, parse, ParseError, Traceparent};

#[test]
fn sampled() {
    assert_eq!(make(true).sampled(), true);
    assert_eq!(make(false).sampled(), false);
    // one day when other flags exist, this might break a little
    assert_eq!(make(true).flags, 1);
    assert_eq!(make(false).flags, 0);
}

#[test]
fn can_parse() {
    let root = parse("00-e89359198545da29d14778a03be06e18-2be02a72f64ecf40-00").unwrap();
    assert_eq!(root.version, 0);
    assert_eq!(root.trace_id, 309145969816709842465435622754465377816);
    assert_eq!(root.parent_id, 3161573611661086528);
    assert_eq!(root.flags, 0);
    assert_eq!(root.sampled(), false);
}

#[test]
fn child_create() {
    let parent = Traceparent::default();
    let child = parent.clone();

    assert_eq!(parent.trace_id, child.trace_id);
    assert_ne!(parent.parent_id, child.parent_id);
    assert_ne!(parent.render(), child.render());
}

#[test]
fn child_sampled_passing() {
    let parent = make(true);
    let child = parent.clone();

    assert_eq!(parent.sampled(), true);
    assert_eq!(child.sampled(), true);

    let parent = make(false);
    let child = parent.clone();

    assert_eq!(parent.sampled(), false);
    assert_eq!(child.sampled(), false);
}

#[test]
fn child_sample_wont_affect_parent() {
    let parent = make(true);
    let child = parent.child(false);

    assert_eq!(parent.sampled(), true);
    assert_eq!(child.sampled(), false);
}

#[test]
fn child_cannot_opt_back_in() {
    let parent = make(false);
    let child = parent.child(true);

    assert_eq!(child.sampled(), false);
    assert_eq!(child.flags, 0);

    let parent = make(true);
    let child = parent.child(true);

    assert_eq!(child.sampled(), true);
    assert_eq!(child.flags, 1);
}

#[test]
fn child_keeps_version_and_trace() {
    let parent = parse("03-e89359198545da29d14778a03be06e18-2be02a72f64ecf40-01").unwrap();
    let child = parent.child(true);

    assert_eq!(child.version, 3);
    assert_eq!(child.trace_id, parent.trace_id);
    assert_eq!(child.sampled(), true);
}

#[test]
fn default_is_sampled_root() {
    let root = Traceparent::default();

    assert_eq!(root.version, 0);
    assert_eq!(root.flags, 1);
    assert_eq!(root.sampled(), true);
}

#[test]
fn render_exact() {
    let t = Traceparent {
        version: 1,
        trace_id: 0xabc,
        parent_id: 0xff,
        flags: 1,
    };
    assert_eq!(t.render(), "01-00000000000000000000000000000abc-00000000000000ff-01");

    let zero = Traceparent {
        version: 0,
        trace_id: 0,
        parent_id: 0,
        flags: 0,
    };
    assert_eq!(zero.render(), "00-00000000000000000000000000000000-0000000000000000-00");
}

#[test]
fn round_trip_canonical() {
    let texts = [
        "00-e89359198545da29d14778a03be06e18-2be02a72f64ecf40-00",
        "ff-ffffffffffffffffffffffffffffffff-ffffffffffffffff-ff",
        "00-00000000000000000000000000000000-0000000000000000-00",
        "7b-0123456789abcdef0123456789abcdef-fedcba9876543210-01",
    ];
    for text in texts {
        assert_eq!(parse(text).unwrap().render(), text);
    }
}

#[test]
fn uppercase_parses_but_renders_lowercase() {
    let upper = parse("00-E89359198545DA29D14778A03BE06E18-2BE02A72F64ECF40-00").unwrap();
    let lower = parse("00-e89359198545da29d14778a03be06e18-2be02a72f64ecf40-00").unwrap();

    assert_eq!(upper, lower);
    assert_eq!(
        upper.render(),
        "00-e89359198545da29d14778a03be06e18-2be02a72f64ecf40-00"
    );
}

#[test]
fn from_literal_matches_parse() {
    let text = "00-e89359198545da29d14778a03be06e18-2be02a72f64ecf40-01";
    let trusted = from_literal(text);
    let parsed = parse(text).unwrap();

    assert_eq!(trusted, parsed);
    assert_eq!(trusted.sampled(), true);
    assert_eq!(trusted.render(), text);
}

#[test]
fn rejects_wrong_length() {
    assert_eq!(parse("").unwrap_err(), ParseError::WrongLength);
    assert_eq!(parse("00").unwrap_err(), ParseError::WrongLength);
    // 54 characters: one digit short in the last segment
    assert_eq!(
        parse("00-e89359198545da29d14778a03be06e18-2be02a72f64ecf40-0").unwrap_err(),
        ParseError::WrongLength
    );
    // 56 characters: one digit too many in the last segment
    assert_eq!(
        parse("00-e89359198545da29d14778a03be06e18-2be02a72f64ecf40-000").unwrap_err(),
        ParseError::WrongLength
    );
}

#[test]
fn rejects_bad_segments() {
    // non-hex character inside the trace-id segment
    assert_eq!(
        parse("00-g89359198545da29d14778a03be06e18-2be02a72f64ecf40-00").unwrap_err(),
        ParseError::BadSegment
    );
    // a sign is not a hexadecimal digit
    assert_eq!(
        parse("+0-e89359198545da29d14778a03be06e18-2be02a72f64ecf40-00").unwrap_err(),
        ParseError::BadSegment
    );
    // missing hyphen: the separator after the version replaced by a digit
    assert_eq!(
        parse("000e89359198545da29d14778a03be06e18-2be02a72f64ecf40-00").unwrap_err(),
        ParseError::BadSegment
    );
    // extra hyphen in the middle of the trace-id segment
    assert_eq!(
        parse("00-e89359198545da29-14778a03be06e18-2be02a72f64ecf40-00").unwrap_err(),
        ParseError::BadSegment
    );
    // hyphens shifted: segments of the wrong width
    assert_eq!(
        parse("0-0e89359198545da29d14778a03be06e18-2be02a72f64ecf40-00").unwrap_err(),
        ParseError::BadSegment
    );
}
