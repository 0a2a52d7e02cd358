use vector::lookup::{Lookup, Segment};

const SUFFICIENTLY_COMPLEX: &str =
    r#"regular."quoted"."quoted but spaces"."quoted.but.periods".lookup[0].nested_lookup[0][0]"#;

fn sufficiently_decomposed() -> Vec<Segment> {
    vec![
        Segment::field(r#"regular"#),
        Segment::field(r#"quoted"#),
        Segment::field(r#"quoted but spaces"#),
        Segment::field(r#"quoted.but.periods"#),
        Segment::field(r#"lookup"#),
        Segment::index(0),
        Segment::field(r#"nested_lookup"#),
        Segment::index(0),
        Segment::index(0),
    ]
}

#[test]
fn impl_index_ranges() {
    let lookup = Lookup::parse(SUFFICIENTLY_COMPLEX).unwrap();
    let decomposed = sufficiently_decomposed();

    assert_eq!(lookup.as_slice()[..], decomposed[..]);
    assert_eq!(lookup.as_slice()[..4], decomposed[..4]);
    assert_eq!(lookup.as_slice()[..=4], decomposed[..=4]);
    assert_eq!(lookup.as_slice()[2..], decomposed[2..]);
}

#[test]
fn impl_index_usize() {
    let lookup = Lookup::parse(SUFFICIENTLY_COMPLEX).unwrap();
    let decomposed = sufficiently_decomposed();

    for i in 0..decomposed.len() {
        assert_eq!(lookup.as_slice()[i], decomposed[i])
    }
}

#[test]
fn impl_index_mut_index_mut() {
    let mut lookup = Lookup::parse(SUFFICIENTLY_COMPLEX).unwrap();
    let mut decomposed = sufficiently_decomposed();

    for i in 0..decomposed.len() {
        let x = lookup.segment_mut(i);
        assert_eq!(x, &mut decomposed[i])
    }
}

#[test]
fn iter() {
    let lookup = Lookup::parse(SUFFICIENTLY_COMPLEX).unwrap();

    let mut iter = lookup.as_slice().iter();
    for (index, expected) in sufficiently_decomposed().iter().enumerate() {
        let parsed = iter.next().expect(&format!(
            "Expected at index {}: {:?}, got None.",
            index, expected
        ));
        assert_eq!(expected, parsed, "Failed at {}", index);
    }
}

#[test]
fn into_iter() {
    let lookup = Lookup::parse(SUFFICIENTLY_COMPLEX).unwrap();
    let mut iter = lookup.into_segments().into_iter();
    for (index, expected) in sufficiently_decomposed().iter().cloned().enumerate() {
        let parsed = iter.next().expect(&format!(
            "Expected at index {}: {:?}, got None.",
            index, expected
        ));
        assert_eq!(expected, parsed, "Failed at {}", index);
    }
}

#[test]
fn lookup_length_and_get() {
    let lookup = Lookup::parse("a.b[12]").unwrap();
    assert_eq!(lookup.len(), 3);
    assert_eq!(lookup.get(0), Some(&Segment::field("a")));
    assert_eq!(lookup.get(2), Some(&Segment::index(12)));
    assert_eq!(lookup.get(3), None);
}

#[test]
fn lookup_rejects_malformed_paths() {
    for bad in ["", "a.", ".a", "a[", "a[]", "a[x]", "\"open", "a]b", "a..b", "a\"b\""] {
        assert!(Lookup::parse(bad).is_err(), "accepted {:?}", bad);
    }
    assert!(Lookup::parse("a[99999999999999999999999]").is_err());
}

#[test]
fn lookup_quoted_field_may_be_empty_or_hold_brackets() {
    let lookup = Lookup::parse(r#""".x"#).unwrap();
    assert_eq!(lookup.as_slice(), &[Segment::field(""), Segment::field("x")][..]);
    let lookup = Lookup::parse(r#""a[0]"[1]"#).unwrap();
    assert_eq!(lookup.as_slice(), &[Segment::field("a[0]"), Segment::index(1)][..]);
}
