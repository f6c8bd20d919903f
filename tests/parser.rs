use timecode::parser::{from_dec, timecode_nom, Seperator, UnvalidatedTC};
use timecode::unvalidated;

#[test]
fn parse_basic_tc() {
    assert!(matches!(timecode_nom("01:23:12;22"), Ok(_)));
    assert!(matches!(unvalidated("01:23:12;22"), Some(_)));
}

#[test]
fn parse_h_too_big() {
    assert!(matches!(timecode_nom("911:00:00:00"), Err(_)));
}

#[test]
fn trailing() {
    assert!(matches!(timecode_nom("01:23:12;22 ok"), Ok(_)));
    assert!(matches!(unvalidated("01:23:12;22 ok"), None));
}

#[test]
fn wrong_sep() {
    assert!(matches!(timecode_nom("123;23;23;00"), Err(_)));
}

#[test]
fn parse_fields() {
    assert_eq!(
        unvalidated("01:23:12:22"),
        Some(UnvalidatedTC { h: 1, m: 23, s: 12, f: 22, seperator: Seperator::Colon })
    );
    assert_eq!(
        unvalidated("01:23:12;22"),
        Some(UnvalidatedTC { h: 1, m: 23, s: 12, f: 22, seperator: Seperator::Semicolon })
    );
    assert_eq!(unvalidated("012312:22"), None);
    assert_eq!(unvalidated("Not a timecode"), None);
    assert_eq!(unvalidated("1:00:00:00"), None);
    assert_eq!(
        unvalidated("255:99:99:4294967295"),
        Some(UnvalidatedTC { h: 255, m: 99, s: 99, f: 4294967295, seperator: Seperator::Colon })
    );
    assert_eq!(unvalidated("00:00:00:4294967296"), None);
    assert_eq!(unvalidated("256:00:00:00"), None);
}

#[test]
fn nom_rest() {
    let (rest, tc) = timecode_nom("01:23:12;22 ok").unwrap();
    assert_eq!(rest, " ok");
    assert_eq!(tc.f, 22);
    let (rest, tc) = timecode_nom("00:00:00:123x").unwrap();
    assert_eq!(rest, "x");
    assert_eq!(tc.f, 123);
}

#[test]
fn decimal_text() {
    assert_eq!(from_dec("0042"), Some(42));
    assert_eq!(from_dec("18446744073709551615"), Some(u64::MAX));
    assert_eq!(from_dec("18446744073709551616"), None);
    assert_eq!(from_dec(""), None);
    assert_eq!(from_dec("4a"), None);
}

#[test]
fn separator_chars() {
    let c: char = Seperator::Semicolon.into();
    assert_eq!(c, ';');
    let s: Result<Seperator, ()> = std::convert::TryFrom::try_from(':');
    assert_eq!(s, Ok(Seperator::Colon));
    let bad: Result<Seperator, ()> = std::convert::TryFrom::try_from('x');
    assert_eq!(bad, Err(()));
    let parsed: UnvalidatedTC = "10:00:00;00".parse().unwrap();
    assert_eq!(parsed.seperator, Seperator::Semicolon);
}
