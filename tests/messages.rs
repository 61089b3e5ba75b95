use gitch_core::commit::message_body_text;
use gitch_core::cutoff::{choose_cutoff, parse_cutoff, time_part, CutoffError, DayReading, LocalReading, Side};
use gitch_core::{Commit, ObjectId, Signature, Trailers};

fn sig(name: &str) -> Signature {
    Signature { name: name.to_string(), email: format!("{name}@example.com") }
}

fn sorted(values: &Vec<String>) -> Vec<String> {
    let mut v = values.clone();
    v.sort();
    v
}

#[test]
fn repeated_trailer_values_collapse() {
    let pairs = vec![
        ("Signed-off-by".to_string(), "X".to_string()),
        ("Signed-off-by".to_string(), "Y".to_string()),
        ("Signed-off-by".to_string(), "X".to_string()),
    ];
    let t = Trailers::from_pairs(pairs);
    assert_eq!(t.entries().len(), 1);
    let values = t.get(&"Signed-off-by".to_string()).unwrap();
    assert_eq!(sorted(values), vec!["X".to_string(), "Y".to_string()]);
    assert!(t.get(&"Acked-by".to_string()).is_none());
}

#[test]
fn trailers_of_a_message_are_gathered_by_token() {
    let id = ObjectId::from_hex("94954abda49de8615a048f8d2e64b5de848e27a1").unwrap();
    let message = b"Fix the thing\n\nSigned-off-by: X\nSigned-off-by: Y\nSigned-off-by: X\n";
    let c = Commit::from_message(&id, 10, "1970-01-01T00:00:10".to_string(), sig("a"), sig("c"), message);
    assert_eq!(c.id, "94954abda49de8615a048f8d2e64b5de848e27a1");
    assert_eq!(c.summary, "Fix the thing");
    assert_eq!(c.body, None);
    assert_eq!(c.time(), "1970-01-01T00:00:10");
    assert_eq!(c.seconds, 10);
    assert_eq!(c.author.name, "a");
    assert_eq!(c.committer.email, "c@example.com");
    let values = c.trailers.get(&"Signed-off-by".to_string()).unwrap();
    assert_eq!(sorted(values), vec!["X".to_string(), "Y".to_string()]);
}

#[test]
fn body_is_trimmed_and_without_trailers() {
    let message = b"Title\n\n  Some words.\n\nMore words.  \n\nAcked-by: Z\n";
    assert_eq!(message_body_text(message), Some("Some words.\n\nMore words.".to_string()));
}

#[test]
fn message_without_body_has_none() {
    assert_eq!(message_body_text(b"Just a title\n"), None);
}

#[test]
fn distinct_tokens_get_distinct_entries() {
    let mut t = Trailers::new();
    t.insert("Acked-by".to_string(), "A".to_string());
    t.insert("Reviewed-by".to_string(), "B".to_string());
    t.insert("Acked-by".to_string(), "A".to_string());
    assert_eq!(t.entries().len(), 2);
    assert_eq!(t.get(&"Acked-by".to_string()).unwrap(), &vec!["A".to_string()]);
}

#[test]
fn absolute_instant_is_taken_as_is() {
    assert_eq!(parse_cutoff("2024-01-01T00:00:00Z", Side::Start), Ok(1704067200));
    assert_eq!(parse_cutoff("2024-01-01T01:00:00+01:00", Side::End), Ok(1704067200));
}

#[test]
fn garbage_cutoff_is_unparsable() {
    assert_eq!(parse_cutoff("not a date", Side::Start), Err(CutoffError::Unparsable));
}

#[test]
fn bare_date_spans_the_whole_day() {
    let start = parse_cutoff("2024-03-05", Side::Start).unwrap();
    let end = parse_cutoff("2024-03-05", Side::End).unwrap();
    assert_eq!(parse_cutoff("2024-03-05T00:00:00", Side::Start), Ok(start));
    assert!(end > start);
    assert!(end - start >= 82_799 && end - start < 90_000);
}

#[test]
fn date_time_is_not_widened() {
    let a = parse_cutoff("2024-03-05T10:30:00", Side::Start).unwrap();
    let b = parse_cutoff("2024-03-05T10:30:00", Side::End).unwrap();
    assert_eq!(a, b);
}

#[test]
fn time_part_is_recognised() {
    assert!(time_part("2024-03-05T10:30"));
    assert!(time_part("2024-03-05 10:30"));
    assert!(!time_part("2024-03-05"));
}

#[test]
fn cutoff_forms_take_precedence_in_order() {
    let day = || DayReading::Bounds { first: 100, last: 199 };
    assert_eq!(choose_cutoff(Some(5), true, LocalReading::Instant(6), day(), Side::Start), Ok(5));
    assert_eq!(choose_cutoff(None, true, LocalReading::Instant(6), day(), Side::End), Ok(6));
    assert_eq!(choose_cutoff(None, false, LocalReading::Instant(6), day(), Side::Start), Ok(100));
    assert_eq!(choose_cutoff(None, false, LocalReading::Instant(6), day(), Side::End), Ok(199));
    assert_eq!(choose_cutoff(None, true, LocalReading::NotThisForm, day(), Side::End), Ok(199));
    assert_eq!(
        choose_cutoff(None, false, LocalReading::Instant(6), DayReading::NotThisForm, Side::End),
        Ok(6)
    );
    assert_eq!(
        choose_cutoff(None, true, LocalReading::NoSuchInstant, day(), Side::Start),
        Err(CutoffError::NoSuchLocalTime)
    );
    assert_eq!(
        choose_cutoff(None, false, LocalReading::NotThisForm, DayReading::NotThisForm, Side::Start),
        Err(CutoffError::Unparsable)
    );
}
