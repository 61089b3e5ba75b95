use gitch_core::oid::ObjectId;
use gitch_core::walk::{
    oldest_index, traversal_mode, window, window_closed, Cutoffs, TraversalMode, WalkEntry,
};

fn id(n: u8) -> ObjectId {
    ObjectId::from_bytes(vec![n; 20]).unwrap()
}

fn walk(times: &[i64]) -> Vec<WalkEntry> {
    times
        .iter()
        .enumerate()
        .map(|(i, t)| WalkEntry { id: id(i as u8 + 1), seconds: Some(*t) })
        .collect()
}

fn no_cutoffs() -> Cutoffs {
    Cutoffs { start_id: None, end_id: None, start_seconds: None, end_seconds: None }
}

#[test]
fn hex_round_trip() {
    let text = "ce013625030ba8dba906f756967f9e9ca394464a";
    let oid = ObjectId::from_hex(text).unwrap();
    assert_eq!(oid.to_hex(), text.as_bytes().to_vec());
    assert_eq!(oid.as_bytes()[0], 0xce);
    let upper = ObjectId::from_hex("CE013625030BA8DBA906F756967F9E9CA394464A").unwrap();
    assert!(upper.same(&oid));
}

#[test]
fn hex_rejects_malformed_ids() {
    assert!(ObjectId::from_hex("ce01362").is_none());
    assert!(ObjectId::from_hex("ce013625030ba8dba906f756967f9e9ca394464g").is_none());
    assert!(ObjectId::from_hex("").is_none());
    assert!(ObjectId::from_bytes(vec![0; 19]).is_none());
}

#[test]
fn null_id_is_all_zero_digits() {
    assert_eq!(ObjectId::null().to_hex(), vec![b'0'; 40]);
}

#[test]
fn no_cutoffs_keeps_whole_walk_and_last_is_oldest() {
    let w = walk(&[50, 40, 30, 20]);
    assert_eq!(window(&w, &no_cutoffs()), (0, 4));
    assert_eq!(oldest_index(&w), Some(3));
    assert_eq!(oldest_index(&Vec::new()), None);
}

#[test]
fn start_id_is_inclusive() {
    let w = walk(&[50, 40, 30, 20]);
    let c = Cutoffs { start_id: Some(id(2)), ..no_cutoffs() };
    assert_eq!(window(&w, &c), (0, 2));
}

#[test]
fn end_id_opens_the_window() {
    let w = walk(&[50, 40, 30, 20]);
    let c = Cutoffs { end_id: Some(id(2)), ..no_cutoffs() };
    assert_eq!(window(&w, &c), (1, 4));
}

#[test]
fn start_and_end_ids_give_a_contiguous_run() {
    let w = walk(&[50, 40, 30, 20, 10]);
    let c = Cutoffs { start_id: Some(id(4)), end_id: Some(id(2)), ..no_cutoffs() };
    assert_eq!(window(&w, &c), (1, 4));
}

#[test]
fn end_id_never_reached_keeps_nothing() {
    let w = walk(&[50, 40, 30]);
    let c = Cutoffs { end_id: Some(id(9)), ..no_cutoffs() };
    let (lo, hi) = window(&w, &c);
    assert_eq!(lo, hi);
}

#[test]
fn end_time_skips_newer_commits() {
    let w = walk(&[50, 40, 30, 20]);
    let c = Cutoffs { end_seconds: Some(40), ..no_cutoffs() };
    assert_eq!(window(&w, &c), (1, 4));
    let c = Cutoffs { end_seconds: Some(39), ..no_cutoffs() };
    assert_eq!(window(&w, &c), (2, 4));
}

#[test]
fn time_window_only_removes_commits() {
    let w = walk(&[50, 40, 30, 20, 10]);
    let ids = Cutoffs { start_id: Some(id(4)), end_id: Some(id(1)), ..no_cutoffs() };
    assert_eq!(window(&w, &ids), (0, 4));
    let both = Cutoffs { start_id: Some(id(4)), end_id: Some(id(1)), end_seconds: Some(35), ..no_cutoffs() };
    assert_eq!(window(&w, &both), (2, 4));
}

#[test]
fn time_bound_past_the_start_id_keeps_nothing() {
    let w = walk(&[30, 20, 10]);
    let ids = Cutoffs { start_id: Some(id(2)), ..no_cutoffs() };
    assert_eq!(window(&w, &ids), (0, 2));
    let both = Cutoffs { start_id: Some(id(2)), end_seconds: Some(15), ..no_cutoffs() };
    let (lo, hi) = window(&w, &both);
    assert_eq!((lo, hi), (2, 2));
}

#[test]
fn commits_without_time_are_never_too_new() {
    let mut w = walk(&[50, 40]);
    w[0].seconds = None;
    let c = Cutoffs { end_seconds: Some(0), ..no_cutoffs() };
    assert_eq!(window(&w, &c), (0, 2));
}

#[test]
fn traversal_mode_follows_start_time() {
    assert_eq!(traversal_mode(None), TraversalMode::NewestFirst);
    assert_eq!(traversal_mode(Some(7)), TraversalMode::NewestFirstCutoff { seconds: 7 });
}

#[test]
fn window_closes_at_the_start_id_after_the_end_id() {
    let w = walk(&[50, 40, 30, 20]);
    let c = Cutoffs { start_id: Some(id(2)), end_id: Some(id(1)), ..no_cutoffs() };
    assert!(!window_closed(&w[..1].iter().map(|e| WalkEntry { id: e.id.clone(), seconds: e.seconds }).collect(), &c));
    let prefix: Vec<WalkEntry> = w[..2].iter().map(|e| WalkEntry { id: e.id.clone(), seconds: e.seconds }).collect();
    assert!(window_closed(&prefix, &c));
    assert_eq!(window(&prefix, &c), window(&w, &c));
    let unreached = Cutoffs { start_id: Some(id(2)), end_id: Some(id(3)), ..no_cutoffs() };
    assert!(!window_closed(&prefix, &unreached));
    assert!(!window_closed(&w, &no_cutoffs()));
}
