use newscheck::feed::{Entry, Timestamp};
use newscheck::read_list::{
    add_if_absent, add_to_read_list, all_read_list, check_read, get_unread_entries,
    initial_read_list, is_member, HASH_SIZE,
};

fn entry(title: &str, secs: i64) -> Entry {
    Entry::new(title.to_string(), String::new(), Timestamp::from_unix(secs, 0).unwrap())
}

fn titles(es: &[Entry]) -> Vec<String> {
    es.iter().map(|e| e.title.clone()).collect()
}

fn d(fill: u8) -> [u8; 16] {
    [fill; 16]
}

#[test]
fn round_trip_membership() {
    let ds = [d(1), d(2), d(3)];
    let mut buf: Vec<u8> = Vec::new();
    for x in &ds {
        buf.extend_from_slice(x);
    }
    for x in &ds {
        assert!(is_member(&buf, x));
    }
    assert!(!is_member(&buf, &d(4)));
    let mut mixed = d(1);
    mixed[15] = 2;
    assert!(!is_member(&buf, &mixed));
}

#[test]
fn empty_read_list_holds_nothing() {
    assert!(!is_member(&Vec::new(), &d(0)));
}

#[test]
fn add_if_absent_is_idempotent() {
    let mut buf: Vec<u8> = d(9).to_vec();
    add_if_absent(&mut buf, &d(7));
    assert_eq!(buf.len(), 32);
    add_if_absent(&mut buf, &d(7));
    assert_eq!(buf.len(), 32);
    assert_eq!(buf.chunks(HASH_SIZE).filter(|c| *c == d(7)).count(), 1);
    add_if_absent(&mut buf, &d(9));
    assert_eq!(buf.len(), 32);
}

#[test]
fn add_to_read_list_appends_entry_digest() {
    let e = entry("A", 100);
    let mut buf: Vec<u8> = Vec::new();
    assert!(!check_read(&buf, &e));
    add_to_read_list(&mut buf, &e);
    assert_eq!(buf, e.digest().to_vec());
    assert!(check_read(&buf, &e));
    add_to_read_list(&mut buf, &e);
    assert_eq!(buf.len(), 16);
}

#[test]
fn unread_is_entries_minus_read_subset_in_order() {
    let es = vec![entry("A", 1), entry("B", 2), entry("C", 3), entry("D", 4)];
    let mut buf: Vec<u8> = Vec::new();
    buf.extend_from_slice(&es[2].digest());
    buf.extend_from_slice(&es[0].digest());
    let unread = get_unread_entries(&es, &buf);
    assert_eq!(titles(&unread), vec!["B", "D"]);
    assert_eq!(get_unread_entries(&es, &Vec::new()).len(), 4);
}

#[test]
fn trailing_fragment_is_ignored() {
    let es = vec![entry("A", 1), entry("B", 2)];
    let mut buf: Vec<u8> = Vec::new();
    buf.extend_from_slice(&es[0].digest());
    buf.extend_from_slice(&es[1].digest());
    let tail = entry("C", 3).digest();
    buf.extend_from_slice(&tail[..5]);
    assert_eq!(buf.len(), 16 * 2 + 5);
    assert!(check_read(&buf, &es[0]));
    assert!(check_read(&buf, &es[1]));
    assert!(!check_read(&buf, &entry("C", 3)));
    let mut padded = [0u8; 16];
    padded[..5].copy_from_slice(&tail[..5]);
    assert!(!is_member(&buf, &padded));
}

#[test]
fn misaligned_digest_is_not_a_member() {
    let mut buf: Vec<u8> = vec![0; 5];
    buf.extend_from_slice(&d(3));
    assert!(!is_member(&buf, &d(3)));
    add_if_absent(&mut buf, &d(3));
    assert_eq!(buf.len(), 32);
    assert_eq!(&buf[16..], &d(3));
    assert!(is_member(&buf, &d(3)));
    add_if_absent(&mut buf, &d(3));
    assert_eq!(buf.len(), 32);
}

#[test]
fn add_drops_trailing_fragment() {
    let mut buf: Vec<u8> = d(1).to_vec();
    buf.extend_from_slice(&[9, 9, 9, 9, 9]);
    add_if_absent(&mut buf, &d(1));
    assert_eq!(buf.len(), 21);
    add_if_absent(&mut buf, &d(2));
    let mut expected = d(1).to_vec();
    expected.extend_from_slice(&d(2));
    assert_eq!(buf, expected);
    add_if_absent(&mut buf, &d(2));
    assert_eq!(buf, expected);
}

#[test]
fn initial_read_list_cases() {
    let stored = vec![1u8, 2, 3];
    assert!(initial_read_list(true, Some(stored.clone())).is_empty());
    assert!(initial_read_list(true, None).is_empty());
    assert!(initial_read_list(false, None).is_empty());
    assert_eq!(initial_read_list(false, Some(stored.clone())), stored);
}

#[test]
fn all_read_list_records_each_digest_once() {
    let es = vec![entry("A", 1), entry("B", 2), entry("A", 1)];
    let buf = all_read_list(&es);
    let mut expected: Vec<u8> = Vec::new();
    expected.extend_from_slice(&es[0].digest());
    expected.extend_from_slice(&es[1].digest());
    assert_eq!(buf, expected);
    assert!(all_read_list(&Vec::new()).is_empty());
}
