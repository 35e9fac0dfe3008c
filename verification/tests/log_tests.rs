use transaction_log::TransactionLog;

#[test]
fn fifo_order() {
    let mut log = TransactionLog::new_empty();
    let values = ["first", "second", "third", "fourth", "fifth"];
    for v in values {
        log.append(v.to_owned());
    }
    for v in values {
        assert_eq!(log.pop(), Some(v.to_owned()));
    }
    assert_eq!(log.pop(), None);
}

#[test]
fn length_counts_appends_minus_pops() {
    let mut log = TransactionLog::new_empty();
    assert_eq!(log.length, 0);
    log.append("a".to_owned());
    assert_eq!(log.length, 1);
    log.append("b".to_owned());
    assert_eq!(log.length, 2);
    log.append("c".to_owned());
    assert_eq!(log.length, 3);
    assert!(log.pop().is_some());
    assert_eq!(log.length, 2);
    assert!(log.pop().is_some());
    assert_eq!(log.length, 1);
    assert!(log.pop().is_some());
    assert_eq!(log.length, 0);
    assert!(log.pop().is_none());
    assert_eq!(log.length, 0);
}

#[test]
fn pop_on_empty_is_absent_and_keeps_length_zero() {
    let mut log = TransactionLog::new_empty();
    assert_eq!(log.pop(), None);
    assert_eq!(log.length, 0);
    assert_eq!(log.pop(), None);
    assert_eq!(log.length, 0);
}

#[test]
fn popping_the_only_element_empties_the_log() {
    let mut log = TransactionLog::new_empty();
    log.append("only".to_owned());
    assert_eq!(log.pop(), Some("only".to_owned()));
    assert_eq!(log.length, 0);
    assert_eq!(log.pop(), None);
    assert_eq!(log.length, 0);
}

#[test]
fn round_trip_returns_the_original_sequence_and_leaves_a_fresh_log() {
    let mut log = TransactionLog::new_empty();
    let mut expected = Vec::new();
    for i in 0..100u32 {
        let v = format!("entry {}", i);
        expected.push(v.clone());
        log.append(v);
    }
    assert_eq!(log.length, 100);
    let mut popped = Vec::new();
    while let Some(v) = log.pop() {
        popped.push(v);
    }
    assert_eq!(popped, expected);
    assert_eq!(log.length, 0);
    // A subsequent append behaves as if on a fresh log.
    log.append("fresh".to_owned());
    assert_eq!(log.length, 1);
    assert_eq!(log.pop(), Some("fresh".to_owned()));
    assert_eq!(log.length, 0);
    assert_eq!(log.pop(), None);
}

#[test]
fn interleaved_appends_and_pops() {
    let mut log = TransactionLog::new_empty();
    log.append("A".to_owned());
    log.append("B".to_owned());
    log.append("C".to_owned());
    assert_eq!(log.length, 3);
    assert_eq!(log.pop(), Some("A".to_owned()));
    assert_eq!(log.length, 2);
    assert_eq!(log.pop(), Some("B".to_owned()));
    assert_eq!(log.length, 1);
    log.append("D".to_owned());
    assert_eq!(log.length, 2);
    assert_eq!(log.pop(), Some("C".to_owned()));
    assert_eq!(log.length, 1);
    assert_eq!(log.pop(), Some("D".to_owned()));
    assert_eq!(log.length, 0);
    assert_eq!(log.pop(), None);
}

#[test]
fn empty_string_payloads_are_permitted() {
    let mut log = TransactionLog::new_empty();
    log.append(String::new());
    log.append("x".to_owned());
    log.append(String::new());
    assert_eq!(log.length, 3);
    assert_eq!(log.pop(), Some(String::new()));
    assert_eq!(log.pop(), Some("x".to_owned()));
    assert_eq!(log.pop(), Some(String::new()));
    assert_eq!(log.pop(), None);
    assert_eq!(log.length, 0);
}

#[test]
fn duplicate_values_come_back_once_each() {
    let mut log = TransactionLog::new_empty();
    log.append("same".to_owned());
    log.append("same".to_owned());
    assert_eq!(log.length, 2);
    assert_eq!(log.pop(), Some("same".to_owned()));
    assert_eq!(log.pop(), Some("same".to_owned()));
    assert_eq!(log.pop(), None);
}
