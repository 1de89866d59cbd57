use acouwalk::ringbuf::Ring;

fn lines(r: &Ring<String>) -> Vec<String> {
    (0..r.len()).map(|i| r.get(i).clone()).collect()
}

#[test]
fn ring_keeps_the_last_lines() {
    let mut r: Ring<String> = Ring::new(3);
    assert_eq!(r.len(), 0);
    for i in 0..3 {
        r.push(format!("line {}", i));
    }
    assert_eq!(lines(&r), vec!["line 0", "line 1", "line 2"]);
    r.push("line 3".to_string());
    assert_eq!(lines(&r), vec!["line 1", "line 2", "line 3"]);
    for i in 4..100 {
        r.push(format!("line {}", i));
        assert_eq!(r.len(), 3);
    }
    assert_eq!(lines(&r), vec!["line 97", "line 98", "line 99"]);
}

#[test]
fn ring_for_no_line_keeps_none() {
    let mut r: Ring<u8> = Ring::new(0);
    r.push(1);
    r.push(2);
    assert_eq!(r.len(), 0);
}

#[test]
fn ring_is_quiet_until_triggered() {
    let mut r: Ring<u8> = Ring::new(4);
    assert!(r.quiet());
    r.push(1);
    assert!(r.set_trigger(true));
    assert!(!r.quiet());
    assert_eq!(r.len(), 1);
    assert_eq!(*r.get(0), 1);
    r.push(2);
    assert!(!r.set_trigger(false));
    assert!(r.quiet());
    assert_eq!(r.len(), 2);
    assert!(r.set_trigger(true));
    assert!(r.set_trigger(true));
    assert!(!r.quiet());
}
