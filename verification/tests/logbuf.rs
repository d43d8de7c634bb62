use opsdash::logbuf::LogBuffer;

fn filled(cap: usize, lines: &[&str]) -> LogBuffer {
    let mut b = LogBuffer::new(cap);
    for l in lines {
        b.push(l.to_string());
    }
    b
}

#[test]
fn keeps_the_newest_three_of_five() {
    let b = filled(3, &["L1", "L2", "L3", "L4", "L5"]);
    assert_eq!(b.snapshot(), vec!["L3", "L4", "L5"]);
    assert_eq!(b.len(), 3);
    assert_eq!(b.max_lines(), 3);
}

#[test]
fn holds_everything_below_capacity() {
    let b = filled(3, &["a", "b"]);
    assert_eq!(b.snapshot(), vec!["a", "b"]);
    assert_eq!(b.line(0), "a");
    assert_eq!(b.line(1), "b");
}

#[test]
fn capacity_zero_keeps_nothing() {
    let b = filled(0, &["a", "b"]);
    assert_eq!(b.len(), 0);
    assert!(b.snapshot().is_empty());
}

#[test]
fn length_never_exceeds_capacity() {
    let mut b = LogBuffer::new(4);
    for i in 0..100 {
        b.push(format!("line {i}"));
        assert!(b.len() <= 4);
    }
    assert_eq!(b.snapshot(), vec!["line 96", "line 97", "line 98", "line 99"]);
}

#[test]
fn replace_keeps_the_newest_lines() {
    let mut b = filled(2, &["old"]);
    b.replace(vec!["x".to_string(), "y".to_string(), "z".to_string()]);
    assert_eq!(b.snapshot(), vec!["y", "z"]);
    b.replace(vec!["only".to_string()]);
    assert_eq!(b.snapshot(), vec!["only"]);
}

#[test]
fn clear_empties_the_buffer() {
    let mut b = filled(2, &["a", "b"]);
    b.clear();
    assert_eq!(b.len(), 0);
    assert_eq!(b.max_lines(), 2);
}
