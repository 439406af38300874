use led::buffer::Buffer;
use led::text::{count_bytes, join_lines, split_lines};

fn strings(v: &[&str]) -> Vec<String> {
    v.iter().map(|s| s.to_string()).collect()
}

fn marked(lines: &[&str], marks: &[(usize, usize)]) -> Buffer {
    let mut b = Buffer::from_lines(strings(lines));
    for &(m, l) in marks {
        b.set_mark(m, l);
    }
    b
}

#[test]
fn new_buffer_is_empty() {
    let b = Buffer::new();
    assert_eq!(b.len(), 0);
    assert!(!b.changed());
    assert_eq!(b.curline(), 0);
    assert!((0..26).all(|m| b.mark(m).is_none()));
}

#[test]
fn push_keeps_flag() {
    let mut b = Buffer::new();
    b.push("one".to_string());
    b.push("two".to_string());
    assert_eq!(b.len(), 2);
    assert!(!b.changed());
    let all: Vec<&String> = b.iter().collect();
    assert_eq!(all, vec!["one", "two"]);
}

#[test]
fn replace_shifts_marks() {
    // marks before, inside and after the replaced interval [1, 3)
    let mut b = marked(&["a", "b", "c", "d", "e"], &[(0, 0), (1, 1), (2, 2), (3, 3), (4, 4)]);
    b.replace_iter(1, 3, strings(&["x", "y", "z", "w"]));
    assert_eq!(b.lines(), &strings(&["a", "x", "y", "z", "w", "d", "e"]));
    assert_eq!(b.mark(0), Some(0));
    assert_eq!(b.mark(1), None);
    assert_eq!(b.mark(2), None);
    assert_eq!(b.mark(3), Some(5));
    assert_eq!(b.mark(4), Some(6));
    assert!(b.changed());
}

#[test]
fn pure_deletion_and_insertion() {
    let mut b = marked(&["a", "b", "c"], &[(0, 2), (1, 1)]);
    b.replace_iter(0, 2, Vec::new());
    assert_eq!(b.lines(), &strings(&["c"]));
    assert_eq!(b.mark(0), Some(0));
    assert_eq!(b.mark(1), None);

    let mut b = marked(&["a", "b"], &[(0, 0), (1, 1)]);
    b.replace_iter(1, 1, strings(&["new"]));
    assert_eq!(b.lines(), &strings(&["a", "new", "b"]));
    assert_eq!(b.mark(0), Some(0));
    assert_eq!(b.mark(1), Some(2));
}

#[test]
fn extend_and_into_lines() {
    let mut b = Buffer::from_lines(strings(&["a"]));
    b.extend(strings(&["b", "c"]));
    assert_eq!(b.into_lines(), strings(&["a", "b", "c"]));
}

#[test]
fn text_form() {
    let b = Buffer::from_lines(strings(&["one", "", "three"]));
    assert_eq!(b.to_text(), "one\n\nthree\n");
    assert_eq!(join_lines(&Vec::new()), "");
}

#[test]
fn round_trip_through_text() {
    let lines = strings(&["alpha", "", "  gamma delta", "é"]);
    let back = split_lines(&join_lines(&lines));
    assert_eq!(back, lines);
    let b = Buffer::from_lines(back);
    assert!(!b.changed());
    assert_eq!(b.len(), 4);
}

#[test]
fn splitting_text() {
    assert_eq!(split_lines("a\r\nb\nc"), strings(&["a", "b", "c"]));
    assert_eq!(split_lines("a\n\n"), strings(&["a", ""]));
    assert_eq!(split_lines(""), Vec::<String>::new());
    assert_eq!(split_lines("x\ry\n"), strings(&["x\ry"]));
}

#[test]
fn byte_counts() {
    assert_eq!(count_bytes(&strings(&["abc", "de"])), 7);
    assert_eq!(count_bytes(&strings(&["é"])), 3);
    assert_eq!(count_bytes(&Vec::new()), 0);
    assert_eq!(Buffer::from_lines(strings(&["", ""])).byte_count(), 2);
}

#[test]
fn final_carriage_return_kept() {
    assert_eq!(split_lines("a\r"), strings(&["a\r"]));
    assert_eq!(split_lines("a\r\n"), strings(&["a"]));
}
