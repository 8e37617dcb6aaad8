use sable::position::Position;
use std::ops::Range;

#[test]
fn merge_covers_both_spans() {
    let a = Position::new(1, 5, Range { start: 4, end: 9 });
    let b = Position::new(2, 1, Range { start: 2, end: 6 });
    let m = a.merge(b);
    assert_eq!(m.line, 1);
    assert_eq!(m.column, 5);
    assert_eq!(m.range, Range { start: 2, end: 9 });
}
