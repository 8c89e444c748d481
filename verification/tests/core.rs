use microstack::Stack;
use microstack::StackError;

#[test]
fn makes_default_stack() {
    let s: Stack<u8, 8> = Stack::default();
    assert_eq!(0, s.len());
}

#[test]
fn makes_new_stack() {
    let s: Stack<u8, 8> = Stack::new();
    assert_eq!(0, s.len());
}

#[test]
fn push_one() {
    let mut s: Stack<u64, 1> = Stack::new();
    s.push_unchecked(42);
    assert_eq!(42, s.pop());
}

#[test]
fn push_safely() {
    let mut s: Stack<u64, 1> = Stack::new();
    s.push(42);
    assert_eq!(42, s.pop());
}

#[test]
fn try_to_push() {
    let mut s: Stack<u64, 1> = Stack::new();
    assert!(s.try_push(42).is_ok());
    assert!(s.try_push(16).is_err());
    assert_eq!(42, s.pop());
}

#[test]
fn push_after_clear() {
    let mut s: Stack<u64, 1> = Stack::new();
    s.push_unchecked(42);
    s.clear();
    s.push(16);
    assert_eq!(16, s.pop());
}

#[test]
fn build_from_vec() {
    let mut s: Stack<u64, 1> = Stack::from_vec(vec![42]);
    assert_eq!(42, s.pop());
}

#[test]
fn pop_none() {
    let mut s: Stack<u64, 1> = Stack::new();
    assert_eq!(0, s.len());
    assert!(s.is_empty());
    assert!(s.try_pop().is_err());
}

#[test]
fn read_capacity() {
    let mut s: Stack<u64, 1> = Stack::new();
    assert_eq!(1, s.capacity());
}

#[test]
fn safely_pop() {
    let mut s: Stack<u64, 1> = Stack::new();
    s.push(42);
    assert_eq!(42, s.try_pop().unwrap());
}

#[test]
fn with_str() {
    let mut s: Stack<&str, 1> = Stack::new();
    s.push("Hello!");
    assert_eq!("Hello!", s.pop());
}

#[test]
fn push_and_pop() {
    let mut s: Stack<u64, 16> = Stack::new();
    s.push(42);
    assert_eq!(42, s.pop());
}

#[test]
fn pops_reverse_push_order() {
    let mut s: Stack<u64, 8> = Stack::new();
    s.push(1);
    s.push(2);
    s.push(3);
    assert_eq!(3, s.pop());
    assert_eq!(2, s.pop());
    assert_eq!(1, s.pop());
    assert!(s.is_empty());
}

#[test]
fn length_tracks_interleaved_pushes_and_pops() {
    let mut s: Stack<u64, 4> = Stack::new();
    s.push(10);
    s.push(20);
    assert_eq!(20, s.pop());
    s.push(30);
    s.push(40);
    assert_eq!(3, s.len());
    assert_eq!(40, s.pop());
    assert_eq!(30, s.pop());
    assert_eq!(10, s.pop());
    assert_eq!(0, s.len());
}

#[test]
fn pop_right_after_push_returns_it() {
    let mut s: Stack<u64, 4> = Stack::new();
    s.push(7);
    let before = s.len();
    s.push(99);
    assert_eq!(99, s.pop());
    assert_eq!(before, s.len());
}

#[test]
fn fill_to_capacity_then_overflow() {
    let mut s: Stack<u64, 3> = Stack::new();
    assert!(s.try_push(1).is_ok());
    assert!(s.try_push(2).is_ok());
    assert!(s.try_push(3).is_ok());
    assert_eq!(
        Err(StackError::CapacityExceeded { capacity: 3 }),
        s.try_push(4)
    );
    assert_eq!(3, s.len());
}

#[test]
fn empty_pop_reports_empty() {
    let mut s: Stack<u64, 3> = Stack::new();
    assert_eq!(Err(StackError::Empty { capacity: 3 }), s.try_pop());
}

#[test]
fn capacity_one_scenario() {
    let mut s: Stack<u64, 1> = Stack::new();
    assert!(s.try_push(42).is_ok());
    assert!(matches!(
        s.try_push(43),
        Err(StackError::CapacityExceeded { .. })
    ));
    assert_eq!(42, s.try_pop().unwrap());
    assert!(matches!(s.try_pop(), Err(StackError::Empty { .. })));
}

#[test]
fn clear_empties_any_length() {
    let mut s: Stack<u64, 8> = Stack::new();
    for i in 0..5 {
        s.push(i);
    }
    s.clear();
    assert!(s.is_empty());
    s.push(77);
    assert_eq!(77, s.pop());
    let mut t: Stack<u64, 8> = Stack::new();
    t.clear();
    assert!(t.is_empty());
}
