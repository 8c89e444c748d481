use microstack::Stack;

#[test]
fn stack_can_be_cloned() {
    let mut s: Stack<u8, 16> = Stack::new();
    s.push(42);
    assert_eq!(42, s.clone().try_pop().unwrap());
}

#[test]
fn full_stack_can_be_cloned() {
    let mut s: Stack<usize, 16> = Stack::new();
    let c = s.capacity();
    for i in 0..c {
        s.push(i);
    }
    assert_eq!(c - 1, s.clone().try_pop().unwrap());
}

#[test]
fn empty_stack_can_be_cloned() {
    let m: Stack<u8, 0> = Stack::new();
    assert!(m.clone().is_empty());
}

#[test]
fn clone_is_independent_of_original() {
    let mut s: Stack<u64, 4> = Stack::new();
    s.push(1);
    s.push(2);
    let mut c = s.clone();
    assert_eq!(s.len(), c.len());
    c.push(3);
    assert_eq!(2, s.len());
    assert_eq!(3, c.len());
    assert_eq!(2, s.pop());
    assert_eq!(3, c.pop());
    assert_eq!(2, c.pop());
}

#[test]
fn push_and_iterate() {
    let mut p: Stack<u64, 16> = Stack::new();
    p.push(1);
    p.push(2);
    p.push(3);
    let mut sum = 0;
    let mut it = p.iter();
    while let Some(x) = it.next() {
        sum += x;
    }
    assert_eq!(6, sum);
}

#[test]
fn push_and_into_iterate() {
    let mut p: Stack<u64, 16> = Stack::new();
    p.push(1);
    p.push(2);
    let mut sum = 0;
    let mut it = p.into_iter();
    while let Some(x) = it.next() {
        sum += x;
    }
    assert_eq!(3, sum);
}

#[test]
fn push_clear_and_iterate() {
    let mut p: Stack<u64, 16> = Stack::new();
    p.push(1);
    p.push(2);
    p.push(3);
    assert_eq!(3, p.len());
    p.clear();
    assert_eq!(0, p.len());
    let mut sum = 0;
    let mut it = p.iter();
    while let Some(x) = it.next() {
        sum += x;
    }
    assert_eq!(0, sum);
}

#[test]
fn iteration_follows_push_order() {
    let mut p: Stack<&str, 4> = Stack::new();
    p.push("bottom");
    p.push("middle");
    p.push("top");
    let mut it = p.iter();
    assert_eq!(Some("bottom"), it.next());
    assert_eq!(Some("middle"), it.next());
    assert_eq!(Some("top"), it.next());
    assert_eq!(None, it.next());
    assert_eq!(3, p.len());
}

#[test]
fn debugs_stack() {
    let mut s: Stack<&str, 10> = Stack::new();
    s.push("one");
    s.push("two");
    assert_eq!("[one, two]", s.render());
}

#[test]
fn displays_stack() {
    let mut s: Stack<&str, 10> = Stack::new();
    s.push("one");
    s.push("two");
    assert_eq!("[one, two]", s.render());
}

#[test]
fn renders_empty_stack() {
    let s: Stack<&str, 10> = Stack::new();
    assert_eq!("[]", s.render());
}

#[test]
fn renders_single_element() {
    let mut s: Stack<&str, 10> = Stack::new();
    s.push("only");
    assert_eq!("[only]", s.render());
}
