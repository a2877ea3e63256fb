use regsim::simulator::stack::Stack;

#[test]
fn new_stack_is_empty() {
    let mut stack: Stack<u32> = Stack::new();
    assert_eq!(stack.pop(), None);
    assert_eq!(stack.pop(), None);
    let mut other: Stack<String> = Stack::default();
    assert_eq!(other.pop(), None);
}

#[test]
fn last_in_first_out() {
    let mut stack = Stack::new();
    stack.push(1);
    stack.push(2);
    stack.push(3);
    assert_eq!(stack.pop(), Some(3));
    stack.push(4);
    assert_eq!(stack.pop(), Some(4));
    assert_eq!(stack.pop(), Some(2));
    assert_eq!(stack.pop(), Some(1));
    assert_eq!(stack.pop(), None);
    stack.push(5);
    assert_eq!(stack.pop(), Some(5));
    assert_eq!(stack.pop(), None);
}

#[test]
fn stack_of_return_addresses() {
    let mut stack: Stack<usize> = Stack::new();
    for address in 0..100 {
        stack.push(address);
    }
    for address in (0..100).rev() {
        assert_eq!(stack.pop(), Some(address));
    }
    assert_eq!(stack.pop(), None);
}
