use std::rc::Rc;

use etudes::list::{CanBeConned, Cons, List};

#[test]
fn list_push() {
    assert_eq!(List::<i32>::nil(), List::Nil);
    assert_eq!(
        List::nil().push(1).push(2).push(3),
        List::ConsRef(Rc::new(Cons {
            head: 3,
            tail: Rc::new(List::ConsRef(Rc::new(Cons {
                head: 2,
                tail: Rc::new(List::ConsRef(Rc::new(Cons {
                    head: 1,
                    tail: Rc::new(List::Nil)
                })))
            })))
        }))
    );
}

#[test]
fn pop() {
    let input: List<i32> = 1.cons(2.cons(3.nil()));
    let mut result: Vec<i32> = Vec::new();
    let mut ptr = Rc::new(input);
    while let Some(cons) = ptr.pop() {
        result.push(cons.head);
        ptr = Rc::clone(&cons.tail);
    }
    assert_eq!(result, vec![1, 2, 3]);
}

#[test]
fn list_iterator() {
    let input: List<i32> = 1.cons(2.cons(3.nil()));
    assert_eq!(input.items(), vec![1, 2, 3]);
}
