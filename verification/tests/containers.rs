use exercises::basket::Basket;
use exercises::container::{add_value_to_container, Container};
use exercises::stack::Stack;

#[test]
fn basket_scenario_put_replaces_and_get_empties() {
    let mut basket = Basket::new("a".to_string());
    assert!(!basket.is_empty());
    basket.put("b".to_string());
    assert_eq!(basket.get(), Some("b".to_string()));
    assert!(basket.is_empty());
    assert_eq!(basket.get(), None);
}

#[test]
fn stack_scenario_put_then_drain() {
    let mut stack = Stack::new(vec![1, 2, 3]);
    stack.put(4);
    assert_eq!(stack.get(), Some(4));
    assert_eq!(stack.get(), Some(3));
    assert!(!stack.is_empty());
    assert_eq!(stack.get(), Some(2));
    assert!(!stack.is_empty());
    assert_eq!(stack.get(), Some(1));
    assert!(stack.is_empty());
    assert_eq!(stack.get(), None);
}

#[test]
fn basket_new_holds_its_value() {
    let mut basket = Basket::new(10);
    assert_eq!(basket.item, Some(10));
    assert!(!basket.is_empty());
    assert_eq!(basket.get(), Some(10));
    assert_eq!(basket.item, None);
}

#[test]
fn basket_last_put_wins_after_many_puts() {
    let mut basket = Basket::new(0);
    for value in 1..=25 {
        basket.put(value);
        assert!(!basket.is_empty());
    }
    assert_eq!(basket.get(), Some(25));
    assert!(basket.is_empty());
}

#[test]
fn basket_put_does_not_add_numbers() {
    let mut basket = Basket::new(10);
    basket.put(20);
    assert_eq!(basket.get(), Some(20));
}

#[test]
fn basket_put_after_get_fills_it_again() {
    let mut basket = Basket::new(1);
    assert_eq!(basket.get(), Some(1));
    assert_eq!(basket.get(), None);
    basket.put(2);
    assert!(!basket.is_empty());
    assert_eq!(basket.get(), Some(2));
    assert_eq!(basket.get(), None);
    assert!(basket.is_empty());
}

#[test]
fn basket_get_on_empty_stays_empty() {
    let mut basket = Basket::new('x');
    basket.get();
    for _ in 0..3 {
        assert_eq!(basket.get(), None);
        assert!(basket.is_empty());
    }
}

#[test]
fn stack_returns_values_newest_first() {
    let mut stack = Stack::new(Vec::new());
    let values = vec![7, 3, 3, 9, 1];
    for value in &values {
        stack.put(*value);
    }
    let mut taken = Vec::new();
    for _ in 0..values.len() {
        taken.push(stack.get().unwrap());
    }
    assert_eq!(taken, vec![1, 9, 3, 3, 7]);
    assert!(stack.is_empty());
}

#[test]
fn stack_puts_leave_earlier_values_below() {
    let mut stack = Stack::new(vec!["x".to_string()]);
    stack.put("y".to_string());
    stack.put("z".to_string());
    assert_eq!(stack.get(), Some("z".to_string()));
    assert_eq!(stack.get(), Some("y".to_string()));
    assert_eq!(stack.items, vec!["x".to_string()]);
}

#[test]
fn stack_empty_then_put_then_get() {
    let mut stack: Stack<u8> = Stack::new(vec![]);
    assert!(stack.is_empty());
    stack.put(5);
    assert!(!stack.is_empty());
    assert_eq!(stack.get(), Some(5));
    assert!(stack.is_empty());
}

#[test]
fn stack_get_on_empty_returns_none_and_changes_nothing() {
    let mut stack: Stack<i32> = Stack::new(vec![]);
    assert_eq!(stack.get(), None);
    assert_eq!(stack.get(), None);
    assert!(stack.is_empty());
    assert_eq!(stack.items.len(), 0);
}

#[test]
fn stack_never_returns_a_value_twice() {
    let mut stack = Stack::new(vec![1, 2]);
    assert_eq!(stack.get(), Some(2));
    assert_eq!(stack.get(), Some(1));
    assert_eq!(stack.get(), None);
    stack.put(2);
    assert_eq!(stack.get(), Some(2));
    assert_eq!(stack.get(), None);
}

#[test]
fn stack_new_keeps_the_given_order() {
    let stack = Stack::new(vec!['a', 'b', 'c']);
    assert_eq!(stack.items, vec!['a', 'b', 'c']);
    assert!(!stack.is_empty());
}

#[test]
fn add_value_to_container_works_on_basket_and_stack() {
    let mut basket = Basket::new("starting value".to_string());
    let mut stack = Stack::new(vec!["1".to_string(), "2".to_string(), "3".to_string()]);
    add_value_to_container(&mut basket, String::from("new string"));
    add_value_to_container(&mut stack, String::from("new string"));
    assert_eq!(basket.get(), Some("new string".to_string()));
    assert_eq!(basket.get(), None);
    assert_eq!(stack.get(), Some("new string".to_string()));
    assert_eq!(stack.get(), Some("3".to_string()));
}
