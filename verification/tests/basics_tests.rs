use writable_events::JsToRustStreamString;
use writable_events::sum;

#[test]
fn sum_adds() {
    assert_eq!(sum(2, 3), 5);
    assert_eq!(sum(-4, 4), 0);
}

#[test]
fn greeting_includes_name() {
    let s = JsToRustStreamString::new();
    assert_eq!(s.get_string("Bob".to_string()), "Hello Bob!");
    assert_eq!(s.get_string(String::new()), "Hello !");
}

#[test]
fn fibonacci_series() {
    assert_eq!(JsToRustStreamString::fibonacci(0), 1);
    assert_eq!(JsToRustStreamString::fibonacci(1), 1);
    assert_eq!(JsToRustStreamString::fibonacci(2), 2);
    assert_eq!(JsToRustStreamString::fibonacci(3), 3);
    assert_eq!(JsToRustStreamString::fibonacci(4), 5);
    assert_eq!(JsToRustStreamString::fibonacci(10), 89);
}
