use substrate_lessons::hello::HelloArgs;

fn greeter(times: i32) -> HelloArgs {
    HelloArgs { times, name: String::from("robot"), age: String::from("3") }
}

#[test]
fn next_counts_up_to_five() {
    let mut hello = greeter(2);
    assert_eq!(hello.next(), Some(3));
    assert_eq!(hello.next(), Some(4));
    assert_eq!(hello.next(), Some(5));
    assert_eq!(hello.next(), None);
    assert_eq!(hello.next(), None);
    assert_eq!(hello.times, 5);
    assert_eq!(hello.name, "robot");
    assert_eq!(hello.age, "3");
}

#[test]
fn next_stops_at_once_from_five_on() {
    let mut hello = greeter(5);
    assert_eq!(hello.next(), None);
    assert_eq!(hello.times, 5);
    let mut hello = greeter(i32::MAX);
    assert_eq!(hello.next(), None);
    assert_eq!(hello.times, i32::MAX);
}

#[test]
fn next_starts_below_zero_too() {
    let mut hello = greeter(-2);
    assert_eq!(hello.next(), Some(-1));
    assert_eq!(hello.times, -1);
}

#[test]
fn remaining_lists_what_next_would_hand_out() {
    let mut hello = greeter(0);
    assert_eq!(hello.remaining(), vec![1, 2, 3, 4, 5]);
    assert_eq!(hello.times, 5);
    assert_eq!(hello.remaining(), Vec::<i32>::new());
    let mut hello = greeter(9);
    assert_eq!(hello.remaining(), Vec::<i32>::new());
    assert_eq!(hello.times, 9);
    let mut hello = greeter(i32::MIN);
    assert_eq!(hello.next(), Some(i32::MIN + 1));
}
