use taskcoord::Guess;

#[test]
fn it_works() {
    let result = taskcoord::add(2, 2);
    assert_eq!(result, 4);
}

#[test]
fn it_is_true() {
    assert!(taskcoord::true_bool());
}

#[test]
fn create_guess() {
    let value = 32;
    let guess = Guess::new(value);
    assert!(guess.value == value);
}

#[test]
fn add_large_values() {
    assert_eq!(taskcoord::add(u64::MAX - 1, 1), u64::MAX);
    assert_eq!(taskcoord::add(0, 0), 0);
}
