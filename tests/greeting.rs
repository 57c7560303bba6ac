use hit_counter_api::{greeting, hello, parse_number, GreetingError, Person, MAX_PICKED_NUMBER};

fn person(name: &str, picked_number: u64) -> Person {
    Person {
        name: name.to_string(),
        picked_number,
    }
}

#[test]
fn greeting_alice_42() {
    let r = greeting("Alice".to_string(), "42");
    assert_eq!(r, Ok(person("Alice", 42)));
}

#[test]
fn greeting_bob_101_is_too_high() {
    let r = greeting("Bob".to_string(), "101");
    assert_eq!(r, Err(GreetingError::NumberTooHigh));
    let e = r.unwrap_err();
    assert_eq!(e.status_code(), 400);
    assert!(e.message().contains("Number is too high"));
}

#[test]
fn greeting_non_integer_is_refused() {
    let r = greeting("Carol".to_string(), "abc");
    assert_eq!(r, Err(GreetingError::InvalidNumber));
    assert_eq!(r.unwrap_err().status_code(), 400);
}

#[test]
fn greeting_every_number_up_to_the_limit() {
    for n in 0..=100u64 {
        let r = greeting("Dana".to_string(), &n.to_string());
        assert_eq!(r, Ok(person("Dana", n)));
    }
}

#[test]
fn greeting_numbers_above_the_limit() {
    for n in [101u64, 102, 1000, u64::MAX] {
        let r = greeting("Eve".to_string(), &n.to_string());
        assert_eq!(r, Err(GreetingError::NumberTooHigh));
    }
}

#[test]
fn greeting_number_past_u64_is_invalid() {
    let r = greeting("Eve".to_string(), "18446744073709551616");
    assert_eq!(r, Err(GreetingError::InvalidNumber));
    assert_eq!(r.unwrap_err().status_code(), 400);
}

#[test]
fn greeting_name_is_echoed_verbatim() {
    let name = "Zoë \"quoted\" / ünïcode";
    let r = greeting(name.to_string(), "7");
    assert_eq!(r, Ok(person(name, 7)));
    let r = greeting(String::new(), "0");
    assert_eq!(r, Ok(person("", 0)));
}

#[test]
fn greeting_is_pure() {
    for (name, number) in [("Alice", "42"), ("Bob", "101"), ("Carol", "abc")] {
        let first = greeting(name.to_string(), number);
        let second = greeting(name.to_string(), number);
        assert_eq!(first, second);
    }
}

#[test]
fn hello_checks_the_limit() {
    assert_eq!(MAX_PICKED_NUMBER, 100);
    assert_eq!(hello("Fay".to_string(), 100), Ok(person("Fay", 100)));
    assert_eq!(hello("Fay".to_string(), 0), Ok(person("Fay", 0)));
    assert_eq!(
        hello("Fay".to_string(), 101),
        Err(GreetingError::NumberTooHigh)
    );
}

#[test]
fn error_messages() {
    assert_eq!(GreetingError::NumberTooHigh.message(), "Number is too high");
    assert_eq!(
        GreetingError::InvalidNumber.message(),
        "Number is not a non-negative integer"
    );
    assert_eq!(GreetingError::InvalidNumber.status_code(), 400);
}

#[test]
fn parse_number_accepts_decimal_numerals() {
    assert_eq!(parse_number("0"), Some(0));
    assert_eq!(parse_number("42"), Some(42));
    assert_eq!(parse_number("007"), Some(7));
    assert_eq!(parse_number("+5"), Some(5));
    assert_eq!(parse_number("18446744073709551615"), Some(u64::MAX));
}

#[test]
fn parse_number_refuses_everything_else() {
    for s in [
        "",
        "+",
        "-1",
        "-0",
        " 5",
        "5 ",
        "1_000",
        "4.2",
        "abc",
        "12a",
        "++1",
        "١٢",
        "18446744073709551616",
        "99999999999999999999999",
    ] {
        assert_eq!(parse_number(s), None, "segment {:?}", s);
    }
}

#[test]
fn parse_number_agrees_with_std() {
    for s in ["0", "+0", "100", "-3", "", "+", "x", "65536", "18446744073709551616"] {
        assert_eq!(parse_number(s), s.parse::<u64>().ok(), "segment {:?}", s);
    }
}
