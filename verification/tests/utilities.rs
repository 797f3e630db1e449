use rhorizons::utilities::{take_expecting, take_or_empty, TakeExpectingError};

#[test]
fn utilities_check_take_or_empty() {
    assert_eq!(("a", ""), take_or_empty("a", 1));
    assert_eq!(("", "a"), take_or_empty("a", 0));
    assert_eq!(("ab", "cd"), take_or_empty("abcd", 2));
    assert_eq!(("ab", ""), take_or_empty("ab", 4));
}

#[test]
fn test_take_expecting() {
    assert_eq!(Ok("b"), take_expecting("ab", "a"));
    assert_eq!(
        Err(TakeExpectingError {
            found: "ba".to_string()
        }),
        take_expecting("ba", "a")
    );
}

#[test]
fn take_or_empty_concatenation_restores_input() {
    for (s, n) in [("", 0), ("", 5), ("abc", 0), ("abc", 1), ("abc", 3), ("abc", 7)] {
        let (head, tail) = take_or_empty(s, n);
        assert_eq!(head.len(), n.min(s.len()));
        assert_eq!(format!("{head}{tail}"), s);
    }
}

#[test]
fn take_expecting_label_lengths() {
    // label shorter than, equal to, and longer than the input
    assert_eq!(Ok("ter"), take_expecting("jupiter", "jupi"));
    assert_eq!(Ok(""), take_expecting("jupiter", "jupiter"));
    assert_eq!(
        Err(TakeExpectingError {
            found: "jupiter".to_string()
        }),
        take_expecting("jupiter", "jupiter's moons")
    );
    assert_eq!(Ok("anything"), take_expecting("anything", ""));
}
