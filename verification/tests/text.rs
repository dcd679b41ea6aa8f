use bot_core::phrases::{connected, greeting, pong, welcome};
use bot_core::text::{chars_of, count_words, decimal, find_separator, same_text};

#[test]
fn decimal_writes_a_number_as_std_does() {
    assert_eq!(decimal(0), "0");
    assert_eq!(decimal(7), "7");
    assert_eq!(decimal(9), "9");
    assert_eq!(decimal(10), "10");
    assert_eq!(decimal(42), "42");
    assert_eq!(decimal(1000), "1000");
    assert_eq!(decimal(1234567890), "1234567890");
    assert_eq!(decimal(u64::MAX), "18446744073709551615");
    let mut n: u64 = 1;
    for _ in 0..60 {
        assert_eq!(decimal(n), n.to_string());
        assert_eq!(decimal(n - 1), (n - 1).to_string());
        n = n.wrapping_mul(3).wrapping_add(1);
    }
}

#[test]
fn chars_of_keeps_every_character() {
    assert_eq!(chars_of(""), Vec::<char>::new());
    assert_eq!(chars_of("a b"), vec!['a', ' ', 'b']);
    assert_eq!(chars_of("você"), vec!['v', 'o', 'c', 'ê']);
}

#[test]
fn same_text_compares_characters() {
    assert!(same_text("", ""));
    assert!(same_text("!ping", "!ping"));
    assert!(!same_text("!ping", "!pinG"));
    assert!(!same_text("!ping", "!ping "));
    assert!(!same_text("a", ""));
}

#[test]
fn count_words_counts_runs_between_spaces() {
    let count = |s: &str| count_words(&chars_of(s));
    assert_eq!(count(""), 0);
    assert_eq!(count("   "), 0);
    assert_eq!(count("a"), 1);
    assert_eq!(count(" a "), 1);
    assert_eq!(count("a b"), 2);
    assert_eq!(count("a  b   c"), 3);
    assert_eq!(count("a\tb"), 1);
    assert_eq!(count("über alles"), 2);
}

#[test]
fn find_separator_gives_the_first_space_or_the_length() {
    let find = |s: &str, from: usize| find_separator(&chars_of(s), from);
    assert_eq!(find("/about now", 1), 6);
    assert_eq!(find("/about now", 6), 6);
    assert_eq!(find("/about now", 7), 10);
    assert_eq!(find("/about", 1), 6);
    assert_eq!(find("/", 1), 1);
    assert_eq!(find("", 0), 0);
    assert_eq!(find(" x", 0), 0);
    assert_eq!(find("abc", 3), 3);
    assert_eq!(find("a c", 9), 3);
}

#[test]
fn the_fixed_texts() {
    assert_eq!(pong(), "Pong!");
    assert_eq!(connected("Bilbo"), "Bilbo is connected!");
    assert_eq!(connected(""), " is connected!");
    assert!(greeting("Bob").starts_with("Ah, um caloroso 'oi' para você Bob, meu caro!"));
    assert!(greeting("").starts_with("Ah, um caloroso 'oi' para você , meu caro!"));
    assert!(welcome("Sam").starts_with("Seja muito bem-vindo Sam, nobre viajante!"));
    assert!(welcome("Sam").ends_with("terras desconhecidas!"));
}
