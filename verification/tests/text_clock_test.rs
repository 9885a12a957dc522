use rsnaker::clock::Clock;
use rsnaker::menus::greeting::{greeting_display, GreetingSimpleDisplay, SwitchMenu};
use rsnaker::text::{
    chars_of, chars_equal, contains_char, contains_str, decimal_string, line_stats, push_decimal, push_signed_decimal,
    push_str, str_equal, string_from_chars,
};

#[test]
fn decimal_writing() {
    assert_eq!(decimal_string(0), "0");
    assert_eq!(decimal_string(1_234_567), "1234567");
    let mut s = String::from("x");
    push_decimal(&mut s, 42);
    assert_eq!(s, "x42");
    let mut n = String::new();
    push_signed_decimal(&mut n, i32::MIN);
    assert_eq!(n, "-2147483648");
    let mut t = String::from("a");
    push_str(&mut t, "bc");
    assert_eq!(t, "abc");
}

#[test]
fn text_searches() {
    assert!(contains_str("--no-caps", "no-"));
    assert!(!contains_str("--caps", "no-"));
    assert!(contains_str("abc", ""));
    assert!(contains_char("a\"b", '"'));
    assert!(str_equal("é", "é"));
    assert!(!str_equal("e", "é"));
    assert!(chars_equal(&chars_of("ab"), &vec!['a', 'b']));
    assert_eq!(string_from_chars(&vec!['🐍', 'x']), "🐍x");
}

#[test]
fn line_statistics() {
    assert_eq!(line_stats("ab\nabcd"), (2, 4));
    assert_eq!(line_stats("one"), (1, 3));
}

#[test]
fn greeting_screens() {
    assert_eq!(greeting_display(SwitchMenu::Speed), GreetingSimpleDisplay::Velocity);
    assert_eq!(greeting_display(SwitchMenu::Help), GreetingSimpleDisplay::Help);
    assert_eq!(GreetingSimpleDisplay::from(SwitchMenu::Run), GreetingSimpleDisplay::MainMenu);
}

#[test]
fn the_clock_advances() {
    let clock = Clock::start();
    let first = clock.now();
    let mut later = first;
    let mut spins: u64 = 0;
    while later < first + 1_000 && spins < 100_000_000 {
        later = clock.now();
        spins += 1;
    }
    assert!(later >= first + 1_000);
}
