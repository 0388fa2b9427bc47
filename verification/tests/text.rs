use thunes::money::{checked_amount, sum_amounts};
use thunes::text::{chars_of, matches_ignoring_case, occurs, occurs_at, same_text};
use thunes::Error;

fn chars(text: &str) -> Vec<char> {
    text.chars().collect()
}

#[test]
fn a_run_is_found_wherever_it_stands() {
    assert!(occurs(&chars("cof"), &chars("coffee")));
    assert!(occurs(&chars("fee"), &chars("coffee")));
    assert!(occurs(&chars("ff"), &chars("coffee")));
    assert!(occurs(&chars("coffee"), &chars("coffee")));
    assert!(!occurs(&chars("coffees"), &chars("coffee")));
    assert!(!occurs(&chars("cfe"), &chars("coffee")));
    assert!(!occurs(&chars("Cof"), &chars("coffee")));
    assert!(occurs(&chars(""), &chars("coffee")));
    assert!(occurs(&chars(""), &chars("")));
    assert!(!occurs(&chars("a"), &chars("")));
    assert!(occurs(&chars("aab"), &chars("aaab")));
    assert!(occurs_at(&chars("ff"), &chars("coffee"), 2));
    assert!(!occurs_at(&chars("ff"), &chars("coffee"), 1));
}

#[test]
fn a_search_does_not_care_about_case() {
    assert!(matches_ignoring_case("COFFEE", "Morning coffee"));
    assert!(matches_ignoring_case("coffee", "MORNING COFFEE"));
    assert!(matches_ignoring_case("École", "à l'éCOLE"));
    assert!(!matches_ignoring_case("tea", "Morning coffee"));
    assert!(matches_ignoring_case("", "anything"));
}

#[test]
fn texts_are_read_character_by_character() {
    assert_eq!(chars_of("héllo"), vec!['h', 'é', 'l', 'l', 'o']);
    assert!(chars_of("").is_empty());
    assert!(same_text("abc", "abc"));
    assert!(!same_text("abc", "abd"));
    assert!(!same_text("abc", "ab"));
}

#[test]
fn amounts_are_summed_over_the_integers() {
    assert_eq!(sum_amounts(&vec![]), 0);
    assert_eq!(sum_amounts(&vec![1, 2, 3, -10]), -4);
    assert_eq!(sum_amounts(&vec![i64::MAX, i64::MAX]), 2 * (i64::MAX as i128));
    assert_eq!(sum_amounts(&vec![i64::MIN, i64::MIN, -1]), 2 * (i64::MIN as i128) - 1);
    assert_eq!(checked_amount(5), Ok(5));
    assert_eq!(checked_amount(i64::MAX as i128), Ok(i64::MAX));
    assert_eq!(checked_amount(i64::MIN as i128), Ok(i64::MIN));
    assert_eq!(checked_amount(i64::MAX as i128 + 1), Err(Error::AmountOutOfRange));
    assert_eq!(checked_amount(i64::MIN as i128 - 1), Err(Error::AmountOutOfRange));
}
