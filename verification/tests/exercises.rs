//! Tests for the arithmetic, string, list, and polynomial exercises.

use exercises::basics::{chooses, fibonacci, gcd, sum_array, up3, zip};
use exercises::day::{next_weekday, DayOfWeek};
use exercises::opt::{my_and_then, my_map, MyOption};
use exercises::org::organize;
use exercises::poly::{from_usize, Polynomial, Semiring};
use exercises::search::find;
use exercises::stats::{median, mode};
use exercises::strings::{capitalize, piglatin, twelve_days_of_christmas_lyrics, LYRICS};

#[test]
fn gcd_of_small_numbers() {
    assert_eq!(gcd(12, 18), 6);
    assert_eq!(gcd(7, 0), 7);
    assert_eq!(gcd(0, 9), 9);
    assert_eq!(gcd(35, 14), 7);
}

#[test]
fn sums_an_array() {
    assert_eq!(sum_array(&[]), 0);
    assert_eq!(sum_array(&[1, 2, 3, 4]), 10);
}

#[test]
fn smallest_power_of_three_bounds() {
    assert_eq!(up3(0), 1);
    assert_eq!(up3(1), 1);
    assert_eq!(up3(6), 9);
    assert_eq!(up3(9), 9);
    assert_eq!(up3(10), 27);
}

#[test]
fn binomial_rows() {
    assert_eq!(chooses(0), vec![1]);
    assert_eq!(chooses(4), vec![1, 4, 6, 4, 1]);
    assert_eq!(chooses(6), vec![1, 6, 15, 20, 15, 6, 1]);
}

#[test]
fn zips_two_vectors() {
    assert_eq!(zip(vec![1, 2, 3], vec![4, 5]), vec![(1, 4), (2, 5)]);
    assert_eq!(zip(vec![], vec![4, 5]), vec![]);
}

#[test]
fn fibonacci_numbers() {
    assert_eq!(fibonacci(0), 1);
    assert_eq!(fibonacci(1), 1);
    assert_eq!(fibonacci(2), 2);
    assert_eq!(fibonacci(3), 3);
    assert_eq!(fibonacci(4), 5);
    assert_eq!(fibonacci(9), 55);
}

#[test]
fn capitalizes_ascii_letters_only() {
    assert_eq!(
        capitalize(String::from("Hello, World 42!")),
        "HELLO, WORLD 42!"
    );
}

#[test]
fn lyrics_are_complete() {
    let lyrics = twelve_days_of_christmas_lyrics();
    assert_eq!(lyrics, LYRICS);
    assert!(lyrics.starts_with("On the first day of Christmas"));
    assert!(lyrics.contains("Twelve drummers drumming"));
}

#[test]
fn piglatin_rules() {
    assert_eq!(piglatin(String::from("happy")), "appyhay");
    assert_eq!(piglatin(String::from("string")), "ingstray");
    assert_eq!(piglatin(String::from("explain")), "explainhay");
}

#[test]
fn next_weekday_skips_the_weekend() {
    assert_eq!(next_weekday(DayOfWeek::Thu), DayOfWeek::Fri);
    assert_eq!(next_weekday(DayOfWeek::Fri), DayOfWeek::Mon);
    assert_eq!(next_weekday(DayOfWeek::Sat), DayOfWeek::Mon);
    assert_eq!(next_weekday(DayOfWeek::Sun), DayOfWeek::Mon);
}

#[test]
fn my_option_map() {
    fn len(s: String) -> usize {
        s.len()
    }
    assert_eq!(
        my_map(MyOption::MySome(String::from("Hello, World!")), len),
        MyOption::MySome(13)
    );
    assert_eq!(my_map(MyOption::MyNone, len), MyOption::MyNone);
}

#[test]
fn my_option_and_then() {
    fn pos_then_to_string(x: isize) -> MyOption<String> {
        if x > 0 {
            MyOption::MySome(x.to_string())
        } else {
            MyOption::MyNone
        }
    }
    assert_eq!(
        my_and_then(MyOption::MySome(2), pos_then_to_string),
        MyOption::MySome(String::from("2"))
    );
    assert_eq!(
        my_and_then(MyOption::MySome(-3), pos_then_to_string),
        MyOption::MyNone
    );
    assert_eq!(my_and_then(MyOption::MyNone, pos_then_to_string), MyOption::MyNone);
}

#[test]
fn median_picks_the_upper_middle() {
    assert_eq!(median(vec![1, 3, 3, 6, 7, 8, 9]), Some(6));
    assert_eq!(median(vec![1, 2, 3, 4, 5, 6, 8, 9]), Some(5));
    assert_eq!(median(vec![9, 1]), Some(9));
    assert_eq!(median(vec![]), None);
}

#[test]
fn mode_picks_the_smallest_most_frequent() {
    assert_eq!(mode(vec![1, 2, 2, 1]), Some(1));
    assert_eq!(mode(vec![3, 3, 1]), Some(3));
    assert_eq!(mode(vec![5]), Some(5));
    assert_eq!(mode(vec![]), None);
}

#[test]
fn organize_commands_into_chart() {
    let chart = organize(vec![
        String::from("Add Amir to Engineering"),
        String::from("Add Sally to Sales"),
        String::from("Remove Jeehoon from Sales"),
        String::from("Move Amir from Engineering to Sales"),
    ]);
    assert_eq!(chart.len(), 1);
    let members = chart.get(&String::from("Sales")).unwrap();
    assert_eq!(members, &vec![String::from("Sally"), String::from("Amir")]);
    assert!(chart.get(&String::from("Engineering")).is_none());
}

#[test]
fn organize_ignores_inapplicable_commands() {
    let chart = organize(vec![
        String::from("Add A to D"),
        String::from("Add A to D"),
        String::from("Move B from D to E"),
        String::from("Dance"),
        String::from("Remove A from D"),
    ]);
    assert_eq!(chart.len(), 0);
}

#[test]
fn finds_all_match_positions() {
    assert_eq!(find(&[1u64, 2], &[1, 2, 1, 2, 1]), vec![0, 2]);
    assert_eq!(find(&[7u64], &[1, 2, 3]), vec![]);
    assert_eq!(find(&[1u64, 1], &[1, 1, 1]), vec![0, 1]);
    // An empty query matches everywhere, the position past the end included.
    assert_eq!(find(&[] as &[u64], &[5, 6]), vec![0, 1, 2]);
}

#[test]
fn from_usize_counts_up() {
    let five: u64 = from_usize(5);
    assert_eq!(five, 5);
    let three: i64 = from_usize(3);
    assert_eq!(three, 3);
    let zero: u64 = from_usize(0);
    assert_eq!(zero, 0);
}

#[test]
fn polynomial_arithmetic_by_evaluation() {
    // (x + 1)^2 == x^2 + 2x + 1, evaluated at a few points.
    let p = Polynomial::<u64>::x().add(&Polynomial::one());
    let q = p.mul(&p);
    assert_eq!(q.eval(0), 1);
    assert_eq!(q.eval(2), 9);
    assert_eq!(q.eval(10), 121);
    assert!(!q.is_zero());
    assert!(Polynomial::<u64>::zero().is_zero());
}

#[test]
fn addition_removes_stored_zero_coefficients() {
    // A zero coefficient stored on either side of an addition disappears
    // from the sum.
    let z = Polynomial::<u64>::from_coefficient(0);
    assert!(z.add(&Polynomial::zero()).is_zero());
    assert!(Polynomial::<u64>::zero().add(&z).is_zero());
    // Adding zero leaves a polynomial without zero coefficients as it was.
    let p = Polynomial::<u64>::x().add(&Polynomial::from_coefficient(3));
    let q = p.add(&Polynomial::zero());
    assert_eq!(q.eval(10), 13);
    assert!(!q.is_zero());
}

#[test]
fn polynomial_zero_coefficients_vanish() {
    // Over i64: (x - 1) + 1 leaves just x, and x + (-1)*x is zero.
    let x = Polynomial::<i64>::x();
    let minus_one = Polynomial::from_coefficient(-1);
    let p = x.add(&minus_one).add(&Polynomial::one());
    assert_eq!(p.eval(7), 7);
    let q = x.mul(&minus_one).add(&x);
    assert!(q.is_zero());
}
