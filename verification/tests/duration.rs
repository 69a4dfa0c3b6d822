use countdown::duration::{
    duration_arg, parse_hms, read_duration, Reading, Term, DEFAULT_SECONDS,
};
use countdown::numeral::{push_decimal, push_two_digits};
use countdown::span::{Span, SECOND};
use std::num::ParseFloatError;

fn number(text: &str) -> Result<f64, ParseFloatError> {
    text.parse::<f64>()
}

fn seconds(reading: Reading<f64>) -> f64 {
    match reading {
        Reading::Sum(terms) => {
            let mut sum = 0.0;
            for term in terms {
                sum += term.value * f64::from(term.unit);
            }
            sum
        }
        Reading::Default => f64::from(DEFAULT_SECONDS),
    }
}

fn parsed(text: &str) -> Option<f64> {
    parse_hms(text, &number).ok().map(seconds)
}

fn args(list: &[&str]) -> Vec<String> {
    list.iter().map(|a| a.to_string()).collect()
}

#[test]
fn hours_minutes_and_seconds() {
    assert_eq!(parsed("01:02:03"), Some(3723.0));
    assert_eq!(parsed("0:0:0.5"), Some(0.5));
}

#[test]
fn minutes_and_seconds() {
    assert_eq!(parsed("1:30"), Some(90.0));
    assert_eq!(parsed("0.5:0"), Some(30.0));
}

#[test]
fn plain_seconds() {
    assert_eq!(parsed("90"), Some(90.0));
    assert_eq!(parsed("2.5"), Some(2.5));
}

#[test]
fn too_many_fields_mean_the_default() {
    assert_eq!(parsed("1:2:3:4"), Some(60.0));
    assert_eq!(parsed("a:b:c:d"), Some(60.0));
    assert_eq!(parsed("::::"), Some(60.0));
}

#[test]
fn a_field_that_is_no_number_is_an_error() {
    assert_eq!(parsed(""), None);
    assert_eq!(parsed("x"), None);
    assert_eq!(parsed("1:"), None);
    assert_eq!(parsed(":1"), None);
    assert_eq!(parsed("1:2:z"), None);
}

#[test]
fn the_first_bad_field_is_the_error() {
    let echo = |text: &str| text.parse::<u32>().map_err(|_| text.to_string());
    assert_eq!(parse_hms("1:b:c", &echo), Err("b".to_string()));
    assert_eq!(parse_hms("ä:ö", &echo), Err("ä".to_string()));
}

#[test]
fn fields_go_with_their_units() {
    let number = |text: &str| text.parse::<u32>();
    assert_eq!(
        parse_hms("4:5:6", &number),
        Ok(Reading::Sum(vec![
            Term { value: 4, unit: 3600 },
            Term { value: 5, unit: 60 },
            Term { value: 6, unit: 1 },
        ]))
    );
}

#[test]
fn the_first_argument_that_is_no_option_gives_the_duration() {
    assert_eq!(duration_arg(&args(&["timer", "-v", "10", "20"])), Some(2));
    assert_eq!(duration_arg(&args(&["timer", "--x", "-5"])), None);
    assert_eq!(duration_arg(&args(&["timer", ""])), Some(1));
    assert_eq!(duration_arg(&args(&["timer"])), None);
    assert_eq!(duration_arg(&args(&[])), None);
}

#[test]
fn the_duration_is_read_from_the_arguments() {
    assert_eq!(read_duration(&args(&["timer", "1:00"]), &number).map(seconds), Ok(60.0));
    assert_eq!(read_duration(&args(&["timer", "-1", "5"]), &number).map(seconds), Ok(5.0));
    assert_eq!(read_duration(&args(&["timer"]), &number).map(seconds), Ok(60.0));
    assert!(read_duration(&args(&["timer", "soon"]), &number).is_err());
}

#[test]
fn numerals_are_written_out() {
    let mut text = String::from("n=");
    push_decimal(&mut text, u64::MAX);
    assert_eq!(text, "n=18446744073709551615");
    let mut text = String::new();
    push_decimal(&mut text, 0);
    assert_eq!(text, "0");
    let mut text = String::new();
    push_two_digits(&mut text, 7);
    push_two_digits(&mut text, 10);
    push_two_digits(&mut text, 100);
    assert_eq!(text, "0710100");
}

#[test]
fn a_time_that_is_shown_reads_back() {
    for n in [0, 59, 60, 90, 3_599, 3_600, 3_725, 360_000] {
        let shown = Span::Finite(n * SECOND).hms().format();
        assert_eq!(parsed(&shown), Some(n as f64));
    }
}

#[test]
fn a_leading_zero_field_changes_nothing() {
    for text in ["90", "1:30", "2.5", "x", "1:", ":1", ""] {
        assert_eq!(parsed(&format!("0:{text}")), parsed(text));
    }
}
