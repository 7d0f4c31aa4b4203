use steel_core::arguments::{
    duration_fits_i64, parse_i64_range, ArgumentStringTypeBehavior, DurationArgument, IpArgument, StringArgument,
};
use steel_core::net::IpAddress;

fn minutes(word: &str) -> Option<i64> {
    let args = [word, "rest"];
    DurationArgument.parse(&args).map(|(rest, m)| {
        assert_eq!(rest, &["rest"]);
        m
    })
}

#[test]
fn duration_units() {
    assert_eq!(minutes("5h"), Some(300));
    assert_eq!(minutes("2d"), Some(2 * 1440));
    assert_eq!(minutes("3"), Some(3 * 1440));
    assert_eq!(minutes("1w"), Some(10080));
    assert_eq!(minutes("2m"), Some(2 * 43200));
    assert_eq!(minutes("1y"), Some(525600));
    assert_eq!(minutes("0h"), Some(0));
    assert_eq!(minutes("+4h"), Some(240));
    assert_eq!(minutes("-0d"), Some(0));
}

#[test]
fn duration_rejects() {
    assert_eq!(minutes("-1"), None);
    assert_eq!(minutes("-3h"), None);
    assert_eq!(minutes("5x"), None);
    assert_eq!(minutes("5hh"), None);
    assert_eq!(minutes("h"), None);
    assert_eq!(minutes(""), None);
    assert_eq!(minutes("5 h"), None);
    assert_eq!(minutes("5é"), None);
    assert_eq!(minutes("1h2"), None);
    assert!(DurationArgument.parse(&[]).is_none());
}

#[test]
fn duration_suggestions() {
    assert!(DurationArgument.suggest("").is_empty());
    assert!(DurationArgument.suggest("5h").is_empty());
    assert_eq!(DurationArgument.suggest("12"), vec!["12h", "12d", "12w", "12m", "12y"]);
    let u = DurationArgument.usage();
    assert_eq!(u.behavior, ArgumentStringTypeBehavior::SingleWord);
    assert!(u.asks_server);
}

#[test]
fn i64_parsing() {
    let p = |s: &str| parse_i64_range(s, 0, s.chars().count());
    assert_eq!(p("0"), Some(0));
    assert_eq!(p("9223372036854775807"), Some(i64::MAX));
    assert_eq!(p("-9223372036854775808"), Some(i64::MIN));
    assert_eq!(p("9223372036854775808"), None);
    assert_eq!(p("-9223372036854775809"), None);
    assert_eq!(p("+"), None);
    assert_eq!(p("-"), None);
    assert_eq!(p(""), None);
    assert_eq!(p("12a"), None);
    assert_eq!(p("00042"), Some(42));
    assert_eq!(p("99999999999999999999999"), None);
    assert_eq!(parse_i64_range("ab123cd", 2, 5), Some(123));
}

#[test]
fn ip_argument() {
    let args = ["10.0.0.1", "why"];
    let ip = IpAddress::V4(0x0a000001);
    let (rest, got) = IpArgument.parse(&args, Some(ip)).unwrap();
    assert_eq!(rest, &["why"]);
    assert_eq!(got, Some(ip));
    assert!(IpArgument.parse(&args, None).is_none());
    assert!(IpArgument.parse(&[], Some(ip)).is_none());
    assert!(!IpArgument.usage().asks_server);
}

#[test]
fn string_arguments() {
    let args = ["you", "were", "warned"];
    let (rest, w) = StringArgument::word().parse(&args).unwrap();
    assert_eq!(w, "you");
    assert_eq!(rest, &["were", "warned"]);
    let (rest, q) = StringArgument::quotable().parse(&args).unwrap();
    assert_eq!(q, "you");
    assert_eq!(rest.len(), 2);
    let (rest, g) = StringArgument::greedy().parse(&args).unwrap();
    assert_eq!(g, "you were warned");
    assert!(rest.is_empty());
    let (_, single) = StringArgument::greedy().parse(&["alone"]).unwrap();
    assert_eq!(single, "alone");
    assert!(StringArgument::greedy().parse(&[]).is_none());
    assert_eq!(StringArgument::greedy().usage().behavior, ArgumentStringTypeBehavior::GreedyPhrase);
    assert!(StringArgument::word().suggest("x").is_empty());
}

#[test]
fn duration_fit_check() {
    assert!(duration_fits_i64("5h"));
    assert!(duration_fits_i64("nonsense"));
    assert!(duration_fits_i64("-9223372036854775808y"));
    assert!(duration_fits_i64("17548272520652y"));
    assert!(!duration_fits_i64("17548272520653y"));
    assert!(!duration_fits_i64("9223372036854775807"));
    assert!(duration_fits_i64("6405119470038038"));
    assert!(!duration_fits_i64("6405119470038039"));
    assert_eq!(minutes("17548272520500y"), Some(17548272520500 * 525600));
}

#[test]
fn suggestions_read_back() {
    let expected = [12 * 60, 12 * 1440, 12 * 10080, 12 * 43200, 12 * 525600];
    for (s, m) in DurationArgument.suggest("12").iter().zip(expected) {
        assert_eq!(minutes(s), Some(m));
    }
}

#[test]
fn days_by_default() {
    assert_eq!(minutes("7"), minutes("7d"));
    assert_eq!(minutes("0"), minutes("0d"));
}

#[test]
fn quotable_phrases_span_words() {
    let q = StringArgument::quotable();
    let (rest, text) = q.parse(&["\"hello", "world\"", "x"]).unwrap();
    assert_eq!(text, "hello world");
    assert_eq!(rest, &["x"][..]);
    let (rest, text) = q.parse(&["'one'", "two"]).unwrap();
    assert_eq!(text, "one");
    assert_eq!(rest, &["two"][..]);
    let (rest, text) = q.parse(&["\"a", "b", "c\""]).unwrap();
    assert_eq!(text, "a b c");
    assert!(rest.is_empty());
    let (rest, text) = q.parse(&["\"", "\""]).unwrap();
    assert_eq!(text, " ");
    assert!(rest.is_empty());
    assert!(q.parse(&["\"never", "closed"]).is_none());
    assert!(q.parse(&["\"mixed", "close'"]).is_none());
    let (rest, text) = q.parse(&["plain", "word"]).unwrap();
    assert_eq!(text, "plain");
    assert_eq!(rest, &["word"][..]);
}
