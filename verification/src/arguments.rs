//! Command argument parsers: durations, IP addresses and strings.
//!
//! Each parser takes the words left on the command line, reads from the
//! front, and hands back the words it did not consume together with the
//! parsed value.

use vstd::prelude::*;
use vstd::string::*;
use crate::net::IpAddress;

verus! {

/// Whether `c` is an ASCII decimal digit.
pub open spec fn is_digit(c: char) -> bool {
    '0' <= c && c <= '9'
}

/// Whether every character of `s` is an ASCII decimal digit.
pub open spec fn all_digits(s: Seq<char>) -> bool {
    forall|i: int| 0 <= i < s.len() ==> is_digit(s[i])
}

/// The value of a decimal digit.
pub open spec fn digit_value(c: char) -> int {
    c as int - '0' as int
}

/// The value of a string of decimal digits, read most significant first.
pub open spec fn digits_value(s: Seq<char>) -> int
    decreases s.len(),
{
    if s.len() == 0 {
        0
    } else {
        10 * digits_value(s.drop_last()) + digit_value(s.last())
    }
}

/// Whether `s` starts with a sign character.
pub open spec fn has_sign(s: Seq<char>) -> bool {
    s.len() > 0 && (s[0] == '-' || s[0] == '+')
}

/// The digits of a decimal text: the text without its sign, if it has one.
pub open spec fn unsigned_part(s: Seq<char>) -> Seq<char> {
    if has_sign(s) {
        s.drop_first()
    } else {
        s
    }
}

/// What `str::parse::<i64>` gives for a text: an optional `+` or `-`,
/// then one or more ASCII digits whose value, with the sign, fits an `i64`.
pub open spec fn spec_parse_i64(s: Seq<char>) -> Option<i64> {
    let digits = unsigned_part(s);
    let value = if s.len() > 0 && s[0] == '-' {
        -digits_value(digits)
    } else {
        digits_value(digits)
    };
    if digits.len() > 0 && all_digits(digits) && i64::MIN <= value <= i64::MAX {
        Some(value as i64)
    } else {
        None
    }
}

proof fn lemma_digits_value_nonneg(s: Seq<char>)
    requires
        all_digits(s),
    ensures
        digits_value(s) >= 0,
    decreases s.len(),
{
    if s.len() > 0 {
        lemma_digits_value_nonneg(s.drop_last());
        assert(is_digit(s[s.len() - 1]));
    }
}

/// The magnitude bound past which no `i64` can be reached: 2^63.
pub open spec fn magnitude_limit() -> int {
    9223372036854775808
}

/// Parses the characters `start..end` of `s` as `str::parse::<i64>` does.
pub fn parse_i64_range(s: &str, start: usize, end: usize) -> (r: Option<i64>)
    requires
        start <= end <= s@.len(),
    ensures
        r == spec_parse_i64(s@.subrange(start as int, end as int)),
{
    let ghost t = s@.subrange(start as int, end as int);
    if start == end {
        return None;
    }
    let first = s.get_char(start);
    let negative = first == '-';
    let digits_start: usize = if first == '-' || first == '+' {
        start + 1
    } else {
        start
    };
    assert(unsigned_part(t) == s@.subrange(digits_start as int, end as int));
    if digits_start == end {
        return None;
    }
    let mut magnitude: u64 = 0;
    let mut too_big = false;
    let mut i: usize = digits_start;
    while i < end
        invariant
            start <= digits_start <= i <= end <= s@.len(),
            t == s@.subrange(start as int, end as int),
            unsigned_part(t) == s@.subrange(digits_start as int, end as int),
            all_digits(s@.subrange(digits_start as int, i as int)),
            !too_big ==> magnitude == digits_value(s@.subrange(digits_start as int, i as int)),
            !too_big ==> magnitude <= magnitude_limit(),
            too_big ==> digits_value(s@.subrange(digits_start as int, i as int)) > magnitude_limit(),
        decreases end - i,
    {
        let c = s.get_char(i);
        let ghost pre = s@.subrange(digits_start as int, i as int);
        let ghost post = s@.subrange(digits_start as int, i + 1);
        proof {
            assert(post.drop_last() == pre);
            assert(post.last() == c);
        }
        if !('0' <= c && c <= '9') {
            proof {
                let u = s@.subrange(digits_start as int, end as int);
                assert(u[i - digits_start] == c);
                assert(!is_digit(u[i - digits_start]));
                assert(!all_digits(unsigned_part(t)));
            }
            return None;
        }
        let d: u64 = (c as u32 - '0' as u32) as u64;
        assert(d == digit_value(c));
        proof {
            lemma_digits_value_nonneg(pre);
        }
        if !too_big {
            if magnitude > (9223372036854775808u64 - d) / 10 {
                assert(magnitude * 10 + d > magnitude_limit()) by (nonlinear_arith)
                    requires
                        magnitude > (9223372036854775808u64 - d) / 10,
                        d <= 9,
                ;
                too_big = true;
            } else {
                assert(magnitude * 10 + d <= magnitude_limit()) by (nonlinear_arith)
                    requires
                        magnitude <= (9223372036854775808u64 - d) / 10,
                        d <= 9,
                ;
                magnitude = magnitude * 10 + d;
            }
        }
        proof {
            assert forall|j: int| 0 <= j < post.len() implies is_digit(post[j]) by {
                if j < pre.len() {
                    assert(post[j] == pre[j]);
                }
            }
        }
        i = i + 1;
    }
    assert(s@.subrange(digits_start as int, i as int) == unsigned_part(t));
    if too_big {
        return None;
    }
    if negative {
        if magnitude == 9223372036854775808u64 {
            Some(i64::MIN)
        } else {
            Some(-(magnitude as i64))
        }
    } else {
        if magnitude > 9223372036854775807u64 {
            None
        } else {
            Some(magnitude as i64)
        }
    }
}

/// How a string argument reads the command line, as the protocol announces
/// it to the client.
#[derive(Clone, Copy, Debug, PartialEq, Eq, Structural)]
pub enum ArgumentStringTypeBehavior {
    /// One word.
    SingleWord,
    /// One word, or a phrase in quotes.
    QuotablePhrase,
    /// The whole rest of the command.
    GreedyPhrase,
}

/// How an argument is announced to the client: how its text is read, and
/// whether the client asks the server for suggestions.
#[derive(Clone, Copy, Debug, PartialEq, Eq, Structural)]
pub struct ArgumentUsage {
    pub behavior: ArgumentStringTypeBehavior,
    pub asks_server: bool,
}

/// The minutes in one of a duration's units: `h`our, `d`ay, `w`eek, `m`onth
/// (30 days) and `y`ear (365 days).
pub open spec fn unit_minutes(c: char) -> Option<int> {
    if c == 'h' {
        Some(60int)
    } else if c == 'd' {
        Some(60int * 24)
    } else if c == 'w' {
        Some(60int * 24 * 7)
    } else if c == 'm' {
        Some(60int * 24 * 30)
    } else if c == 'y' {
        Some(60int * 24 * 365)
    } else {
        None
    }
}

/// The minutes that a duration text stands for: a non-negative `i64`
/// number, followed by one unit letter or, without a letter, counted in
/// days. `None` for any other text.
///
/// Splitting the text at its first alphabetic character, as the command
/// reads it, comes to the same: a text that parses as a number has no
/// letter, and the unit part must be exactly one of the unit letters, so
/// the letter is the last character and the number is all before it.
pub open spec fn spec_duration_minutes(s: Seq<char>) -> Option<int> {
    match spec_parse_i64(s) {
        Some(n) => if n < 0 {
            None
        } else {
            Some(n * (60int * 24))
        },
        None => if s.len() > 0 && unit_minutes(s.last()) is Some {
            match spec_parse_i64(s.drop_last()) {
                Some(n) => if n < 0 {
                    None
                } else {
                    Some(n * unit_minutes(s.last()).unwrap())
                },
                None => None,
            }
        } else {
            None
        },
    }
}

/// The minutes of a duration text fit an `i64` (the multiplication by the
/// unit does not overflow).
pub open spec fn duration_fits(s: Seq<char>) -> bool {
    spec_duration_minutes(s) matches Some(m) ==> m <= i64::MAX
}

/// `text` followed by the single character `c`.
pub open spec fn suffixed(text: Seq<char>, c: char) -> Seq<char> {
    text.push(c)
}

/// Whether the minutes of a duration text fit an `i64`: the test to make
/// before [`DurationArgument::parse`], which requires it.
pub fn duration_fits_i64(s: &str) -> (r: bool)
    ensures
        r == duration_fits(s@),
{
    let n = s.unicode_len();
    assert(s@.subrange(0, n as int) == s@);
    match parse_i64_range(s, 0, n) {
        Some(v) => v < 0 || v <= i64::MAX / (60 * 24),
        None => {
            if n == 0 {
                return true;
            }
            let unit = s.get_char(n - 1);
            let factor: i64 = if unit == 'h' {
                60
            } else if unit == 'd' {
                60 * 24
            } else if unit == 'w' {
                60 * 24 * 7
            } else if unit == 'm' {
                60 * 24 * 30
            } else if unit == 'y' {
                60 * 24 * 365
            } else {
                0
            };
            if factor == 0 {
                return true;
            }
            assert(s@.subrange(0, n - 1) == s@.drop_last());
            match parse_i64_range(s, 0, n - 1) {
                Some(v) => {
                    let fits = v < 0 || v <= i64::MAX / factor;
                    proof {
                        if v >= 0 {
                            assert((v <= i64::MAX / factor) == (v * factor <= i64::MAX)) by (nonlinear_arith)
                                requires
                                    v >= 0,
                                    factor > 0,
                            ;
                        }
                    }
                    fits
                },
                None => true,
            }
        },
    }
}

/// A duration argument, in minutes; `h`, `d`, `w`, `m` and `y` units.
pub struct DurationArgument;

impl DurationArgument {
    /// Reads a duration from the first word.
    pub fn parse<'a>(&self, arg: &'a [&'a str]) -> (r: Option<(&'a [&'a str], i64)>)
        requires
            arg@.len() > 0 ==> duration_fits(arg@[0]@),
        ensures
            r is Some <==> (arg@.len() > 0 && spec_duration_minutes(arg@[0]@) is Some),
            r matches Some((rest, minutes)) ==> rest@ == arg@.drop_first() && minutes
                == spec_duration_minutes(arg@[0]@).unwrap(),
    {
        if arg.len() == 0 {
            return None;
        }
        let s: &str = arg[0];
        let n = s.unicode_len();
        let minutes: Option<i64> = match parse_i64_range(s, 0, n) {
            Some(v) => {
                assert(s@.subrange(0, n as int) == s@);
                if v < 0 {
                    None
                } else {
                    Some(v * (60 * 24))
                }
            },
            None => {
                assert(s@.subrange(0, n as int) == s@);
                if n == 0 {
                    None
                } else {
                    let unit = s.get_char(n - 1);
                    let factor: i64 = if unit == 'h' {
                        60
                    } else if unit == 'd' {
                        60 * 24
                    } else if unit == 'w' {
                        60 * 24 * 7
                    } else if unit == 'm' {
                        60 * 24 * 30
                    } else if unit == 'y' {
                        60 * 24 * 365
                    } else {
                        0
                    };
                    if factor == 0 {
                        None
                    } else {
                        assert(s@.subrange(0, n - 1) == s@.drop_last());
                        match parse_i64_range(s, 0, n - 1) {
                            Some(v) => if v < 0 {
                                None
                            } else {
                                Some(v * factor)
                            },
                            None => None,
                        }
                    }
                }
            },
        };
        match minutes {
            Some(m) => Some((arg.split_at(1).1, m)),
            None => None,
        }
    }

    /// How the argument is announced: one word, with suggestions from the
    /// server.
    pub fn usage(&self) -> (u: ArgumentUsage)
        ensures
            u == (ArgumentUsage { behavior: ArgumentStringTypeBehavior::SingleWord, asks_server: true }),
    {
        ArgumentUsage { behavior: ArgumentStringTypeBehavior::SingleWord, asks_server: true }
    }

    /// Suggests the five units after a typed number: none for an empty
    /// prefix or one that is not an `i64`, else the prefix followed by `h`,
    /// `d`, `w`, `m` and `y`, in that order.
    pub fn suggest(&self, prefix: &str) -> (v: Vec<String>)
        ensures
            prefix@.len() == 0 || spec_parse_i64(prefix@) is None ==> v@.len() == 0,
            prefix@.len() > 0 && spec_parse_i64(prefix@) is Some ==> {
                &&& v@.len() == 5
                &&& v@[0]@ == suffixed(prefix@, 'h')
                &&& v@[1]@ == suffixed(prefix@, 'd')
                &&& v@[2]@ == suffixed(prefix@, 'w')
                &&& v@[3]@ == suffixed(prefix@, 'm')
                &&& v@[4]@ == suffixed(prefix@, 'y')
            },
    {
        let n = prefix.unicode_len();
        if n == 0 {
            return Vec::new();
        }
        assert(prefix@.subrange(0, n as int) == prefix@);
        if parse_i64_range(prefix, 0, n).is_none() {
            return Vec::new();
        }
        proof {
            reveal_strlit("h");
            reveal_strlit("d");
            reveal_strlit("w");
            reveal_strlit("m");
            reveal_strlit("y");
        }
        let mut v: Vec<String> = Vec::new();
        v.push(with_suffix(prefix, "h"));
        v.push(with_suffix(prefix, "d"));
        v.push(with_suffix(prefix, "w"));
        v.push(with_suffix(prefix, "m"));
        v.push(with_suffix(prefix, "y"));
        v
    }
}

/// `text` followed by `suffix`, as a new string.
fn with_suffix(text: &str, suffix: &str) -> (r: String)
    ensures
        r@ == text@ + suffix@,
{
    let mut r = String::from_str(text);
    r.append(suffix);
    r
}

/// An IP address argument.
pub struct IpArgument;

impl IpArgument {
    /// Reads an IP address from the first word. `first_as_ip` is that word
    /// read by `std`'s `IpAddr` parser (`None` where it is no address);
    /// the argument fails where there is no word or no address.
    pub fn parse<'a>(&self, arg: &'a [&'a str], first_as_ip: Option<IpAddress>) -> (r: Option<
        (&'a [&'a str], Option<IpAddress>),
    >)
        ensures
            r is Some <==> (arg@.len() > 0 && first_as_ip is Some),
            r matches Some((rest, ip)) ==> rest@ == arg@.drop_first() && ip == first_as_ip,
    {
        if arg.len() == 0 {
            return None;
        }
        match first_as_ip {
            Some(ip) => Some((arg.split_at(1).1, Some(ip))),
            None => None,
        }
    }

    /// How the argument is announced: one word, with no suggestions.
    pub fn usage(&self) -> (u: ArgumentUsage)
        ensures
            u == (ArgumentUsage { behavior: ArgumentStringTypeBehavior::SingleWord, asks_server: false }),
    {
        ArgumentUsage { behavior: ArgumentStringTypeBehavior::SingleWord, asks_server: false }
    }
}

/// `words` joined with `sep` between each two of them.
pub open spec fn join_with(words: Seq<Seq<char>>, sep: Seq<char>) -> Seq<char>
    decreases words.len(),
{
    if words.len() == 0 {
        Seq::empty()
    } else if words.len() == 1 {
        words[0]
    } else {
        join_with(words.drop_last(), sep) + sep + words.last()
    }
}

/// The words of a command line joined with single spaces.
pub open spec fn join_with_spaces(words: Seq<Seq<char>>) -> Seq<char> {
    join_with(words, seq![' '])
}

/// The texts of a list of words.
pub open spec fn texts_of(arg: Seq<&str>) -> Seq<Seq<char>> {
    arg.map_values(|w: &str| w@)
}

/// Whether `c` opens and closes a quoted phrase.
pub open spec fn is_quote(c: char) -> bool {
    c == '"' || c == '\''
}

/// Whether the word at `k` closes a phrase opened by the quote `q` at the
/// start of the first word: it ends with `q` (the first word only where it
/// holds more than the opening quote).
pub open spec fn closes_phrase(words: Seq<Seq<char>>, q: char, k: int) -> bool {
    words[k].len() > 0 && words[k].last() == q && (k > 0 || words[k].len() >= 2)
}

/// The first word from `from` on that closes a phrase opened by `q`.
pub open spec fn phrase_end(words: Seq<Seq<char>>, q: char, from: int) -> Option<int>
    decreases words.len() - from,
{
    if from < 0 || from >= words.len() {
        None
    } else if closes_phrase(words, q, from) {
        Some(from)
    } else {
        phrase_end(words, q, from + 1)
    }
}

/// What a quotable string argument reads from `words` (at least one), as
/// the number of words it takes and the text. A first word that starts with
/// a quote opens a phrase that runs, its words joined with single spaces,
/// to the first word ending with the same quote; the phrase is read without
/// its two quotes, and an unclosed phrase reads nothing. Any other first
/// word is read as it stands.
pub open spec fn spec_quotable(words: Seq<Seq<char>>) -> Option<(int, Seq<char>)> {
    if words[0].len() > 0 && is_quote(words[0][0]) {
        match phrase_end(words, words[0][0], 0) {
            Some(k) => {
                let joined = join_with_spaces(words.take(k + 1));
                Some((k + 1, joined.subrange(1, joined.len() - 1)))
            },
            None => None,
        }
    } else {
        Some((1, words[0]))
    }
}

proof fn lemma_join_len(words: Seq<Seq<char>>, m: int)
    requires
        1 <= m <= words.len(),
    ensures
        join_with_spaces(words.take(m)).len() >= words[0].len() + (m - 1),
    decreases m,
{
    if m == 1 {
        assert(words.take(1) == seq![words[0]]);
    } else {
        lemma_join_len(words, m - 1);
        assert(words.take(m).drop_last() == words.take(m - 1));
    }
}

/// The first `m` words joined with single spaces.
fn join_words(arg: &[&str], m: usize) -> (r: String)
    requires
        1 <= m <= arg@.len(),
    ensures
        r@ == join_with_spaces(texts_of(arg@).take(m as int)),
{
    let ghost words = texts_of(arg@);
    let mut combined = String::from_str(arg[0]);
    proof {
        assert(words.take(1) == seq![words[0]]);
    }
    let mut i: usize = 1;
    while i < m
        invariant
            m <= arg@.len(),
            1 <= i <= m,
            words == texts_of(arg@),
            combined@ == join_with_spaces(words.take(i as int)),
        decreases m - i,
    {
        proof {
            reveal_strlit(" ");
            assert(words.take(i + 1).drop_last() == words.take(i as int));
            assert(words.take(i + 1).last() == arg@[i as int]@);
        }
        combined.append(" ");
        combined.append(arg[i]);
        i = i + 1;
    }
    combined
}

/// Reads a quotable phrase from a non-empty command line (see
/// [`spec_quotable`]).
fn parse_quotable<'a>(arg: &'a [&'a str]) -> (r: Option<(&'a [&'a str], String)>)
    requires
        arg@.len() > 0,
    ensures
        r is Some <==> spec_quotable(texts_of(arg@)) is Some,
        r matches Some((rest, text)) ==> rest@ == arg@.skip(spec_quotable(texts_of(arg@)).unwrap().0)
            && text@ == spec_quotable(texts_of(arg@)).unwrap().1,
{
    let ghost words = texts_of(arg@);
    let first = arg[0];
    let len0 = first.unicode_len();
    if len0 == 0 {
        return Some((arg.split_at(1).1, String::from_str(first)));
    }
    let q = first.get_char(0);
    assert(words[0] == first@);
    if !(q == '"' || q == '\'') {
        return Some((arg.split_at(1).1, String::from_str(first)));
    }
    let n = arg.len();
    let mut i: usize = 0;
    while i < n
        invariant
            n == arg@.len(),
            i <= n,
            words == texts_of(arg@),
            words[0].len() > 0,
            is_quote(q),
            q == words[0][0],
            phrase_end(words, q, 0) == phrase_end(words, q, i as int),
        decreases n - i,
    {
        let w = arg[i];
        let l = w.unicode_len();
        if l > 0 && w.get_char(l - 1) == q && (i > 0 || l >= 2) {
            proof {
                assert(words[i as int] == w@);
                assert(closes_phrase(words, q, i as int));
                assert(phrase_end(words, q, i as int) == Some(i as int));
                lemma_join_len(words, i + 1);
            }
            let joined = join_words(arg, i + 1);
            let jl = joined.unicode_len();
            let text = String::from_str(joined.as_str().substring_char(1, jl - 1));
            proof {
                assert(spec_quotable(words) == Some(
                    ((i + 1) as int, joined@.subrange(1, jl - 1)),
                ));
            }
            return Some((arg.split_at(i + 1).1, text));
        }
        assert(words[i as int] == w@);
        assert(!closes_phrase(words, q, i as int));
        i = i + 1;
    }
    None
}

/// A string argument that is a single word, a quotable phrase, or the rest
/// of the command.
pub struct StringArgument {
    behavior: ArgumentStringTypeBehavior,
}

impl StringArgument {
    /// How this argument reads the command line.
    pub closed spec fn behavior(&self) -> ArgumentStringTypeBehavior {
        self.behavior
    }

    /// A string argument that reads a single word.
    pub fn word() -> (a: Self)
        ensures
            a.behavior() == ArgumentStringTypeBehavior::SingleWord,
    {
        StringArgument { behavior: ArgumentStringTypeBehavior::SingleWord }
    }

    /// A string argument that can contain spaces where it is wrapped in
    /// quotes.
    pub fn quotable() -> (a: Self)
        ensures
            a.behavior() == ArgumentStringTypeBehavior::QuotablePhrase,
    {
        StringArgument { behavior: ArgumentStringTypeBehavior::QuotablePhrase }
    }

    /// A string argument that reads the whole rest of the command.
    pub fn greedy() -> (a: Self)
        ensures
            a.behavior() == ArgumentStringTypeBehavior::GreedyPhrase,
    {
        StringArgument { behavior: ArgumentStringTypeBehavior::GreedyPhrase }
    }

    /// Reads the argument: nothing from an empty command line; the first
    /// word for a single word; for a quotable phrase, the phrase between
    /// matching quotes that spans words (see [`spec_quotable`]), or an
    /// unquoted first word; every word, joined with spaces, for a greedy
    /// phrase.
    pub fn parse<'a>(&self, arg: &'a [&'a str]) -> (r: Option<(&'a [&'a str], String)>)
        ensures
            r is Some <==> arg@.len() > 0 && (self.behavior()
                == ArgumentStringTypeBehavior::QuotablePhrase ==> spec_quotable(texts_of(arg@)) is Some),
            r matches Some((rest, text)) ==> match self.behavior() {
                ArgumentStringTypeBehavior::GreedyPhrase => rest@.len() == 0 && text@
                    == join_with_spaces(texts_of(arg@)),
                ArgumentStringTypeBehavior::QuotablePhrase => rest@ == arg@.skip(
                    spec_quotable(texts_of(arg@)).unwrap().0,
                ) && text@ == spec_quotable(texts_of(arg@)).unwrap().1,
                ArgumentStringTypeBehavior::SingleWord => rest@ == arg@.drop_first() && text@
                    == arg@[0]@,
            },
    {
        if arg.len() == 0 {
            return None;
        }
        match self.behavior {
            ArgumentStringTypeBehavior::GreedyPhrase => {
                let n = arg.len();
                let combined = join_words(arg, n);
                proof {
                    assert(texts_of(arg@).take(n as int) == texts_of(arg@));
                }
                Some((arg.split_at(n).1, combined))
            },
            ArgumentStringTypeBehavior::QuotablePhrase => parse_quotable(arg),
            ArgumentStringTypeBehavior::SingleWord => Some((arg.split_at(1).1, String::from_str(arg[0]))),
        }
    }

    /// How the argument is announced: by its behavior, with no
    /// suggestions.
    pub fn usage(&self) -> (u: ArgumentUsage)
        ensures
            u == (ArgumentUsage { behavior: self.behavior(), asks_server: false }),
    {
        ArgumentUsage { behavior: self.behavior, asks_server: false }
    }

    /// A string argument suggests nothing.
    pub fn suggest(&self, prefix: &str) -> (v: Vec<String>)
        ensures
            v@.len() == 0,
    {
        Vec::new()
    }
}

/// Every unit that `DurationArgument::suggest` offers after a typed
/// non-negative number reads back as that number of the unit.
pub proof fn law_suggestions_parse(prefix: Seq<char>, unit: char)
    requires
        spec_parse_i64(prefix) matches Some(n) && n >= 0,
        unit == 'h' || unit == 'd' || unit == 'w' || unit == 'm' || unit == 'y',
    ensures
        spec_duration_minutes(suffixed(prefix, unit)) == Some(
            spec_parse_i64(prefix).unwrap() * unit_minutes(unit).unwrap(),
        ),
{
    let s = suffixed(prefix, unit);
    assert(s.drop_last() == prefix);
    assert(s.last() == unit);
    let digits = unsigned_part(s);
    assert(spec_parse_i64(s) is None) by {
        assert(digits.len() > 0);
        assert(digits.last() == unit);
        assert(!is_digit(digits[digits.len() - 1]));
    }
}

/// A number without a unit counts in days: it reads as the same number with
/// the unit `d`.
pub proof fn law_days_by_default(prefix: Seq<char>)
    requires
        spec_parse_i64(prefix) matches Some(n) && n >= 0,
    ensures
        spec_duration_minutes(prefix) == spec_duration_minutes(suffixed(prefix, 'd')),
{
    law_suggestions_parse(prefix, 'd');
}

} // verus!
