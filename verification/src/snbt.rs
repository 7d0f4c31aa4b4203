//! Which SNBT texts `TextComponent::from_snbt` (text_components 0.1.6) is
//! known to return on.
//!
//! The parser gives up at once unless the first character past leading
//! whitespace is `{` or `[` (a text in quotes is read to its closing
//! quote). Past that, three things keep it from returning:
//! - the sub-parsers of the `score`, `player` (with its `properties`),
//!   `custom` and `click_event` compounds peek at the character after a `:`
//!   and, where it is whitespace, loop without consuming it, forever;
//! - the list form of `shadow_color` multiplies each number, cast to `u32`,
//!   by 255, which overflows (a panic with overflow checks) above
//!   16 843 009;
//! - it recurses once for each `{` and `[`.
//!
//! [`snbt_parse_ends`] rules out each: a text that may name one of those
//! compounds has no `:` before possible whitespace, a text that may name
//! `shadow_color` has no number of more than seven characters, and the
//! openings are bounded. A key is matched on the text's lowercase letters
//! and underscores alone, after dropping each backslash with the character
//! it escapes, so that no spelling of the key (quoted, escaped or spread
//! out by whitespace) slips through. The condition is sufficient, not
//! necessary: it also shuts out a few texts the parser returns on.

use vstd::prelude::*;
use vstd::string::*;

verus! {

/// Whether `c` may be a character that `char::is_whitespace` accepts,
/// over-approximated: the ASCII control characters and the space, and
/// every character from DEL on.
pub open spec fn maybe_whitespace(c: char) -> bool {
    c <= ' ' || c >= '\u{7f}'
}

/// How many times `c` occurs in `s`.
pub open spec fn count_char(s: Seq<char>, c: char) -> nat
    decreases s.len(),
{
    if s.len() == 0 {
        0
    } else {
        count_char(s.drop_last(), c) + if s.last() == c {
            1nat
        } else {
            0nat
        }
    }
}

/// Whether some `:` in `s` is directly followed by a character that may be
/// whitespace.
pub open spec fn colon_before_space(s: Seq<char>) -> bool {
    exists|i: int| 0 <= i < s.len() - 1 && #[trigger] s[i] == ':' && maybe_whitespace(s[i + 1])
}

/// Whether `c` is a lowercase ASCII letter or `_`, the characters of the
/// keys that matter here.
pub open spec fn is_key_letter(c: char) -> bool {
    ('a' <= c && c <= 'z') || c == '_'
}

/// The lowercase ASCII letters and underscores of `s`, in order, after
/// dropping each backslash together with the character after it.
pub open spec fn key_letters(s: Seq<char>) -> Seq<char>
    decreases s.len(),
{
    if s.len() == 0 {
        Seq::empty()
    } else if s[0] == '\\' {
        if s.len() < 2 {
            Seq::empty()
        } else {
            key_letters(s.subrange(2, s.len() as int))
        }
    } else if is_key_letter(s[0]) {
        seq![s[0]] + key_letters(s.subrange(1, s.len() as int))
    } else {
        key_letters(s.subrange(1, s.len() as int))
    }
}

/// Whether `w` occurs in `s` as a contiguous stretch.
pub open spec fn contains_word(s: Seq<char>, w: Seq<char>) -> bool {
    exists|i: int| 0 <= i && i + w.len() <= s.len() && #[trigger] s.subrange(i, i + w.len()) == w
}

/// The keys whose sub-parsers loop on whitespace after a `:`.
pub open spec fn looping_keys() -> Seq<Seq<char>> {
    seq![
        seq!['s', 'c', 'o', 'r', 'e'],
        seq!['p', 'l', 'a', 'y', 'e', 'r'],
        seq!['c', 'u', 's', 't', 'o', 'm'],
        seq!['c', 'l', 'i', 'c', 'k', '_', 'e', 'v', 'e', 'n', 't'],
    ]
}

/// The key whose list form can overflow.
pub open spec fn shadow_color_key() -> Seq<char> {
    seq!['s', 'h', 'a', 'd', 'o', 'w', '_', 'c', 'o', 'l', 'o', 'r']
}

/// Whether `s` may name a compound whose sub-parser loops on whitespace.
pub open spec fn may_reach_looping_parser(s: Seq<char>) -> bool {
    exists|k: int| 0 <= k < looping_keys().len() && contains_word(key_letters(s), #[trigger] looping_keys()[k])
}

/// Whether `c` may be a character that `char::is_numeric` accepts, or a
/// `.`: over-approximated by the ASCII digits, `.` and every character
/// outside ASCII.
pub open spec fn maybe_numeric(c: char) -> bool {
    ('0' <= c && c <= '9') || c == '.' || c >= '\u{80}'
}

/// How many characters that may be numeric `s` ends with since its last
/// `,` or `]`: an upper bound on the number that the list form of
/// `shadow_color` collects at this point.
pub open spec fn numeric_run(s: Seq<char>) -> nat
    decreases s.len(),
{
    if s.len() == 0 {
        0
    } else if s.last() == ',' || s.last() == ']' {
        0
    } else if maybe_numeric(s.last()) {
        numeric_run(s.drop_last()) + 1
    } else {
        numeric_run(s.drop_last())
    }
}

/// The longest number that a `shadow_color` list may hold: seven digits
/// stay below ten million, well under the 16 843 009 at which the
/// multiplication by 255 overflows.
pub const MAX_COLOR_DIGITS: usize = 7;

/// Whether no stretch of `s` between `,` or `]` holds more than
/// [`MAX_COLOR_DIGITS`] characters that may be numeric.
pub open spec fn numbers_short(s: Seq<char>) -> bool {
    forall|k: int| 0 <= k <= s.len() ==> #[trigger] numeric_run(s.take(k)) <= MAX_COLOR_DIGITS
}

/// The most `{` and `[` together that an SNBT text handed to the parser may
/// hold: the parser recurses once for each, and this keeps the recursion
/// far inside any thread's stack.
pub const SNBT_MAX_OPENINGS: usize = 64;

/// A condition under which `TextComponent::from_snbt` returns without
/// panicking (see the module's documentation).
pub open spec fn snbt_parse_ends(s: Seq<char>) -> bool {
    ||| s.len() == 0
    ||| (!maybe_whitespace(s[0]) && s[0] != '{' && s[0] != '[')
    ||| {
        &&& count_char(s, '{') + count_char(s, '[') <= SNBT_MAX_OPENINGS
        &&& (may_reach_looping_parser(s) ==> !colon_before_space(s))
        &&& (contains_word(key_letters(s), shadow_color_key()) ==> numbers_short(s))
    }
}

/// The key letters of `text`.
fn key_letters_of(text: &str) -> (v: Vec<char>)
    ensures
        v@ == key_letters(text@),
{
    let n = text.unicode_len();
    let mut v: Vec<char> = Vec::new();
    let mut i: usize = 0;
    proof {
        assert(text@.subrange(0, n as int) == text@);
    }
    while i < n
        invariant
            n == text@.len(),
            i <= n,
            v@ + key_letters(text@.subrange(i as int, n as int)) == key_letters(text@),
        decreases n - i,
    {
        let ghost rest = text@.subrange(i as int, n as int);
        let c = text.get_char(i);
        assert(rest[0] == c);
        if c == '\\' {
            if i + 1 < n {
                assert(rest.subrange(2, rest.len() as int) == text@.subrange(i + 2, n as int));
                i = i + 2;
            } else {
                assert(text@.subrange(n as int, n as int) == Seq::<char>::empty());
                i = n;
            }
        } else if ('a' <= c && c <= 'z') || c == '_' {
            assert(rest.subrange(1, rest.len() as int) == text@.subrange(i + 1, n as int));
            let ghost before = v@;
            v.push(c);
            assert(v@ + key_letters(text@.subrange(i + 1, n as int)) == before + key_letters(rest)) by {
                assert(v@ == before + seq![c]);
                assert(key_letters(rest) == seq![c] + key_letters(text@.subrange(i + 1, n as int)));
            }
            i = i + 1;
        } else {
            assert(rest.subrange(1, rest.len() as int) == text@.subrange(i + 1, n as int));
            i = i + 1;
        }
    }
    proof {
        assert(text@.subrange(n as int, n as int) == Seq::<char>::empty());
        assert(v@ + Seq::<char>::empty() == v@);
    }
    v
}

/// Whether `w` occurs in `s` as a contiguous stretch.
fn has_word(s: &Vec<char>, w: &[char]) -> (r: bool)
    ensures
        r == contains_word(s@, w@),
{
    let n = s.len();
    let m = w.len();
    if m > n {
        return false;
    }
    let mut i: usize = 0;
    while i <= n - m
        invariant
            n == s@.len(),
            m == w@.len(),
            m <= n,
            i <= n - m + 1,
            forall|p: int| 0 <= p < i ==> #[trigger] s@.subrange(p, p + m) != w@,
        decreases n - i,
    {
        let mut j: usize = 0;
        let mut same = true;
        while j < m
            invariant
                n == s@.len(),
                m == w@.len(),
                i + m <= n,
                j <= m,
                same <==> forall|q: int| 0 <= q < j ==> s@[i + q] == w@[q],
            decreases m - j,
        {
            if s[i + j] != w[j] {
                same = false;
            }
            j = j + 1;
        }
        if same {
            assert(s@.subrange(i as int, i + m) == w@);
            return true;
        }
        assert(s@.subrange(i as int, i + m) != w@) by {
            let q = choose|q: int| 0 <= q < m && s@[i + q] != w@[q];
            assert(s@.subrange(i as int, i + m)[q] == s@[i + q]);
        }
        i = i + 1;
    }
    assert forall|p: int| 0 <= p && p + w@.len() <= s@.len() implies #[trigger] s@.subrange(p, p + w@.len()) != w@ by {
        assert(p < i);
    }
    false
}

/// Whether [`snbt_parse_ends`] holds of `text`: the test to make before
/// reading an operator's text as SNBT.
pub fn snbt_parse_ends_on(text: &str) -> (r: bool)
    ensures
        r == snbt_parse_ends(text@),
{
    let n = text.unicode_len();
    if n == 0 {
        return true;
    }
    let first = text.get_char(0);
    if !(first <= ' ' || first >= '\u{7f}') && first != '{' && first != '[' {
        return true;
    }
    let mut braces: usize = 0;
    let mut brackets: usize = 0;
    let mut colon_space = false;
    let mut run: usize = 0;
    let mut short = true;
    let mut i: usize = 0;
    proof {
        assert(text@.take(0) == Seq::<char>::empty());
    }
    while i < n
        invariant
            n == text@.len(),
            i <= n,
            braces == count_char(text@.take(i as int), '{'),
            brackets == count_char(text@.take(i as int), '['),
            braces + brackets <= i,
            run == numeric_run(text@.take(i as int)),
            run <= i,
            short <==> forall|k: int| 0 <= k <= i ==> #[trigger] numeric_run(text@.take(k)) <= MAX_COLOR_DIGITS,
            colon_space <==> exists|j: int|
                0 <= j < i - 1 && #[trigger] text@[j] == ':' && maybe_whitespace(text@[j + 1]),
        decreases n - i,
    {
        let c = text.get_char(i);
        proof {
            assert(text@.take(i + 1).drop_last() == text@.take(i as int));
            assert(text@.take(i + 1).last() == c);
        }
        if c == '{' {
            braces = braces + 1;
        } else if c == '[' {
            brackets = brackets + 1;
        }
        if i > 0 && (c <= ' ' || c >= '\u{7f}') && text.get_char(i - 1) == ':' {
            colon_space = true;
        }
        if c == ',' || c == ']' {
            run = 0;
        } else if ('0' <= c && c <= '9') || c == '.' || c >= '\u{80}' {
            run = run + 1;
        }
        let ghost old_short = short;
        if run > MAX_COLOR_DIGITS {
            short = false;
        }
        proof {
            assert(run == numeric_run(text@.take(i + 1)));
            assert(short == (old_short && run <= MAX_COLOR_DIGITS));
            if short {
                assert forall|k: int| 0 <= k <= i + 1 implies #[trigger] numeric_run(text@.take(k))
                    <= MAX_COLOR_DIGITS by {
                    if k == i + 1 {
                    }
                }
            } else if !old_short {
                let k = choose|k: int| 0 <= k <= i && !(#[trigger] numeric_run(text@.take(k)) <= MAX_COLOR_DIGITS);
                assert(0 <= k <= i + 1);
            } else {
                assert(!(numeric_run(text@.take(i + 1)) <= MAX_COLOR_DIGITS));
            }
        }
        i = i + 1;
    }
    proof {
        assert(text@.take(n as int) == text@);
    }
    if braces + brackets > SNBT_MAX_OPENINGS {
        return false;
    }
    let keys = key_letters_of(text);
    let score = ['s', 'c', 'o', 'r', 'e'];
    let player = ['p', 'l', 'a', 'y', 'e', 'r'];
    let custom = ['c', 'u', 's', 't', 'o', 'm'];
    let click = ['c', 'l', 'i', 'c', 'k', '_', 'e', 'v', 'e', 'n', 't'];
    let shadow = ['s', 'h', 'a', 'd', 'o', 'w', '_', 'c', 'o', 'l', 'o', 'r'];
    proof {
        assert(score@ == looping_keys()[0]);
        assert(player@ == looping_keys()[1]);
        assert(custom@ == looping_keys()[2]);
        assert(click@ == looping_keys()[3]);
        assert(shadow@ == shadow_color_key());
    }
    let looping = has_word(&keys, &score) || has_word(&keys, &player) || has_word(&keys, &custom)
        || has_word(&keys, &click);
    proof {
        if may_reach_looping_parser(text@) {
            let k = choose|k: int| 0 <= k < looping_keys().len() && contains_word(key_letters(text@), #[trigger] looping_keys()[k]);
            assert(k == 0 || k == 1 || k == 2 || k == 3);
        }
        if looping {
            if contains_word(keys@, score@) {
                assert(contains_word(key_letters(text@), looping_keys()[0]));
            } else if contains_word(keys@, player@) {
                assert(contains_word(key_letters(text@), looping_keys()[1]));
            } else if contains_word(keys@, custom@) {
                assert(contains_word(key_letters(text@), looping_keys()[2]));
            } else {
                assert(contains_word(key_letters(text@), looping_keys()[3]));
            }
        }
    }
    if looping && colon_space {
        return false;
    }
    if has_word(&keys, &shadow) && !short {
        return false;
    }
    true
}

} // verus!
