//! Reading relative date phrases ("tomorrow", "3 days ago", "next week")
//! as a number of days from today.
use vstd::prelude::*;
use vstd::string::StringExecFns;
use crate::text::{
    all_digits, contains_seq, lowercase, parse_i64, parse_i64_chars, split_whitespace, split_ws, str_contains,
    to_lowercase, chars_eq, contains_chars,
};

verus! {

/// The number a small number word stands for; any other word counts as one.
pub open spec fn named_number(w: Seq<char>) -> i64 {
    if w == "one"@ || w == "a"@ {
        1
    } else if w == "two"@ {
        2
    } else if w == "three"@ {
        3
    } else if w == "four"@ {
        4
    } else if w == "five"@ {
        5
    } else if w == "six"@ {
        6
    } else if w == "seven"@ {
        7
    } else {
        1
    }
}

/// The count before the first word from position `i` on that mentions
/// "day" and has a word before it: that word read as a number, or as a
/// number word.
pub open spec fn offset_from(ws: Seq<Seq<char>>, i: int) -> Option<i64>
    decreases ws.len() - i,
{
    if i < 0 || i >= ws.len() {
        None
    } else if i > 0 && contains_seq(ws[i], "day"@) {
        Some(
            match parse_i64(ws[i - 1]) {
                Some(n) => n,
                None => named_number(ws[i - 1]),
            },
        )
    } else {
        offset_from(ws, i + 1)
    }
}

/// The day count of a phrase ending in `suffix` ("from now", "ago"); none
/// when the phrase does not contain the suffix or names no days.
pub open spec fn days_offset(text: Seq<char>, suffix: Seq<char>) -> Option<i64> {
    if !contains_seq(text, suffix) {
        None
    } else {
        offset_from(split_ws(text), 0)
    }
}

/// The day offset a lowercase phrase stands for: today, tomorrow,
/// yesterday, a number of days from now or ago, next or last week; anything
/// else is today.
pub open spec fn relative_offset(lower: Seq<char>) -> int {
    if contains_seq(lower, "today"@) {
        0
    } else if contains_seq(lower, "tomorrow"@) {
        1
    } else if contains_seq(lower, "yesterday"@) {
        -1
    } else if days_offset(lower, "from now"@) is Some {
        days_offset(lower, "from now"@)->0 as int
    } else if days_offset(lower, "ago"@) is Some {
        -(days_offset(lower, "ago"@)->0 as int)
    } else if contains_seq(lower, "next week"@) {
        7
    } else if contains_seq(lower, "last week"@) {
        -7
    } else {
        0
    }
}

fn word_is(w: &Vec<char>, lit: &str) -> (b: bool)
    ensures
        b == (w@ == lit@),
{
    let l = crate::text::chars_of(lit);
    chars_eq(w.as_slice(), l.as_slice())
}

fn number_word(w: &Vec<char>) -> (n: i64)
    ensures
        n == named_number(w@),
{
    if word_is(w, "one") || word_is(w, "a") {
        1
    } else if word_is(w, "two") {
        2
    } else if word_is(w, "three") {
        3
    } else if word_is(w, "four") {
        4
    } else if word_is(w, "five") {
        5
    } else if word_is(w, "six") {
        6
    } else if word_is(w, "seven") {
        7
    } else {
        1
    }
}

/// Resolves relative date phrases to a number of days from today.
pub struct SimpleDateTool;

impl SimpleDateTool {
    /// The day count in a phrase like "3 days from now" or "five days ago",
    /// when the phrase contains `suffix`.
    pub fn extract_days_offset(&self, text: &str, suffix: &str) -> (r: Option<i64>)
        ensures
            r == days_offset(text@, suffix@),
    {
        if !str_contains(text, suffix) {
            return None;
        }
        let words = split_whitespace(text);
        let ghost ws = words@.map_values(|w: Vec<char>| w@);
        let day = crate::text::chars_of("day");
        let mut i: usize = 0;
        while i < words.len()
            invariant
                ws == words@.map_values(|w: Vec<char>| w@),
                ws == split_ws(text@),
                contains_seq(text@, suffix@),
                day@ == "day"@,
                i <= words@.len(),
                offset_from(ws, 0) == offset_from(ws, i as int),
            decreases words@.len() - i,
        {
            assert(ws[i as int] == words@[i as int]@);
            if i > 0 && contains_chars(words[i].as_slice(), day.as_slice()) {
                let prev = &words[i - 1];
                assert(ws[i - 1] == prev@);
                let n = match parse_i64_chars(prev.as_slice()) {
                    Some(n) => n,
                    None => number_word(prev),
                };
                return Some(n);
            }
            i = i + 1;
        }
        None
    }

    /// The number of days from today a phrase names, ignoring case, as
    /// `relative_offset` says.
    pub fn relative_day_offset(&self, relative_date: &str) -> (d: i128)
        ensures
            d == relative_offset(lowercase(relative_date@)),
    {
        let lower_s = to_lowercase(relative_date);
        let lower = lower_s.as_str();
        if str_contains(lower, "today") {
            0
        } else if str_contains(lower, "tomorrow") {
            1
        } else if str_contains(lower, "yesterday") {
            -1
        } else {
            match self.extract_days_offset(lower, "from now") {
                Some(n) => n as i128,
                None => match self.extract_days_offset(lower, "ago") {
                    Some(n) => -(n as i128),
                    None => if str_contains(lower, "next week") {
                        7
                    } else if str_contains(lower, "last week") {
                        -7
                    } else {
                        0
                    },
                },
            }
        }
    }

    /// The summary a resolved date is reported with.
    pub fn summary(&self, relative_date: &str, resolved: &str) -> (s: String)
        ensures
            s@ == "The date '"@ + relative_date@ + "' is "@ + resolved@,
    {
        let mut s = String::from_str("The date '");
        s.append(relative_date);
        s.append("' is ");
        s.append(resolved);
        s
    }
}

/// The English word for a number from one to seven.
pub open spec fn number_name(n: int) -> Seq<char> {
    if n == 1 {
        "one"@
    } else if n == 2 {
        "two"@
    } else if n == 3 {
        "three"@
    } else if n == 4 {
        "four"@
    } else if n == 5 {
        "five"@
    } else if n == 6 {
        "six"@
    } else {
        "seven"@
    }
}

/// Each number word is read as the number it names, and not as digits;
/// "a" (as in "a day ago") counts one.
pub proof fn lemma_number_name_facts(n: int)
    requires
        1 <= n <= 7,
    ensures
        named_number("a"@) == 1,
        named_number(number_name(n)) == n,
        parse_i64(number_name(n)) is None,
{
    reveal_strlit("one");
    reveal_strlit("a");
    reveal_strlit("two");
    reveal_strlit("three");
    reveal_strlit("four");
    reveal_strlit("five");
    reveal_strlit("six");
    reveal_strlit("seven");
    let w = number_name(n);
    if n == 2 {
        assert("two"@[0] != "one"@[0]);
        assert("two"@.len() != "a"@.len());
    }
    if n == 3 {
        assert("three"@.len() != "one"@.len());
        assert("three"@.len() != "a"@.len());
        assert("three"@.len() != "two"@.len());
    }
    if n == 4 {
        assert("four"@.len() != "one"@.len());
        assert("four"@.len() != "a"@.len());
        assert("four"@.len() != "two"@.len());
        assert("four"@.len() != "three"@.len());
    }
    if n == 5 {
        assert("five"@.len() != "one"@.len());
        assert("five"@.len() != "a"@.len());
        assert("five"@.len() != "two"@.len());
        assert("five"@.len() != "three"@.len());
        assert("five"@[1] != "four"@[1]);
    }
    if n == 6 {
        assert("six"@[0] != "one"@[0]);
        assert("six"@.len() != "a"@.len());
        assert("six"@[0] != "two"@[0]);
        assert("six"@.len() != "three"@.len());
        assert("six"@.len() != "four"@.len());
        assert("six"@.len() != "five"@.len());
    }
    if n == 7 {
        assert("seven"@.len() != "one"@.len());
        assert("seven"@.len() != "a"@.len());
        assert("seven"@.len() != "two"@.len());
        assert("seven"@[0] != "three"@[0]);
        assert("seven"@.len() != "four"@.len());
        assert("seven"@.len() != "five"@.len());
        assert("seven"@.len() != "six"@.len());
    }
    assert(w.len() >= 3);
    assert('a' <= w[0] && w[0] <= 'z');
    assert(!all_digits(w));
}

/// Before the first word from `j` on that mentions "day" (at `i`), the
/// count is read from the word before it.
proof fn lemma_offset_at(ws: Seq<Seq<char>>, j: int, i: int)
    requires
        0 <= j <= i < ws.len(),
        1 <= i,
        contains_seq(ws[i], "day"@),
        forall|k: int| 1 <= k < i ==> !contains_seq(#[trigger] ws[k], "day"@),
    ensures
        offset_from(ws, j) == offset_from(ws, i),
    decreases i - j,
{
    if j < i {
        lemma_offset_at(ws, j + 1, i);
    }
}

/// A number word before "days" counts that many days: in a phrase with
/// "<word> days ago", where the word names a number from one to seven and no
/// earlier word mentions "day" (and the phrase says neither "today",
/// "tomorrow", "yesterday" nor "from now"), the offset is minus that number;
/// with "from now" in place of "ago" it is that number.
pub proof fn lemma_number_word_days(text: Seq<char>, n: int, i: int)
    requires
        1 <= n <= 7,
        !contains_seq(text, "today"@),
        !contains_seq(text, "tomorrow"@),
        !contains_seq(text, "yesterday"@),
        1 <= i < split_ws(text).len(),
        contains_seq(split_ws(text)[i], "day"@),
        forall|k: int| 1 <= k < i ==> !contains_seq(#[trigger] split_ws(text)[k], "day"@),
        split_ws(text)[i - 1] == number_name(n),
    ensures
        !contains_seq(text, "from now"@) && contains_seq(text, "ago"@) ==> relative_offset(text) == -n,
        contains_seq(text, "from now"@) ==> relative_offset(text) == n,
{
    let ws = split_ws(text);
    lemma_offset_at(ws, 0, i);
    lemma_number_name_facts(n);
    assert(offset_from(ws, i) == Some(n as i64));
}

} // verus!
