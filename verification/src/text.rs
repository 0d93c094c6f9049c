//! Strings as sequences of characters: searching, cutting and lowercasing.

use itertools::Itertools;
use vstd::prelude::*;
use vstd::string::{StrSliceExecFns, StringExecFns, StringSliceAdditionalSpecFns};

verus! {

/// `needle` stands in `hay` at position `at`.
pub open spec fn occurs_at(needle: Seq<char>, hay: Seq<char>, at: int) -> bool {
    &&& 0 <= at
    &&& at + needle.len() <= hay.len()
    &&& hay.subrange(at, at + needle.len()) == needle
}

/// `needle` stands somewhere in `hay`.
pub open spec fn is_substring(needle: Seq<char>, hay: Seq<char>) -> bool {
    exists|at: int| occurs_at(needle, hay, at)
}

/// `s` with every occurrence of `pattern` taken out, the leftmost first and
/// none overlapping another.
pub open spec fn without(s: Seq<char>, pattern: Seq<char>) -> Seq<char>
    decreases s.len(),
{
    if pattern.len() == 0 || s.len() < pattern.len() {
        s
    } else if s.subrange(0, pattern.len() as int) == pattern {
        without(s.skip(pattern.len() as int), pattern)
    } else {
        seq![s[0]] + without(s.skip(1), pattern)
    }
}

/// The part of `s` in front of the first `stop`; all of `s` where it holds none.
pub open spec fn before_first(s: Seq<char>, stop: char) -> Seq<char>
    decreases s.len(),
{
    if s.len() == 0 || s[0] == stop {
        Seq::empty()
    } else {
        seq![s[0]] + before_first(s.skip(1), stop)
    }
}

/// The parts in their order, with `sep` between each two neighbours.
pub open spec fn joined_with(parts: Seq<Seq<char>>, sep: Seq<char>) -> Seq<char>
    decreases parts.len(),
{
    if parts.len() == 0 {
        Seq::empty()
    } else if parts.len() == 1 {
        parts[0]
    } else {
        joined_with(parts.drop_last(), sep) + sep + parts.last()
    }
}

/// The texts behind a vector of strings.
pub open spec fn texts_of(strings: Seq<String>) -> Seq<Seq<char>> {
    strings.map_values(|s: String| s@)
}

/// The character that stands for a digit.
pub open spec fn digit_of(d: nat) -> char {
    if d == 0 {
        '0'
    } else if d == 1 {
        '1'
    } else if d == 2 {
        '2'
    } else if d == 3 {
        '3'
    } else if d == 4 {
        '4'
    } else if d == 5 {
        '5'
    } else if d == 6 {
        '6'
    } else if d == 7 {
        '7'
    } else if d == 8 {
        '8'
    } else {
        '9'
    }
}

/// A number written in decimal, without leading zeros.
pub open spec fn decimal_of(n: nat) -> Seq<char>
    decreases n,
{
    if n < 10 {
        seq![digit_of(n)]
    } else {
        decimal_of(n / 10).push(digit_of(n % 10))
    }
}

/// What `str::to_lowercase` makes of a string.
pub uninterp spec fn unicode_lowercase(s: Seq<char>) -> Seq<char>;

/// A string in lower case, by the rules of Unicode. The empty string is its own
/// lower case.
pub open spec fn lowered(s: Seq<char>) -> Seq<char> {
    if s.len() == 0 {
        s
    } else {
        unicode_lowercase(s)
    }
}

/// `title` holds `query`, letter case set aside.
pub open spec fn title_contains(title: Seq<char>, query: Seq<char>) -> bool {
    is_substring(lowered(query), lowered(title))
}

/// Calls `str::to_lowercase`. Not proved: the result is a function of the
/// argument alone, known by the name `unicode_lowercase`, and the empty string
/// gives the empty string.
#[verifier::external_body]
pub(crate) fn to_lowercase(s: &str) -> (lower: String)
    ensures
        lower@ == unicode_lowercase(s@),
        s@.len() == 0 ==> lower@.len() == 0,
{
    s.to_lowercase()
}

/// The characters of a string, one by one.
pub fn chars_of(s: &str) -> (chars: Vec<char>)
    ensures
        chars@ == s@,
{
    let mut chars: Vec<char> = Vec::new();
    for c in it: s.chars()
        invariant
            it.seq() == s@,
            chars@ == s@.take(it.index() as int),
    {
        chars.push(c);
    }
    chars
}

/// Whether `needle` stands in `hay` at position `at`.
pub fn matches_at(hay: &Vec<char>, needle: &Vec<char>, at: usize) -> (found: bool)
    ensures
        found == occurs_at(needle@, hay@, at as int),
{
    if needle.len() > hay.len() || at > hay.len() - needle.len() {
        return false;
    }
    let mut k: usize = 0;
    while k < needle.len()
        invariant
            at + needle.len() <= hay.len(),
            k <= needle.len(),
            forall|j: int| 0 <= j < k ==> hay@[at + j] == needle@[j],
        decreases needle.len() - k,
    {
        if hay[at + k] != needle[k] {
            return false;
        }
        k += 1;
    }
    assert(hay@.subrange(at as int, at + needle.len()) =~= needle@);
    true
}

/// Whether `needle` stands somewhere in `hay`.
pub fn contains(hay: &Vec<char>, needle: &Vec<char>) -> (found: bool)
    ensures
        found == is_substring(needle@, hay@),
{
    if needle.len() > hay.len() {
        return false;
    }
    let last = hay.len() - needle.len();
    let mut at: usize = 0;
    while at < last
        invariant
            last == hay.len() - needle.len(),
            at <= last,
            forall|j: int| 0 <= j < at ==> !occurs_at(needle@, hay@, j),
        decreases last - at,
    {
        if matches_at(hay, needle, at) {
            return true;
        }
        at += 1;
    }
    matches_at(hay, needle, last)
}

/// The characters of a string in lower case.
pub fn lowered_chars(s: &str) -> (chars: Vec<char>)
    ensures
        chars@ == lowered(s@),
{
    let lower = to_lowercase(s);
    chars_of(lower.as_str())
}

/// Whether `title` holds `query`, letter case set aside.
pub fn title_matches(title: &str, query: &str) -> (hit: bool)
    ensures
        hit == title_contains(title@, query@),
{
    let hay = lowered_chars(title);
    let needle = lowered_chars(query);
    contains(&hay, &needle)
}

/// `text` with every occurrence of `pattern` taken out.
pub fn strip_all(text: &str, pattern: &str) -> (stripped: String)
    ensures
        stripped@ == without(text@, pattern@),
{
    let chars = chars_of(text);
    let pat = chars_of(pattern);
    if pat.len() == 0 {
        return text.to_owned();
    }
    let mut stripped = String::new();
    let mut i: usize = 0;
    assert(text@.skip(0) =~= text@);
    while i < chars.len()
        invariant
            chars@ == text@,
            pat@ == pattern@,
            pat@.len() > 0,
            i <= chars.len(),
            stripped@ + without(text@.skip(i as int), pat@) == without(text@, pat@),
        decreases chars.len() - i,
    {
        let ghost rest = text@.skip(i as int);
        let hit = matches_at(&chars, &pat, i);
        proof {
            if i + pat@.len() <= text@.len() {
                assert(rest.subrange(0, pat@.len() as int) =~= text@.subrange(
                    i as int,
                    i + pat@.len(),
                ));
            }
        }
        if hit {
            assert(rest.skip(pat@.len() as int) =~= text@.skip(i + pat@.len()));
            i += pat.len();
        } else {
            stripped.append(text.substring_char(i, i + 1));
            assert(rest.skip(1) =~= text@.skip(i + 1));
            i += 1;
        }
    }
    stripped
}

/// The part of `text` in front of the first `stop`.
pub fn cut_before(text: &str, stop: char) -> (head: String)
    ensures
        head@ == before_first(text@, stop),
{
    let chars = chars_of(text);
    let mut i: usize = 0;
    assert(text@.skip(0) =~= text@);
    while i < chars.len() && chars[i] != stop
        invariant
            chars@ == text@,
            i <= chars.len(),
            text@.take(i as int) + before_first(text@.skip(i as int), stop) == before_first(
                text@,
                stop,
            ),
        decreases chars.len() - i,
    {
        assert(text@.skip(i as int).skip(1) =~= text@.skip(i + 1));
        i += 1;
    }
    text.substring_char(0, i).to_owned()
}

/// Calls `Itertools::join` on the strings of a vector. Not proved: the result
/// is the strings in their order with `sep` between each two neighbours, and
/// nothing in front or behind. The bound keeps the capacity that `join` asks
/// for within what an allocation can hold.
#[verifier::external_body]
pub(crate) fn join(parts: &Vec<String>, sep: &str) -> (joined: String)
    requires
        sep.spec_bytes().len() * parts.len() <= isize::MAX,
    ensures
        joined@ == joined_with(texts_of(parts@), sep@),
{
    parts.iter().join(sep)
}

/// The one character that stands for a digit.
fn digit(d: usize) -> (text: &'static str)
    requires
        d < 10,
    ensures
        text@ == seq![digit_of(d as nat)],
{
    let text = if d == 0 {
        "0"
    } else if d == 1 {
        "1"
    } else if d == 2 {
        "2"
    } else if d == 3 {
        "3"
    } else if d == 4 {
        "4"
    } else if d == 5 {
        "5"
    } else if d == 6 {
        "6"
    } else if d == 7 {
        "7"
    } else if d == 8 {
        "8"
    } else {
        "9"
    };
    proof {
        reveal_strlit("0");
        reveal_strlit("1");
        reveal_strlit("2");
        reveal_strlit("3");
        reveal_strlit("4");
        reveal_strlit("5");
        reveal_strlit("6");
        reveal_strlit("7");
        reveal_strlit("8");
        reveal_strlit("9");
    }
    text
}

/// A number written in decimal.
pub fn decimal(n: usize) -> (text: String)
    ensures
        text@ == decimal_of(n as nat),
    decreases n,
{
    if n < 10 {
        String::from_str(digit(n))
    } else {
        let mut text = decimal(n / 10);
        text.append(digit(n % 10));
        text
    }
}

/// Taking out a pattern that does not occur changes nothing.
pub proof fn lemma_without_absent(s: Seq<char>, pattern: Seq<char>)
    requires
        !is_substring(pattern, s),
    ensures
        without(s, pattern) == s,
    decreases s.len(),
{
    if pattern.len() > 0 && s.len() >= pattern.len() {
        assert(!occurs_at(pattern, s, 0));
        let rest = s.skip(1);
        assert forall|at: int| !occurs_at(pattern, rest, at) by {
            if 0 <= at && at + pattern.len() <= rest.len() {
                assert(!occurs_at(pattern, s, at + 1));
                assert(rest.subrange(at, at + pattern.len()) =~= s.subrange(
                    at + 1,
                    at + 1 + pattern.len(),
                ));
            }
        }
        lemma_without_absent(rest, pattern);
        assert(seq![s[0]] + rest =~= s);
    }
}

/// A string that does not hold `stop` is not cut.
pub proof fn lemma_before_first_absent(s: Seq<char>, stop: char)
    requires
        !s.contains(stop),
    ensures
        before_first(s, stop) == s,
    decreases s.len(),
{
    if s.len() > 0 {
        assert(s[0] != stop);
        let rest = s.skip(1);
        assert forall|k: int| 0 <= k < rest.len() implies rest[k] != stop by {
            assert(s[k + 1] != stop);
        }
        lemma_before_first_absent(rest, stop);
        assert(seq![s[0]] + rest =~= s);
    } else {
        assert(s =~= Seq::<char>::empty());
    }
}

/// The empty string stands in every string.
pub proof fn lemma_empty_is_substring(hay: Seq<char>)
    ensures
        is_substring(Seq::<char>::empty(), hay),
{
    assert(hay.subrange(0, 0) =~= Seq::<char>::empty());
    assert(occurs_at(Seq::<char>::empty(), hay, 0));
}

/// Every title holds the empty query.
pub proof fn lemma_empty_query_matches(title: Seq<char>)
    ensures
        title_contains(title, Seq::<char>::empty()),
{
    lemma_empty_is_substring(lowered(title));
}

} // verus!
