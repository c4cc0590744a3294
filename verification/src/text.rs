//! Text as sequences of characters: decimal numerals, splitting, trimming and
//! searching.

use vstd::prelude::*;

verus! {

/// The character of the decimal digit `d`.
pub open spec fn digit(d: nat) -> char {
    if d == 0 {
        '0'
    } else if d == 1 {
        '1'
    } else if d == 2 {
        '2'
    } else if d == 3 {
        '3'
    } else if d == 4 {
        '4'
    } else if d == 5 {
        '5'
    } else if d == 6 {
        '6'
    } else if d == 7 {
        '7'
    } else if d == 8 {
        '8'
    } else {
        '9'
    }
}

/// The decimal numeral of `n`, without leading zeros.
pub open spec fn decimal(n: nat) -> Seq<char>
    decreases n,
{
    if n < 10 {
        seq![digit(n)]
    } else {
        decimal(n / 10).push(digit(n % 10))
    }
}

/// The decimal numeral of `i`, with a leading `-` where `i` is negative.
pub open spec fn signed_decimal(i: int) -> Seq<char> {
    if i < 0 {
        "-"@ + decimal((-i) as nat)
    } else {
        decimal(i as nat)
    }
}

/// `true` or `false`, as text.
pub open spec fn bool_chars(b: bool) -> Seq<char> {
    if b {
        "true"@
    } else {
        "false"@
    }
}

/// Whether `needle` stands in `haystack` from position `at` on.
pub open spec fn occurs_at(haystack: Seq<char>, needle: Seq<char>, at: int) -> bool {
    &&& 0 <= at
    &&& at + needle.len() <= haystack.len()
    &&& haystack.subrange(at, at + needle.len()) == needle
}

/// Whether `needle` stands anywhere in `haystack`.
pub open spec fn contains_text(haystack: Seq<char>, needle: Seq<char>) -> bool {
    exists|at: int| occurs_at(haystack, needle, at)
}

/// `text` without the longest run of `c` at its start.
pub open spec fn trim_start(text: Seq<char>, c: char) -> Seq<char>
    decreases text.len(),
{
    if text.len() > 0 && text[0] == c {
        trim_start(text.skip(1), c)
    } else {
        text
    }
}

/// `text` without the longest run of `c` at its end.
pub open spec fn trim_end(text: Seq<char>, c: char) -> Seq<char>
    decreases text.len(),
{
    if text.len() > 0 && text.last() == c {
        trim_end(text.drop_last(), c)
    } else {
        text
    }
}

/// The position of the first `c` in `text`, or the length of `text` where `c`
/// does not occur.
pub open spec fn find_char(text: Seq<char>, c: char) -> int
    decreases text.len(),
{
    if text.len() == 0 || text[0] == c {
        0
    } else {
        1 + find_char(text.skip(1), c)
    }
}

/// The pieces of `text` between the occurrences of `separator`; always at least
/// one.
pub open spec fn split(text: Seq<char>, separator: char) -> Seq<Seq<char>>
    decreases text.len(),
{
    let at = find_char(text, separator);
    if 0 <= at < text.len() {
        seq![text.take(at)] + split(text.skip(at + 1), separator)
    } else {
        seq![text]
    }
}

/// The views of a vector of strings.
pub open spec fn views(strings: Seq<String>) -> Seq<Seq<char>> {
    strings.map_values(|s: String| s@)
}

/// The view of an optional string.
pub open spec fn option_view(value: Option<String>) -> Option<Seq<char>> {
    match value {
        Some(s) => Some(s@),
        None => None,
    }
}

/// What `find_char` gives: nothing before it is `c`, and what stands there, if
/// anything, is.
pub proof fn lemma_find_char(text: Seq<char>, c: char)
    ensures
        0 <= find_char(text, c) <= text.len(),
        find_char(text, c) < text.len() ==> text[find_char(text, c)] == c,
        forall|i: int| 0 <= i < find_char(text, c) ==> text[i] != c,
    decreases text.len(),
{
    if text.len() == 0 || text[0] == c {
    } else {
        lemma_find_char(text.skip(1), c);
        let n = find_char(text.skip(1), c);
        assert forall|i: int| 0 <= i < n + 1 implies text[i] != c by {
            if i > 0 {
                assert(text.skip(1)[i - 1] == text[i]);
            }
        }
        if n + 1 < text.len() {
            assert(text.skip(1)[n] == text[n + 1]);
        }
    }
}

/// A position with no `c` before it, at a `c` or at the end, is the one that
/// `find_char` gives.
pub proof fn lemma_find_char_unique(text: Seq<char>, c: char, at: int)
    requires
        0 <= at <= text.len(),
        at < text.len() ==> text[at] == c,
        forall|i: int| 0 <= i < at ==> text[i] != c,
    ensures
        find_char(text, c) == at,
{
    lemma_find_char(text, c);
}

/// What `trim_start` leaves is a suffix that does not start with `c`.
pub proof fn lemma_trim_start(text: Seq<char>, c: char)
    ensures
        trim_start(text, c).len() <= text.len(),
        trim_start(text, c) == text.skip(text.len() - trim_start(text, c).len()),
        trim_start(text, c).len() > 0 ==> trim_start(text, c)[0] != c,
        forall|i: int| 0 <= i < text.len() - trim_start(text, c).len() ==> text[i] == c,
    decreases text.len(),
{
    if text.len() > 0 && text[0] == c {
        let rest = text.skip(1);
        lemma_trim_start(rest, c);
        let kept = trim_start(rest, c);
        assert(kept == text.skip(text.len() - kept.len()));
        assert forall|i: int| 0 <= i < text.len() - kept.len() implies text[i] == c by {
            if i > 0 {
                assert(rest[i - 1] == text[i]);
            }
        }
    } else {
        assert(text.skip(0) == text);
    }
}

/// What `trim_end` leaves is a prefix that does not end with `c`.
pub proof fn lemma_trim_end(text: Seq<char>, c: char)
    ensures
        trim_end(text, c).len() <= text.len(),
        trim_end(text, c) == text.take(trim_end(text, c).len() as int),
        trim_end(text, c).len() > 0 ==> trim_end(text, c).last() != c,
        forall|i: int| trim_end(text, c).len() <= i < text.len() ==> text[i] == c,
    decreases text.len(),
{
    if text.len() > 0 && text.last() == c {
        let rest = text.drop_last();
        lemma_trim_end(rest, c);
        let kept = trim_end(rest, c);
        assert(kept == text.take(kept.len() as int));
        assert forall|i: int| kept.len() <= i < text.len() implies text[i] == c by {
            if i < rest.len() {
                assert(rest[i] == text[i]);
            }
        }
    } else {
        assert(text.take(text.len() as int) == text);
    }
}

/// The characters of `text`.
pub fn chars_of(text: &str) -> (chars: Vec<char>)
    ensures
        chars@ == text@,
{
    let mut chars: Vec<char> = Vec::new();
    for c in it: text.chars()
        invariant
            it.seq() == text@,
            chars@ == text@.take(it.index() as int),
    {
        chars.push(c);
        assert(text@.take(it.index() + 1) == text@.take(it.index() as int).push(c));
    }
    assert(text@.take(text@.len() as int) == text@);
    chars
}

/// Whether two texts hold the same characters.
pub fn same_text(a: &str, b: &str) -> (same: bool)
    ensures
        same == (a@ == b@),
{
    let left = a.to_owned();
    let right = b.to_owned();
    left == right
}

fn digit_text(d: u64) -> (text: &'static str)
    requires
        d < 10,
    ensures
        text@ == seq![digit(d as nat)],
{
    proof {
        reveal_strlit("0");
        reveal_strlit("1");
        reveal_strlit("2");
        reveal_strlit("3");
        reveal_strlit("4");
        reveal_strlit("5");
        reveal_strlit("6");
        reveal_strlit("7");
        reveal_strlit("8");
        reveal_strlit("9");
    }
    if d == 0 {
        "0"
    } else if d == 1 {
        "1"
    } else if d == 2 {
        "2"
    } else if d == 3 {
        "3"
    } else if d == 4 {
        "4"
    } else if d == 5 {
        "5"
    } else if d == 6 {
        "6"
    } else if d == 7 {
        "7"
    } else if d == 8 {
        "8"
    } else {
        "9"
    }
}

/// The decimal numeral of `n`.
pub fn decimal_text(n: u64) -> (text: String)
    ensures
        text@ == decimal(n as nat),
    decreases n,
{
    if n < 10 {
        digit_text(n).to_owned()
    } else {
        let mut text = decimal_text(n / 10);
        text.append(digit_text(n % 10));
        text
    }
}

/// The decimal numeral of `i`, with its sign where it is negative.
pub fn signed_decimal_text(i: i32) -> (text: String)
    ensures
        text@ == signed_decimal(i as int),
{
    if i < 0 {
        let mut text = "-".to_owned();
        let magnitude: i64 = -(i as i64);
        let digits = decimal_text(magnitude as u64);
        text.append(digits.as_str());
        text
    } else {
        decimal_text(i as u64)
    }
}

/// `true` or `false`, as text.
pub fn bool_text(b: bool) -> (text: &'static str)
    ensures
        text@ == bool_chars(b),
{
    if b {
        "true"
    } else {
        "false"
    }
}

/// `a` followed by `b`.
pub fn join2(a: &str, b: &str) -> (text: String)
    ensures
        text@ == a@ + b@,
{
    let mut text = a.to_owned();
    text.append(b);
    text
}

/// `a` followed by `b` and `c`.
pub fn join3(a: &str, b: &str, c: &str) -> (text: String)
    ensures
        text@ == a@ + b@ + c@,
{
    let mut text = join2(a, b);
    text.append(c);
    text
}

/// `a` followed by `b`, `c` and `d`.
pub fn join4(a: &str, b: &str, c: &str, d: &str) -> (text: String)
    ensures
        text@ == a@ + b@ + c@ + d@,
{
    let mut text = join3(a, b, c);
    text.append(d);
    text
}

/// Whether `needle` stands anywhere in `haystack`.
pub fn contains(haystack: &str, needle: &str) -> (found: bool)
    ensures
        found == contains_text(haystack@, needle@),
{
    let hay = chars_of(haystack);
    let pin = chars_of(needle);
    let total: usize = hay.len();
    let n: usize = pin.len();
    let mut at: usize = 0;
    while at <= total && n <= total - at
        invariant
            hay@ == haystack@,
            pin@ == needle@,
            n == pin@.len(),
            total == hay@.len(),
            at <= total + 1,
            forall|k: int| 0 <= k < at ==> !occurs_at(haystack@, needle@, k),
        decreases total + 1 - at,
    {
        let mut matched: usize = 0;
        while matched < n && hay[at + matched] == pin[matched]
            invariant
                n == pin@.len(),
                total == hay@.len(),
                at + n <= total,
                matched <= n,
                forall|k: int| 0 <= k < matched ==> hay@[at + k] == pin@[k],
            decreases n - matched,
        {
            matched = matched + 1;
        }
        if matched == n {
            assert(haystack@.subrange(at as int, at + n) =~= needle@);
            assert(occurs_at(haystack@, needle@, at as int));
            return true;
        }
        assert(haystack@.subrange(at as int, at + n)[matched as int] == hay@[at + matched]);
        assert(!occurs_at(haystack@, needle@, at as int));
        at = at + 1;
    }
    false
}

/// `text` without the `c`s at its start.
pub fn trimmed_start(text: &str, c: char) -> (rest: String)
    ensures
        rest@ == trim_start(text@, c),
{
    let chars = chars_of(text);
    let mut at: usize = 0;
    assert(text@.skip(0) == text@);
    while at < chars.len() && chars[at] == c
        invariant
            chars@ == text@,
            at <= chars@.len(),
            trim_start(text@, c) == trim_start(text@.skip(at as int), c),
        decreases chars@.len() - at,
    {
        assert(text@.skip(at as int).skip(1) == text@.skip(at + 1));
        at = at + 1;
    }
    assert(text@.skip(at as int) == text@.subrange(at as int, text@.len() as int));
    text.substring_char(at, chars.len()).to_owned()
}

/// `text` without the `c`s at its end.
pub fn trimmed_end(text: &str, c: char) -> (rest: String)
    ensures
        rest@ == trim_end(text@, c),
{
    let chars = chars_of(text);
    let mut end: usize = chars.len();
    assert(text@.take(end as int) == text@);
    while end > 0 && chars[end - 1] == c
        invariant
            chars@ == text@,
            end <= chars@.len(),
            trim_end(text@, c) == trim_end(text@.take(end as int), c),
        decreases end,
    {
        assert(text@.take(end as int).drop_last() == text@.take(end - 1));
        end = end - 1;
    }
    assert(text@.take(end as int) == text@.subrange(0, end as int));
    text.substring_char(0, end).to_owned()
}

/// `text` in lower case.
pub uninterp spec fn lowercase(text: Seq<char>) -> Seq<char>;

/// `text` in upper case.
pub uninterp spec fn uppercase(text: Seq<char>) -> Seq<char>;

/// The lower case of an ASCII character.
pub open spec fn ascii_lower(c: char) -> char {
    if 'A' <= c <= 'Z' {
        (c as int + 32) as char
    } else {
        c
    }
}

/// The upper case of an ASCII character.
pub open spec fn ascii_upper(c: char) -> char {
    if 'a' <= c <= 'z' {
        (c as int - 32) as char
    } else {
        c
    }
}

/// `text` with each letter from `A` to `Z` in lower case.
pub open spec fn ascii_lowercase(text: Seq<char>) -> Seq<char> {
    text.map_values(|c: char| ascii_lower(c))
}

/// `text` with each letter from `a` to `z` in upper case.
pub open spec fn ascii_uppercase(text: Seq<char>) -> Seq<char> {
    text.map_values(|c: char| ascii_upper(c))
}

/// Calls `str::to_lowercase`. `lowercase` names its result; of an ASCII text it
/// is the text with each letter from `A` to `Z` replaced by its lower case.
#[verifier::external_body]
pub(crate) fn lowercase_text(text: &str) -> (lower: String)
    ensures
        lower@ == lowercase(text@),
        vstd::utf8::is_ascii_chars(text@) ==> lower@ == ascii_lowercase(text@),
{
    text.to_lowercase()
}

/// Calls `str::to_uppercase`. `uppercase` names its result; of an ASCII text it
/// is the text with each letter from `a` to `z` replaced by its upper case.
#[verifier::external_body]
pub(crate) fn uppercase_text(text: &str) -> (upper: String)
    ensures
        upper@ == uppercase(text@),
        vstd::utf8::is_ascii_chars(text@) ==> upper@ == ascii_uppercase(text@),
{
    text.to_uppercase()
}

/// The number that a text of decimal digits stands for.
pub open spec fn read_digits(text: Seq<char>) -> int
    decreases text.len(),
{
    if text.len() == 0 {
        0
    } else {
        10 * read_digits(text.drop_last()) + (text.last() as int - '0' as int)
    }
}

/// Whether a text is made of decimal digits alone, without a leading zero unless it is
/// the only one.
pub open spec fn is_number(text: Seq<char>) -> bool {
    &&& text.len() > 0
    &&& forall|i: int| 0 <= i < text.len() ==> '0' <= #[trigger] text[i] <= '9'
    &&& text.len() > 1 ==> text[0] != '0'
}

/// The decimal digits of a number are digits, start with no needless zero, and stand for
/// that number.
pub proof fn law_decimal_reads_back(n: nat)
    ensures
        is_number(decimal(n)),
        n > 0 ==> decimal(n)[0] != '0',
        read_digits(decimal(n)) == n,
    decreases n,
{
    if n < 10 {
        assert(decimal(n).drop_last() =~= Seq::empty());
        assert(read_digits(Seq::empty()) == 0);
    } else {
        law_decimal_reads_back(n / 10);
        assert(decimal(n).drop_last() =~= decimal(n / 10));
        assert(decimal(n)[0] == decimal(n / 10)[0]);
        assert(n == 10 * (n / 10) + n % 10);
    }
}

/// What a number is written as reads back as that number, with a `-` before it where it
/// is negative; a truth value is written as its word.
pub proof fn law_numbers_read_back(
    n: u64,
    i: i32,
    b: bool,
    of_n: String,
    of_i: String,
    of_b: &'static str,
)
    requires
        call_ensures(decimal_text, (n,), of_n),
        call_ensures(signed_decimal_text, (i,), of_i),
        call_ensures(bool_text, (b,), of_b),
    ensures
        is_number(of_n@) && read_digits(of_n@) == n,
        i >= 0 ==> is_number(of_i@) && read_digits(of_i@) == i,
        i < 0 ==> {
            &&& of_i@.len() > 1
            &&& of_i@[0] == '-'
            &&& is_number(of_i@.skip(1))
            &&& read_digits(of_i@.skip(1)) == -i
        },
        of_b@ == (if b {
            "true"@
        } else {
            "false"@
        }),
{
    reveal_strlit("-");
    law_decimal_reads_back(n as nat);
    if i < 0 {
        law_decimal_reads_back((-i) as nat);
        assert(of_i@.skip(1) =~= decimal((-i) as nat));
    } else {
        law_decimal_reads_back(i as nat);
    }
}

/// A text that is joined from others has their lengths together, and each of them where
/// the ones before it end.
pub proof fn law_joined_texts_hold_their_parts(
    a: &str,
    b: &str,
    c: &str,
    d: &str,
    two: String,
    three: String,
    four: String,
)
    requires
        call_ensures(join2, (a, b), two),
        call_ensures(join3, (a, b, c), three),
        call_ensures(join4, (a, b, c, d), four),
    ensures
        two@.len() == a@.len() + b@.len(),
        three@.len() == a@.len() + b@.len() + c@.len(),
        four@.len() == a@.len() + b@.len() + c@.len() + d@.len(),
        two@.take(a@.len() as int) == a@,
        two@.skip(a@.len() as int) == b@,
        three@.take(two@.len() as int) == two@,
        three@.skip(two@.len() as int) == c@,
        four@.take(three@.len() as int) == three@,
        four@.skip(three@.len() as int) == d@,
{
    assert(two@.take(a@.len() as int) =~= a@);
    assert(two@.skip(a@.len() as int) =~= b@);
    assert(three@.take(two@.len() as int) =~= two@);
    assert(three@.skip(two@.len() as int) =~= c@);
    assert(four@.take(three@.len() as int) =~= three@);
    assert(four@.skip(three@.len() as int) =~= d@);
}

/// A text is found in another exactly where the other holds its characters in a row; two
/// texts are the same exactly where they have the same characters.
pub proof fn law_searches_compare_characters(
    haystack: &str,
    needle: &str,
    found: bool,
    same: bool,
    chars: Vec<char>,
)
    requires
        call_ensures(contains, (haystack, needle), found),
        call_ensures(same_text, (haystack, needle), same),
        call_ensures(chars_of, (haystack,), chars),
    ensures
        found <==> exists|at: int| #[trigger] holds_at(haystack@, needle@, at),
        same <==> haystack@.len() == needle@.len() && holds_at(haystack@, needle@, 0),
        chars@.len() == haystack@.len(),
        forall|i: int| 0 <= i < chars@.len() ==> #[trigger] chars@[i] == haystack@[i],
{
    assert forall|at: int| occurs_at(haystack@, needle@, at) <==> #[trigger] holds_at(
        haystack@,
        needle@,
        at,
    ) by {
        law_occurrences_hold_the_characters(haystack@, needle@, at);
    }
    if found {
        let at = choose|at: int| occurs_at(haystack@, needle@, at);
        assert(holds_at(haystack@, needle@, at));
    }
    if haystack@.len() == needle@.len() && holds_at(haystack@, needle@, 0) {
        assert(haystack@ =~= needle@);
    }
}

/// Whether the characters of `haystack` from `at` on are those of `needle`.
pub open spec fn holds_at(haystack: Seq<char>, needle: Seq<char>, at: int) -> bool {
    &&& 0 <= at <= haystack.len() - needle.len()
    &&& forall|i: int| 0 <= i < needle.len() ==> #[trigger] needle[i] == haystack[at + i]
}

/// A text occurs in another exactly where the other holds its characters.
pub proof fn law_occurrences_hold_the_characters(haystack: Seq<char>, needle: Seq<char>, at: int)
    ensures
        occurs_at(haystack, needle, at) <==> holds_at(haystack, needle, at),
{
    if occurs_at(haystack, needle, at) {
        assert forall|i: int| 0 <= i < needle.len() implies #[trigger] needle[i] == haystack[at
            + i] by {
            assert(haystack.subrange(at, at + needle.len())[i] == haystack[at + i]);
        }
    }
    if holds_at(haystack, needle, at) {
        assert(haystack.subrange(at, at + needle.len()) =~= needle);
    }
}

/// What is trimmed from a text is a run of the character at its start, or at its end, and
/// the rest neither starts, or ends, with it.
pub proof fn law_trimming_takes_the_whole_run(text: &str, c: char, front: String, back: String)
    requires
        call_ensures(trimmed_start, (text, c), front),
        call_ensures(trimmed_end, (text, c), back),
    ensures
        front@.len() <= text@.len(),
        front@ == text@.skip(text@.len() - front@.len()),
        forall|i: int| 0 <= i < text@.len() - front@.len() ==> #[trigger] text@[i] == c,
        front@.len() > 0 ==> front@[0] != c,
        back@.len() <= text@.len(),
        back@ == text@.take(back@.len() as int),
        forall|i: int| back@.len() <= i < text@.len() ==> #[trigger] text@[i] == c,
        back@.len() > 0 ==> back@.last() != c,
{
    lemma_trim_start(text@, c);
    lemma_trim_end(text@, c);
}

/// Writing an ASCII text in lower or upper case changes its letters, by 32 places in the
/// character table, and nothing else.
pub proof fn law_ascii_cases(text: Seq<char>, i: int)
    requires
        0 <= i < text.len(),
    ensures
        ascii_lowercase(text).len() == text.len(),
        ascii_uppercase(text).len() == text.len(),
        'A' <= text[i] <= 'Z' ==> ascii_lowercase(text)[i] as int == text[i] as int + 32,
        !('A' <= text[i] <= 'Z') ==> ascii_lowercase(text)[i] == text[i],
        'a' <= text[i] <= 'z' ==> ascii_uppercase(text)[i] as int == text[i] as int - 32,
        !('a' <= text[i] <= 'z') ==> ascii_uppercase(text)[i] == text[i],
{
}

/// The view of an optional string is that of the string, where there is one.
pub proof fn law_option_view(text: Option<String>)
    ensures
        option_view(text) is Some <==> text is Some,
        text matches Some(s) ==> option_view(text)->Some_0 == s@,
{
}

} // verus!
