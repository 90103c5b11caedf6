//! Text handling that the interpreter and the combat prompts share: what counts
//! as white space, splitting a line into words, trimming, and decimal numbers.
use vstd::prelude::*;
use vstd::string::*;

verus! {

/// The characters that separate words: the code points that Unicode marks as
/// white space.
pub open spec fn is_space(c: char) -> bool {
    ||| '\u{9}' <= c <= '\u{d}'
    ||| c == ' '
    ||| c == '\u{85}'
    ||| c == '\u{a0}'
    ||| c == '\u{1680}'
    ||| '\u{2000}' <= c <= '\u{200a}'
    ||| c == '\u{2028}'
    ||| c == '\u{2029}'
    ||| c == '\u{202f}'
    ||| c == '\u{205f}'
    ||| c == '\u{3000}'
}

/// Tells whether `c` separates words.
pub fn is_space_char(c: char) -> (b: bool)
    ensures
        b == is_space(c),
{
    ('\u{9}' <= c && c <= '\u{d}') || c == ' ' || c == '\u{85}' || c == '\u{a0}' || c == '\u{1680}'
        || ('\u{2000}' <= c && c <= '\u{200a}') || c == '\u{2028}' || c == '\u{2029}' || c
        == '\u{202f}' || c == '\u{205f}' || c == '\u{3000}'
}

/// The views of a sequence of strings, in order.
pub open spec fn texts(lines: Seq<String>) -> Seq<Seq<char>> {
    Seq::new(lines.len(), |i: int| lines[i]@)
}

/// Length of the run of characters at the start of `s` that are not white space.
pub open spec fn word_len(s: Seq<char>) -> int
    decreases s.len(),
{
    if s.len() == 0 || is_space(s[0]) {
        0
    } else {
        1 + word_len(s.drop_first())
    }
}

/// The words of `s`: its maximal runs of characters that are not white space,
/// from left to right.
pub open spec fn tokens(s: Seq<char>) -> Seq<Seq<char>>
    decreases s.len(),
    via tokens_terminates
{
    if s.len() == 0 {
        Seq::empty()
    } else if is_space(s[0]) {
        tokens(s.drop_first())
    } else {
        seq![s.take(word_len(s))] + tokens(s.skip(word_len(s)))
    }
}

#[via_fn]
proof fn tokens_terminates(s: Seq<char>) {
    lemma_word_len_bounds(s);
}

/// A word is never longer than its text, and holds one character at least
/// where the text starts with one that is not white space.
pub proof fn lemma_word_len_bounds(s: Seq<char>)
    ensures
        0 <= word_len(s) <= s.len(),
        s.len() > 0 && !is_space(s[0]) ==> word_len(s) >= 1,
    decreases s.len(),
{
    if s.len() > 0 && !is_space(s[0]) {
        lemma_word_len_bounds(s.drop_first());
    }
}

/// The first `n` characters of `s` are its first word when none of them is
/// white space and the word cannot be made longer.
pub proof fn lemma_word_len_is(s: Seq<char>, n: int)
    requires
        0 <= n <= s.len(),
        forall|k: int| 0 <= k < n ==> !is_space(#[trigger] s[k]),
        n == s.len() || is_space(s[n]),
    ensures
        word_len(s) == n,
    decreases n,
{
    if n > 0 {
        let rest = s.drop_first();
        assert forall|k: int| 0 <= k < n - 1 implies !is_space(#[trigger] rest[k]) by {
            assert(rest[k] == s[k + 1]);
        }
        lemma_word_len_is(rest, n - 1);
    }
}

/// No character of the first word is white space.
pub proof fn lemma_word_has_no_space(s: Seq<char>, k: int)
    requires
        0 <= k < word_len(s),
    ensures
        k < s.len(),
        !is_space(s[k]),
    decreases s.len(),
{
    lemma_word_len_bounds(s);
    if k > 0 {
        lemma_word_has_no_space(s.drop_first(), k - 1);
    }
}

/// Every word of a text holds a character at least, and none that is white space.
pub proof fn lemma_tokens_are_words(s: Seq<char>, k: int)
    requires
        0 <= k < tokens(s).len(),
    ensures
        tokens(s)[k].len() > 0,
        forall|j: int| 0 <= j < tokens(s)[k].len() ==> !is_space(#[trigger] tokens(s)[k][j]),
    decreases s.len(),
{
    if s.len() > 0 {
        if is_space(s[0]) {
            lemma_tokens_are_words(s.drop_first(), k);
        } else {
            lemma_word_len_bounds(s);
            let n = word_len(s);
            if k == 0 {
                assert forall|j: int| 0 <= j < tokens(s)[0].len() implies !is_space(
                    #[trigger] tokens(s)[0][j],
                ) by {
                    lemma_word_has_no_space(s, j);
                }
            } else {
                lemma_tokens_are_words(s.skip(n), k - 1);
            }
        }
    }
}

/// The characters of `s`, one by one.
pub fn chars_of(s: &str) -> (chars: Vec<char>)
    ensures
        chars@ == s@,
{
    let mut chars: Vec<char> = Vec::new();
    for c in it: s.chars()
        invariant
            chars@ == it.seq().take(it.index() as int),
            it.seq() == s@,
    {
        chars.push(c);
    }
    chars
}

/// Splits a line into its words.
pub fn split_words(line: &str) -> (words: Vec<String>)
    ensures
        texts(words@) == tokens(line@),
{
    let chars = chars_of(line);
    let n = chars.len();
    let mut words: Vec<String> = Vec::new();
    let mut i: usize = 0;
    assert(line@.skip(0) =~= line@);
    while i < n
        invariant
            chars@ == line@,
            n == chars.len(),
            i <= n,
            tokens(line@) == texts(words@) + tokens(line@.skip(i as int)),
        decreases n - i,
    {
        let ghost rest = line@.skip(i as int);
        if is_space_char(chars[i]) {
            assert(rest.drop_first() =~= line@.skip(i + 1));
            i = i + 1;
        } else {
            let start = i;
            i = i + 1;
            while i < n && !is_space_char(chars[i])
                invariant
                    chars@ == line@,
                    n == chars.len(),
                    start < i <= n,
                    forall|k: int| start <= k < i ==> !is_space(#[trigger] line@[k]),
                decreases n - i,
            {
                i = i + 1;
            }
            let word = line.substring_char(start, i).to_owned();
            proof {
                let len = i - start;
                assert forall|k: int| 0 <= k < len implies !is_space(#[trigger] rest[k]) by {
                    assert(rest[k] == line@[start + k]);
                }
                lemma_word_len_is(rest, len);
                assert(rest.take(len) =~= line@.subrange(start as int, i as int));
                assert(rest.skip(len) =~= line@.skip(i as int));
            }
            words.push(word);
        }
    }
    words
}

/// `s` without the white space at its start.
pub open spec fn trim_start(s: Seq<char>) -> Seq<char>
    decreases s.len(),
{
    if s.len() > 0 && is_space(s[0]) {
        trim_start(s.drop_first())
    } else {
        s
    }
}

/// `s` without the white space at its end.
pub open spec fn trim_end(s: Seq<char>) -> Seq<char>
    decreases s.len(),
{
    if s.len() > 0 && is_space(s.last()) {
        trim_end(s.drop_last())
    } else {
        s
    }
}

/// `s` without the white space at either end.
pub open spec fn trimmed(s: Seq<char>) -> Seq<char> {
    trim_end(trim_start(s))
}

/// Cuts the white space off both ends of a line.
pub fn trim(line: &str) -> (core: &str)
    ensures
        core@ == trimmed(line@),
{
    let chars = chars_of(line);
    let n = chars.len();
    let mut from: usize = 0;
    assert(line@.skip(0) =~= line@);
    while from < n && is_space_char(chars[from])
        invariant
            chars@ == line@,
            n == chars.len(),
            from <= n,
            trim_start(line@) == trim_start(line@.skip(from as int)),
        decreases n - from,
    {
        assert(line@.skip(from as int).drop_first() =~= line@.skip(from + 1));
        from = from + 1;
    }
    let ghost body = line@.skip(from as int);
    let mut to: usize = n;
    while to > from && is_space_char(chars[to - 1])
        invariant
            chars@ == line@,
            n == chars.len(),
            from <= to <= n,
            trim_end(body) == trim_end(line@.subrange(from as int, to as int)),
        decreases to,
    {
        assert(line@.subrange(from as int, to as int).drop_last() =~= line@.subrange(
            from as int,
            to - 1,
        ));
        to = to - 1;
    }
    line.substring_char(from, to)
}

/// The character that writes the digit `d`.
pub open spec fn digit_char(d: int) -> char {
    if d == 0 {
        '0'
    } else if d == 1 {
        '1'
    } else if d == 2 {
        '2'
    } else if d == 3 {
        '3'
    } else if d == 4 {
        '4'
    } else if d == 5 {
        '5'
    } else if d == 6 {
        '6'
    } else if d == 7 {
        '7'
    } else if d == 8 {
        '8'
    } else {
        '9'
    }
}

/// The decimal digits of `n`, most significant first, with no leading zero.
pub open spec fn digits(n: nat) -> Seq<char>
    decreases n,
{
    if n < 10 {
        seq![digit_char(n as int)]
    } else {
        digits(n / 10).push(digit_char((n % 10) as int))
    }
}

/// How `n` is written in decimal, with a minus sign in front where it is negative.
pub open spec fn decimal(n: int) -> Seq<char> {
    if n < 0 {
        seq!['-'] + digits((-n) as nat)
    } else {
        digits(n as nat)
    }
}

fn digit_text(d: u64) -> (text: &'static str)
    requires
        d < 10,
    ensures
        text@ == seq![digit_char(d as int)],
{
    proof {
        reveal_strlit("0");
        reveal_strlit("1");
        reveal_strlit("2");
        reveal_strlit("3");
        reveal_strlit("4");
        reveal_strlit("5");
        reveal_strlit("6");
        reveal_strlit("7");
        reveal_strlit("8");
        reveal_strlit("9");
    }
    let text = if d == 0 {
        "0"
    } else if d == 1 {
        "1"
    } else if d == 2 {
        "2"
    } else if d == 3 {
        "3"
    } else if d == 4 {
        "4"
    } else if d == 5 {
        "5"
    } else if d == 6 {
        "6"
    } else if d == 7 {
        "7"
    } else if d == 8 {
        "8"
    } else {
        "9"
    };
    text
}

fn append_digits(out: &mut String, n: u64)
    ensures
        final(out)@ == old(out)@ + digits(n as nat),
    decreases n,
{
    if n >= 10 {
        append_digits(out, n / 10);
    }
    out.append(digit_text(n % 10));
}

/// Writes a number in decimal.
pub fn decimal_string(n: i64) -> (text: String)
    ensures
        text@ == decimal(n as int),
{
    let mut text = String::new();
    if n < 0 {
        proof {
            reveal_strlit("-");
        }
        text.append("-");
        let below: u64 = (-(n + 1)) as u64;
        append_digits(&mut text, below + 1);
    } else {
        append_digits(&mut text, n as u64);
    }
    text
}

/// Writes a number that is not negative in decimal.
pub fn natural_string(n: u64) -> (text: String)
    ensures
        text@ == decimal(n as int),
{
    let mut text = String::new();
    append_digits(&mut text, n);
    text
}

/// Tells whether `c` is one of the ten decimal digits.
pub open spec fn is_digit(c: char) -> bool {
    '0' <= c <= '9'
}

/// The number that the digit `c` stands for.
pub open spec fn digit_value(c: char) -> nat {
    (c as u32 - '0' as u32) as nat
}

/// The number that a run of digits writes, read from the left.
pub open spec fn number_value(s: Seq<char>) -> nat
    decreases s.len(),
{
    if s.len() == 0 {
        0
    } else {
        number_value(s.drop_last()) * 10 + digit_value(s.last())
    }
}

/// Tells whether `s` is one digit or more, and nothing else.
pub open spec fn all_digits(s: Seq<char>) -> bool {
    s.len() > 0 && forall|i: int| 0 <= i < s.len() ==> is_digit(#[trigger] s[i])
}

/// The number that `s` writes: digits, with at most one `+` in front of them.
/// Anything else writes no number.
pub open spec fn unsigned_number(s: Seq<char>) -> Option<nat> {
    let body = if s.len() > 0 && s[0] == '+' {
        s.drop_first()
    } else {
        s
    };
    if all_digits(body) {
        Some(number_value(body))
    } else {
        None
    }
}

/// A longer run of digits never writes a smaller number than its start does.
pub proof fn lemma_number_value_grows(s: Seq<char>, k: int)
    requires
        0 <= k <= s.len(),
    ensures
        number_value(s.take(k)) <= number_value(s),
    decreases s.len() - k,
{
    if k < s.len() {
        lemma_number_value_grows(s, k + 1);
        assert(s.take(k + 1).drop_last() =~= s.take(k));
    } else {
        assert(s.take(k) =~= s);
    }
}

/// Reads an unsigned decimal number. There is no result where the text writes
/// no number, or one that a `usize` cannot hold.
pub fn parse_number(text: &str) -> (number: Option<usize>)
    ensures
        number == match unsigned_number(text@) {
            Some(v) => if v <= usize::MAX {
                Some(v as usize)
            } else {
                None
            },
            None => None,
        },
{
    let chars = chars_of(text);
    let n = chars.len();
    let start: usize = if n > 0 && chars[0] == '+' {
        1
    } else {
        0
    };
    let ghost body = text@.skip(start as int);
    assert(start == 0 ==> text@ =~= body);
    if start == n {
        return None;
    }
    let mut value: usize = 0;
    let mut i: usize = start;
    while i < n
        invariant
            chars@ == text@,
            n == chars.len(),
            start <= i <= n,
            body == text@.skip(start as int),
            unsigned_number(text@) == (if all_digits(body) {
                Some(number_value(body))
            } else {
                None::<nat>
            }),
            forall|k: int| 0 <= k < i - start ==> is_digit(#[trigger] body[k]),
            value == number_value(body.take(i - start)),
        decreases n - i,
    {
        let c = chars[i];
        assert(c == body[i - start]);
        if !('0' <= c && c <= '9') {
            return None;
        }
        let d: usize = (c as u32 - '0' as u32) as usize;
        assert(body.take(i - start + 1).drop_last() =~= body.take(i - start));
        if value > (usize::MAX - d) / 10 {
            proof {
                lemma_number_value_grows(body, i - start + 1);
            }
            return None;
        }
        value = value * 10 + d;
        i = i + 1;
    }
    assert(body.take(n - start) =~= body);
    Some(value)
}

/// Tells whether two pieces of text hold the same characters.
pub fn same_text(left: &str, right: &str) -> (same: bool)
    ensures
        same == (left@ == right@),
{
    let ours = chars_of(left);
    let theirs = chars_of(right);
    if ours.len() != theirs.len() {
        return false;
    }
    let mut i: usize = 0;
    while i < ours.len()
        invariant
            i <= ours.len(),
            ours.len() == theirs.len(),
            ours@ == left@,
            theirs@ == right@,
            forall|k: int| 0 <= k < i ==> ours@[k] == theirs@[k],
        decreases ours.len() - i,
    {
        if ours[i] != theirs[i] {
            return false;
        }
        i = i + 1;
    }
    assert(left@ =~= right@);
    true
}

/// The lower-case form of a text under the Unicode case mapping.
pub uninterp spec fn lowercased(s: Seq<char>) -> Seq<char>;

/// Turns a text into lower case.
///
/// Wraps `str::to_lowercase` of std. Its result depends on the text alone;
/// the mapping itself is not written out here, only named.
#[verifier::external_body]
pub(crate) fn lowercase(text: &str) -> (lower: String)
    ensures
        lower@ == lowercased(text@),
{
    text.to_lowercase()
}

/// How a text is shown between double quotes, with the characters that could
/// be misread written as escapes.
pub uninterp spec fn quoted(s: Seq<char>) -> Seq<char>;

/// Shows a text between double quotes.
///
/// Wraps the `Debug` formatting of `str` in std. Its result depends on the
/// text alone; the escaping rules are not written out here, only named.
#[verifier::external_body]
pub(crate) fn quote(text: &str) -> (shown: String)
    ensures
        shown@ == quoted(text@),
{
    format!("{:?}", text)
}

/// The quoted forms of `names`, separated by a comma and a space.
pub open spec fn quoted_items(names: Seq<Seq<char>>) -> Seq<char>
    decreases names.len(),
{
    if names.len() == 0 {
        Seq::empty()
    } else if names.len() == 1 {
        quoted(names[0])
    } else {
        quoted_items(names.drop_last()) + ", "@ + quoted(names.last())
    }
}

/// How a list of names is shown: quoted, separated by commas, in square brackets.
pub open spec fn list_text(names: Seq<Seq<char>>) -> Seq<char> {
    "["@ + quoted_items(names) + "]"@
}

/// Shows a list of names.
pub fn list_string(names: &Vec<String>) -> (shown: String)
    ensures
        shown@ == list_text(texts(names@)),
{
    let mut shown = String::from_str("[");
    let ghost all = texts(names@);
    let mut i: usize = 0;
    while i < names.len()
        invariant
            i <= names.len(),
            all == texts(names@),
            shown@ == "["@ + quoted_items(all.take(i as int)),
        decreases names.len() - i,
    {
        let ghost before = all.take(i as int);
        let ghost now = all.take(i + 1);
        assert(now.drop_last() =~= before);
        if i > 0 {
            shown.append(", ");
        }
        let item = quote(names[i].as_str());
        shown.append(item.as_str());
        i = i + 1;
    }
    assert(all.take(names.len() as int) =~= all);
    shown.append("]");
    shown
}

/// Where `target` first occurs in `names` at or after `from`, if it does.
pub open spec fn position_from(names: Seq<Seq<char>>, target: Seq<char>, from: int) -> Option<int>
    decreases names.len() - from,
{
    if from < 0 || from >= names.len() {
        None
    } else if names[from] == target {
        Some(from)
    } else {
        position_from(names, target, from + 1)
    }
}

/// Where `target` first occurs in `names`, if it does.
pub open spec fn position(names: Seq<Seq<char>>, target: Seq<char>) -> Option<int> {
    position_from(names, target, 0)
}

/// What `position_from` finds is the first occurrence; where it finds
/// nothing, there is none.
pub proof fn lemma_position_from(names: Seq<Seq<char>>, target: Seq<char>, from: int)
    requires
        0 <= from,
    ensures
        match position_from(names, target, from) {
            Some(i) => from <= i < names.len() && names[i] == target && forall|j: int|
                from <= j < i ==> names[j] != target,
            None => forall|j: int| from <= j < names.len() ==> names[j] != target,
        },
    decreases names.len() - from,
{
    if from < names.len() && names[from] != target {
        lemma_position_from(names, target, from + 1);
    }
}

/// What `position` finds is the first occurrence; where it finds nothing,
/// there is none.
pub proof fn lemma_position(names: Seq<Seq<char>>, target: Seq<char>)
    ensures
        match position(names, target) {
            Some(i) => 0 <= i < names.len() && names[i] == target && forall|j: int|
                0 <= j < i ==> names[j] != target,
            None => forall|j: int| 0 <= j < names.len() ==> names[j] != target,
        },
{
    lemma_position_from(names, target, 0);
}

/// An index that holds `target`, with no earlier one that does, is what
/// `position` finds.
pub proof fn lemma_position_is(names: Seq<Seq<char>>, target: Seq<char>, i: int)
    requires
        0 <= i < names.len(),
        names[i] == target,
        forall|j: int| 0 <= j < i ==> names[j] != target,
    ensures
        position(names, target) == Some(i),
{
    lemma_position(names, target);
}

} // verus!
