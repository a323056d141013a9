//! Taking text apart: trimming, splitting, lines, words and numbers.

use crate::text::{chars_of, decimal, decimals_grow_by_digits, numbers_are_digits};
use vstd::prelude::*;
use vstd::string::*;

verus! {

/// The characters with the Unicode `White_Space` property.
pub open spec fn is_white(c: char) -> bool {
    let n = c as u32;
    ||| 0x09 <= n <= 0x0d
    ||| n == 0x20
    ||| n == 0x85
    ||| n == 0xa0
    ||| n == 0x1680
    ||| 0x2000 <= n <= 0x200a
    ||| n == 0x2028
    ||| n == 0x2029
    ||| n == 0x202f
    ||| n == 0x205f
    ||| n == 0x3000
}

fn white(c: char) -> (yes: bool)
    ensures
        yes == is_white(c),
{
    let n: u32 = c as u32;
    (0x09 <= n && n <= 0x0d) || n == 0x20 || n == 0x85 || n == 0xa0 || n == 0x1680 || (0x2000 <= n
        && n <= 0x200a) || n == 0x2028 || n == 0x2029 || n == 0x202f || n == 0x205f || n == 0x3000
}

/// Text without its leading white space.
pub open spec fn trimmed_start(s: Seq<char>) -> Seq<char>
    decreases s.len(),
{
    if s.len() > 0 && is_white(s[0]) {
        trimmed_start(s.skip(1))
    } else {
        s
    }
}

/// Text without its trailing white space.
pub open spec fn trimmed_end(s: Seq<char>) -> Seq<char>
    decreases s.len(),
{
    if s.len() > 0 && is_white(s.last()) {
        trimmed_end(s.drop_last())
    } else {
        s
    }
}

/// Text without white space at either end.
pub open spec fn trimmed(s: Seq<char>) -> Seq<char> {
    trimmed_end(trimmed_start(s))
}

fn start_of_text(chars: &Vec<char>, from: usize) -> (at: usize)
    requires
        from <= chars@.len(),
    ensures
        from <= at <= chars@.len(),
        trimmed_start(chars@.skip(from as int)) == chars@.skip(at as int),
        at < chars@.len() ==> !is_white(chars@[at as int]),
{
    let mut at: usize = from;
    while at < chars.len() && white(chars[at])
        invariant
            from <= at <= chars@.len(),
            trimmed_start(chars@.skip(from as int)) == trimmed_start(chars@.skip(at as int)),
        decreases chars@.len() - at,
    {
        assert(chars@.skip(at as int).skip(1) =~= chars@.skip(at + 1));
        at += 1;
    }
    at
}

/// Strips white space from both ends.
pub fn trim(text: &str) -> (core: &str)
    ensures
        core@ == trimmed(text@),
{
    let chars = chars_of(text);
    assert(chars@.skip(0) =~= chars@);
    let start: usize = start_of_text(&chars, 0);
    let mut end: usize = chars.len();
    assert(chars@.subrange(start as int, end as int) =~= chars@.skip(start as int));
    while start < end && white(chars[end - 1])
        invariant
            start <= end <= chars@.len(),
            trimmed(text@) == trimmed_end(chars@.subrange(start as int, end as int)),
        decreases end,
    {
        assert(chars@.subrange(start as int, end as int).drop_last() =~= chars@.subrange(
            start as int,
            end - 1,
        ));
        end -= 1;
    }
    text.substring_char(start, end)
}

/// The first place at or after `from` where `sep` stands in `s`.
pub open spec fn find_from(s: Seq<char>, sep: Seq<char>, from: int) -> Option<int>
    decreases s.len() + 1 - from,
{
    if from < 0 || from + sep.len() > s.len() {
        None
    } else if s.subrange(from, from + sep.len()) == sep {
        Some(from)
    } else {
        find_from(s, sep, from + 1)
    }
}

/// What stands before and after the first separator.
pub open spec fn split_first(s: Seq<char>, sep: Seq<char>) -> Option<(Seq<char>, Seq<char>)> {
    match find_from(s, sep, 0) {
        Some(i) => Some((s.take(i), s.skip(i + sep.len()))),
        None => None,
    }
}

fn stands_at(s: &Vec<char>, sep: &Vec<char>, at: usize) -> (yes: bool)
    requires
        at + sep@.len() <= s@.len(),
    ensures
        yes == (s@.subrange(at as int, at + sep@.len()) == sep@),
{
    let mut k: usize = 0;
    while k < sep.len()
        invariant
            k <= sep@.len(),
            at + sep@.len() <= s.len(),
            forall|j: int| 0 <= j < k ==> s@[at + j] == sep@[j],
        decreases sep@.len() - k,
    {
        if s[at + k] != sep[k] {
            assert(s@.subrange(at as int, at + sep@.len())[k as int] != sep@[k as int]);
            return false;
        }
        k += 1;
    }
    assert(s@.subrange(at as int, at + sep@.len()) =~= sep@);
    true
}

fn find(s: &Vec<char>, sep: &Vec<char>) -> (at: Option<usize>)
    ensures
        match at {
            Some(i) => find_from(s@, sep@, 0) == Some(i as int) && i + sep@.len() <= s@.len(),
            None => find_from(s@, sep@, 0) is None,
        },
{
    if sep.len() > s.len() {
        return None;
    }
    let last: usize = s.len() - sep.len();
    let mut i: usize = 0;
    loop
        invariant
            i <= last,
            last == s@.len() - sep@.len(),
            find_from(s@, sep@, 0) == find_from(s@, sep@, i as int),
        decreases last - i,
    {
        if stands_at(s, sep, i) {
            return Some(i);
        }
        if i == last {
            assert(find_from(s@, sep@, i + 1) is None);
            return None;
        }
        i += 1;
    }
}

/// Splits text at the first separator.
pub fn split_once<'a>(text: &'a str, sep: &str) -> (parts: Option<(&'a str, &'a str)>)
    ensures
        match parts {
            Some(p) => split_first(text@, sep@) == Some((p.0@, p.1@)),
            None => split_first(text@, sep@) is None,
        },
{
    let chars = chars_of(text);
    let sep_chars = chars_of(sep);
    match find(&chars, &sep_chars) {
        Some(i) => {
            assert(i + sep_chars@.len() <= chars.len());
            let head = text.substring_char(0, i);
            let tail = text.substring_char(i + sep_chars.len(), chars.len());
            assert(head@ =~= text@.take(i as int));
            assert(tail@ =~= text@.skip(i + sep@.len()));
            Some((head, tail))
        },
        None => None,
    }
}

/// A line as read: one carriage return in front of its line feed is not part
/// of it.
pub open spec fn without_return(line: Seq<char>) -> Seq<char> {
    if line.len() > 0 && line.last() == '\r' {
        line.drop_last()
    } else {
        line
    }
}

/// The lines of a text. A line feed ends a line; text after the last line feed
/// is a line of its own, if there is any.
pub open spec fn lines_of(s: Seq<char>) -> Seq<Seq<char>>
    decreases s.len(),
{
    match split_first(s, seq!['\n']) {
        Some(parts) if parts.1.len() < s.len() => seq![without_return(parts.0)] + lines_of(parts.1),
        _ => if s.len() == 0 {
            Seq::empty()
        } else {
            seq![s]
        },
    }
}

/// The words of a text: its longest pieces without white space.
pub open spec fn words_of(s: Seq<char>) -> Seq<Seq<char>>
    decreases s.len(),
{
    let t = trimmed_start(s);
    let n = word_len(t);
    if 0 < n <= t.len() && t.len() <= s.len() {
        seq![t.take(n as int)] + words_of(t.skip(n as int))
    } else {
        Seq::empty()
    }
}

/// How many characters stand in front of the first white space.
pub open spec fn word_len(s: Seq<char>) -> nat
    decreases s.len(),
{
    if s.len() == 0 || is_white(s[0]) {
        0
    } else {
        1 + word_len(s.skip(1))
    }
}

/// The views of a list of texts.
pub open spec fn texts(list: Seq<&str>) -> Seq<Seq<char>> {
    list.map_values(|t: &str| t@)
}

proof fn lemma_texts_push(list: Seq<&str>, t: &str)
    ensures
        texts(list.push(t)) == texts(list).push(t@),
{
    assert(texts(list.push(t)) =~= texts(list).push(t@));
}

/// Splits text into its lines.
pub fn lines<'a>(text: &'a str) -> (list: Vec<&'a str>)
    ensures
        texts(list@) == lines_of(text@),
{
    let mut list: Vec<&'a str> = Vec::new();
    let mut rest: &'a str = text;
    proof {
        reveal_strlit("\n");
        assert("\n"@ =~= seq!['\n']);
        assert(texts(list@) + lines_of(rest@) =~= lines_of(text@));
    }
    loop
        invariant
            "\n"@ == seq!['\n'],
            texts(list@) + lines_of(rest@) == lines_of(text@),
        decreases rest@.len(),
    {
        let ghost before = list@;
        let ghost whole = rest@;
        match split_once(rest, "\n") {
            Some((line, tail)) => {
                proof {
                    let i = find_from(whole, seq!['\n'], 0)->0;
                    found_in_range(whole, seq!['\n'], 0);
                    assert(tail@ == whole.skip(i + 1));
                }
                let kept = drop_return(line);
                list.push(kept);
                rest = tail;
                proof {
                    lemma_texts_push(before, kept);
                    assert(texts(before) + (seq![kept@] + lines_of(tail@)) =~= texts(list@)
                        + lines_of(tail@));
                }
            },
            None => {
                if rest.unicode_len() > 0 {
                    list.push(rest);
                    proof {
                        lemma_texts_push(before, rest);
                        assert(texts(before) + seq![rest@] =~= texts(list@));
                    }
                } else {
                    assert(texts(list@) + Seq::<Seq<char>>::empty() =~= texts(list@));
                }
                return list;
            },
        }
    }
}

/// A separator that is found lies inside the text.
pub proof fn found_in_range(s: Seq<char>, sep: Seq<char>, from: int)
    ensures
        find_from(s, sep, from) matches Some(i) ==> from <= i && i + sep.len() <= s.len(),
    decreases s.len() + 1 - from,
{
    if !(from < 0 || from + sep.len() > s.len()) {
        found_in_range(s, sep, from + 1);
    }
}

fn drop_return<'a>(line: &'a str) -> (kept: &'a str)
    ensures
        kept@ == without_return(line@),
{
    let n: usize = line.unicode_len();
    if n > 0 && line.get_char(n - 1) == '\r' {
        let kept = line.substring_char(0, n - 1);
        assert(kept@ =~= line@.drop_last());
        kept
    } else {
        line
    }
}

/// Splits text into its words.
pub fn words<'a>(text: &'a str) -> (list: Vec<&'a str>)
    ensures
        texts(list@) == words_of(text@),
{
    let chars = chars_of(text);
    let mut list: Vec<&'a str> = Vec::new();
    let mut at: usize = 0;
    assert(chars@.skip(0) =~= chars@);
    assert(texts(list@) + words_of(text@) =~= words_of(text@));
    loop
        invariant
            at <= chars@.len(),
            chars@ == text@,
            texts(list@) + words_of(chars@.skip(at as int)) == words_of(text@),
        decreases chars@.len() - at,
    {
        let ghost before = list@;
        let start: usize = start_of_text(&chars, at);
        let mut end: usize = start;
        assert(chars@.skip(start as int) =~= trimmed_start(chars@.skip(at as int)));
        while end < chars.len() && !white(chars[end])
            invariant
                start <= end <= chars@.len(),
                word_len(chars@.skip(start as int)) == (end - start) + word_len(
                    chars@.skip(end as int),
                ),
            decreases chars@.len() - end,
        {
            assert(chars@.skip(end as int).skip(1) =~= chars@.skip(end + 1));
            end += 1;
        }
        if end == start {
            assert(texts(list@) + Seq::<Seq<char>>::empty() =~= texts(list@));
            return list;
        }
        let word = text.substring_char(start, end);
        list.push(word);
        proof {
            let t = chars@.skip(start as int);
            assert(word@ =~= t.take(end - start));
            assert(chars@.skip(end as int) =~= t.skip(end - start));
            lemma_texts_push(before, word);
            assert(texts(before) + (seq![word@] + words_of(t.skip(end - start))) =~= texts(list@)
                + words_of(chars@.skip(end as int)));
        }
        at = end;
    }
}

/// Why a text is not an unsigned number.
#[derive(Clone, Copy, Debug, PartialEq, Eq, Structural)]
pub enum NumberError {
    /// There is nothing to read.
    Empty,
    /// Something other than a digit stands in it.
    InvalidDigit,
    /// The number is too large for its type.
    TooLarge,
}

/// What is said of a text that is not a number.
pub open spec fn number_error_text(e: NumberError) -> Seq<char> {
    match e {
        NumberError::Empty => "cannot parse integer from empty string"@,
        NumberError::InvalidDigit => "invalid digit found in string"@,
        NumberError::TooLarge => "number too large to fit in target type"@,
    }
}

impl NumberError {
    /// Says what is wrong with the text.
    pub fn message(&self) -> (text: &'static str)
        ensures
            text@ == number_error_text(*self),
    {
        match self {
            NumberError::Empty => "cannot parse integer from empty string",
            NumberError::InvalidDigit => "invalid digit found in string",
            NumberError::TooLarge => "number too large to fit in target type",
        }
    }
}

/// The value of a run of digits, read from the left onto `acc`.
pub open spec fn digits_value(s: Seq<char>, acc: nat, max: nat) -> Result<nat, NumberError>
    decreases s.len(),
{
    if s.len() == 0 {
        Ok(acc)
    } else if !('0' <= s[0] && s[0] <= '9') {
        Err(NumberError::InvalidDigit)
    } else {
        let next = 10 * acc + (s[0] as nat - '0' as nat) as nat;
        if next > max {
            Err(NumberError::TooLarge)
        } else {
            digits_value(s.skip(1), next, max)
        }
    }
}

/// An unsigned number of at most `max`: digits, with a plus sign in front of
/// them or not.
pub open spec fn number_value(s: Seq<char>, max: nat) -> Result<nat, NumberError> {
    if s.len() == 0 {
        Err(NumberError::Empty)
    } else if s[0] == '+' {
        if s.len() == 1 {
            Err(NumberError::InvalidDigit)
        } else {
            digits_value(s.skip(1), 0, max)
        }
    } else {
        digits_value(s, 0, max)
    }
}

/// Reads an unsigned number of at most `max`.
pub fn parse_number(text: &str, max: u64) -> (number: Result<u64, NumberError>)
    ensures
        match number {
            Ok(n) => number_value(text@, max as nat) == Ok::<nat, NumberError>(n as nat),
            Err(e) => number_value(text@, max as nat) == Err::<nat, NumberError>(e),
        },
        number matches Ok(n) ==> n <= max,
{
    let chars = chars_of(text);
    if chars.len() == 0 {
        return Err(NumberError::Empty);
    }
    let mut at: usize = 0;
    if chars[0] == '+' {
        if chars.len() == 1 {
            return Err(NumberError::InvalidDigit);
        }
        at = 1;
    }
    let mut acc: u64 = 0;
    assert(chars@.skip(0) =~= chars@);
    while at < chars.len()
        invariant
            at <= chars@.len(),
            acc <= max,
            number_value(text@, max as nat) == digits_value(
                chars@.skip(at as int),
                acc as nat,
                max as nat,
            ),
        decreases chars@.len() - at,
    {
        let c: char = chars[at];
        assert(chars@.skip(at as int).skip(1) =~= chars@.skip(at + 1));
        if !('0' <= c && c <= '9') {
            return Err(NumberError::InvalidDigit);
        }
        let next: u128 = 10 * (acc as u128) + (c as u32 - '0' as u32) as u128;
        if next > max as u128 {
            return Err(NumberError::TooLarge);
        }
        acc = next as u64;
        at += 1;
    }
    Ok(acc)
}

/// An ASCII capital letter as a small one; any other character unchanged.
pub open spec fn ascii_lower(c: char) -> char {
    if 'A' <= c && c <= 'Z' {
        (c as u32 + 32) as char
    } else {
        c
    }
}

/// Whether two texts are equal up to the case of ASCII letters.
pub open spec fn same_but_case(a: Seq<char>, b: Seq<char>) -> bool {
    a.len() == b.len() && forall|i: int|
        0 <= i < a.len() ==> ascii_lower(#[trigger] a[i]) == ascii_lower(b[i])
}

fn lower(c: char) -> (n: u32)
    ensures
        n == ascii_lower(c) as u32,
{
    if 'A' <= c && c <= 'Z' {
        c as u32 + 32
    } else {
        c as u32
    }
}

/// Compares two texts without regard to the case of ASCII letters.
pub fn eq_ignore_ascii_case(a: &str, b: &str) -> (same: bool)
    ensures
        same == same_but_case(a@, b@),
{
    let x = chars_of(a);
    let y = chars_of(b);
    if x.len() != y.len() {
        return false;
    }
    let mut i: usize = 0;
    while i < x.len()
        invariant
            i <= x@.len(),
            x@.len() == y@.len(),
            x@ == a@,
            y@ == b@,
            forall|j: int| 0 <= j < i ==> ascii_lower(#[trigger] x@[j]) == ascii_lower(y@[j]),
        decreases x@.len() - i,
    {
        if lower(x[i]) != lower(y[i]) {
            assert(ascii_lower(a@[i as int]) != ascii_lower(b@[i as int]));
            return false;
        }
        i += 1;
    }
    true
}

/// Trimming takes the white space off both ends, all of it and nothing else:
/// what is left stands in the text between two places that only white space
/// lies beyond.
pub proof fn trimming_takes_white_space_only(s: Seq<char>) -> (ends: (int, int))
    ensures
        0 <= ends.0 <= ends.1 <= s.len(),
        trimmed(s) == s.subrange(ends.0, ends.1),
        forall|k: int| 0 <= k < ends.0 ==> is_white(#[trigger] s[k]),
        forall|k: int| ends.1 <= k < s.len() ==> is_white(#[trigger] s[k]),
        ends.0 < ends.1 ==> !is_white(s[ends.0]) && !is_white(s[ends.1 - 1]),
{
    let i = lemma_trim_start(s);
    let t = s.skip(i);
    let j = lemma_trim_end(t);
    assert(t.take(j) =~= s.subrange(i, i + j));
    assert forall|k: int| i + j <= k < s.len() implies is_white(#[trigger] s[k]) by {
        assert(t[k - i] == s[k]);
    }
    if j > 0 {
        assert(t[0] == s[i] && t[j - 1] == s[i + j - 1]);
    }
    (i, i + j)
}

proof fn lemma_trim_start(s: Seq<char>) -> (i: int)
    ensures
        0 <= i <= s.len(),
        trimmed_start(s) == s.skip(i),
        forall|k: int| 0 <= k < i ==> is_white(#[trigger] s[k]),
        i < s.len() ==> !is_white(s[i]),
    decreases s.len(),
{
    if s.len() > 0 && is_white(s[0]) {
        let t = s.skip(1);
        let i = lemma_trim_start(t);
        assert(t.skip(i) =~= s.skip(i + 1));
        assert forall|k: int| 0 <= k < i + 1 implies is_white(#[trigger] s[k]) by {
            if k > 0 {
                assert(t[k - 1] == s[k]);
            }
        }
        i + 1
    } else {
        assert(s.skip(0) =~= s);
        0
    }
}

proof fn lemma_trim_end(s: Seq<char>) -> (j: int)
    ensures
        0 <= j <= s.len(),
        trimmed_end(s) == s.take(j),
        forall|k: int| j <= k < s.len() ==> is_white(#[trigger] s[k]),
        j > 0 ==> !is_white(s[j - 1]),
    decreases s.len(),
{
    if s.len() > 0 && is_white(s.last()) {
        let t = s.drop_last();
        let j = lemma_trim_end(t);
        assert(t.take(j) =~= s.take(j));
        assert forall|k: int| j <= k < s.len() implies is_white(#[trigger] s[k]) by {
            if k < s.len() - 1 {
                assert(t[k] == s[k]);
            }
        }
        j
    } else {
        assert(s.take(s.len() as int) =~= s);
        s.len() as int
    }
}

/// Text without white space at its ends is not changed by white space put
/// around it.
pub proof fn trimming_finds_the_core(before: Seq<char>, core: Seq<char>, after: Seq<char>)
    requires
        forall|k: int| 0 <= k < before.len() ==> is_white(#[trigger] before[k]),
        forall|k: int| 0 <= k < after.len() ==> is_white(#[trigger] after[k]),
        core.len() > 0 ==> !is_white(core[0]) && !is_white(core.last()),
    ensures
        trimmed(before + core + after) == core,
{
    let s = before + core + after;
    let (i, j) = trimming_takes_white_space_only(s);
    let (b, c) = (before.len() as int, core.len() as int);
    if c > 0 {
        assert(s[b] == core[0] && s[b + c - 1] == core.last());
        assert(!is_white(s[b]) && !is_white(s[b + c - 1]));
        if i < b {
            assert(s[i] == before[i]);
        }
        if j > b + c {
            assert(s[j - 1] == after[j - 1 - b - c]);
        }
        assert(i == b && j == b + c);
        assert(s.subrange(i, j) =~= core);
    } else {
        if i < j {
            if i < b {
                assert(s[i] == before[i]);
            } else {
                assert(s[i] == after[i - b]);
            }
        }
        assert(s.subrange(i, j) =~= core);
    }
}

/// Splitting finds the first separator: the two parts and the separator make up
/// the text, and the separator stands nowhere before; without one there is
/// nothing to split.
pub proof fn splits_are_at_the_first_separator(s: Seq<char>, sep: Seq<char>)
    ensures
        match split_first(s, sep) {
            Some(p) => {
                &&& s == p.0 + sep + p.1
                &&& forall|k: int|
                    0 <= k < p.0.len() ==> #[trigger] s.subrange(k, k + sep.len()) != sep
            },
            None => forall|k: int|
                0 <= k && k + sep.len() <= s.len() ==> #[trigger] s.subrange(k, k + sep.len()) != sep,
        },
{
    lemma_find_first(s, sep, 0);
    found_in_range(s, sep, 0);
    match find_from(s, sep, 0) {
        Some(i) => {
            assert(s =~= s.take(i) + s.subrange(i, i + sep.len()) + s.skip(i + sep.len()));
        },
        None => {},
    }
}

proof fn lemma_find_first(s: Seq<char>, sep: Seq<char>, from: int)
    requires
        from >= 0,
    ensures
        match find_from(s, sep, from) {
            Some(i) => {
                &&& s.subrange(i, i + sep.len()) == sep
                &&& forall|k: int|
                    from <= k < i ==> #[trigger] s.subrange(k, k + sep.len()) != sep
            },
            None => forall|k: int|
                from <= k && k + sep.len() <= s.len() ==> #[trigger] s.subrange(k, k + sep.len())
                    != sep,
        },
    decreases s.len() + 1 - from,
{
    if from + sep.len() <= s.len() && s.subrange(from, from + sep.len()) != sep {
        lemma_find_first(s, sep, from + 1);
    }
}

/// A text put together from two parts and a mark that stands in neither the
/// first part is split into them again.
pub proof fn joined_parts_are_split(a: Seq<char>, mark: char, b: Seq<char>)
    requires
        forall|k: int| 0 <= k < a.len() ==> #[trigger] a[k] != mark,
    ensures
        split_first(a + seq![mark] + b, seq![mark]) == Some((a, b)),
{
    let s = a + seq![mark] + b;
    let sep = seq![mark];
    splits_are_at_the_first_separator(s, sep);
    let n = a.len() as int;
    assert(s.subrange(n, n + sep.len()) =~= sep);
    let p = split_first(s, sep)->0;
    assert(split_first(s, sep) is Some);
    let t = p.0 + sep + p.1;
    assert(t[p.0.len() as int] == mark);
    if p.0.len() < n {
        assert(s[p.0.len() as int] == a[p.0.len() as int]);
    }
    assert(p.0.len() == n);
    assert(p.0 =~= t.take(n) && a =~= s.take(n));
    assert(p.1 =~= t.skip(n + 1) && b =~= s.skip(n + 1));
}

/// Lines stand between line feeds: a first line in front of one, without the
/// carriage return it may end with, and the lines behind it.
pub proof fn lines_stand_between_line_feeds(line: Seq<char>, rest: Seq<char>)
    requires
        forall|k: int| 0 <= k < line.len() ==> #[trigger] line[k] != '\n',
    ensures
        lines_of(Seq::empty()) == Seq::<Seq<char>>::empty(),
        line.len() > 0 ==> lines_of(line) == seq![line],
        line.len() == 0 || line.last() != '\r' ==> lines_of(line + seq!['\n'] + rest) == seq![line]
            + lines_of(rest),
        lines_of(line + seq!['\r'] + seq!['\n'] + rest) == seq![line] + lines_of(rest),
{
    let feed = seq!['\n'];
    splits_are_at_the_first_separator(Seq::empty(), feed);
    assert(split_first(Seq::<char>::empty(), feed) is None) by {
        if split_first(Seq::<char>::empty(), feed) is Some {
            let p = split_first(Seq::<char>::empty(), feed)->0;
            assert((p.0 + feed + p.1).len() >= 1);
        }
    }
    splits_are_at_the_first_separator(line, feed);
    assert(split_first(line, feed) is None) by {
        if split_first(line, feed) is Some {
            let p = split_first(line, feed)->0;
            assert((p.0 + feed + p.1)[p.0.len() as int] == '\n');
        }
    }
    joined_parts_are_split(line, '\n', rest);
    let longer = line + seq!['\r'];
    assert forall|k: int| 0 <= k < longer.len() implies #[trigger] longer[k] != '\n' by {
        if k < line.len() {
            assert(longer[k] == line[k]);
        }
    }
    joined_parts_are_split(longer, '\n', rest);
    assert(longer.drop_last() =~= line);
}

/// Words stand between white space: a first word in front of some, and the
/// words behind it.
pub proof fn words_stand_between_white_space(word: Seq<char>, c: char, rest: Seq<char>)
    requires
        word.len() > 0,
        forall|k: int| 0 <= k < word.len() ==> !is_white(#[trigger] word[k]),
        is_white(c),
    ensures
        words_of(Seq::empty()) == Seq::<Seq<char>>::empty(),
        words_of(seq![c] + rest) == words_of(rest),
        words_of(word) == seq![word],
        words_of(word + seq![c] + rest) == seq![word] + words_of(rest),
{
    let none = Seq::<char>::empty();
    assert(words_of(none) =~= Seq::<Seq<char>>::empty());
    lemma_white_in_front(c, rest);
    lemma_word_len(word, none);
    assert(word + none =~= word);
    assert(trimmed_start(word) == word);
    assert(word.take(word.len() as int) =~= word);
    assert(word.skip(word.len() as int) =~= none);
    assert(words_of(word) =~= seq![word]);
    let tail = seq![c] + rest;
    let s = word + tail;
    assert(s =~= word + seq![c] + rest);
    lemma_word_len(word, tail);
    assert(s[0] == word[0]);
    assert(trimmed_start(s) == s);
    assert(s.take(word.len() as int) =~= word);
    assert(s.skip(word.len() as int) =~= tail);
}

proof fn lemma_white_in_front(c: char, rest: Seq<char>)
    requires
        is_white(c),
    ensures
        words_of(seq![c] + rest) == words_of(rest),
{
    let s = seq![c] + rest;
    assert(s.skip(1) =~= rest);
    assert(trimmed_start(s) == trimmed_start(rest));
    let i = lemma_trim_start(rest);
    let t = trimmed_start(rest);
    assert(t.len() <= rest.len());
    lemma_word_len_fits(t);
}

proof fn lemma_word_len_fits(s: Seq<char>)
    ensures
        word_len(s) <= s.len(),
    decreases s.len(),
{
    if s.len() > 0 && !is_white(s[0]) {
        lemma_word_len_fits(s.skip(1));
    }
}

proof fn lemma_word_len(word: Seq<char>, tail: Seq<char>)
    requires
        forall|k: int| 0 <= k < word.len() ==> !is_white(#[trigger] word[k]),
        tail.len() == 0 || is_white(tail[0]),
    ensures
        word_len(word + tail) == word.len(),
    decreases word.len(),
{
    let s = word + tail;
    if word.len() == 0 {
        assert(s =~= tail);
    } else {
        assert(s[0] == word[0]);
        assert(s.skip(1) =~= word.skip(1) + tail);
        lemma_word_len(word.skip(1), tail);
    }
}

/// A numeral grows by one digit at its end: the number that it stands for is
/// ten times the one before, and the digit. It is too large where that exceeds
/// the limit, and refused where what is added is no digit.
pub proof fn numerals_grow_by_digits(s: Seq<char>, c: char, max: nat)
    requires
        s.len() > 0,
        number_value(s, max) is Ok,
    ensures
        number_value(s, max)->Ok_0 <= max,
        ({
            let d = c as int - 48;
            let n = 10 * number_value(s, max)->Ok_0 + d;
            &&& 0 <= d <= 9 && n <= max ==> number_value(s.push(c), max) == Ok::<nat, NumberError>(
                n as nat,
            )
            &&& 0 <= d <= 9 && n > max ==> number_value(s.push(c), max) == Err::<nat, NumberError>(
                NumberError::TooLarge,
            )
            &&& !(0 <= d <= 9) ==> number_value(s.push(c), max) == Err::<nat, NumberError>(
                NumberError::InvalidDigit,
            )
        }),
{
    let t = s.push(c);
    assert(t[0] == s[0]);
    if s[0] == '+' {
        assert(t.skip(1) =~= s.skip(1).push(c));
        lemma_push_digit(s.skip(1), 0, c, max);
    } else {
        lemma_push_digit(s, 0, c, max);
    }
}

proof fn lemma_push_digit(s: Seq<char>, acc: nat, c: char, max: nat)
    requires
        digits_value(s, acc, max) is Ok,
    ensures
        s.len() > 0 ==> digits_value(s, acc, max)->Ok_0 <= max,
        s.len() == 0 ==> digits_value(s, acc, max)->Ok_0 == acc,
        ({
            let d = c as int - 48;
            let n = 10 * digits_value(s, acc, max)->Ok_0 + d;
            digits_value(s.push(c), acc, max) == (if !(0 <= d <= 9) {
                Err::<nat, NumberError>(NumberError::InvalidDigit)
            } else if n > max {
                Err(NumberError::TooLarge)
            } else {
                Ok(n as nat)
            })
        }),
    decreases s.len(),
{
    let t = s.push(c);
    reveal_with_fuel(digits_value, 2);
    if s.len() == 0 {
        assert(t.skip(1) =~= Seq::empty());
    } else {
        assert(t[0] == s[0]);
        assert(t.skip(1) =~= s.skip(1).push(c));
        let next = 10 * acc + (s[0] as nat - '0' as nat) as nat;
        lemma_push_digit(s.skip(1), next as nat, c, max);
    }
}

/// A numeral that is too large or no numeral stays so, whatever is added to it.
pub proof fn refused_numerals_stay_refused(s: Seq<char>, c: char, max: nat)
    requires
        s.len() > 0,
        s != seq!['+'],
        number_value(s, max) is Err,
    ensures
        number_value(s.push(c), max) == number_value(s, max),
{
    let t = s.push(c);
    assert(t[0] == s[0]);
    if s[0] == '+' {
        assert(s.len() > 1) by {
            if s.len() == 1 {
                assert(s =~= seq!['+']);
            }
        }
        assert(t.skip(1) =~= s.skip(1).push(c));
        lemma_push_refused(s.skip(1), 0, c, max);
    } else {
        lemma_push_refused(s, 0, c, max);
    }
}

proof fn lemma_push_refused(s: Seq<char>, acc: nat, c: char, max: nat)
    requires
        digits_value(s, acc, max) is Err,
    ensures
        digits_value(s.push(c), acc, max) == digits_value(s, acc, max),
    decreases s.len(),
{
    let t = s.push(c);
    if s.len() > 0 {
        assert(t[0] == s[0]);
        assert(t.skip(1) =~= s.skip(1).push(c));
        if '0' <= s[0] && s[0] <= '9' {
            let next = (10 * acc + (s[0] as nat - '0' as nat) as nat) as nat;
            if next <= max {
                lemma_push_refused(s.skip(1), next, c, max);
            }
        }
    }
}

/// What a number is written as is read as that number, if the limit admits it,
/// also with a plus sign in front; nothing at all, and a sign alone, are no
/// numbers.
pub proof fn written_numbers_are_read(n: nat, max: nat)
    ensures
        n <= max ==> number_value(decimal(n), max) == Ok::<nat, NumberError>(n),
        n <= max ==> number_value(seq!['+'] + decimal(n), max) == Ok::<nat, NumberError>(n),
        n > max ==> number_value(decimal(n), max) == Err::<nat, NumberError>(NumberError::TooLarge),
        number_value(Seq::empty(), max) == Err::<nat, NumberError>(NumberError::Empty),
        number_value(seq!['+'], max) == Err::<nat, NumberError>(NumberError::InvalidDigit),
{
    lemma_digits_read(n, max);
    numbers_are_digits(n, 10);
    let s = seq!['+'] + decimal(n);
    assert(s.skip(1) =~= decimal(n));
}

proof fn lemma_digits_read(n: nat, max: nat)
    ensures
        digits_value(decimal(n), 0, max) == (if n <= max {
            Ok::<nat, NumberError>(n)
        } else {
            Err(NumberError::TooLarge)
        }),
    decreases n,
{
    let d = n % 10;
    let m = n / 10;
    decimals_grow_by_digits(m, d);
    let s = decimal(n);
    if n < 10 {
        assert(s.skip(1) =~= Seq::empty());
        reveal_with_fuel(digits_value, 2);
    } else {
        assert(n == 10 * m + d);
        lemma_digits_read(m, max);
        let t = decimal(m);
        assert(s =~= t.push(s.last()));
        if m <= max {
            lemma_push_digit(t, 0, s.last(), max);
        } else {
            lemma_push_refused(t, 0, s.last(), max);
        }
    }
}

/// Texts are the same but for case where each character is the same, or the
/// other form of the same ASCII letter.
pub proof fn case_is_of_ascii_letters_only(a: Seq<char>, b: Seq<char>)
    ensures
        same_but_case(a, b) <==> a.len() == b.len() && forall|i: int|
            0 <= i < a.len() ==> (#[trigger] a[i] == b[i] || (65 <= a[i] as int <= 90 && b[i] as int
                == a[i] as int + 32) || (65 <= b[i] as int <= 90 && a[i] as int == b[i] as int
                + 32)),
{
    if same_but_case(a, b) {
        assert forall|i: int| 0 <= i < a.len() implies (#[trigger] a[i] == b[i] || (65
            <= a[i] as int <= 90 && b[i] as int == a[i] as int + 32) || (65 <= b[i] as int <= 90
            && a[i] as int == b[i] as int + 32)) by {
            assert(ascii_lower(a[i]) == ascii_lower(b[i]));
        }
    }
}

/// A character that is no digit makes no number, alone or behind a sign.
pub proof fn strangers_are_no_numbers(c: char, max: nat)
    requires
        !(48 <= c as int <= 57),
    ensures
        c != '+' ==> number_value(seq![c], max) == Err::<nat, NumberError>(
            NumberError::InvalidDigit,
        ),
        number_value(seq!['+', c], max) == Err::<nat, NumberError>(NumberError::InvalidDigit),
{
    assert(seq!['+', c].skip(1) =~= seq![c]);
}

/// White space is the tab and the four characters after it, the space, and a few
/// characters outside ASCII: no letter, no digit and no punctuation.
pub proof fn white_space_is_blank(c: char)
    ensures
        c == '\t' || c == '\n' || c == '\r' || c == ' ' ==> is_white(c),
        (c as u32) < 0x80 ==> (is_white(c) <==> 9 <= c as u32 <= 13 || c as u32 == 32),
        0x80 <= (c as u32) < 0x2000 ==> (is_white(c) <==> c as u32 == 0x85 || c as u32 == 0xa0
            || c as u32 == 0x1680),
        0x2000 <= (c as u32) ==> (is_white(c) <==> c as u32 <= 0x200a || c as u32 == 0x2028
            || c as u32 == 0x2029 || c as u32 == 0x202f || c as u32 == 0x205f || c as u32
            == 0x3000),
{
}

/// Each reason why a text is no number has words of its own.
pub proof fn number_errors_are_told_apart(e: NumberError)
    ensures
        e is Empty ==> number_error_text(e) == "cannot parse integer from empty string"@,
        e is InvalidDigit ==> number_error_text(e) == "invalid digit found in string"@,
        e is TooLarge ==> number_error_text(e) == "number too large to fit in target type"@,
{
}

/// What is said of several texts holds of each in its place.
pub proof fn texts_stand_in_their_order(list: Seq<&str>)
    ensures
        texts(list).len() == list.len(),
        forall|i: int| 0 <= i < list.len() ==> #[trigger] texts(list)[i] == list[i]@,
{
}

} // verus!
