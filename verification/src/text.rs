//! Text as sequences of characters: the searches and comparisons that the
//! checks of this crate are stated with.

use vstd::prelude::*;

verus! {

/// `pat` stands in `text` at character index `i`.
pub open spec fn occurs_at(text: Seq<char>, pat: Seq<char>, i: int) -> bool {
    &&& 0 <= i
    &&& i + pat.len() <= text.len()
    &&& text.subrange(i, i + pat.len()) == pat
}

/// `pat` stands somewhere in `text`.
pub open spec fn contains_text(text: Seq<char>, pat: Seq<char>) -> bool {
    exists|i: int| occurs_at(text, pat, i)
}

/// `text` begins with `pat`.
pub open spec fn begins_with(text: Seq<char>, pat: Seq<char>) -> bool {
    occurs_at(text, pat, 0)
}

/// `text` ends with `pat`.
pub open spec fn finishes_with(text: Seq<char>, pat: Seq<char>) -> bool {
    occurs_at(text, pat, text.len() - pat.len())
}

/// The characters of `text`.
pub fn chars_of(text: &str) -> (chars: Vec<char>)
    ensures
        chars@ == text@,
{
    let mut chars: Vec<char> = Vec::new();
    for c in it: text.chars()
        invariant
            it.seq() == text@,
            chars@ == it.seq().take(it.index() as int),
    {
        chars.push(c);
        assert(it.seq().take(it.index() + 1) =~= it.seq().take(it.index() as int).push(c));
    }
    assert(text@.take(text@.len() as int) =~= text@);
    chars
}

/// Whether `pat` stands in `text` at index `at`.
pub fn matches_at(text: &Vec<char>, pat: &Vec<char>, at: usize) -> (found: bool)
    requires
        at + pat.len() <= text.len(),
    ensures
        found == occurs_at(text@, pat@, at as int),
{
    let mut k: usize = 0;
    while k < pat.len()
        invariant
            at + pat.len() <= text.len(),
            0 <= k <= pat@.len(),
            forall|j: int| 0 <= j < k ==> text@[at + j] == pat@[j],
        decreases pat@.len() - k,
    {
        if text[at + k] != pat[k] {
            proof {
                let part = text@.subrange(at as int, at + pat@.len());
                assert(part[k as int] != pat@[k as int]);
            }
            return false;
        }
        k += 1;
    }
    assert(text@.subrange(at as int, at + pat@.len()) =~= pat@);
    true
}

/// Whether `pat` stands somewhere in `text`.
pub fn contains(text: &str, pat: &str) -> (found: bool)
    ensures
        found == contains_text(text@, pat@),
{
    let hay = chars_of(text);
    let needle = chars_of(pat);
    if needle.len() > hay.len() {
        return false;
    }
    let last = hay.len() - needle.len();
    let mut at: usize = 0;
    loop
        invariant
            hay@ == text@,
            needle@ == pat@,
            last + needle.len() == hay.len(),
            0 <= at <= last,
            forall|i: int| 0 <= i < at ==> !occurs_at(hay@, needle@, i),
        decreases last - at,
    {
        if matches_at(&hay, &needle, at) {
            return true;
        }
        if at == last {
            return false;
        }
        at += 1;
    }
}

/// Whether `text` begins with `pat`.
pub fn starts_with(text: &str, pat: &str) -> (found: bool)
    ensures
        found == begins_with(text@, pat@),
{
    let hay = chars_of(text);
    let needle = chars_of(pat);
    if needle.len() > hay.len() {
        return false;
    }
    matches_at(&hay, &needle, 0)
}

/// Whether `text` ends with `pat`.
pub fn ends_with(text: &str, pat: &str) -> (found: bool)
    ensures
        found == finishes_with(text@, pat@),
{
    let hay = chars_of(text);
    let needle = chars_of(pat);
    if needle.len() > hay.len() {
        return false;
    }
    matches_at(&hay, &needle, hay.len() - needle.len())
}

/// Whether `a` and `b` are the same text.
pub fn same_text(a: &str, b: &str) -> (same: bool)
    ensures
        same == (a@ == b@),
{
    let left = chars_of(a);
    let right = chars_of(b);
    if left.len() != right.len() {
        return false;
    }
    let same = matches_at(&left, &right, 0);
    proof {
        assert(left@.subrange(0, left@.len() as int) =~= left@);
    }
    same
}

/// `head` followed by `tail`.
pub fn joined(head: &str, tail: &str) -> (text: String)
    ensures
        text@ == head@ + tail@,
{
    let mut text = String::from_str(head);
    text.append(tail);
    text
}

/// The character that stands for the digit `d`.
pub open spec fn digit_char(d: int) -> char
    recommends
        0 <= d < 10,
{
    if d == 0 {
        '0'
    } else if d == 1 {
        '1'
    } else if d == 2 {
        '2'
    } else if d == 3 {
        '3'
    } else if d == 4 {
        '4'
    } else if d == 5 {
        '5'
    } else if d == 6 {
        '6'
    } else if d == 7 {
        '7'
    } else if d == 8 {
        '8'
    } else {
        '9'
    }
}

/// The decimal digits of `n`, most significant first, without leading
/// zeros.
pub open spec fn decimal_digits(n: nat) -> Seq<char>
    decreases n,
{
    if n < 10 {
        seq![digit_char(n as int)]
    } else {
        decimal_digits(n / 10).push(digit_char((n % 10) as int))
    }
}

/// `n` written in decimal, with a minus sign where it is negative.
pub open spec fn decimal_text(n: int) -> Seq<char> {
    if n < 0 {
        seq!['-'] + decimal_digits((-n) as nat)
    } else {
        decimal_digits(n as nat)
    }
}

/// The text of the digit `d`.
fn digit_text(d: u64) -> (text: &'static str)
    requires
        d < 10,
    ensures
        text@ == seq![digit_char(d as int)],
{
    proof {
        reveal_strlit("0");
        reveal_strlit("1");
        reveal_strlit("2");
        reveal_strlit("3");
        reveal_strlit("4");
        reveal_strlit("5");
        reveal_strlit("6");
        reveal_strlit("7");
        reveal_strlit("8");
        reveal_strlit("9");
    }
    let text = if d == 0 {
        "0"
    } else if d == 1 {
        "1"
    } else if d == 2 {
        "2"
    } else if d == 3 {
        "3"
    } else if d == 4 {
        "4"
    } else if d == 5 {
        "5"
    } else if d == 6 {
        "6"
    } else if d == 7 {
        "7"
    } else if d == 8 {
        "8"
    } else {
        "9"
    };
    assert(text@ =~= seq![digit_char(d as int)]);
    text
}

/// Adds the decimal digits of `n` to `text`.
fn append_digits(text: &mut String, n: u64)
    ensures
        final(text)@ == old(text)@ + decimal_digits(n as nat),
    decreases n,
{
    if n >= 10 {
        append_digits(text, n / 10);
    }
    text.append(digit_text(n % 10));
    assert(text@ =~= old(text)@ + decimal_digits(n as nat));
}

/// Writes `n` in decimal.
pub fn decimal(n: i32) -> (text: String)
    ensures
        text@ == decimal_text(n as int),
{
    let mut text = String::new();
    if n < 0 {
        proof {
            reveal_strlit("-");
        }
        text.append("-");
        assert(text@ =~= seq!['-']);
        let size: u64 = (-(n as i64)) as u64;
        append_digits(&mut text, size);
    } else {
        append_digits(&mut text, n as u64);
        assert(text@ =~= decimal_digits(n as nat));
    }
    text
}

/// The texts of `parts` one after the other.
pub open spec fn glue(parts: Seq<Seq<char>>) -> Seq<char>
    decreases parts.len(),
{
    if parts.len() == 0 {
        Seq::empty()
    } else {
        glue(parts.drop_last()) + parts.last()
    }
}

/// The texts that `parts` hold.
pub open spec fn texts(parts: Seq<&str>) -> Seq<Seq<char>> {
    parts.map_values(|part: &str| part@)
}

/// Puts the texts of `parts` together.
pub fn glued(parts: &Vec<&str>) -> (text: String)
    ensures
        text@ == glue(texts(parts@)),
{
    let mut text = String::new();
    let mut i: usize = 0;
    assert(texts(parts@).take(0) =~= Seq::<Seq<char>>::empty());
    while i < parts.len()
        invariant
            0 <= i <= parts@.len(),
            text@ == glue(texts(parts@).take(i as int)),
        decreases parts@.len() - i,
    {
        proof {
            let next = texts(parts@).take(i + 1);
            assert(next.drop_last() =~= texts(parts@).take(i as int));
            assert(next.last() == parts@[i as int]@);
        }
        text.append(parts[i]);
        i += 1;
    }
    assert(texts(parts@).take(parts@.len() as int) =~= texts(parts@));
    text
}

/// Adds the texts of `parts` to the end of `text`.
pub fn append_all(text: &mut String, parts: &Vec<&str>)
    ensures
        final(text)@ == old(text)@ + glue(texts(parts@)),
{
    let mut i: usize = 0;
    assert(texts(parts@).take(0) =~= Seq::<Seq<char>>::empty());
    assert(text@ =~= old(text)@ + glue(texts(parts@).take(0)));
    while i < parts.len()
        invariant
            0 <= i <= parts@.len(),
            text@ == old(text)@ + glue(texts(parts@).take(i as int)),
        decreases parts@.len() - i,
    {
        proof {
            let next = texts(parts@).take(i + 1);
            assert(next.drop_last() =~= texts(parts@).take(i as int));
            assert(next.last() == parts@[i as int]@);
        }
        text.append(parts[i]);
        assert(text@ =~= old(text)@ + glue(texts(parts@).take(i + 1)));
        i += 1;
    }
    assert(texts(parts@).take(parts@.len() as int) =~= texts(parts@));
}

/// The digit that `c` stands for.
pub open spec fn digit_of(c: char) -> Option<nat> {
    if c == '0' {
        Some(0)
    } else if c == '1' {
        Some(1)
    } else if c == '2' {
        Some(2)
    } else if c == '3' {
        Some(3)
    } else if c == '4' {
        Some(4)
    } else if c == '5' {
        Some(5)
    } else if c == '6' {
        Some(6)
    } else if c == '7' {
        Some(7)
    } else if c == '8' {
        Some(8)
    } else if c == '9' {
        Some(9)
    } else {
        None
    }
}

/// The number that `text` is in decimal: one or more digits and nothing
/// else.
pub open spec fn number_of(text: Seq<char>) -> Option<nat>
    decreases text.len(),
{
    if text.len() == 0 {
        None
    } else if text.len() == 1 {
        digit_of(text[0])
    } else {
        match (number_of(text.drop_last()), digit_of(text.last())) {
            (Some(high), Some(low)) => Some(10 * high + low),
            _ => None,
        }
    }
}

/// The digits of `text`, behind the sign it may begin with.
pub open spec fn unsigned_part(text: Seq<char>) -> Seq<char> {
    if text.len() > 0 && (text[0] == '-' || text[0] == '+') {
        text.skip(1)
    } else {
        text
    }
}

/// The 32-bit integer that `text` is in decimal: digits, with a plus or
/// minus sign before them or without, that make a number in range.
pub open spec fn parsed_i32(text: Seq<char>) -> Option<i32> {
    match number_of(unsigned_part(text)) {
        Some(size) => {
            let value = if text[0] == '-' {
                -(size as int)
            } else {
                size as int
            };
            if i32::MIN <= value <= i32::MAX {
                Some(value as i32)
            } else {
                None
            }
        },
        None => None,
    }
}

/// A number is no smaller than the number that its first digits make, and
/// text whose first characters are no number is none.
proof fn lemma_number_grows(text: Seq<char>, k: int)
    requires
        1 <= k <= text.len(),
    ensures
        number_of(text.take(k)) is None ==> number_of(text) is None,
        number_of(text) matches Some(n) ==> n >= number_of(text.take(k))->0,
    decreases text.len(),
{
    if k == text.len() {
        assert(text.take(k) =~= text);
    } else {
        assert(text.drop_last().take(k) =~= text.take(k));
        lemma_number_grows(text.drop_last(), k);
    }
}

/// The digit that `c` stands for.
fn digit_value(c: char) -> (d: Option<u64>)
    ensures
        match d {
            Some(v) => digit_of(c) == Some(v as nat) && v < 10,
            None => digit_of(c) is None,
        },
{
    if c == '0' {
        Some(0)
    } else if c == '1' {
        Some(1)
    } else if c == '2' {
        Some(2)
    } else if c == '3' {
        Some(3)
    } else if c == '4' {
        Some(4)
    } else if c == '5' {
        Some(5)
    } else if c == '6' {
        Some(6)
    } else if c == '7' {
        Some(7)
    } else if c == '8' {
        Some(8)
    } else if c == '9' {
        Some(9)
    } else {
        None
    }
}

/// Reads a 32-bit integer written in decimal.
pub fn parse_i32(text: &str) -> (value: Option<i32>)
    ensures
        value == parsed_i32(text@),
{
    let chars = chars_of(text);
    if chars.len() == 0 {
        return None;
    }
    let negative = chars[0] == '-';
    let start: usize = if negative || chars[0] == '+' {
        1
    } else {
        0
    };
    let ghost body = unsigned_part(text@);
    if start == chars.len() {
        return None;
    }
    let mut size: u64 = 0;
    let mut i: usize = start;
    while i < chars.len()
        invariant
            start <= i <= chars@.len(),
            start < chars@.len(),
            chars@ == text@,
            body == unsigned_part(text@),
            body =~= text@.skip(start as int),
            negative == (text@[0] == '-'),
            size <= 2147483648,
            i > start ==> number_of(body.take(i - start)) == Some(size as nat),
            i == start ==> size == 0,
        decreases chars@.len() - i,
    {
        let digit = match digit_value(chars[i]) {
            Some(d) => d,
            None => {
                proof {
                    let upto = body.take(i - start + 1);
                    assert(upto.last() == chars@[i as int]);
                    assert(number_of(upto) is None);
                    lemma_number_grows(body, i - start + 1);
                }
                return None;
            },
        };
        proof {
            let upto = body.take(i - start + 1);
            assert(upto.last() == chars@[i as int]);
            assert(upto.drop_last() =~= body.take(i - start));
            if i == start {
                assert(upto.len() == 1);
                assert(upto[0] == chars@[i as int]);
            }
            assert(number_of(upto) == Some((10 * size + digit) as nat));
        }
        size = 10 * size + digit;
        if size > 2147483648 {
            proof {
                lemma_number_grows(body, i - start + 1);
            }
            return None;
        }
        i += 1;
    }
    assert(body.take(i - start) =~= body);
    if negative {
        Some((-(size as i64)) as i32)
    } else if size <= 2147483647 {
        Some(size as i32)
    } else {
        None
    }
}

/// The index of the first `sep` in `text` at or behind `from`, or the
/// length of `text` where there is none.
pub open spec fn first_at(text: Seq<char>, sep: char, from: int) -> int
    decreases text.len() - from,
{
    if from < 0 || from >= text.len() {
        text.len() as int
    } else if text[from] == sep {
        from
    } else {
        first_at(text, sep, from + 1)
    }
}

/// The pieces of `text` from `from` on that `sep` parts.
pub open spec fn pieces_from(text: Seq<char>, sep: char, from: int) -> Seq<Seq<char>>
    decreases text.len() - from,
{
    let at = first_at(text, sep, from);
    if from < 0 || from > at || at >= text.len() {
        seq![text.subrange(from, text.len() as int)]
    } else {
        seq![text.subrange(from, at)] + pieces_from(text, sep, at + 1)
    }
}

/// The pieces that `sep` parts `text` into: what stands before the first
/// `sep`, between each `sep` and the next, and behind the last. A text
/// without `sep` is one piece.
pub open spec fn split_text(text: Seq<char>, sep: char) -> Seq<Seq<char>> {
    pieces_from(text, sep, 0)
}

/// A place before which no `sep` stands from `from` on, and at which one
/// stands or the text ends, is `first_at`.
proof fn lemma_first_at(text: Seq<char>, sep: char, from: int, at: int)
    requires
        0 <= from <= at <= text.len(),
        forall|j: int| from <= j < at ==> text[j] != sep,
        at < text.len() ==> text[at] == sep,
    ensures
        first_at(text, sep, from) == at,
    decreases at - from,
{
    if from < at {
        lemma_first_at(text, sep, from + 1, at);
    }
}

/// The texts of a list of strings.
pub open spec fn string_views(strings: Seq<String>) -> Seq<Seq<char>> {
    strings.map_values(|s: String| s@)
}

/// Parts `text` at every `sep`.
pub fn split(text: &str, sep: char) -> (pieces: Vec<String>)
    ensures
        string_views(pieces@) == split_text(text@, sep),
{
    let chars = chars_of(text);
    let mut pieces: Vec<String> = Vec::new();
    let mut start: usize = 0;
    let mut i: usize = 0;
    assert(string_views(pieces@) + pieces_from(text@, sep, 0) =~= split_text(text@, sep));
    while i < chars.len()
        invariant
            0 <= start <= i <= chars@.len(),
            chars@ == text@,
            forall|j: int| start <= j < i ==> text@[j] != sep,
            string_views(pieces@) + pieces_from(text@, sep, start as int) == split_text(
                text@,
                sep,
            ),
        decreases chars@.len() - i,
    {
        if chars[i] == sep {
            proof {
                lemma_first_at(text@, sep, start as int, i as int);
            }
            let ghost before = string_views(pieces@);
            let piece = String::from_str(text.substring_char(start, i));
            pieces.push(piece);
            proof {
                assert(string_views(pieces@) =~= before.push(text@.subrange(start as int, i as int)));
                assert(before.push(text@.subrange(start as int, i as int)) + pieces_from(
                    text@,
                    sep,
                    i + 1,
                ) =~= before + pieces_from(text@, sep, start as int));
            }
            start = i + 1;
        }
        i += 1;
    }
    proof {
        lemma_first_at(text@, sep, start as int, i as int);
    }
    let ghost before = string_views(pieces@);
    pieces.push(String::from_str(text.substring_char(start, i)));
    proof {
        assert(string_views(pieces@) =~= before.push(text@.subrange(start as int, i as int)));
        assert(before.push(text@.subrange(start as int, i as int)) =~= before + pieces_from(
            text@,
            sep,
            start as int,
        ));
    }
    pieces
}

/// The digits that are written for a number are read as that number.
pub proof fn lemma_digits_read_back(n: nat)
    ensures
        decimal_digits(n).len() > 0,
        number_of(decimal_digits(n)) == Some(n),
        digit_of(decimal_digits(n)[0]) is Some,
    decreases n,
{
    if n >= 10 {
        lemma_digits_read_back(n / 10);
        let high = decimal_digits(n / 10);
        let all = decimal_digits(n);
        assert(all.drop_last() =~= high);
        assert(all.last() == digit_char((n % 10) as int));
        assert(all[0] == high[0]);
    }
}

/// An integer that is written in decimal and read again is the same
/// integer.
pub proof fn lemma_decimal_reads_back(n: i32)
    ensures
        parsed_i32(decimal_text(n as int)) == Some(n),
{
    if n < 0 {
        let size = (-(n as int)) as nat;
        lemma_digits_read_back(size);
        let text = decimal_text(n as int);
        assert(text[0] == '-');
        assert(unsigned_part(text) =~= decimal_digits(size));
    } else {
        lemma_digits_read_back(n as nat);
        let text = decimal_text(n as int);
        assert(unsigned_part(text) =~= text);
    }
}

} // verus!
