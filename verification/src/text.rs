//! Numbers, names and paths as text.

use vstd::prelude::*;
use vstd::utf8::{decode_utf8, valid_utf8};

verus! {

/// The decimal digit `d` as a character.
pub open spec fn digit(d: int) -> char {
    seq!['0', '1', '2', '3', '4', '5', '6', '7', '8', '9'][d]
}

/// `n` in decimal, without leading zeros.
pub open spec fn decimal(n: nat) -> Seq<char>
    decreases n,
{
    if n < 10 {
        seq![digit(n as int)]
    } else {
        decimal(n / 10).push(digit((n % 10) as int))
    }
}

fn push_digit(out: &mut String, d: usize)
    requires
        d < 10,
    ensures
        final(out)@ == old(out)@.push(digit(d as int)),
{
    let text: &str = if d == 0 {
        "0"
    } else if d == 1 {
        "1"
    } else if d == 2 {
        "2"
    } else if d == 3 {
        "3"
    } else if d == 4 {
        "4"
    } else if d == 5 {
        "5"
    } else if d == 6 {
        "6"
    } else if d == 7 {
        "7"
    } else if d == 8 {
        "8"
    } else {
        "9"
    };
    proof {
        reveal_strlit("0");
        reveal_strlit("1");
        reveal_strlit("2");
        reveal_strlit("3");
        reveal_strlit("4");
        reveal_strlit("5");
        reveal_strlit("6");
        reveal_strlit("7");
        reveal_strlit("8");
        reveal_strlit("9");
        assert(text@ =~= seq![digit(d as int)]);
    }
    let ghost before = out@;
    out.append(text);
    assert(out@ =~= before.push(digit(d as int)));
}

/// Appends `n` in decimal.
pub fn push_decimal(out: &mut String, n: usize)
    ensures
        final(out)@ == old(out)@ + decimal(n as nat),
    decreases n,
{
    let ghost before = out@;
    if n >= 10 {
        push_decimal(out, n / 10);
    }
    push_digit(out, n % 10);
    assert(out@ =~= before + decimal(n as nat));
}

pub open spec fn is_digit(c: char) -> bool {
    '0' <= c && c <= '9'
}

/// The value of a run of decimal digits.
pub open spec fn number(digits: Seq<char>) -> nat
    decreases digits.len(),
{
    if digits.len() == 0 {
        0
    } else {
        (number(digits.drop_last()) * 10 + (digits.last() as int - '0' as int)) as nat
    }
}

/// The text without one leading plus sign.
pub open spec fn without_plus(text: Seq<char>) -> Seq<char> {
    if text.len() > 0 && text[0] == '+' {
        text.skip(1)
    } else {
        text
    }
}

/// A count as it is written on a command line: an optional plus sign and decimal digits, of a
/// value that a `usize` holds.
pub open spec fn count_value(text: Seq<char>) -> Option<nat> {
    let digits = without_plus(text);
    if digits.len() > 0 && (forall|i: int|
        0 <= i < digits.len() ==> is_digit(#[trigger] digits[i])) && number(digits) <= usize::MAX {
        Some(number(digits))
    } else {
        None
    }
}

/// More digits never make a smaller number.
proof fn lemma_number_grows(digits: Seq<char>, k: int)
    requires
        0 <= k <= digits.len(),
        forall|i: int| 0 <= i < digits.len() ==> is_digit(#[trigger] digits[i]),
    ensures
        number(digits.take(k)) <= number(digits),
    decreases digits.len() - k,
{
    if k == digits.len() {
        assert(digits.take(k) =~= digits);
    } else {
        lemma_number_grows(digits, k + 1);
        assert(digits.take(k + 1).drop_last() =~= digits.take(k));
        assert(is_digit(digits[k]));
    }
}

/// The characters of a string.
pub(crate) fn chars_of(text: &str) -> (chars: Vec<char>)
    ensures
        chars@ == text@,
{
    let mut chars: Vec<char> = Vec::new();
    for c in it: text.chars()
        invariant
            it.seq() == text@,
            chars@ == text@.take(it.index() as int),
    {
        chars.push(c);
    }
    assert(text@.take(text@.len() as int) =~= text@);
    chars
}

/// The value of a decimal digit.
fn digit_value(c: char) -> (value: Option<usize>)
    ensures
        match value {
            Some(v) => is_digit(c) && v == c as int - '0' as int,
            None => !is_digit(c),
        },
{
    if '0' <= c && c <= '9' {
        Some((c as u32 - 48) as usize)
    } else {
        None
    }
}

/// Reads a count.
pub fn parse_count(text: &str) -> (count: Option<usize>)
    ensures
        match count {
            Some(n) => count_value(text@) == Some(n as nat),
            None => count_value(text@) is None,
        },
{
    let chars = chars_of(text);
    let start: usize = if chars.len() > 0 && chars[0] == '+' {
        1
    } else {
        0
    };
    let ghost digits = without_plus(text@);
    if start == chars.len() {
        return None;
    }
    let mut value: usize = 0;
    let mut i: usize = start;
    assert(digits.take(0) =~= Seq::<char>::empty());
    while i < chars.len()
        invariant
            start <= i <= chars@.len(),
            chars@ == text@,
            digits == without_plus(text@),
            digits == chars@.skip(start as int),
            value == number(digits.take(i - start)),
            forall|k: int| 0 <= k < i - start ==> is_digit(#[trigger] digits[k]),
        decreases chars@.len() - i,
    {
        proof {
            assert(digits[i - start] == chars@[i as int]);
            assert(digits.take(i - start + 1).drop_last() =~= digits.take(i - start));
        }
        match digit_value(chars[i]) {
            None => {
                return None;
            },
            Some(d) => {
                let ghost next = value * 10 + d;
                proof {
                    assert(number(digits.take(i - start + 1)) == next);
                    if count_value(text@) is Some {
                        lemma_number_grows(digits, i - start + 1);
                    }
                }
                match value.checked_mul(10) {
                    None => {
                        return None;
                    },
                    Some(tens) => match tens.checked_add(d) {
                        None => {
                            return None;
                        },
                        Some(v) => {
                            value = v;
                        },
                    },
                }
            },
        }
        i += 1;
    }
    assert(digits.take(i - start) =~= digits);
    Some(value)
}

/// Writing a count and reading it back gives the count.
pub proof fn law_counts_read_back(n: usize)
    ensures
        count_value(decimal(n as nat)) == Some(n as nat),
{
    lemma_decimal_digits(n as nat);
    assert(without_plus(decimal(n as nat)) == decimal(n as nat)) by {
        assert(is_digit(decimal(n as nat)[0]));
    }
}

proof fn lemma_decimal_digits(n: nat)
    ensures
        decimal(n).len() > 0,
        forall|i: int| 0 <= i < decimal(n).len() ==> is_digit(#[trigger] decimal(n)[i]),
        number(decimal(n)) == n,
    decreases n,
{
    if n >= 10 {
        lemma_decimal_digits(n / 10);
        assert(decimal(n).drop_last() =~= decimal(n / 10));
    } else {
        assert(decimal(n).drop_last() =~= Seq::<char>::empty());
        assert(number(Seq::<char>::empty()) == 0);
    }
    let d = n as int % 10;
    assert(decimal(n).last() == digit(d));
    assert(d == 0 || d == 1 || d == 2 || d == 3 || d == 4 || d == 5 || d == 6 || d == 7 || d == 8
        || d == 9);
    assert(digit(d) as int == '0' as int + d);
}

/// `part` below the directory `base`: a slash in between unless `base` is empty or ends in one;
/// an absolute `part` stands alone.
pub open spec fn joined(base: Seq<char>, part: Seq<char>) -> Seq<char> {
    if part.len() > 0 && part[0] == '/' {
        part
    } else if base.len() == 0 || base.last() == '/' {
        base + part
    } else {
        base.push('/') + part
    }
}

/// Joins two paths.
pub fn join_path(base: &str, part: &str) -> (path: String)
    ensures
        path@ == joined(base@, part@),
{
    let base_chars = chars_of(base);
    let part_chars = chars_of(part);
    if part_chars.len() > 0 && part_chars[0] == '/' {
        return part.to_owned();
    }
    let mut path: String = base.to_owned();
    if base_chars.len() > 0 && base_chars[base_chars.len() - 1] != '/' {
        path.append("/");
        proof {
            reveal_strlit("/");
            assert(path@ =~= base@.push('/'));
        }
    }
    path.append(part);
    path
}

/// The numbers in decimal, separated by a comma and a space.
pub open spec fn comma_list(numbers: Seq<usize>) -> Seq<char>
    decreases numbers.len(),
{
    if numbers.len() == 0 {
        Seq::empty()
    } else if numbers.len() == 1 {
        decimal(numbers[0] as nat)
    } else {
        comma_list(numbers.drop_last()) + ", "@ + decimal(numbers.last() as nat)
    }
}

/// Appends a list of numbers.
pub fn push_comma_list(out: &mut String, numbers: &Vec<usize>)
    ensures
        final(out)@ == old(out)@ + comma_list(numbers@),
{
    let ghost before = out@;
    let mut i: usize = 0;
    assert(out@ =~= before + comma_list(numbers@.take(0)));
    while i < numbers.len()
        invariant
            i <= numbers@.len(),
            out@ == before + comma_list(numbers@.take(i as int)),
        decreases numbers@.len() - i,
    {
        let ghost so_far = out@;
        if i > 0 {
            out.append(", ");
        }
        push_decimal(out, numbers[i]);
        proof {
            let longer = numbers@.take(i + 1);
            assert(longer.drop_last() =~= numbers@.take(i as int));
            assert(out@ =~= before + comma_list(longer));
        }
        i += 1;
    }
    assert(numbers@.take(i as int) =~= numbers@);
}

/// Whether two vectors hold the same characters.
pub(crate) fn same_chars(a: &Vec<char>, b: &Vec<char>) -> (same: bool)
    ensures
        same == (a@ == b@),
{
    if a.len() != b.len() {
        return false;
    }
    let mut i: usize = 0;
    while i < a.len()
        invariant
            i <= a@.len(),
            a@.len() == b@.len(),
            a@.take(i as int) == b@.take(i as int),
        decreases a@.len() - i,
    {
        if a[i] != b[i] {
            assert(a@[i as int] != b@[i as int]);
            return false;
        }
        assert(a@.take(i + 1) =~= a@.take(i as int).push(a@[i as int]));
        assert(b@.take(i + 1) =~= b@.take(i as int).push(b@[i as int]));
        i += 1;
    }
    assert(a@.take(i as int) =~= a@);
    assert(b@.take(i as int) =~= b@);
    true
}

/// Whether two strings are equal.
pub fn same_text(a: &str, b: &str) -> (same: bool)
    ensures
        same == (a@ == b@),
{
    same_chars(&chars_of(a), &chars_of(b))
}

/// The characters with the Unicode property White_Space.
pub open spec fn is_white_space(c: char) -> bool {
    let v = c as int;
    ||| 0x09 <= v <= 0x0d
    ||| v == 0x20
    ||| v == 0x85
    ||| v == 0xa0
    ||| v == 0x1680
    ||| 0x2000 <= v <= 0x200a
    ||| v == 0x2028
    ||| v == 0x2029
    ||| v == 0x202f
    ||| v == 0x205f
    ||| v == 0x3000
}

/// Whether a character is white space.
pub fn white_space(c: char) -> (white: bool)
    ensures
        white == is_white_space(c),
{
    let v = c as u32;
    (0x09 <= v && v <= 0x0d) || v == 0x20 || v == 0x85 || v == 0xa0 || v == 0x1680 || (0x2000 <= v
        && v <= 0x200a) || v == 0x2028 || v == 0x2029 || v == 0x202f || v == 0x205f || v == 0x3000
}

/// `part` is `text` without its leading and trailing white space.
pub open spec fn is_trimmed(text: Seq<char>, part: Seq<char>) -> bool {
    exists|from: int, to: int|
        #![trigger text.subrange(from, to)]
        0 <= from <= to <= text.len() && part == text.subrange(from, to) && (forall|i: int|
            0 <= i < from || to <= i < text.len() ==> is_white_space(#[trigger] text[i])) && (
        part.len() > 0 ==> !is_white_space(part[0]) && !is_white_space(part.last()))
}

/// Cuts white space off both ends.
pub fn trim(text: &str) -> (part: &str)
    ensures
        is_trimmed(text@, part@),
{
    let chars = chars_of(text);
    let mut from: usize = 0;
    while from < chars.len() && white_space(chars[from])
        invariant
            from <= chars@.len(),
            forall|i: int| 0 <= i < from ==> is_white_space(#[trigger] chars@[i]),
        decreases chars@.len() - from,
    {
        from += 1;
    }
    assert(from < chars@.len() ==> !is_white_space(chars@[from as int]));
    let mut to: usize = chars.len();
    while to > from && white_space(chars[to - 1])
        invariant
            from <= to <= chars@.len(),
            from < chars@.len() ==> !is_white_space(chars@[from as int]),
            forall|i: int| to <= i < chars@.len() ==> is_white_space(#[trigger] chars@[i]),
        decreases to,
    {
        to -= 1;
    }
    assert(text@ == chars@);
    text.substring_char(from, to)
}

/// Trimming has one answer.
pub proof fn law_trimming_is_unique(text: Seq<char>, a: Seq<char>, b: Seq<char>)
    requires
        is_trimmed(text, a),
        is_trimmed(text, b),
    ensures
        a == b,
{
    let (f, t) = choose|f: int, t: int|
        #![trigger text.subrange(f, t)]
        0 <= f <= t <= text.len() && a == text.subrange(f, t) && (forall|i: int|
            0 <= i < f || t <= i < text.len() ==> is_white_space(#[trigger] text[i])) && (a.len()
            > 0 ==> !is_white_space(a[0]) && !is_white_space(a.last()));
    let (g, u) = choose|g: int, u: int|
        #![trigger text.subrange(g, u)]
        0 <= g <= u <= text.len() && b == text.subrange(g, u) && (forall|i: int|
            0 <= i < g || u <= i < text.len() ==> is_white_space(#[trigger] text[i])) && (b.len()
            > 0 ==> !is_white_space(b[0]) && !is_white_space(b.last()));
    if a.len() > 0 {
        assert(!is_white_space(text[f]) && !is_white_space(text[t - 1]));
        assert(g <= f && t <= u);
    }
    if b.len() > 0 {
        assert(!is_white_space(text[g]) && !is_white_space(text[u - 1]));
        assert(f <= g && u <= t);
    }
    assert(a =~= b);
}

/// `std::str::from_utf8`: the text that the bytes encode, `None` where they are not UTF-8.
#[verifier::external_body]
pub(crate) fn utf8_text(bytes: &[u8]) -> (text: Option<String>)
    ensures
        match text {
            Some(t) => valid_utf8(bytes@) && t@ == decode_utf8(bytes@),
            None => !valid_utf8(bytes@),
        },
{
    std::str::from_utf8(bytes).ok().map(|t| t.to_owned())
}

/// The position of the first `sep` at or after `from`, the length where there is none.
pub open spec fn next_at(s: Seq<char>, sep: char, from: int) -> int
    decreases s.len() - from,
{
    if from >= s.len() {
        s.len() as int
    } else if s[from] == sep {
        from
    } else {
        next_at(s, sep, from + 1)
    }
}

/// Finds the next `sep`.
pub(crate) fn find_next(chars: &Vec<char>, sep: char, from: usize, end: usize) -> (at: usize)
    requires
        from <= end <= chars@.len(),
    ensures
        from <= at <= end,
        at == next_at(chars@.take(end as int), sep, from as int),
{
    let ghost s = chars@.take(end as int);
    let mut at: usize = from;
    while at < end && chars[at] != sep
        invariant
            from <= at <= end <= chars@.len(),
            s == chars@.take(end as int),
            next_at(s, sep, from as int) == next_at(s, sep, at as int),
        decreases end - at,
    {
        at += 1;
    }
    at
}

proof fn lemma_next_at_range(s: Seq<char>, sep: char, from: int)
    requires
        0 <= from <= s.len(),
    ensures
        from <= next_at(s, sep, from) <= s.len(),
        next_at(s, sep, from) < s.len() ==> s[next_at(s, sep, from)] == sep,
    decreases s.len() - from,
{
    if from < s.len() && s[from] != sep {
        lemma_next_at_range(s, sep, from + 1);
    }
}

/// Looking further along is looking from the start of the rest.
proof fn lemma_next_at_skip(s: Seq<char>, sep: char, skipped: int, from: int)
    requires
        0 <= skipped <= s.len(),
        0 <= from <= s.len() - skipped,
    ensures
        next_at(s, sep, skipped + from) == skipped + next_at(s.skip(skipped), sep, from),
    decreases s.len() - from,
{
    if from < s.len() - skipped && s[skipped + from] != sep {
        lemma_next_at_skip(s, sep, skipped, from + 1);
    }
}

/// A line without the carriage return before its line feed.
pub open spec fn without_cr(line: Seq<char>) -> Seq<char> {
    if line.len() > 0 && line.last() == '\r' {
        line.drop_last()
    } else {
        line
    }
}

/// The lines of a text, each ended by a line feed or by a carriage return and a line feed; the
/// last one may lack its ending.
pub open spec fn lines(s: Seq<char>) -> Seq<Seq<char>>
    decreases s.len(),
{
    if s.len() == 0 {
        Seq::empty()
    } else {
        let end = next_at(s, '\n', 0);
        if 0 <= end < s.len() {
            seq![without_cr(s.take(end))] + lines(s.skip(end + 1))
        } else {
            seq![s]
        }
    }
}

/// Where the lines of a text start and end.
pub(crate) fn line_ranges(chars: &Vec<char>) -> (ranges: Vec<(usize, usize)>)
    ensures
        ranges@.len() == lines(chars@).len(),
        forall|i: int|
            #![trigger ranges@[i]]
            0 <= i < ranges@.len() ==> ranges@[i].0 <= ranges@[i].1 <= chars@.len() && lines(
                chars@,
            )[i] == chars@.subrange(ranges@[i].0 as int, ranges@[i].1 as int),
{
    let mut ranges: Vec<(usize, usize)> = Vec::new();
    let ghost all = lines(chars@);
    let mut pos: usize = 0;
    assert(chars@.skip(0) =~= chars@);
    while pos < chars.len()
        invariant
            pos <= chars@.len(),
            all == lines(chars@),
            ranges@.len() + lines(chars@.skip(pos as int)).len() == all.len(),
            all.skip(ranges@.len() as int) == lines(chars@.skip(pos as int)),
            forall|i: int|
                #![trigger ranges@[i]]
                0 <= i < ranges@.len() ==> ranges@[i].0 <= ranges@[i].1 <= chars@.len() && all[i]
                    == chars@.subrange(ranges@[i].0 as int, ranges@[i].1 as int),
        decreases chars@.len() - pos,
    {
        let ghost rest = chars@.skip(pos as int);
        let ghost n = ranges@.len() as int;
        let end: usize = find_next(chars, '\n', pos, chars.len());
        proof {
            assert(chars@.take(chars@.len() as int) =~= chars@);
            lemma_next_at_skip(chars@, '\n', pos as int, 0);
            lemma_next_at_range(rest, '\n', 0);
            assert(end == pos + next_at(rest, '\n', 0));
            assert(all.skip(n)[0] == all[n]);
            assert(all.skip(n).skip(1) =~= all.skip(n + 1));
        }
        if end < chars.len() {
            let stop: usize = if end > pos && chars[end - 1] == '\r' {
                end - 1
            } else {
                end
            };
            proof {
                let first = rest.take(end - pos);
                let more = lines(rest.skip(end - pos + 1));
                assert(rest.skip(end - pos + 1) =~= chars@.skip(end + 1));
                assert(without_cr(first) =~= chars@.subrange(pos as int, stop as int));
                assert(lines(rest) == seq![without_cr(first)] + more);
                assert((seq![without_cr(first)] + more).skip(1) =~= more);
            }
            ranges.push((pos, stop));
            pos = end + 1;
        } else {
            proof {
                assert(lines(rest) == seq![rest]);
                assert(rest =~= chars@.subrange(pos as int, end as int));
                assert(chars@.skip(end as int) =~= Seq::<char>::empty());
                assert(seq![rest].skip(1) =~= Seq::<Seq<char>>::empty());
            }
            ranges.push((pos, end));
            pos = end;
        }
    }
    assert(chars@.skip(pos as int) =~= Seq::<char>::empty());
    ranges
}

/// The second of the parts that commas separate a text into.
pub open spec fn second_field(s: Seq<char>) -> Option<Seq<char>> {
    let first = next_at(s, ',', 0);
    if first < s.len() {
        Some(s.subrange(first + 1, next_at(s, ',', first + 1)))
    } else {
        None
    }
}

} // verus!
