//! What numbers, paths, lists and lines look like as text.

use crate::text::{
    comma_list, count_value, decimal, digit, is_digit, is_trimmed, is_white_space, joined, lines,
    next_at, number, second_field, without_plus,
};
use vstd::arithmetic::power::pow;
use vstd::prelude::*;

verus! {

/// Digit by digit, `digits` is `v` in positional notation, leading zeros allowed.
pub open spec fn spells(digits: Seq<char>, v: nat) -> bool {
    let len = digits.len();
    &&& len >= 1
    &&& v < pow(10, len)
    &&& forall|k: int|
        0 <= k < len ==> #[trigger] digits[k] as int == 48 + (v as int / pow(
            10,
            (len - 1 - k) as nat,
        )) % 10
}

proof fn lemma_pow_ten(k: nat)
    ensures
        pow(10, k) > 0,
        pow(10, k + 1) == 10 * pow(10, k),
        pow(10, 0) == 1,
    decreases k,
{
    reveal(pow);
    if k > 0 {
        lemma_pow_ten((k - 1) as nat);
    }
}

/// The digit above the last is the last digit of a tenth.
proof fn lemma_tenth(v: nat, k: nat)
    ensures
        (v as int / 10) / pow(10, k) == v as int / pow(10, k + 1),
{
    lemma_pow_ten(k);
    vstd::arithmetic::div_mod::lemma_div_denominator(v as int, 10, pow(10, k));
}

/// Writing one more digit.
proof fn lemma_spells_push(digits: Seq<char>, v: nat, c: char)
    requires
        digits.len() == 0 && v / 10 == 0 || spells(digits, v / 10),
        c as int == 48 + v as int % 10,
    ensures
        spells(digits.push(c), v),
{
    let all = digits.push(c);
    let len = all.len();
    lemma_pow_ten(digits.len());
    lemma_pow_ten(0);
    assert forall|k: int| 0 <= k < len implies #[trigger] all[k] as int == 48 + (v as int / pow(
        10,
        (len - 1 - k) as nat,
    )) % 10 by {
        if k < digits.len() {
            assert(all[k] == digits[k]);
            lemma_tenth(v, (digits.len() - 1 - k) as nat);
        } else {
            assert(v as int / pow(10, 0) == v);
        }
    }
}

/// Taking the last digit off.
proof fn lemma_spells_drop(digits: Seq<char>, v: nat)
    requires
        spells(digits, v),
    ensures
        digits.last() as int == 48 + v as int % 10,
        digits.len() == 1 ==> v / 10 == 0,
        digits.len() > 1 ==> spells(digits.drop_last(), v / 10),
{
    let len = digits.len();
    lemma_pow_ten(0);
    lemma_pow_ten((len - 1) as nat);
    assert(digits[len - 1] as int == 48 + (v as int / pow(10, 0)) % 10);
    if len > 1 {
        let rest = digits.drop_last();
        assert forall|k: int| 0 <= k < rest.len() implies #[trigger] rest[k] as int == 48 + ((v
            / 10) as int / pow(10, (rest.len() - 1 - k) as nat)) % 10 by {
            assert(rest[k] == digits[k]);
            lemma_tenth(v, (rest.len() - 1 - k) as nat);
        }
    }
}

/// A number is written in positional notation, without leading zeros.
pub proof fn law_numbers_are_written_positionally(n: nat)
    ensures
        spells(decimal(n), n),
        decimal(n).len() > 1 ==> decimal(n)[0] as int != 48,
    decreases n,
{
    let d = n as int % 10;
    assert(d == 0 || d == 1 || d == 2 || d == 3 || d == 4 || d == 5 || d == 6 || d == 7 || d == 8
        || d == 9);
    assert(digit(d) as int == 48 + d);
    if n >= 10 {
        law_numbers_are_written_positionally(n / 10);
        lemma_spells_push(decimal(n / 10), n, digit(d));
        let head = decimal(n / 10);
        lemma_spells_drop(head, n / 10);
        assert(decimal(n)[0] == head[0]);
        if n / 10 < 10 {
            assert(head.len() == 1);
        } else {
            assert(head.len() > 1);
        }
    } else {
        lemma_spells_push(Seq::empty(), n, digit(d));
        assert(Seq::<char>::empty().push(digit(d)) =~= decimal(n));
    }
}

proof fn lemma_number_spells(digits: Seq<char>)
    requires
        digits.len() > 0,
        forall|i: int| 0 <= i < digits.len() ==> is_digit(#[trigger] digits[i]),
    ensures
        spells(digits, number(digits)),
    decreases digits.len(),
{
    let rest = digits.drop_last();
    let c = digits.last();
    assert(is_digit(digits[digits.len() - 1]));
    if rest.len() > 0 {
        assert forall|i: int| 0 <= i < rest.len() implies is_digit(#[trigger] rest[i]) by {
            assert(rest[i] == digits[i]);
        }
        lemma_number_spells(rest);
    } else {
        assert(number(rest) == 0);
    }
    assert(number(digits) / 10 == number(rest));
    lemma_spells_push(rest, number(digits), c);
    assert(rest.push(c) =~= digits);
}

proof fn lemma_spelled_once(digits: Seq<char>, v: nat)
    requires
        spells(digits, v),
    ensures
        number(digits) == v,
        forall|i: int| 0 <= i < digits.len() ==> is_digit(#[trigger] digits[i]),
    decreases digits.len(),
{
    lemma_spells_drop(digits, v);
    if digits.len() > 1 {
        lemma_spelled_once(digits.drop_last(), v / 10);
        assert forall|i: int| 0 <= i < digits.len() implies is_digit(#[trigger] digits[i]) by {
            if i < digits.len() - 1 {
                assert(digits.drop_last()[i] == digits[i]);
            }
        }
    } else {
        assert(number(digits.drop_last()) == 0);
    }
}

/// A count is read from its digits in positional notation, one plus sign in front allowed, and
/// from nothing else; it is read whenever it fits.
pub proof fn law_counts_are_read_positionally(text: Seq<char>, v: nat)
    ensures
        count_value(text) == Some(v) <==> v <= usize::MAX && (spells(text, v) || text.len() > 1
            && text[0] as int == 43 && spells(text.skip(1), v)),
{
    let digits = without_plus(text);
    if count_value(text) == Some(v) {
        lemma_number_spells(digits);
    }
    if spells(text, v) {
        lemma_spelled_once(text, v);
        assert(is_digit(text[0]));
    }
    if text.len() > 1 && text[0] as int == 43 && spells(text.skip(1), v) {
        assert(text[0] == '+');
        lemma_spelled_once(text.skip(1), v);
    }
}

/// A path below a directory is the directory, one slash, and the path; the slash is not doubled,
/// nothing is put before an absolute path, and nothing below no directory.
pub proof fn law_joined_paths_keep_their_parts(base: Seq<char>, part: Seq<char>)
    ensures
        part.len() > 0 && part[0] == '/' ==> joined(base, part) == part,
        !(part.len() > 0 && part[0] == '/') && base.len() > 0 && base[base.len() - 1] != '/'
            ==> joined(base, part) == base + seq!['/'] + part,
        !(part.len() > 0 && part[0] == '/') && (base.len() == 0 || base[base.len() - 1] == '/')
            ==> joined(base, part) == base + part,
{
    if base.len() > 0 {
        assert(base.push('/') =~= base + seq!['/']);
    }
}

/// A list of numbers is each of them, with a comma and a space between neighbours.
pub proof fn law_lists_are_separated_by_commas(numbers: Seq<usize>, next: usize)
    ensures
        comma_list(Seq::empty()) == Seq::<char>::empty(),
        comma_list(seq![next]) == decimal(next as nat),
        numbers.len() > 0 ==> comma_list(numbers.push(next)) == comma_list(numbers) + seq![
            ',',
            ' ',
        ] + decimal(next as nat),
{
    reveal_strlit(", ");
    assert(", "@ =~= seq![',', ' ']);
    assert(numbers.push(next).drop_last() =~= numbers);
}

/// Trimming takes off the white space around a text, all of it and nothing else.
pub proof fn law_trimming_leaves_the_core(
    lead: Seq<char>,
    core: Seq<char>,
    trail: Seq<char>,
    part: Seq<char>,
)
    requires
        forall|i: int| 0 <= i < lead.len() ==> is_white_space(#[trigger] lead[i]),
        forall|i: int| 0 <= i < trail.len() ==> is_white_space(#[trigger] trail[i]),
        core.len() > 0 ==> !is_white_space(core[0]) && !is_white_space(core[core.len() - 1]),
    ensures
        is_trimmed(lead + core + trail, part) <==> part == core,
{
    let text = lead + core + trail;
    let from = lead.len() as int;
    let to = from + core.len();
    assert(text.subrange(from, to) =~= core);
    assert forall|i: int| 0 <= i < from || to <= i < text.len() implies is_white_space(
        #[trigger] text[i],
    ) by {
        if i < from {
            assert(text[i] == lead[i]);
        } else {
            assert(text[i] == trail[i - to]);
        }
    }
    assert(is_trimmed(text, core));
    if is_trimmed(text, part) {
        crate::text::law_trimming_is_unique(text, part, core);
    }
}

/// No character of a text is `c`.
pub open spec fn lacks(text: Seq<char>, c: char) -> bool {
    forall|i: int| 0 <= i < text.len() ==> #[trigger] text[i] != c
}

/// Looking past a stretch without the separator.
proof fn lemma_next_past(s: Seq<char>, sep: char, from: int, to: int)
    requires
        0 <= from <= to <= s.len(),
        forall|i: int| from <= i < to ==> #[trigger] s[i] != sep,
    ensures
        next_at(s, sep, from) == next_at(s, sep, to),
    decreases to - from,
{
    if from < to {
        assert(s[from] != sep);
        lemma_next_past(s, sep, from + 1, to);
    }
}

/// The lines of a text: the first one ends at the first line feed, a carriage return before it
/// does not count, and the rest follow; what no line feed ends is a line as it stands; no text has
/// no lines.
pub proof fn law_a_line_feed_ends_a_line(line: Seq<char>, rest: Seq<char>)
    requires
        lacks(line, '\n'),
    ensures
        lines(line + seq!['\n'] + rest) == seq![
            if line.len() > 0 && line[line.len() - 1] == '\r' {
                line.take(line.len() - 1)
            } else {
                line
            },
        ] + lines(rest),
        line.len() > 0 ==> lines(line) == seq![line],
        lines(Seq::empty()) == Seq::<Seq<char>>::empty(),
{
    let text = line + seq!['\n'] + rest;
    let end = line.len() as int;
    assert forall|i: int| 0 <= i < end implies #[trigger] text[i] != '\n' by {
        assert(text[i] == line[i]);
    }
    assert(text[end] == '\n');
    lemma_next_past(text, '\n', 0, end);
    assert(text.take(end) =~= line);
    assert(text.skip(end + 1) =~= rest);
    if line.len() > 0 {
        lemma_next_past(line, '\n', 0, end);
        assert(line.drop_last() =~= line.take(end - 1));
    }
}

/// The second field stands between the first comma and the next, or the end; a text without a
/// comma has none.
pub proof fn law_the_second_field_stands_between_commas(
    first: Seq<char>,
    second: Seq<char>,
    rest: Seq<char>,
)
    requires
        lacks(first, ','),
        lacks(second, ','),
    ensures
        second_field(first + seq![','] + second + seq![','] + rest) == Some(second),
        second_field(first + seq![','] + second) == Some(second),
        second_field(first) is None,
{
    let at = first.len() as int;
    let stop = at + 1 + second.len();
    let short = first + seq![','] + second;
    let long = first + seq![','] + second + seq![','] + rest;
    assert forall|i: int| 0 <= i < stop && i != at implies #[trigger] short[i] != ',' by {
        if i < at {
            assert(short[i] == first[i]);
        } else {
            assert(short[i] == second[i - at - 1]);
        }
    }
    assert forall|i: int| 0 <= i < stop && i != at implies #[trigger] long[i] != ',' by {
        assert(long[i] == short[i]);
    }
    assert(short[at] == ',' && long[at] == ',' && long[stop] == ',');
    lemma_next_past(short, ',', 0, at);
    lemma_next_past(long, ',', 0, at);
    lemma_next_past(short, ',', at + 1, stop);
    lemma_next_past(long, ',', at + 1, stop);
    lemma_next_past(first, ',', 0, at);
    assert(short.subrange(at + 1, stop) =~= second);
    assert(long.subrange(at + 1, stop) =~= second);
}

} // verus!
