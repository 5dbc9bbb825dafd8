//! What holds of texts: which characters are blank, what trimming, cutting and
//! searching give, and how numbers are written and read.

use vstd::prelude::*;

use crate::text::{
    after_last, all_digits, contains_text, decimal, digit_char, digits_value, first_occurrence,
    is_digit, lemma_position_at, lines_of, occurrence_from, occurs_at, starts_with, trim_end,
    trim_start, trimmed, unsigned, unsigned_digits, white_space, without_cr,
};

verus! {

/// The blank characters are the twenty-five that Unicode calls white space.
pub proof fn law_blank_characters(c: char)
    ensures
        white_space(c) <==> {
            ||| "\t\n\u{b}\u{c}\r "@.contains(c)
            ||| "\u{85}\u{a0}\u{1680}\u{2028}\u{2029}\u{202f}\u{205f}\u{3000}"@.contains(c)
            ||| "\u{2000}\u{2001}\u{2002}\u{2003}\u{2004}\u{2005}"@.contains(c)
            ||| "\u{2006}\u{2007}\u{2008}\u{2009}\u{200a}"@.contains(c)
        },
{
    reveal_strlit("\t\n\u{b}\u{c}\r ");
    reveal_strlit("\u{85}\u{a0}\u{1680}\u{2028}\u{2029}\u{202f}\u{205f}\u{3000}");
    reveal_strlit("\u{2000}\u{2001}\u{2002}\u{2003}\u{2004}\u{2005}");
    reveal_strlit("\u{2006}\u{2007}\u{2008}\u{2009}\u{200a}");
    let a = "\t\n\u{b}\u{c}\r "@;
    let b = "\u{85}\u{a0}\u{1680}\u{2028}\u{2029}\u{202f}\u{205f}\u{3000}"@;
    let d = "\u{2000}\u{2001}\u{2002}\u{2003}\u{2004}\u{2005}"@;
    let e = "\u{2006}\u{2007}\u{2008}\u{2009}\u{200a}"@;
    let u = c as u32;
    if white_space(c) {
        if u <= 0xd {
            assert(a[u - 0x9] == c);
        } else if u == 0x20 {
            assert(a[5] == c);
        } else if u == 0x85 {
            assert(b[0] == c);
        } else if u == 0xa0 {
            assert(b[1] == c);
        } else if u == 0x1680 {
            assert(b[2] == c);
        } else if u <= 0x2005 {
            assert(d[u - 0x2000] == c);
        } else if u <= 0x200a {
            assert(e[u - 0x2006] == c);
        } else if u == 0x2028 {
            assert(b[3] == c);
        } else if u == 0x2029 {
            assert(b[4] == c);
        } else if u == 0x202f {
            assert(b[5] == c);
        } else if u == 0x205f {
            assert(b[6] == c);
        } else {
            assert(b[7] == c);
        }
    }
}

/// Every character of `s` is blank.
pub open spec fn all_blank(s: Seq<char>) -> bool {
    forall|i: int| 0 <= i < s.len() ==> white_space(#[trigger] s[i])
}

/// Trimming takes the blanks at both ends away and nothing else: between blanks,
/// a text that is empty or begins and ends with something else comes out whole.
pub proof fn law_trimming_takes_the_blanks(before: Seq<char>, text: Seq<char>, after: Seq<char>)
    requires
        all_blank(before),
        all_blank(after),
        text.len() > 0 ==> !white_space(text[0]) && !white_space(text.last()),
    ensures
        trimmed(before + text + after) == text,
{
    let rest = text + after;
    assert(before + text + after == before + rest);
    if text.len() > 0 {
        lemma_trim_start(before, rest);
        assert(rest[0] == text[0]);
        assert(trim_start(before + rest) == rest);
        lemma_trim_end(text, after);
    } else {
        assert(before + rest == before + after + Seq::<char>::empty());
        assert(all_blank(before + after));
        lemma_trim_start(before + after, Seq::empty());
        assert(trim_start(before + rest) == Seq::<char>::empty());
        assert(text == Seq::<char>::empty());
    }
}

proof fn lemma_trim_start(before: Seq<char>, rest: Seq<char>)
    requires
        all_blank(before),
        rest.len() > 0 ==> !white_space(rest[0]),
    ensures
        trim_start(before + rest) == rest,
    decreases before.len(),
{
    if before.len() > 0 {
        let t = before.drop_first();
        assert forall|i: int| 0 <= i < t.len() implies white_space(#[trigger] t[i]) by {
            assert(t[i] == before[i + 1]);
        }
        lemma_trim_start(t, rest);
        assert((before + rest)[0] == before[0]);
        assert((before + rest).drop_first() == t + rest);
    } else {
        assert(before + rest == rest);
    }
}

proof fn lemma_trim_end(text: Seq<char>, after: Seq<char>)
    requires
        all_blank(after),
        text.len() > 0 ==> !white_space(text.last()),
    ensures
        trim_end(text + after) == text,
    decreases after.len(),
{
    if after.len() > 0 {
        let t = after.drop_last();
        assert forall|i: int| 0 <= i < t.len() implies white_space(#[trigger] t[i]) by {
            assert(t[i] == after[i]);
        }
        lemma_trim_end(text, t);
        assert((text + after).last() == after.last());
        assert(white_space(after[after.len() - 1]));
        assert((text + after).drop_last() == text + t);
    } else {
        assert(text + after == text);
    }
}

/// Every text is blanks, a text that trimming keeps whole, and blanks.
pub proof fn law_every_text_can_be_trimmed(s: Seq<char>)
    ensures
        exists|i: int, j: int|
            {
                &&& 0 <= i <= j <= s.len()
                &&& trimmed(s) == #[trigger] s.subrange(i, j)
                &&& all_blank(s.subrange(0, i))
                &&& all_blank(s.subrange(j, s.len() as int))
            },
        trimmed(s).len() > 0 <==> exists|k: int|
            0 <= k < s.len() && !white_space(#[trigger] s[k]),
{
    let i = lemma_first_unblank(s, 0);
    let rest = s.subrange(i, s.len() as int);
    assert(s.subrange(0, i) + rest == s);
    let j = if i == s.len() {
        i
    } else {
        lemma_last_unblank(s, s.len() as int, i)
    };
    let a = s.subrange(0, i);
    let m = s.subrange(i, j);
    let b = s.subrange(j, s.len() as int);
    assert(a + m + b == s);
    assert(all_blank(a));
    assert(all_blank(b));
    law_trimming_takes_the_blanks(a, m, b);
    if m.len() > 0 {
        assert(!white_space(s[i]));
    } else {
        assert forall|k: int| 0 <= k < s.len() implies white_space(#[trigger] s[k]) by {
            if k < i {
                assert(a[k] == s[k]);
            } else {
                assert(b[k - j] == s[k]);
            }
        }
    }
}

proof fn lemma_first_unblank(s: Seq<char>, from: int) -> (i: int)
    requires
        0 <= from <= s.len(),
        all_blank(s.subrange(0, from)),
    ensures
        from <= i <= s.len(),
        all_blank(s.subrange(0, i)),
        i < s.len() ==> !white_space(s[i]),
    decreases s.len() - from,
{
    if from == s.len() || !white_space(s[from]) {
        from
    } else {
        assert(s.subrange(0, from + 1) == s.subrange(0, from).push(s[from]));
        lemma_first_unblank(s, from + 1)
    }
}

proof fn lemma_last_unblank(s: Seq<char>, to: int, i: int) -> (j: int)
    requires
        0 <= i < to <= s.len(),
        !white_space(s[i]),
        all_blank(s.subrange(to, s.len() as int)),
    ensures
        i < j <= to,
        !white_space(s[j - 1]),
        all_blank(s.subrange(j, s.len() as int)),
    decreases to,
{
    if !white_space(s[to - 1]) {
        to
    } else {
        assert(s.subrange(to - 1, s.len() as int) == seq![s[to - 1]] + s.subrange(
            to,
            s.len() as int,
        ));
        lemma_last_unblank(s, to - 1, i)
    }
}

/// A text without line feeds is one line, whether nothing, a line feed, or a
/// carriage return and a line feed follow it. Nothing at all has no lines.
pub proof fn law_line_endings(line: Seq<char>)
    requires
        forall|i: int| 0 <= i < line.len() ==> line[i] != '\n',
    ensures
        lines_of(Seq::empty()) == Seq::<Seq<char>>::empty(),
        line.len() > 0 ==> lines_of(line) == seq![line],
        line.len() == 0 || line.last() != '\r' ==> lines_of(line.push('\n')) == seq![line],
        lines_of(line.push('\r').push('\n')) == seq![line],
{
    if line.len() > 0 {
        lemma_position_at(line, '\n', line.len() as int);
    }
    crate::text::lemma_single_line(line);
    crate::text::lemma_single_line(line.push('\r'));
    assert(without_cr(line.push('\r')) == line);
}

/// What stands after the last `c`: where there is one, all that follows it, and
/// otherwise everything.
pub proof fn law_tail_after_last(before: Seq<char>, tail: Seq<char>, c: char)
    requires
        forall|i: int| 0 <= i < tail.len() ==> tail[i] != c,
    ensures
        after_last(before.push(c) + tail, c) == tail,
        after_last(tail, c) == tail,
    decreases tail.len(),
{
    if tail.len() > 0 {
        let t = tail.drop_last();
        law_tail_after_last(before, t, c);
        let s = before.push(c) + tail;
        assert(s.drop_last() == before.push(c) + t);
        assert(s.last() == tail.last());
        assert(tail.last() == tail[tail.len() - 1]);
        assert(t.push(tail.last()) == tail);
    } else {
        assert((before.push(c) + tail).last() == c);
        assert(tail == Seq::<char>::empty());
    }
}

/// A text stands at a place where it agrees character by character.
pub proof fn law_occurrence_is_agreement(s: Seq<char>, pat: Seq<char>, i: int)
    ensures
        occurs_at(s, pat, i) <==> 0 <= i && i + pat.len() <= s.len() && forall|k: int|
            0 <= k < pat.len() ==> #[trigger] pat[k] == s[i + k],
        starts_with(s, pat) <==> pat.len() <= s.len() && forall|k: int|
            0 <= k < pat.len() ==> #[trigger] pat[k] == s[k],
{
    lemma_agreement(s, pat, i);
    lemma_agreement(s, pat, 0);
    if starts_with(s, pat) {
        assert forall|k: int| 0 <= k < pat.len() implies #[trigger] pat[k] == s[k] by {
            assert(pat[k] == s[0 + k]);
        }
    }
    if pat.len() <= s.len() && forall|k: int| 0 <= k < pat.len() ==> #[trigger] pat[k] == s[k] {
        assert forall|k: int| 0 <= k < pat.len() implies #[trigger] pat[k] == s[0 + k] by {}
    }
}

proof fn lemma_agreement(s: Seq<char>, pat: Seq<char>, i: int)
    ensures
        occurs_at(s, pat, i) <==> 0 <= i && i + pat.len() <= s.len() && forall|k: int|
            0 <= k < pat.len() ==> #[trigger] pat[k] == s[i + k],
{
    if 0 <= i && i + pat.len() <= s.len() {
        let part = s.subrange(i, i + pat.len());
        if part == pat {
            assert forall|k: int| 0 <= k < pat.len() implies #[trigger] pat[k] == s[i + k] by {
                assert(part[k] == s[i + k]);
            }
        }
        if forall|k: int| 0 <= k < pat.len() ==> #[trigger] pat[k] == s[i + k] {
            assert forall|k: int| 0 <= k < pat.len() implies part[k] == pat[k] by {
                assert(pat[k] == s[i + k]);
            }
            assert(part =~= pat);
        }
    }
}

/// A text is found wherever it was put in, and only where it stands.
pub proof fn law_what_is_put_in_is_found(a: Seq<char>, pat: Seq<char>, b: Seq<char>)
    ensures
        contains_text(a + pat + b, pat),
        starts_with(pat + b, pat),
        contains_text(a, pat) ==> exists|i: int|
            0 <= i <= a.len() - pat.len() && #[trigger] a.subrange(i, i + pat.len()) == pat,
{
    let s = a + pat + b;
    assert(s.subrange(a.len() as int, (a.len() + pat.len()) as int) =~= pat);
    assert(occurs_at(s, pat, a.len() as int));
    assert((pat + b).subrange(0, pat.len() as int) =~= pat);
    if contains_text(a, pat) {
        let i = choose|i: int| occurs_at(a, pat, i);
        assert(a.subrange(i, i + pat.len()) == pat);
    }
}

/// The first occurrence is one, none is before it, and there is one if there is
/// any.
pub proof fn law_first_occurrence_is_first(s: Seq<char>, pat: Seq<char>)
    ensures
        first_occurrence(s, pat) matches Some(i) ==> occurs_at(s, pat, i),
        first_occurrence(s, pat) matches Some(i) ==> forall|j: int|
            j < i ==> !#[trigger] occurs_at(s, pat, j),
        first_occurrence(s, pat) is Some <==> contains_text(s, pat),
{
    lemma_occurrence_from(s, pat, 0);
    if contains_text(s, pat) {
        let j = choose|j: int| occurs_at(s, pat, j);
        assert(occurs_at(s, pat, j));
    }
}

proof fn lemma_occurrence_from(s: Seq<char>, pat: Seq<char>, i: int)
    ensures
        occurrence_from(s, pat, i) matches Some(k) ==> i <= k && occurs_at(s, pat, k) && forall|
            j: int,
        |
            i <= j < k ==> !#[trigger] occurs_at(s, pat, j),
        occurrence_from(s, pat, i) is None ==> forall|j: int|
            i <= j ==> !#[trigger] occurs_at(s, pat, j),
    decreases s.len() + 1 - i,
{
    if i + pat.len() <= s.len() && !occurs_at(s, pat, i) {
        lemma_occurrence_from(s, pat, i + 1);
    }
}

/// The digits.
pub open spec fn digits() -> Seq<char> {
    "0123456789"@
}

/// How numbers are written in decimal: each of the ten smallest as its digit, and
/// every other by appending its last digit to what precedes it.
pub proof fn law_decimal_grows_by_digits(n: nat, d: nat)
    requires
        d < 10,
    ensures
        decimal(d) == seq![digits()[d as int]],
        n > 0 ==> decimal(10 * n + d) == decimal(n).push(digits()[d as int]),
{
    reveal_strlit("0123456789");
    assert(digits()[d as int] == digit_char(d));
    assert((10 * n + d) / 10 == n);
    assert((10 * n + d) % 10 == d);
}

/// Numbers are written with digits only, and without a zero in front of others.
pub proof fn law_decimal_is_made_of_digits(n: nat)
    ensures
        decimal(n).len() > 0,
        forall|i: int| 0 <= i < decimal(n).len() ==> digits().contains(#[trigger] decimal(n)[i]),
        n > 0 ==> decimal(n)[0] != '0',
    decreases n,
{
    reveal_strlit("0123456789");
    let d = n % 10;
    assert(digits()[d as int] == digit_char(d));
    assert(digits().contains(digit_char(d)));
    if n >= 10 {
        law_decimal_is_made_of_digits(n / 10);
        let s = decimal(n / 10);
        assert(decimal(n) == s.push(digit_char(d)));
        assert forall|i: int| 0 <= i < decimal(n).len() implies digits().contains(
            #[trigger] decimal(n)[i],
        ) by {
            if i < s.len() {
                assert(decimal(n)[i] == s[i]);
            }
        }
        assert(decimal(n)[0] == s[0]);
    }
}

/// Different numbers are written differently.
pub proof fn law_decimal_tells_numbers_apart(m: nat, n: nat)
    requires
        decimal(m) == decimal(n),
    ensures
        m == n,
{
    crate::text::law_decimal_reads_back(m, m + n);
    crate::text::law_decimal_reads_back(n, m + n);
}

/// A number as people may write it: with or without a plus sign, and with any
/// number of zeros in front.
pub open spec fn numeral(plus: bool, zeros: nat, n: nat) -> Seq<char> {
    (if plus {
        seq!['+']
    } else {
        Seq::empty()
    }) + Seq::new(zeros, |i: int| '0') + decimal(n)
}

/// A number of at most `max` is read from every way of writing it, and nothing
/// else is read as a number.
pub proof fn law_numerals_are_read(s: Seq<char>, max: nat, n: nat)
    ensures
        unsigned(s, max) == Some(n) <==> n <= max && exists|plus: bool, zeros: nat|
            s == #[trigger] numeral(plus, zeros, n),
{
    if unsigned(s, max) == Some(n) {
        let d = unsigned_digits(s);
        let zeros = lemma_digits_are_a_numeral(d);
        let plus = s[0] == '+';
        assert(d =~= numeral(false, zeros, n));
        if plus {
            assert(s =~= seq!['+'] + d);
            assert(s =~= numeral(true, zeros, n));
        } else {
            assert(s == numeral(false, zeros, n));
        }
    }
    if n <= max && exists|plus: bool, zeros: nat| s == #[trigger] numeral(plus, zeros, n) {
        let (plus, zeros) = choose|plus: bool, zeros: nat| s == #[trigger] numeral(plus, zeros, n);
        let d = Seq::new(zeros, |i: int| '0') + decimal(n);
        lemma_zeros_in_front(zeros, n);
        assert(d[0] != '+') by {
            assert(is_digit(d[0]));
        }
        if plus {
            assert(s[0] == '+');
            assert(s.drop_first() =~= d);
        } else {
            assert(s =~= d);
        }
        assert(unsigned_digits(s) == d);
    }
}

proof fn lemma_zeros_in_front(zeros: nat, n: nat)
    ensures
        ({
            let d = Seq::new(zeros, |i: int| '0') + decimal(n);
            &&& d.len() > 0
            &&& all_digits(d)
            &&& digits_value(d) == n
        }),
    decreases n,
{
    let z = Seq::new(zeros, |i: int| '0');
    let d = z + decimal(n);
    if n < 10 {
        assert(decimal(n) == seq![digit_char(n)]);
        assert(d.drop_last() =~= z);
        lemma_zeros_are_nothing(zeros);
        assert(d.last() == digit_char(n));
        assert(d.last() as u32 == 48 + n);
    } else {
        lemma_zeros_in_front(zeros, n / 10);
        let e = z + decimal(n / 10);
        assert(d =~= e.push(digit_char(n % 10)));
        assert(d.drop_last() =~= e);
        assert(d.last() as u32 == 48 + n % 10);
        assert forall|i: int| 0 <= i < d.len() implies is_digit(#[trigger] d[i]) by {
            if i < e.len() {
                assert(d[i] == e[i]);
            }
        }
    }
}

proof fn lemma_zeros_are_nothing(zeros: nat)
    ensures
        digits_value(Seq::new(zeros, |i: int| '0')) == 0,
    decreases zeros,
{
    let z = Seq::new(zeros, |i: int| '0');
    if zeros > 0 {
        lemma_zeros_are_nothing((zeros - 1) as nat);
        assert(z.drop_last() =~= Seq::new((zeros - 1) as nat, |i: int| '0'));
        assert(z.last() == '0');
    }
}

proof fn lemma_digit_char(c: char)
    requires
        is_digit(c),
    ensures
        digit_char((c as u32 - 48) as nat) == c,
{
}

proof fn lemma_digits_are_a_numeral(d: Seq<char>) -> (zeros: nat)
    requires
        d.len() > 0,
        all_digits(d),
    ensures
        d == Seq::new(zeros, |i: int| '0') + decimal(digits_value(d)),
    decreases d.len(),
{
    let front = d.drop_last();
    let c = d.last();
    assert(is_digit(d[d.len() - 1]));
    assert(c == d[d.len() - 1]);
    let x = (c as u32 - 48) as nat;
    lemma_digit_char(c);
    if front.len() == 0 {
        assert(digits_value(front) == 0);
        assert(decimal(x) == seq![c]);
        assert(d =~= Seq::new(0, |i: int| '0') + decimal(x));
        0
    } else {
        assert forall|i: int| 0 <= i < front.len() implies is_digit(#[trigger] front[i]) by {
            assert(front[i] == d[i]);
        }
        let zeros = lemma_digits_are_a_numeral(front);
        let v = digits_value(front);
        let z = Seq::new(zeros, |i: int| '0');
        assert(digits_value(d) == 10 * v + x);
        if v == 0 {
            assert(decimal(0) == seq!['0']);
            let more = Seq::new(zeros + 1, |i: int| '0');
            assert(front =~= more);
            assert(d =~= more + decimal(x));
            zeros + 1
        } else {
            assert((10 * v + x) / 10 == v);
            assert((10 * v + x) % 10 == x);
            assert(decimal(10 * v + x) == decimal(v).push(c));
            assert(front.push(c) == d);
            assert(d =~= z + decimal(10 * v + x));
            zeros
        }
    }
}

} // verus!
