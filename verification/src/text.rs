//! Text handling over sequences of characters.
//!
//! Text is read into vectors of characters, cut up and searched there, and
//! written back to strings. Every function is stated over `Seq<char>`.

use vstd::prelude::*;
use vstd::slice::slice_subrange;
use vstd::utf8::{decode_utf8, valid_utf8};

verus! {

/// `String::push` appends one character to the end of the string.
pub assume_specification[ String::push ](s: &mut String, c: char)
    ensures
        final(s)@ == old(s)@.push(c),
;

/// The text that `String::from_utf8_lossy` makes of `bytes`.
pub uninterp spec fn lossy_text(bytes: Seq<u8>) -> Seq<char>;

/// Calls `String::from_utf8_lossy`. The result is a function of the bytes, and
/// bytes that are valid UTF-8 come out as the characters they encode.
#[verifier::external_body]
pub(crate) fn decode_lossy(bytes: &[u8]) -> (s: String)
    ensures
        s@ == lossy_text(bytes@),
        valid_utf8(bytes@) ==> s@ == decode_utf8(bytes@),
{
    String::from_utf8_lossy(bytes).into_owned()
}

/// The text that `str::to_lowercase` makes of `s`.
pub uninterp spec fn lowercase(s: Seq<char>) -> Seq<char>;

/// Calls `str::to_lowercase`. The result is a function of the text.
#[verifier::external_body]
pub(crate) fn to_lower(s: &str) -> (r: String)
    ensures
        r@ == lowercase(s@),
{
    s.to_lowercase()
}

/// The characters of `s`, in order.
pub fn chars_of(s: &str) -> (v: Vec<char>)
    ensures
        v@ == s@,
{
    let mut v: Vec<char> = Vec::new();
    for c in it: s.chars()
        invariant
            v@ == it.seq().take(it.index() as int),
            it.seq() == s@,
    {
        v.push(c);
    }
    v
}

/// The string made of the characters `cs`.
pub fn string_of(cs: &[char]) -> (s: String)
    ensures
        s@ == cs@,
{
    let mut s = String::new();
    for i in 0..cs.len()
        invariant
            s@ == cs@.take(i as int),
    {
        s.push(cs[i]);
        assert(cs@.take(i + 1) == cs@.take(i as int).push(cs@[i as int]));
    }
    assert(cs@.take(cs@.len() as int) == cs@);
    s
}

/// The characters with the Unicode property White_Space.
pub open spec fn white_space(c: char) -> bool {
    let u = c as u32;
    ||| 0x9 <= u <= 0xd
    ||| u == 0x20
    ||| u == 0x85
    ||| u == 0xa0
    ||| u == 0x1680
    ||| 0x2000 <= u <= 0x200a
    ||| u == 0x2028
    ||| u == 0x2029
    ||| u == 0x202f
    ||| u == 0x205f
    ||| u == 0x3000
}

/// Whether `c` is white space.
pub fn is_white_space(c: char) -> (b: bool)
    ensures
        b == white_space(c),
{
    let u: u32 = c as u32;
    (0x9 <= u && u <= 0xd) || u == 0x20 || u == 0x85 || u == 0xa0 || u == 0x1680 || (0x2000 <= u
        && u <= 0x200a) || u == 0x2028 || u == 0x2029 || u == 0x202f || u == 0x205f || u == 0x3000
}

/// `s` without its leading white space.
pub open spec fn trim_start(s: Seq<char>) -> Seq<char>
    decreases s.len(),
{
    if s.len() > 0 && white_space(s[0]) {
        trim_start(s.drop_first())
    } else {
        s
    }
}

/// `s` without its trailing white space.
pub open spec fn trim_end(s: Seq<char>) -> Seq<char>
    decreases s.len(),
{
    if s.len() > 0 && white_space(s.last()) {
        trim_end(s.drop_last())
    } else {
        s
    }
}

/// `s` without the white space at either end.
pub open spec fn trimmed(s: Seq<char>) -> Seq<char> {
    trim_end(trim_start(s))
}

/// Removes the white space at either end of `cs`.
pub fn trim(cs: &[char]) -> (t: &[char])
    ensures
        t@ == trimmed(cs@),
{
    let n: usize = cs.len();
    let mut i: usize = 0;
    assert(cs@.subrange(0, n as int) == cs@);
    while i < n && is_white_space(cs[i])
        invariant
            i <= n == cs@.len(),
            trim_start(cs@) == trim_start(cs@.subrange(i as int, n as int)),
        decreases n - i,
    {
        assert(cs@.subrange(i as int, n as int).drop_first() == cs@.subrange(i + 1, n as int));
        i = i + 1;
    }
    assert(trim_start(cs@) == cs@.subrange(i as int, n as int));
    let mut j: usize = n;
    while j > i && is_white_space(cs[j - 1])
        invariant
            i <= j <= n == cs@.len(),
            trimmed(cs@) == trim_end(cs@.subrange(i as int, j as int)),
        decreases j,
    {
        assert(cs@.subrange(i as int, j as int).drop_last() == cs@.subrange(i as int, j - 1));
        j = j - 1;
    }
    slice_subrange(cs, i, j)
}

/// The position of the first `c` in `s`, or the length of `s`.
pub open spec fn position(s: Seq<char>, c: char) -> nat
    decreases s.len(),
{
    if s.len() == 0 || s[0] == c {
        0
    } else {
        1 + position(s.drop_first(), c)
    }
}

/// Finds the first `c` in `cs`; where there is none, returns the length.
pub fn find_char(cs: &[char], c: char) -> (i: usize)
    ensures
        i == position(cs@, c),
        i <= cs@.len(),
        forall|j: int| 0 <= j < i ==> cs@[j] != c,
        i < cs@.len() ==> cs@[i as int] == c,
{
    let n: usize = cs.len();
    let mut i: usize = 0;
    assert(cs@.subrange(0, n as int) == cs@);
    while i < n && cs[i] != c
        invariant
            i <= n == cs@.len(),
            position(cs@, c) == i + position(cs@.subrange(i as int, n as int), c),
            forall|j: int| 0 <= j < i ==> cs@[j] != c,
        decreases n - i,
    {
        assert(cs@.subrange(i as int, n as int).drop_first() == cs@.subrange(i + 1, n as int));
        i = i + 1;
    }
    i
}

/// A line without the carriage return that precedes its line feed.
pub open spec fn without_cr(s: Seq<char>) -> Seq<char> {
    if s.len() > 0 && s.last() == '\r' {
        s.drop_last()
    } else {
        s
    }
}

/// The lines of `s`: what stands between line feeds, a carriage return right
/// before a line feed left out, and no line after the last line feed.
pub open spec fn lines_of(s: Seq<char>) -> Seq<Seq<char>>
    decreases s.len(),
{
    if s.len() == 0 {
        seq![]
    } else {
        let i = position(s, '\n') as int;
        if i < s.len() {
            seq![without_cr(s.subrange(0, i))] + lines_of(s.subrange(i + 1, s.len() as int))
        } else {
            seq![s]
        }
    }
}

/// The views of a vector of character vectors.
pub open spec fn texts(v: Seq<Vec<char>>) -> Seq<Seq<char>> {
    v.map_values(|x: Vec<char>| x@)
}

/// Copies `cs[from..to]` into a vector of its own.
pub fn copy_chars(cs: &[char], from: usize, to: usize) -> (v: Vec<char>)
    requires
        from <= to <= cs@.len(),
    ensures
        v@ == cs@.subrange(from as int, to as int),
{
    vstd::slice::slice_to_vec(slice_subrange(cs, from, to))
}

/// Cuts `cs` into its lines.
pub fn split_lines(cs: &[char]) -> (v: Vec<Vec<char>>)
    ensures
        texts(v@) == lines_of(cs@),
{
    let n: usize = cs.len();
    let mut v: Vec<Vec<char>> = Vec::new();
    let mut i: usize = 0;
    assert(cs@.subrange(0, n as int) == cs@);
    while i < n
        invariant
            i <= n == cs@.len(),
            lines_of(cs@) == texts(v@) + lines_of(cs@.subrange(i as int, n as int)),
        decreases n - i,
    {
        let rest = slice_subrange(cs, i, n);
        let k: usize = find_char(rest, '\n');
        let ghost before = texts(v@);
        if k < rest.len() {
            let end: usize = if k > 0 && rest[k - 1] == '\r' {
                k - 1
            } else {
                k
            };
            let line = copy_chars(rest, 0, end);
            assert(line@ == without_cr(rest@.subrange(0, k as int)));
            v.push(line);
            assert(texts(v@) == before.push(line@));
            assert(rest@.subrange(k + 1, rest@.len() as int) == cs@.subrange(i + k + 1, n as int));
            i = i + k + 1;
        } else {
            let line = copy_chars(rest, 0, k);
            assert(line@ == rest@);
            v.push(line);
            assert(texts(v@) == before.push(line@));
            assert(lines_of(cs@.subrange(n as int, n as int)) == Seq::<Seq<char>>::empty());
            i = n;
        }
        assert(lines_of(cs@) == texts(v@) + lines_of(cs@.subrange(i as int, n as int)));
    }
    v
}

/// What stands before and after the first `c` in `s`.
pub open spec fn cut(s: Seq<char>, c: char) -> Option<(Seq<char>, Seq<char>)> {
    let i = position(s, c) as int;
    if i < s.len() {
        Some((s.subrange(0, i), s.subrange(i + 1, s.len() as int)))
    } else {
        None
    }
}

/// What stands after the last `c` in `s`; all of `s` where there is none.
pub open spec fn after_last(s: Seq<char>, c: char) -> Seq<char>
    decreases s.len(),
{
    if s.len() == 0 {
        s
    } else if s.last() == c {
        Seq::empty()
    } else {
        after_last(s.drop_last(), c).push(s.last())
    }
}

/// The part of `cs` after its last `c`.
pub fn tail_after(cs: &[char], c: char) -> (t: &[char])
    ensures
        t@ == after_last(cs@, c),
{
    let n: usize = cs.len();
    let mut i: usize = n;
    assert(cs@.subrange(0, n as int) == cs@);
    assert(after_last(cs@, c) == after_last(cs@.subrange(0, i as int), c) + cs@.subrange(
        i as int,
        n as int,
    ));
    while i > 0 && cs[i - 1] != c
        invariant
            i <= n == cs@.len(),
            after_last(cs@, c) == after_last(cs@.subrange(0, i as int), c) + cs@.subrange(
                i as int,
                n as int,
            ),
        decreases i,
    {
        let ghost head = cs@.subrange(0, i as int);
        assert(head.drop_last() == cs@.subrange(0, i - 1));
        assert(after_last(head, c) == after_last(head.drop_last(), c).push(head.last()));
        assert(after_last(head.drop_last(), c).push(head.last()) + cs@.subrange(i as int, n as int)
            == after_last(head.drop_last(), c) + cs@.subrange(i - 1, n as int));
        i = i - 1;
    }
    let ghost head = cs@.subrange(0, i as int);
    assert(after_last(head, c) == Seq::<char>::empty());
    slice_subrange(cs, i, n)
}

/// `pat` stands in `s` at position `i`.
pub open spec fn occurs_at(s: Seq<char>, pat: Seq<char>, i: int) -> bool {
    0 <= i && i + pat.len() <= s.len() && s.subrange(i, i + pat.len()) == pat
}

/// `pat` stands somewhere in `s`.
pub open spec fn contains_text(s: Seq<char>, pat: Seq<char>) -> bool {
    exists|i: int| occurs_at(s, pat, i)
}

/// `s` begins with `pat`.
pub open spec fn starts_with(s: Seq<char>, pat: Seq<char>) -> bool {
    occurs_at(s, pat, 0)
}

/// The first position at or after `i` at which `pat` stands in `s`.
pub open spec fn occurrence_from(s: Seq<char>, pat: Seq<char>, i: int) -> Option<int>
    decreases s.len() + 1 - i,
{
    if i + pat.len() > s.len() {
        None
    } else if occurs_at(s, pat, i) {
        Some(i)
    } else {
        occurrence_from(s, pat, i + 1)
    }
}

/// The first position at which `pat` stands in `s`.
pub open spec fn first_occurrence(s: Seq<char>, pat: Seq<char>) -> Option<int> {
    occurrence_from(s, pat, 0)
}

/// Whether `a` and `b` hold the same characters.
pub fn same_chars(a: &[char], b: &[char]) -> (r: bool)
    ensures
        r == (a@ == b@),
{
    if a.len() != b.len() {
        return false;
    }
    for i in 0..a.len()
        invariant
            a@.len() == b@.len(),
            a@.take(i as int) == b@.take(i as int),
    {
        if a[i] != b[i] {
            return false;
        }
        assert(a@.take(i + 1) == a@.take(i as int).push(a@[i as int]));
        assert(b@.take(i + 1) == b@.take(i as int).push(b@[i as int]));
    }
    assert(a@.take(a@.len() as int) == a@);
    assert(b@.take(b@.len() as int) == b@);
    true
}

/// Whether `cs` spells `s`.
pub fn chars_are(cs: &[char], s: &str) -> (r: bool)
    ensures
        r == (cs@ == s@),
{
    let t = chars_of(s);
    same_chars(cs, t.as_slice())
}

/// Whether `pat` stands in `cs` at `i`.
pub fn matches_at(cs: &[char], pat: &[char], i: usize) -> (r: bool)
    ensures
        r == occurs_at(cs@, pat@, i as int),
{
    if i > cs.len() || pat.len() > cs.len() - i {
        return false;
    }
    same_chars(slice_subrange(cs, i, i + pat.len()), pat)
}

/// The first position of `pat` in `cs`.
pub fn find_text(cs: &[char], pat: &[char]) -> (r: Option<usize>)
    ensures
        (match r {
            Some(i) => first_occurrence(cs@, pat@) == Some(i as int) && occurs_at(
                cs@,
                pat@,
                i as int,
            ),
            None => first_occurrence(cs@, pat@) is None,
        }),
        r is Some <==> contains_text(cs@, pat@),
{
    let mut i: usize = 0;
    while i <= cs.len() && pat.len() <= cs.len() - i
        invariant
            i <= cs@.len() + 1,
            first_occurrence(cs@, pat@) == occurrence_from(cs@, pat@, i as int),
            forall|j: int| 0 <= j < i ==> !occurs_at(cs@, pat@, j),
        decreases cs@.len() + 1 - i,
    {
        if matches_at(cs, pat, i) {
            return Some(i);
        }
        if i == cs.len() {
            assert(occurrence_from(cs@, pat@, i + 1) is None);
            assert(forall|j: int| !occurs_at(cs@, pat@, j));
            return None;
        }
        i = i + 1;
    }
    assert(forall|j: int| !occurs_at(cs@, pat@, j));
    None
}

/// Whether `cs` begins with `s`.
pub fn begins_with(cs: &[char], s: &str) -> (r: bool)
    ensures
        r == starts_with(cs@, s@),
{
    let p = chars_of(s);
    matches_at(cs, p.as_slice(), 0)
}

/// Whether `s` stands somewhere in `hay`.
pub fn text_contains(hay: &str, s: &str) -> (r: bool)
    ensures
        r == contains_text(hay@, s@),
{
    let h = chars_of(hay);
    let p = chars_of(s);
    find_text(h.as_slice(), p.as_slice()).is_some()
}

/// The character of the decimal digit `d`.
pub open spec fn digit_char(d: nat) -> char {
    (48 + d) as char
}

/// `n` written in decimal, without leading zeros.
pub open spec fn decimal(n: nat) -> Seq<char>
    decreases n,
{
    if n < 10 {
        seq![digit_char(n)]
    } else {
        decimal(n / 10).push(digit_char(n % 10))
    }
}

/// Appends `n` in decimal to `s`.
pub fn push_decimal(s: &mut String, n: u64)
    ensures
        final(s)@ == old(s)@ + decimal(n as nat),
    decreases n,
{
    if n >= 10 {
        push_decimal(s, n / 10);
    }
    let d: u8 = (n % 10) as u8;
    s.push((48 + d) as char);
    assert(s@ == old(s)@ + decimal(n as nat));
}

/// `n` in decimal.
pub fn decimal_string(n: u64) -> (s: String)
    ensures
        s@ == decimal(n as nat),
{
    let mut s = String::new();
    push_decimal(&mut s, n);
    s
}

/// `c` is one of the ten decimal digits.
pub open spec fn is_digit(c: char) -> bool {
    48 <= c as u32 <= 57
}

/// Every character of `s` is a decimal digit.
pub open spec fn all_digits(s: Seq<char>) -> bool {
    forall|i: int| 0 <= i < s.len() ==> is_digit(#[trigger] s[i])
}

/// The number that the digits `s` write in decimal.
pub open spec fn digits_value(s: Seq<char>) -> nat
    decreases s.len(),
{
    if s.len() == 0 {
        0
    } else {
        digits_value(s.drop_last()) * 10 + (s.last() as u32 - 48) as nat
    }
}

/// The digits of a number that may carry a plus sign.
pub open spec fn unsigned_digits(s: Seq<char>) -> Seq<char> {
    if s.len() > 0 && s[0] == '+' {
        s.drop_first()
    } else {
        s
    }
}

/// The number that `s` writes: one or more decimal digits, a plus sign before
/// them or not, and a value of at most `max`.
pub open spec fn unsigned(s: Seq<char>, max: nat) -> Option<nat> {
    let d = unsigned_digits(s);
    if d.len() > 0 && all_digits(d) && digits_value(d) <= max {
        Some(digits_value(d))
    } else {
        None
    }
}

/// More digits never make a smaller number.
proof fn lemma_digits_value_grows(s: Seq<char>, i: int)
    requires
        0 <= i <= s.len(),
        all_digits(s),
    ensures
        digits_value(s.take(i)) <= digits_value(s),
    decreases s.len() - i,
{
    if i < s.len() {
        lemma_digits_value_grows(s, i + 1);
        assert(s.take(i + 1).drop_last() == s.take(i));
    } else {
        assert(s.take(i) == s);
    }
}

/// Reads an unsigned number of at most `max`.
pub fn parse_unsigned(cs: &[char], max: u32) -> (r: Option<u32>)
    ensures
        (match r {
            Some(v) => unsigned(cs@, max as nat) == Some(v as nat),
            None => unsigned(cs@, max as nat) is None,
        }),
{
    let start: usize = if cs.len() > 0 && cs[0] == '+' {
        1
    } else {
        0
    };
    let d = slice_subrange(cs, start, cs.len());
    assert(d@ == unsigned_digits(cs@));
    if d.len() == 0 {
        return None;
    }
    let mut acc: u64 = 0;
    for i in 0..d.len()
        invariant
            d@ == unsigned_digits(cs@),
            acc <= max,
            acc == digits_value(d@.take(i as int)),
            all_digits(d@.take(i as int)),
    {
        let u: u32 = d[i] as u32;
        if u < 48 || u > 57 {
            assert(!is_digit(d@[i as int]));
            return None;
        }
        acc = acc * 10 + (u - 48) as u64;
        proof {
            assert(d@.take(i + 1).drop_last() == d@.take(i as int));
        }
        if acc > max as u64 {
            proof {
                if all_digits(d@) {
                    lemma_digits_value_grows(d@, i + 1);
                }
            }
            return None;
        }
    }
    assert(d@.take(d@.len() as int) == d@);
    Some(acc as u32)
}

/// A number written in decimal reads back as itself.
pub proof fn law_decimal_reads_back(n: nat, max: nat)
    requires
        n <= max,
    ensures
        unsigned(decimal(n), max) == Some(n),
{
    lemma_decimal_digits(n);
}

proof fn lemma_decimal_digits(n: nat)
    ensures
        all_digits(decimal(n)),
        decimal(n).len() > 0,
        digits_value(decimal(n)) == n,
        decimal(n)[0] != '+',
    decreases n,
{
    if n < 10 {
        assert(decimal(n) == seq![digit_char(n)]);
        assert(decimal(n).drop_last() == Seq::<char>::empty());
        assert(digits_value(decimal(n).drop_last()) == 0);
        assert(decimal(n).last() as u32 == 48 + n);
    } else {
        lemma_decimal_digits(n / 10);
        let d = decimal(n / 10);
        assert(decimal(n) == d.push(digit_char(n % 10)));
        assert(decimal(n).drop_last() == d);
        assert(decimal(n).last() as u32 == 48 + n % 10);
        assert(decimal(n)[0] == d[0]);
        assert forall|i: int| 0 <= i < decimal(n).len() implies is_digit(#[trigger] decimal(n)[i]) by {
            if i < d.len() {
                assert(decimal(n)[i] == d[i]);
            }
        }
    }
}

/// Trimming never lengthens a text, and shortens one that begins or ends with
/// white space.
proof fn lemma_trim_lengths(s: Seq<char>)
    ensures
        trim_start(s).len() <= s.len(),
        trim_end(s).len() <= s.len(),
        s.len() > 0 && white_space(s[0]) ==> trim_start(s).len() < s.len(),
        s.len() > 0 && white_space(s.last()) ==> trim_end(s).len() < s.len(),
    decreases s.len(),
{
    if s.len() > 0 {
        lemma_trim_lengths(s.drop_first());
        lemma_trim_lengths(s.drop_last());
    }
}

/// A text is its own trimming exactly when it is empty or begins and ends with
/// something other than white space.
pub proof fn lemma_trimmed_fixed(s: Seq<char>)
    ensures
        trimmed(s) == s <==> (s.len() == 0 || (!white_space(s[0]) && !white_space(s.last()))),
{
    lemma_trim_lengths(s);
    lemma_trim_lengths(trim_start(s));
}

/// Two positions agree when the texts agree up to the first hit.
pub proof fn lemma_position_at(s: Seq<char>, c: char, i: int)
    requires
        0 <= i <= s.len(),
        forall|j: int| 0 <= j < i ==> s[j] != c,
        i < s.len() ==> s[i] == c,
    ensures
        position(s, c) == i,
    decreases s.len(),
{
    if s.len() > 0 && i > 0 {
        let t = s.drop_first();
        assert forall|j: int| 0 <= j < i - 1 implies t[j] != c by {
            assert(t[j] == s[j + 1]);
        }
        lemma_position_at(t, c, i - 1);
    }
}

/// What `position` finds: the first hit, or nothing up to the end.
pub proof fn lemma_position(s: Seq<char>, c: char)
    ensures
        position(s, c) <= s.len(),
        forall|j: int| 0 <= j < position(s, c) ==> s[j] != c,
        position(s, c) < s.len() ==> s[position(s, c) as int] == c,
    decreases s.len(),
{
    if s.len() > 0 && s[0] != c {
        let t = s.drop_first();
        lemma_position(t, c);
        assert forall|j: int| 0 <= j < position(s, c) implies s[j] != c by {
            if j > 0 {
                assert(s[j] == t[j - 1]);
            }
        }
    }
}

/// A text that ends with a line feed contributes its lines, whatever follows.
pub proof fn law_lines_concatenate(a: Seq<char>, b: Seq<char>)
    requires
        a.len() == 0 || a.last() == '\n',
    ensures
        lines_of(a + b) == lines_of(a) + lines_of(b),
    decreases a.len(),
{
    if a.len() == 0 {
        assert(a + b == b);
        assert(lines_of(a) + lines_of(b) == lines_of(b));
    } else {
        lemma_position(a, '\n');
        let i = position(a, '\n') as int;
        assert(i < a.len());
        lemma_position_at(a + b, '\n', i);
        let rest = a.subrange(i + 1, a.len() as int);
        assert((a + b).subrange(0, i) == a.subrange(0, i));
        assert((a + b).subrange(i + 1, (a + b).len() as int) == rest + b);
        assert(rest.len() > 0 ==> rest.last() == a.last());
        law_lines_concatenate(rest, b);
        assert(lines_of(a + b) == lines_of(a) + lines_of(b));
    }
}

/// A text without a line feed is one line once a line feed follows it.
pub proof fn lemma_single_line(line: Seq<char>)
    requires
        forall|i: int| 0 <= i < line.len() ==> line[i] != '\n',
    ensures
        lines_of(line.push('\n')) == seq![without_cr(line)],
{
    let s = line.push('\n');
    lemma_position_at(s, '\n', line.len() as int);
    assert(s.subrange(0, line.len() as int) == line);
    assert(lines_of(s.subrange(s.len() as int, s.len() as int)) == Seq::<Seq<char>>::empty());
}

} // verus!
