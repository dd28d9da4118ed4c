//! Text as sequences of characters: splitting, trimming, decimal numbers.

use vstd::prelude::*;
use vstd::slice::slice_subrange;
use vstd::string::StringExecFns;

verus! {

/// The characters of `s`, one by one.
pub fn to_chars(s: &str) -> (v: Vec<char>)
    ensures
        v@ == s@,
{
    let mut v: Vec<char> = Vec::new();
    for c in it: s.chars()
        invariant
            v@ == it.seq().take(it.index() as int),
            it.seq() == s@,
    {
        v.push(c);
        assert(it.seq().take(it.index() + 1) =~= it.seq().take(it.index() as int).push(c));
    }
    assert(s@.take(s@.len() as int) =~= s@);
    v
}

/// Where `sep` first stands in `s`; the length of `s` where it does not.
pub open spec fn first_index(s: Seq<char>, sep: char) -> int
    decreases s.len(),
{
    if s.len() == 0 {
        0
    } else if s[0] == sep {
        0
    } else {
        1 + first_index(s.skip(1), sep)
    }
}

/// The pieces of `s` between the occurrences of `sep`. There is always one
/// piece more than there are separators, so the empty text has one empty
/// piece.
pub open spec fn split(s: Seq<char>, sep: char) -> Seq<Seq<char>>
    decreases s.len(),
{
    let i = first_index(s, sep);
    if 0 <= i < s.len() {
        seq![s.take(i)] + split(s.skip(i + 1), sep)
    } else {
        seq![s]
    }
}

/// The first index of a separator lies within the text, nothing before it is
/// a separator, and it is one where it is not the end.
pub proof fn lemma_first_index(s: Seq<char>, sep: char)
    ensures
        0 <= first_index(s, sep) <= s.len(),
        forall|j: int| 0 <= j < first_index(s, sep) ==> s[j] != sep,
        first_index(s, sep) < s.len() ==> s[first_index(s, sep)] == sep,
    decreases s.len(),
{
    if s.len() > 0 && s[0] != sep {
        let t = s.skip(1);
        lemma_first_index(t, sep);
        assert forall|j: int| 0 <= j < first_index(s, sep) implies s[j] != sep by {
            if j > 0 {
                assert(t[j - 1] == s[j]);
            }
        }
        if first_index(s, sep) < s.len() {
            assert(t[first_index(t, sep)] == s[first_index(s, sep)]);
        }
    }
}

/// The index of the first separator is the only index that has a separator
/// and none before it.
pub proof fn lemma_first_index_is(s: Seq<char>, sep: char, i: int)
    requires
        0 <= i <= s.len(),
        forall|j: int| 0 <= j < i ==> s[j] != sep,
        i < s.len() ==> s[i] == sep,
    ensures
        first_index(s, sep) == i,
{
    lemma_first_index(s, sep);
    let f = first_index(s, sep);
    if f < i {
        assert(s[f] == sep);
    } else if f > i {
        assert(s[i] == sep);
    }
}

/// A text without the separator is one piece.
pub proof fn lemma_split_none(s: Seq<char>, sep: char)
    requires
        forall|j: int| 0 <= j < s.len() ==> s[j] != sep,
    ensures
        split(s, sep) == seq![s],
{
    lemma_first_index_is(s, sep, s.len() as int);
}

/// A piece without the separator, then the separator, then more text: the
/// first piece is that piece, and the others come from the rest.
pub proof fn lemma_split_first(head: Seq<char>, sep: char, rest: Seq<char>)
    requires
        forall|j: int| 0 <= j < head.len() ==> head[j] != sep,
    ensures
        split(head + seq![sep] + rest, sep) == seq![head] + split(rest, sep),
{
    let s = head + seq![sep] + rest;
    let i = head.len() as int;
    assert(s[i] == sep);
    assert forall|j: int| 0 <= j < i implies s[j] != sep by {
        assert(s[j] == head[j]);
    }
    lemma_first_index_is(s, sep, i);
    assert(s.take(i) =~= head);
    assert(s.skip(i + 1) =~= rest);
}

/// The pieces laid end to end, the separator between them.
pub open spec fn join(pieces: Seq<Seq<char>>, sep: char) -> Seq<char>
    decreases pieces.len(),
{
    if pieces.len() == 0 {
        seq![]
    } else if pieces.len() == 1 {
        pieces[0]
    } else {
        pieces[0] + seq![sep] + join(pieces.skip(1), sep)
    }
}

/// Splitting loses nothing: the pieces joined give the text back. No piece
/// holds the separator.
pub proof fn lemma_join_split(s: Seq<char>, sep: char)
    ensures
        split(s, sep).len() >= 1,
        join(split(s, sep), sep) == s,
        forall|k: int, j: int|
            0 <= k < split(s, sep).len() && 0 <= j < split(s, sep)[k].len() ==> split(s, sep)[k][j]
                != sep,
    decreases s.len(),
{
    lemma_first_index(s, sep);
    let i = first_index(s, sep);
    if i < s.len() {
        let rest = s.skip(i + 1);
        lemma_join_split(rest, sep);
        let p = split(s, sep);
        let q = split(rest, sep);
        assert(p == seq![s.take(i)] + q);
        assert(p.skip(1) =~= q);
        assert(p[0] == s.take(i));
        assert(join(p, sep) == p[0] + seq![sep] + join(p.skip(1), sep));
        assert(s.take(i) + seq![sep] + rest =~= s);
        assert forall|k: int, j: int| 0 <= k < p.len() && 0 <= j < p[k].len() implies p[k][j]
            != sep by {
            if k == 0 {
                assert(p[0][j] == s[j]);
            } else {
                assert(p[k] == q[k - 1]);
            }
        }
    } else {
        assert(split(s, sep) == seq![s]);
    }
}

/// The index at or after `start` where `sep` first stands, the length of the
/// text where it does not.
pub fn find_from(chars: &[char], start: usize, sep: char) -> (i: usize)
    requires
        start <= chars@.len(),
    ensures
        start <= i <= chars@.len(),
        i == start + first_index(chars@.skip(start as int), sep),
{
    let len = chars.len();
    let mut i = start;
    while i < len && chars[i] != sep
        invariant
            start <= i <= len,
            len == chars@.len(),
            forall|j: int| start <= j < i ==> chars@[j] != sep,
        decreases len - i,
    {
        i = i + 1;
    }
    proof {
        let t = chars@.skip(start as int);
        assert forall|j: int| 0 <= j < i - start implies t[j] != sep by {
            assert(t[j] == chars@[start + j]);
        }
        if i < len {
            assert(t[i - start] == chars@[i as int]);
        }
        lemma_first_index_is(t, sep, i - start);
    }
    i
}

/// The views of a list of pieces.
pub open spec fn views(pieces: Seq<Vec<char>>) -> Seq<Seq<char>> {
    pieces.map_values(|v: Vec<char>| v@)
}

/// Splits `chars` at every `sep`.
pub fn split_chars(chars: &[char], sep: char) -> (pieces: Vec<Vec<char>>)
    ensures
        views(pieces@) == split(chars@, sep),
{
    let len = chars.len();
    let mut pieces: Vec<Vec<char>> = Vec::new();
    let mut start: usize = 0;
    assert(chars@.skip(0) =~= chars@);
    assert(views(pieces@) =~= Seq::<Seq<char>>::empty());
    loop
        invariant
            start <= len,
            len == chars@.len(),
            views(pieces@) + split(chars@.skip(start as int), sep) == split(chars@, sep),
        decreases len - start,
    {
        let end = find_from(chars, start, sep);
        let piece = vstd::slice::slice_to_vec(slice_subrange(chars, start, end));
        let ghost rest = chars@.skip(start as int);
        let ghost before = views(pieces@);
        proof {
            assert(rest.take(end - start) =~= chars@.subrange(start as int, end as int));
        }
        pieces.push(piece);
        assert(views(pieces@) =~= before.push(piece@));
        if end >= len {
            proof {
                assert(split(rest, sep) == seq![rest]);
                assert(rest.take(end - start) =~= rest);
                assert(before + seq![rest] =~= before.push(rest));
            }
            return pieces;
        }
        proof {
            assert(rest.skip(end - start + 1) =~= chars@.skip(end + 1));
            assert(split(rest, sep) == seq![rest.take(end - start)] + split(
                chars@.skip(end + 1),
                sep,
            ));
            assert(before + (seq![piece@] + split(chars@.skip(end + 1), sep)) =~= before.push(
                piece@,
            ) + split(chars@.skip(end + 1), sep));
        }
        start = end + 1;
    }
}

/// The code point of a character.
pub fn char_code(c: char) -> (x: u32)
    ensures
        x == c as int,
{
    c as u32
}

/// White space as Unicode defines it.
pub open spec fn is_space(c: char) -> bool {
    let x = c as int;
    ||| 0x09 <= x <= 0x0D
    ||| x == 0x20
    ||| x == 0x85
    ||| x == 0xA0
    ||| x == 0x1680
    ||| 0x2000 <= x <= 0x200A
    ||| x == 0x2028
    ||| x == 0x2029
    ||| x == 0x202F
    ||| x == 0x205F
    ||| x == 0x3000
}

/// Tells whether `c` is white space.
pub fn char_is_space(c: char) -> (b: bool)
    ensures
        b == is_space(c),
{
    let x = char_code(c);
    (0x09 <= x && x <= 0x0D) || x == 0x20 || x == 0x85 || x == 0xA0 || x == 0x1680 || (0x2000 <= x
        && x <= 0x200A) || x == 0x2028 || x == 0x2029 || x == 0x202F || x == 0x205F || x == 0x3000
}

/// How many white-space characters `s` starts with.
pub open spec fn leading_spaces(s: Seq<char>) -> nat
    decreases s.len(),
{
    if s.len() > 0 && is_space(s[0]) {
        1 + leading_spaces(s.skip(1))
    } else {
        0
    }
}

/// How many white-space characters `s` ends with.
pub open spec fn trailing_spaces(s: Seq<char>) -> nat
    decreases s.len(),
{
    if s.len() > 0 && is_space(s.last()) {
        1 + trailing_spaces(s.drop_last())
    } else {
        0
    }
}

/// `s` without the white space at its start and at its end.
pub open spec fn trim(s: Seq<char>) -> Seq<char> {
    if leading_spaces(s) >= s.len() {
        seq![]
    } else {
        s.subrange(leading_spaces(s) as int, s.len() - trailing_spaces(s))
    }
}

/// The count of leading white space is the index of the first character that
/// is none.
pub proof fn lemma_leading_spaces_is(s: Seq<char>, n: int)
    requires
        0 <= n <= s.len(),
        forall|j: int| 0 <= j < n ==> is_space(s[j]),
        n < s.len() ==> !is_space(s[n]),
    ensures
        leading_spaces(s) == n,
    decreases n,
{
    if n > 0 {
        let t = s.skip(1);
        assert forall|j: int| 0 <= j < n - 1 implies is_space(t[j]) by {
            assert(t[j] == s[j + 1]);
        }
        if n - 1 < t.len() {
            assert(t[n - 1] == s[n]);
        }
        lemma_leading_spaces_is(t, n - 1);
    }
}

/// The count of trailing white space is what lies behind the last character
/// that is none.
pub proof fn lemma_trailing_spaces_is(s: Seq<char>, n: int)
    requires
        0 <= n <= s.len(),
        forall|j: int| s.len() - n <= j < s.len() ==> is_space(s[j]),
        n < s.len() ==> !is_space(s[s.len() - n - 1]),
    ensures
        trailing_spaces(s) == n,
    decreases n,
{
    if n > 0 {
        let t = s.drop_last();
        assert forall|j: int| t.len() - (n - 1) <= j < t.len() implies is_space(t[j]) by {
            assert(t[j] == s[j]);
        }
        if n - 1 < t.len() {
            assert(t[t.len() - (n - 1) - 1] == s[s.len() - n - 1]);
        }
        lemma_trailing_spaces_is(t, n - 1);
    }
}

/// The bounds of `chars` without the white space at both ends.
pub fn trim_bounds(chars: &[char]) -> (bounds: (usize, usize))
    ensures
        bounds.0 <= bounds.1 <= chars@.len(),
        chars@.subrange(bounds.0 as int, bounds.1 as int) == trim(chars@),
{
    let len = chars.len();
    let mut start: usize = 0;
    while start < len && char_is_space(chars[start])
        invariant
            start <= len,
            len == chars@.len(),
            forall|j: int| 0 <= j < start ==> is_space(chars@[j]),
        decreases len - start,
    {
        start = start + 1;
    }
    proof {
        lemma_leading_spaces_is(chars@, start as int);
    }
    if start == len {
        assert(chars@.subrange(start as int, start as int) =~= Seq::<char>::empty());
        return (start, start);
    }
    let mut end: usize = len;
    while end > start + 1 && char_is_space(chars[end - 1])
        invariant
            start < end <= len,
            len == chars@.len(),
            !is_space(chars@[start as int]),
            forall|j: int| end <= j < len ==> is_space(chars@[j]),
        decreases end,
    {
        end = end - 1;
    }
    proof {
        lemma_trailing_spaces_is(chars@, len - end);
    }
    (start, end)
}

/// The largest bound that the readers of numbers take: every number up to
/// ten times this and nine more fits 64 bits.
pub const MAX_NUMBER_BOUND: u64 = 1_844_674_407_370_955_160;

/// Whether `c` is one of the ten decimal digits.
pub open spec fn is_digit(c: char) -> bool {
    48 <= c as int <= 57
}

/// The number that the digit `c` stands for.
pub open spec fn digit_value(c: char) -> nat {
    (c as int - 48) as nat
}

/// The digit that stands for `d`.
pub open spec fn digit_char(d: nat) -> char {
    (48 + d) as char
}

/// Whether `s` holds decimal digits only.
pub open spec fn all_digits(s: Seq<char>) -> bool {
    forall|i: int| 0 <= i < s.len() ==> is_digit(#[trigger] s[i])
}

/// The number that the digits of `s` write.
pub open spec fn decimal_value(s: Seq<char>) -> nat
    decreases s.len(),
{
    if s.len() == 0 {
        0
    } else {
        decimal_value(s.drop_last()) * 10 + digit_value(s.last())
    }
}

/// What reading an unsigned number in `s` gives: `s` is a plus sign or
/// nothing, then at least one digit and nothing else, and the number is at
/// most `max`. Leading zeros are taken.
pub open spec fn unsigned_value(s: Seq<char>, max: nat) -> Option<nat> {
    let digits = if s.len() > 0 && s[0] == '+' {
        s.skip(1)
    } else {
        s
    };
    if digits.len() > 0 && all_digits(digits) && decimal_value(digits) <= max {
        Some(decimal_value(digits))
    } else {
        None
    }
}

/// The digits that write `n`, without leading zeros.
pub open spec fn decimal_text(n: nat) -> Seq<char>
    decreases n,
{
    if n < 10 {
        seq![digit_char(n)]
    } else {
        decimal_text(n / 10).push(digit_char(n % 10))
    }
}

/// Whether `s` is a number written without sign and without leading zeros.
pub open spec fn is_canonical_decimal(s: Seq<char>) -> bool {
    &&& s.len() > 0
    &&& all_digits(s)
    &&& (s.len() == 1 || s[0] != '0')
}

/// More digits never write a smaller number.
pub proof fn lemma_decimal_value_grows(s: Seq<char>, i: int)
    requires
        all_digits(s),
        0 <= i <= s.len(),
    ensures
        decimal_value(s.take(i)) <= decimal_value(s),
    decreases s.len() - i,
{
    if i < s.len() {
        lemma_decimal_value_grows(s, i + 1);
        let t = s.take(i + 1);
        assert(t.drop_last() =~= s.take(i));
        assert(is_digit(s[i]));
    } else {
        assert(s.take(i) =~= s);
    }
}

/// A number written in full and read back is the number; its text is
/// canonical.
pub proof fn lemma_decimal_text(n: nat)
    ensures
        is_canonical_decimal(decimal_text(n)),
        decimal_value(decimal_text(n)) == n,
        n < 10 ==> decimal_text(n).len() == 1,
        10 <= n < 100 ==> decimal_text(n).len() == 2,
        100 <= n < 1000 ==> decimal_text(n).len() == 3,
        n > 0 ==> decimal_text(n)[0] != '0',
    decreases n,
{
    let t = decimal_text(n);
    if n < 10 {
        assert(t.drop_last() =~= Seq::<char>::empty());
        assert(decimal_value(t) == decimal_value(t.drop_last()) * 10 + digit_value(t.last()));
    } else {
        lemma_decimal_text(n / 10);
        let u = decimal_text(n / 10);
        assert(t.drop_last() =~= u);
        assert(t[0] == u[0]);
        assert forall|i: int| 0 <= i < t.len() implies is_digit(#[trigger] t[i]) by {
            if i < u.len() {
                assert(t[i] == u[i]);
            }
        }
    }
}

/// A canonical text read and written again is the text.
pub proof fn lemma_decimal_text_of_value(s: Seq<char>)
    requires
        is_canonical_decimal(s),
    ensures
        decimal_text(decimal_value(s)) == s,
    decreases s.len(),
{
    let n = decimal_value(s);
    assert(is_digit(s.last()));
    assert(n == decimal_value(s.drop_last()) * 10 + digit_value(s.last()));
    if s.len() == 1 {
        assert(s.drop_last() =~= Seq::<char>::empty());
        assert(decimal_value(s.drop_last()) == 0);
        assert(s.last() == s[0]);
        assert(decimal_text(n) =~= s);
    } else {
        let u = s.drop_last();
        assert(u[0] == s[0]);
        assert(is_digit(s[0]));
        lemma_decimal_text_of_value(u);
        lemma_leading_digit_counts(u);
        assert(n / 10 == decimal_value(u));
        assert(n % 10 == digit_value(s.last()));
        assert(decimal_text(n) =~= s);
    }
}

/// A text of several digits that starts with none of zero writes ten at least;
/// one that starts with none of zero writes one at least.
pub proof fn lemma_leading_digit_counts(s: Seq<char>)
    requires
        s.len() > 0,
        all_digits(s),
        s[0] != '0',
    ensures
        decimal_value(s) >= 1,
        s.len() >= 2 ==> decimal_value(s) >= 10,
    decreases s.len(),
{
    assert(is_digit(s[0]));
    assert(is_digit(s.last()));
    assert(decimal_value(s) == decimal_value(s.drop_last()) * 10 + digit_value(s.last()));
    if s.len() == 1 {
        assert(s.drop_last() =~= Seq::<char>::empty());
        assert(decimal_value(s.drop_last()) == 0);
        assert(s.last() == s[0]);
    } else {
        let u = s.drop_last();
        assert(u[0] == s[0]);
        lemma_leading_digit_counts(u);
    }
}

/// Reads the digits of `chars` as a number of at most `max`.
fn read_digits(chars: &[char], max: u64) -> (r: Option<u64>)
    requires
        max <= MAX_NUMBER_BOUND,
    ensures
        r == if chars@.len() > 0 && all_digits(chars@) && decimal_value(chars@) <= max {
            Some(decimal_value(chars@) as u64)
        } else {
            None
        },
{
    let len = chars.len();
    if len == 0 {
        return None;
    }
    let mut acc: u64 = 0;
    let mut i: usize = 0;
    assert(chars@.take(0) =~= Seq::<char>::empty());
    while i < len
        invariant
            i <= len,
            len == chars@.len(),
            max <= MAX_NUMBER_BOUND,
            acc <= max,
            all_digits(chars@.take(i as int)),
            acc == decimal_value(chars@.take(i as int)),
        decreases len - i,
    {
        let x = char_code(chars[i]);
        if x < 48 || x > 57 {
            assert(!is_digit(chars@[i as int]));
            return None;
        }
        let next: u64 = acc * 10 + (x - 48) as u64;
        proof {
            let t = chars@.take(i + 1);
            assert(t.drop_last() =~= chars@.take(i as int));
            assert(t.last() == chars@[i as int]);
            assert(next == decimal_value(t));
            assert forall|j: int| 0 <= j < t.len() implies is_digit(#[trigger] t[j]) by {
                if j < i {
                    assert(chars@.take(i as int)[j] == t[j]);
                }
            }
        }
        if next > max {
            proof {
                if all_digits(chars@) {
                    lemma_decimal_value_grows(chars@, i + 1);
                }
            }
            return None;
        }
        acc = next;
        i = i + 1;
    }
    assert(chars@.take(len as int) =~= chars@);
    Some(acc)
}

/// Reads an unsigned number of at most `max` as the standard library reads
/// one: a plus sign may stand first, digits follow and nothing else.
pub fn parse_unsigned(chars: &[char], max: u64) -> (r: Option<u64>)
    requires
        max <= MAX_NUMBER_BOUND,
    ensures
        r is Some <==> unsigned_value(chars@, max as nat) is Some,
        r is Some ==> r->0 == unsigned_value(chars@, max as nat)->0,
{
    let len = chars.len();
    if len > 0 && chars[0] == '+' {
        let digits = slice_subrange(chars, 1, len);
        assert(digits@ =~= chars@.skip(1));
        read_digits(digits, max)
    } else {
        read_digits(chars, max)
    }
}

/// Reads a number of at most `max` that is written without sign and without
/// leading zeros.
pub fn parse_canonical(chars: &[char], max: u64) -> (r: Option<u64>)
    requires
        max <= MAX_NUMBER_BOUND,
    ensures
        r == if is_canonical_decimal(chars@) && decimal_value(chars@) <= max {
            Some(decimal_value(chars@) as u64)
        } else {
            None
        },
{
    let len = chars.len();
    if len > 1 && chars[0] == '0' {
        return None;
    }
    read_digits(chars, max)
}

/// The text of one decimal digit.
fn digit_text(d: u64) -> (r: &'static str)
    requires
        d < 10,
    ensures
        r@ == seq![digit_char(d as nat)],
{
    proof {
        reveal_strlit("0");
        reveal_strlit("1");
        reveal_strlit("2");
        reveal_strlit("3");
        reveal_strlit("4");
        reveal_strlit("5");
        reveal_strlit("6");
        reveal_strlit("7");
        reveal_strlit("8");
        reveal_strlit("9");
    }
    let r = if d == 0 {
        "0"
    } else if d == 1 {
        "1"
    } else if d == 2 {
        "2"
    } else if d == 3 {
        "3"
    } else if d == 4 {
        "4"
    } else if d == 5 {
        "5"
    } else if d == 6 {
        "6"
    } else if d == 7 {
        "7"
    } else if d == 8 {
        "8"
    } else {
        "9"
    };
    assert(r@ =~= seq![digit_char(d as nat)]);
    r
}

/// Appends `n`, written in decimal without leading zeros, to `out`.
pub fn push_decimal(out: &mut String, n: u64)
    ensures
        final(out)@ == old(out)@ + decimal_text(n as nat),
    decreases n,
{
    if n >= 10 {
        push_decimal(out, n / 10);
    }
    out.append(digit_text(n % 10));
    proof {
        if n >= 10 {
            assert(old(out)@ + decimal_text((n / 10) as nat) + seq![digit_char((n % 10) as nat)]
                =~= old(out)@ + decimal_text(n as nat));
        }
    }
}

/// The lower-case hexadecimal digit that stands for `d`.
pub open spec fn hex_char(d: nat) -> char {
    if d < 10 {
        (48 + d) as char
    } else {
        (87 + d) as char
    }
}

/// The two lower-case hexadecimal digits of a byte.
pub open spec fn hex_byte_text(b: u8) -> Seq<char> {
    seq![hex_char((b / 16) as nat), hex_char((b % 16) as nat)]
}

/// The text of one hexadecimal digit.
fn hex_digit_text(d: u8) -> (r: &'static str)
    requires
        d < 16,
    ensures
        r@ == seq![hex_char(d as nat)],
{
    proof {
        reveal_strlit("a");
        reveal_strlit("b");
        reveal_strlit("c");
        reveal_strlit("d");
        reveal_strlit("e");
        reveal_strlit("f");
    }
    if d < 10 {
        digit_text(d as u64)
    } else {
        let r = if d == 10 {
            "a"
        } else if d == 11 {
            "b"
        } else if d == 12 {
            "c"
        } else if d == 13 {
            "d"
        } else if d == 14 {
            "e"
        } else {
            "f"
        };
        assert(r@ =~= seq![hex_char(d as nat)]);
        r
    }
}

/// Appends the two lower-case hexadecimal digits of `b` to `out`.
pub fn push_hex_byte(out: &mut String, b: u8)
    ensures
        final(out)@ == old(out)@ + hex_byte_text(b),
{
    out.append(hex_digit_text(b / 16));
    out.append(hex_digit_text(b % 16));
    assert(old(out)@ + seq![hex_char((b / 16) as nat)] + seq![hex_char((b % 16) as nat)] =~= old(
        out,
    )@ + hex_byte_text(b));
}

/// Tells whether two strings hold the same text.
pub fn same_text(a: &str, b: &str) -> (same: bool)
    ensures
        same == (a@ == b@),
{
    let x = to_chars(a);
    let y = to_chars(b);
    if x.len() != y.len() {
        return false;
    }
    let n = x.len();
    let mut i: usize = 0;
    while i < n
        invariant
            i <= n,
            n == x@.len(),
            n == y@.len(),
            x@ == a@,
            y@ == b@,
            forall|j: int| 0 <= j < i ==> x@[j] == y@[j],
        decreases n - i,
    {
        if x[i] != y[i] {
            assert(a@[i as int] != b@[i as int]);
            return false;
        }
        i = i + 1;
    }
    assert(x@ =~= y@);
    true
}

/// Whether `s` ends with `suffix`.
pub open spec fn has_suffix(s: Seq<char>, suffix: Seq<char>) -> bool {
    s.len() >= suffix.len() && s.subrange(s.len() - suffix.len(), s.len() as int) == suffix
}

/// Tells whether `s` ends with `suffix`.
pub fn ends_with(s: &str, suffix: &str) -> (b: bool)
    ensures
        b == has_suffix(s@, suffix@),
{
    let x = to_chars(s);
    let y = to_chars(suffix);
    if x.len() < y.len() {
        return false;
    }
    let start = x.len() - y.len();
    let tail = slice_subrange(x.as_slice(), start, x.len());
    let n = y.len();
    let mut i: usize = 0;
    while i < n
        invariant
            i <= n,
            n == y@.len(),
            n == tail@.len(),
            y@ == suffix@,
            tail@ == s@.subrange(s@.len() - suffix@.len(), s@.len() as int),
            forall|j: int| 0 <= j < i ==> tail@[j] == y@[j],
        decreases n - i,
    {
        if tail[i] != y[i] {
            assert(tail@[i as int] != suffix@[i as int]);
            return false;
        }
        i = i + 1;
    }
    assert(tail@ =~= y@);
    true
}

} // verus!
