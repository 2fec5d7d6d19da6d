//! Character-level text handling shared by every parser and formatter.
//!
//! Strings are read once into a `Vec<char>` and handled there, where their
//! contents are a plain `Seq<char>`. Each helper states what it computes over
//! that sequence, so a parser's contract can be written in the same terms.

use vstd::prelude::*;
use vstd::string::*;

verus! {

// ---------------------------------------------------------------------------
// Classes of characters
// ---------------------------------------------------------------------------

/// Unicode `White_Space`, the set `str::trim` strips.
pub open spec fn is_white_space(c: char) -> bool {
    let u = c as u32;
    (9 <= u && u <= 13) || u == 32 || u == 0x85 || u == 0xA0 || u == 0x1680 || (0x2000 <= u && u
        <= 0x200A) || u == 0x2028 || u == 0x2029 || u == 0x202F || u == 0x205F || u == 0x3000
}

pub fn is_white(c: char) -> (r: bool)
    ensures
        r == is_white_space(c),
{
    let u = c as u32;
    (9 <= u && u <= 13) || u == 32 || u == 0x85 || u == 0xA0 || u == 0x1680 || (0x2000 <= u && u
        <= 0x200A) || u == 0x2028 || u == 0x2029 || u == 0x202F || u == 0x205F || u == 0x3000
}

pub open spec fn is_digit(c: char) -> bool {
    '0' <= c && c <= '9'
}

pub open spec fn digit_value(c: char) -> nat {
    (c as u32 - '0' as u32) as nat
}

pub open spec fn is_hex_digit(c: char) -> bool {
    ('0' <= c && c <= '9') || ('a' <= c && c <= 'f') || ('A' <= c && c <= 'F')
}

pub open spec fn hex_value(c: char) -> nat {
    if '0' <= c && c <= '9' {
        (c as u32 - '0' as u32) as nat
    } else if 'a' <= c && c <= 'f' {
        (c as u32 - 'a' as u32 + 10) as nat
    } else {
        (c as u32 - 'A' as u32 + 10) as nat
    }
}

pub open spec fn is_lower(c: char) -> bool {
    'a' <= c && c <= 'z'
}

pub open spec fn is_upper(c: char) -> bool {
    'A' <= c && c <= 'Z'
}

/// ASCII lowercase of one character; everything else is left alone.
pub open spec fn lower_char(c: char) -> char {
    if is_upper(c) {
        ((c as u32) + 32) as char
    } else {
        c
    }
}

pub fn lower_char_exec(c: char) -> (r: char)
    ensures
        r == lower_char(c),
{
    if 'A' <= c && c <= 'Z' {
        let u = c as u32 + 32;
        assert(u <= 0x7f);
        char_of_ascii(u as u8)
    } else {
        c
    }
}

/// The character with an ASCII code point.
pub fn char_of_ascii(b: u8) -> (c: char)
    requires
        b < 128,
    ensures
        c as u32 == b as u32,
{
    b as char
}

pub open spec fn digit_char(d: nat) -> char {
    ((d + 48) as u32) as char
}

pub fn digit_char_exec(d: u64) -> (c: char)
    requires
        d < 10,
    ensures
        c == digit_char(d as nat),
{
    char_of_ascii((d as u8) + 48)
}

// ---------------------------------------------------------------------------
// Whole sequences
// ---------------------------------------------------------------------------

pub open spec fn all_digits(s: Seq<char>) -> bool {
    forall|i: int| 0 <= i < s.len() ==> is_digit(#[trigger] s[i])
}

pub open spec fn all_hex(s: Seq<char>) -> bool {
    forall|i: int| 0 <= i < s.len() ==> is_hex_digit(#[trigger] s[i])
}

pub open spec fn lower(s: Seq<char>) -> Seq<char> {
    s.map_values(|c: char| lower_char(c))
}

/// The value of a run of decimal digits, most significant first.
pub open spec fn digits_value(s: Seq<char>) -> nat
    decreases s.len(),
{
    if s.len() == 0 {
        0
    } else {
        digits_value(s.drop_last()) * 10 + digit_value(s.last())
    }
}

/// The value of a run of hex digits, most significant first.
pub open spec fn hex_digits_value(s: Seq<char>) -> nat
    decreases s.len(),
{
    if s.len() == 0 {
        0
    } else {
        hex_digits_value(s.drop_last()) * 16 + hex_value(s.last())
    }
}

/// `n` in decimal, without leading zeros.
pub open spec fn decimal(n: nat) -> Seq<char>
    decreases n,
{
    if n < 10 {
        seq![digit_char(n)]
    } else {
        decimal(n / 10).push(digit_char(n % 10))
    }
}

/// `n` in decimal, left-padded with zeros to at least `width` digits.
pub open spec fn padded(n: nat, width: nat) -> Seq<char> {
    let d = decimal(n);
    if d.len() >= width {
        d
    } else {
        Seq::new((width - d.len()) as nat, |i: int| '0') + d
    }
}

/// How many of the leading characters of `s` are white space.
pub open spec fn leading_ws(s: Seq<char>) -> nat
    decreases s.len(),
{
    if s.len() == 0 {
        0
    } else if is_white_space(s[0]) {
        1 + leading_ws(s.drop_first())
    } else {
        0
    }
}

/// How many of the trailing characters of `s` are white space.
pub open spec fn trailing_ws(s: Seq<char>) -> nat
    decreases s.len(),
{
    if s.len() == 0 {
        0
    } else if is_white_space(s.last()) {
        1 + trailing_ws(s.drop_last())
    } else {
        0
    }
}

pub open spec fn trim_start(s: Seq<char>) -> Seq<char> {
    s.subrange(leading_ws(s) as int, s.len() as int)
}

pub open spec fn trim_end(s: Seq<char>) -> Seq<char> {
    s.subrange(0, s.len() - trailing_ws(s))
}

/// `str::trim`: white space off both ends.
pub open spec fn trim(s: Seq<char>) -> Seq<char> {
    trim_end(trim_start(s))
}

/// Whether `s` is empty or only white space.
pub open spec fn is_blank(s: Seq<char>) -> bool {
    trim(s).len() == 0
}

/// The index of the first `c` in `s`, or `-1`.
pub open spec fn find(s: Seq<char>, c: char) -> int
    decreases s.len(),
{
    if s.len() == 0 {
        -1
    } else if find(s.drop_last(), c) >= 0 {
        find(s.drop_last(), c)
    } else if s.last() == c {
        s.len() - 1
    } else {
        -1
    }
}

/// The index of the first occurrence of the two-character `pattern`, or `-1`.
pub open spec fn find_pair(s: Seq<char>, a: char, b: char) -> int
    decreases s.len(),
{
    if s.len() < 2 {
        -1
    } else if find_pair(s.drop_last(), a, b) >= 0 {
        find_pair(s.drop_last(), a, b)
    } else if s[s.len() - 2] == a && s.last() == b {
        s.len() - 2
    } else {
        -1
    }
}

/// `str::split(c)`: the pieces between occurrences of `c`, empty ones kept.
pub open spec fn split(s: Seq<char>, c: char) -> Seq<Seq<char>>
    decreases s.len(),
{
    if s.len() == 0 {
        seq![Seq::empty()]
    } else {
        let init = split(s.drop_last(), c);
        if s.last() == c {
            init.push(Seq::empty())
        } else {
            init.update(init.len() - 1, init.last().push(s.last()))
        }
    }
}

/// `str::split_whitespace`: the maximal runs of non-white-space characters.
pub open spec fn words(s: Seq<char>) -> Seq<Seq<char>>
    decreases s.len(),
{
    if s.len() == 0 {
        Seq::empty()
    } else {
        let init = words(s.drop_last());
        if is_white_space(s.last()) {
            init
        } else if s.len() >= 2 && !is_white_space(s[s.len() - 2]) {
            init.update(init.len() - 1, init.last().push(s.last()))
        } else {
            init.push(seq![s.last()])
        }
    }
}

/// `sep`-joined pieces.
pub open spec fn join(pieces: Seq<Seq<char>>, sep: Seq<char>) -> Seq<char>
    decreases pieces.len(),
{
    if pieces.len() == 0 {
        Seq::empty()
    } else if pieces.len() == 1 {
        pieces[0]
    } else {
        join(pieces.drop_last(), sep) + sep + pieces.last()
    }
}

// ---------------------------------------------------------------------------
// Lemmas
// ---------------------------------------------------------------------------

pub proof fn lemma_leading_ws_step(s: Seq<char>, i: int)
    requires
        0 <= i < s.len(),
    ensures
        is_white_space(s[i]) ==> leading_ws(s.subrange(i, s.len() as int)) == 1 + leading_ws(
            s.subrange(i + 1, s.len() as int),
        ),
        !is_white_space(s[i]) ==> leading_ws(s.subrange(i, s.len() as int)) == 0,
{
    assert(s.subrange(i, s.len() as int).drop_first() =~= s.subrange(i + 1, s.len() as int));
}

pub proof fn lemma_trailing_ws_step(s: Seq<char>, j: int)
    requires
        0 < j <= s.len(),
    ensures
        is_white_space(s[j - 1]) ==> trailing_ws(s.subrange(0, j)) == 1 + trailing_ws(
            s.subrange(0, j - 1),
        ),
        !is_white_space(s[j - 1]) ==> trailing_ws(s.subrange(0, j)) == 0,
{
    assert(s.subrange(0, j).drop_last() =~= s.subrange(0, j - 1));
}

pub proof fn lemma_leading_ws_bound(s: Seq<char>)
    ensures
        leading_ws(s) <= s.len(),
    decreases s.len(),
{
    if s.len() > 0 {
        lemma_leading_ws_bound(s.drop_first());
    }
}

pub proof fn lemma_trailing_ws_bound(s: Seq<char>)
    ensures
        trailing_ws(s) <= s.len(),
    decreases s.len(),
{
    if s.len() > 0 {
        lemma_trailing_ws_bound(s.drop_last());
    }
}

/// The first `c`, if any, is where `find` says, and nothing before it is `c`.
pub proof fn lemma_find(s: Seq<char>, c: char)
    ensures
        -1 <= find(s, c) < s.len(),
        find(s, c) >= 0 ==> s[find(s, c)] == c,
        forall|j: int| 0 <= j < s.len() && (find(s, c) < 0 || j < find(s, c)) ==> s[j] != c,
    decreases s.len(),
{
    if s.len() > 0 {
        lemma_find(s.drop_last(), c);
        assert forall|j: int| 0 <= j < s.len() - 1 implies s.drop_last()[j] == s[j] by {}
    }
}

pub proof fn lemma_find_prefix(s: Seq<char>, c: char, i: int)
    requires
        0 <= i < s.len(),
    ensures
        find(s.subrange(0, i + 1), c) == if find(s.subrange(0, i), c) >= 0 {
            find(s.subrange(0, i), c)
        } else if s[i] == c {
            i
        } else {
            -1
        },
{
    assert(s.subrange(0, i + 1).drop_last() =~= s.subrange(0, i));
}

pub proof fn lemma_digits_value_step(s: Seq<char>, i: int)
    requires
        0 <= i < s.len(),
    ensures
        digits_value(s.subrange(0, i + 1)) == digits_value(s.subrange(0, i)) * 10 + digit_value(
            s[i],
        ),
{
    assert(s.subrange(0, i + 1).drop_last() =~= s.subrange(0, i));
}

/// More digits never make a smaller number.
pub proof fn lemma_digits_value_monotone(s: Seq<char>, i: int, j: int)
    requires
        0 <= i <= j <= s.len(),
        all_digits(s),
    ensures
        digits_value(s.subrange(0, i)) <= digits_value(s.subrange(0, j)),
    decreases j - i,
{
    if i < j {
        lemma_digits_value_monotone(s, i, j - 1);
        lemma_digits_value_step(s, j - 1);
    }
}

pub proof fn lemma_decimal_len(n: nat)
    ensures
        decimal(n).len() >= 1,
        n < 10 <==> decimal(n).len() == 1,
    decreases n,
{
    if n >= 10 {
        lemma_decimal_len(n / 10);
    }
}

pub proof fn lemma_decimal_digits(n: nat)
    ensures
        all_digits(decimal(n)),
    decreases n,
{
    if n >= 10 {
        lemma_decimal_digits(n / 10);
    }
}

// ---------------------------------------------------------------------------
// Executable helpers
// ---------------------------------------------------------------------------

/// Append one character to a `String`.
///
/// Trusted: calls std's `String::push`, whose documentation says it appends
/// the given `char` to the end of the string.
#[verifier::external_body]
pub fn push_char(s: &mut String, c: char)
    ensures
        final(s)@ == old(s)@.push(c),
{
    s.push(c);
}

/// The characters of `s`, in order.
pub fn chars_of(s: &str) -> (v: Vec<char>)
    ensures
        v@ == s@,
{
    let n = s.unicode_len();
    let mut v: Vec<char> = Vec::new();
    let mut i: usize = 0;
    while i < n
        invariant
            n == s@.len(),
            i <= n,
            v@ == s@.subrange(0, i as int),
        decreases n - i,
    {
        let c = s.get_char(i);
        v.push(c);
        i = i + 1;
        assert(v@ =~= s@.subrange(0, i as int));
    }
    assert(v@ =~= s@);
    v
}

/// A `String` holding exactly `v`.
pub fn string_of(v: &Vec<char>) -> (s: String)
    ensures
        s@ == v@,
{
    let mut s = String::new();
    push_all(&mut s, v);
    s
}

/// Append every character of `v` to `s`.
pub fn push_all(s: &mut String, v: &Vec<char>)
    ensures
        final(s)@ == old(s)@ + v@,
{
    let ghost start = s@;
    let mut i: usize = 0;
    while i < v.len()
        invariant
            i <= v@.len(),
            s@ == start + v@.subrange(0, i as int),
        decreases v.len() - i,
    {
        push_char(s, v[i]);
        i = i + 1;
        assert(s@ =~= start + v@.subrange(0, i as int));
    }
    assert(v@.subrange(0, v@.len() as int) =~= v@);
}

/// Append a string slice.
pub fn push_str(s: &mut String, t: &str)
    ensures
        final(s)@ == old(s)@ + t@,
{
    s.append(t);
}

/// A `String` that starts as `t`.
pub fn string_from(t: &str) -> (s: String)
    ensures
        s@ == t@,
{
    let mut s = String::new();
    s.append(t);
    assert(s@ =~= t@);
    s
}

/// `v[from..to]` as a new vector.
pub fn slice(v: &Vec<char>, from: usize, to: usize) -> (r: Vec<char>)
    requires
        from <= to <= v@.len(),
    ensures
        r@ == v@.subrange(from as int, to as int),
{
    let mut r: Vec<char> = Vec::new();
    let mut i = from;
    while i < to
        invariant
            from <= i <= to,
            to <= v@.len(),
            r@ == v@.subrange(from as int, i as int),
        decreases to - i,
    {
        r.push(v[i]);
        i = i + 1;
        assert(r@ =~= v@.subrange(from as int, i as int));
    }
    r
}

/// `str::trim` over characters.
pub fn trim_chars(v: &Vec<char>) -> (r: Vec<char>)
    ensures
        r@ == trim(v@),
{
    let n = v.len();
    let mut a: usize = 0;
    assert(v@.subrange(0, n as int) =~= v@);
    while a < n && is_white(v[a])
        invariant
            a <= n,
            n == v@.len(),
            leading_ws(v@) == a + leading_ws(v@.subrange(a as int, n as int)),
        decreases n - a,
    {
        proof {
            lemma_leading_ws_step(v@, a as int);
        }
        a = a + 1;
    }
    proof {
        if a < n {
            lemma_leading_ws_step(v@, a as int);
        } else {
            assert(v@.subrange(a as int, n as int).len() == 0);
        }
    }
    let ghost t = v@.subrange(a as int, n as int);
    assert(t == trim_start(v@));
    assert(t.subrange(0, n - a) =~= t);
    let mut b: usize = n;
    while b > a && is_white(v[b - 1])
        invariant
            a <= b <= n,
            n == v@.len(),
            t == v@.subrange(a as int, n as int),
            trailing_ws(t) == (n - b) + trailing_ws(t.subrange(0, b - a)),
        decreases b - a,
    {
        proof {
            lemma_trailing_ws_step(t, (b - a) as int);
        }
        b = b - 1;
    }
    proof {
        if b > a {
            lemma_trailing_ws_step(t, (b - a) as int);
        } else {
            assert(t.subrange(0, 0).len() == 0);
        }
        assert(t.subrange(0, t.len() - trailing_ws(t)) =~= v@.subrange(a as int, b as int));
    }
    slice(v, a, b)
}

/// The index of the first `c` in `v`, or `None`.
pub fn find_exec(v: &Vec<char>, c: char) -> (r: Option<usize>)
    ensures
        match r {
            Some(i) => find(v@, c) == i,
            None => find(v@, c) == -1,
        },
{
    let mut i: usize = 0;
    while i < v.len()
        invariant
            i <= v@.len(),
            find(v@.subrange(0, i as int), c) == -1,
        decreases v.len() - i,
    {
        proof {
            lemma_find_prefix(v@, c, i as int);
        }
        if v[i] == c {
            assert(v@.subrange(0, v@.len() as int) =~= v@);
            proof {
                lemma_find_prefix_extends(v@, c, (i + 1) as int);
            }
            return Some(i);
        }
        i = i + 1;
    }
    assert(v@.subrange(0, v@.len() as int) =~= v@);
    None
}

/// A found first index stays first in any longer prefix.
pub proof fn lemma_find_prefix_extends(s: Seq<char>, c: char, i: int)
    requires
        0 <= i <= s.len(),
        find(s.subrange(0, i), c) >= 0,
    ensures
        find(s, c) == find(s.subrange(0, i), c),
    decreases s.len() - i,
{
    if i < s.len() {
        lemma_find_prefix(s, c, i);
        lemma_find_prefix_extends(s, c, i + 1);
    } else {
        assert(s.subrange(0, i) =~= s);
    }
}

/// Whether `v` contains `c`.
pub fn contains_char(v: &Vec<char>, c: char) -> (r: bool)
    ensures
        r == v@.contains(c),
{
    let f = find_exec(v, c);
    proof {
        lemma_find(v@, c);
    }
    match f {
        Some(i) => {
            assert(v@[i as int] == c);
            true
        },
        None => false,
    }
}

/// `v` as decimal digits.
pub fn decimal_chars(n: u64) -> (r: Vec<char>)
    ensures
        r@ == decimal(n as nat),
    decreases n,
{
    if n < 10 {
        let mut r: Vec<char> = Vec::new();
        r.push(digit_char_exec(n));
        assert(r@ =~= seq![digit_char(n as nat)]);
        r
    } else {
        let mut r = decimal_chars(n / 10);
        r.push(digit_char_exec(n % 10));
        r
    }
}

/// Append `n` in decimal.
pub fn push_decimal(s: &mut String, n: u64)
    ensures
        final(s)@ == old(s)@ + decimal(n as nat),
{
    let d = decimal_chars(n);
    push_all(s, &d);
}

/// Append `n` in decimal, zero-padded to `width` digits.
pub fn push_padded(s: &mut String, n: u64, width: usize)
    ensures
        final(s)@ == old(s)@ + padded(n as nat, width as nat),
{
    let d = decimal_chars(n);
    let ghost start = s@;
    if d.len() < width {
        let mut k: usize = d.len();
        while k < width
            invariant
                d@.len() <= k <= width,
                s@ == start + Seq::new((k - d@.len()) as nat, |i: int| '0'),
            decreases width - k,
        {
            push_char(s, '0');
            k = k + 1;
            assert(s@ =~= start + Seq::new((k - d@.len()) as nat, |i: int| '0'));
        }
        push_all(s, &d);
        assert(s@ =~= start + padded(n as nat, width as nat));
    } else {
        push_all(s, &d);
    }
}

/// Whether two character vectors are equal.
pub fn chars_eq(a: &Vec<char>, b: &Vec<char>) -> (r: bool)
    ensures
        r == (a@ == b@),
{
    if a.len() != b.len() {
        return false;
    }
    let mut i: usize = 0;
    while i < a.len()
        invariant
            a@.len() == b@.len(),
            i <= a@.len(),
            forall|j: int| 0 <= j < i ==> a@[j] == b@[j],
        decreases a.len() - i,
    {
        if a[i] != b[i] {
            return false;
        }
        i = i + 1;
    }
    assert(a@ =~= b@);
    true
}

/// Whether `v` equals the string slice `t`.
pub fn chars_eq_str(v: &Vec<char>, t: &str) -> (r: bool)
    ensures
        r == (v@ == t@),
{
    let w = chars_of(t);
    chars_eq(v, &w)
}

/// ASCII lowercase of every character.
pub fn lower_chars(v: &Vec<char>) -> (r: Vec<char>)
    ensures
        r@ == lower(v@),
{
    let mut r: Vec<char> = Vec::new();
    let mut i: usize = 0;
    while i < v.len()
        invariant
            i <= v@.len(),
            r@ == lower(v@.subrange(0, i as int)),
        decreases v.len() - i,
    {
        r.push(lower_char_exec(v[i]));
        i = i + 1;
        assert(r@ =~= lower(v@.subrange(0, i as int)));
    }
    assert(v@.subrange(0, v@.len() as int) =~= v@);
    r
}

/// The value of `v` as an unsigned decimal integer, if it is one of at most
/// `max`: `str::parse` for `u8`..`u64`, which accepts one leading `+`.
pub open spec fn parse_unsigned(s: Seq<char>, max: nat) -> Option<nat> {
    let body = if s.len() > 0 && s[0] == '+' {
        s.drop_first()
    } else {
        s
    };
    if body.len() > 0 && all_digits(body) && digits_value(body) <= max {
        Some(digits_value(body))
    } else {
        None
    }
}

pub fn parse_unsigned_exec(v: &Vec<char>, max: u64) -> (r: Option<u64>)
    ensures
        match r {
            Some(n) => parse_unsigned(v@, max as nat) == Some(n as nat),
            None => parse_unsigned(v@, max as nat).is_none(),
        },
{
    let start: usize = if v.len() > 0 && v[0] == '+' {
        1
    } else {
        0
    };
    let ghost body = v@.subrange(start as int, v@.len() as int);
    assert(body =~= (if v@.len() > 0 && v@[0] == '+' {
        v@.drop_first()
    } else {
        v@
    }));
    if start >= v.len() {
        return None;
    }
    let mut acc: u128 = 0;
    let mut i: usize = start;
    while i < v.len()
        invariant
            start <= i <= v@.len(),
            body == v@.subrange(start as int, v@.len() as int),
            body == (if v@.len() > 0 && v@[0] == '+' {
                v@.drop_first()
            } else {
                v@
            }),
            all_digits(body.subrange(0, i - start)),
            acc == digits_value(body.subrange(0, i - start)),
            acc <= max,
        decreases v.len() - i,
    {
        let c = v[i];
        if !('0' <= c && c <= '9') {
            assert(body[i - start] == c);
            assert(!is_digit(body[i - start]));
            assert(!all_digits(body));
            return None;
        }
        proof {
            lemma_digits_value_step(body, (i - start) as int);
            assert(body.subrange(0, i - start + 1).drop_last() =~= body.subrange(0, i - start));
        }
        acc = acc * 10 + ((c as u32 - '0' as u32) as u128);
        i = i + 1;
        assert(all_digits(body.subrange(0, i - start)));
        if acc > max as u128 {
            proof {
                if all_digits(body) {
                    lemma_digits_value_monotone(body, (i - start) as int, body.len() as int);
                    assert(body.subrange(0, body.len() as int) =~= body);
                }
            }
            return None;
        }
    }
    assert(body.subrange(0, body.len() as int) =~= body);
    Some(acc as u64)
}

/// `v` cut at every `c`, empty pieces kept.
pub fn split_exec(v: &Vec<char>, c: char) -> (r: Vec<Vec<char>>)
    ensures
        r@.map_values(|p: Vec<char>| p@) == split(v@, c),
{
    let mut done: Vec<Vec<char>> = Vec::new();
    let mut cur: Vec<char> = Vec::new();
    let mut i: usize = 0;
    assert(v@.subrange(0, 0) =~= Seq::<char>::empty());
    assert(done@.map_values(|p: Vec<char>| p@).push(cur@) =~= seq![Seq::<char>::empty()]);
    while i < v.len()
        invariant
            i <= v@.len(),
            done@.map_values(|p: Vec<char>| p@).push(cur@) == split(v@.subrange(0, i as int), c),
        decreases v.len() - i,
    {
        let x = v[i];
        let ghost before = done@.map_values(|p: Vec<char>| p@);
        assert(v@.subrange(0, i + 1).drop_last() =~= v@.subrange(0, i as int));
        if x == c {
            done.push(cur);
            cur = Vec::new();
            assert(done@.map_values(|p: Vec<char>| p@) =~= before.push(
                split(v@.subrange(0, i as int), c).last(),
            ));
            assert(done@.map_values(|p: Vec<char>| p@).push(cur@) =~= split(
                v@.subrange(0, i + 1),
                c,
            ));
        } else {
            let ghost old_cur = cur@;
            cur.push(x);
            assert(done@.map_values(|p: Vec<char>| p@).push(cur@) =~= split(
                v@.subrange(0, i + 1),
                c,
            ));
        }
        i = i + 1;
    }
    done.push(cur);
    assert(v@.subrange(0, v@.len() as int) =~= v@);
    assert(done@.map_values(|p: Vec<char>| p@) =~= split(v@, c));
    done
}

pub proof fn lemma_leading_ws_stop(s: Seq<char>)
    ensures
        leading_ws(s) <= s.len(),
        leading_ws(s) < s.len() ==> !is_white_space(s[leading_ws(s) as int]),
        forall|j: int| 0 <= j < leading_ws(s) ==> is_white_space(#[trigger] s[j]),
    decreases s.len(),
{
    if s.len() > 0 && is_white_space(s[0]) {
        lemma_leading_ws_stop(s.drop_first());
        assert forall|j: int| 0 <= j < leading_ws(s) implies is_white_space(#[trigger] s[j]) by {
            if j > 0 {
                assert(s[j] == s.drop_first()[j - 1]);
            }
        }
    }
}

pub proof fn lemma_trailing_ws_stop(s: Seq<char>)
    ensures
        trailing_ws(s) <= s.len(),
        trailing_ws(s) < s.len() ==> !is_white_space(s[s.len() - 1 - trailing_ws(s)]),
        forall|j: int| s.len() - trailing_ws(s) <= j < s.len() ==> is_white_space(#[trigger] s[j]),
    decreases s.len(),
{
    if s.len() > 0 && is_white_space(s.last()) {
        lemma_trailing_ws_stop(s.drop_last());
        assert forall|j: int| s.len() - trailing_ws(s) <= j < s.len() implies is_white_space(
            #[trigger] s[j],
        ) by {
            if j < s.len() - 1 {
                assert(s[j] == s.drop_last()[j]);
            }
        }
    }
}

/// `m` is the count of leading white space when the first `m` characters are
/// white space and the next one, if any, is not.
pub proof fn lemma_leading_ws_is(s: Seq<char>, m: int)
    requires
        0 <= m <= s.len(),
        forall|j: int| 0 <= j < m ==> is_white_space(#[trigger] s[j]),
        m < s.len() ==> !is_white_space(s[m]),
    ensures
        leading_ws(s) == m,
    decreases m,
{
    if m > 0 {
        let t = s.drop_first();
        assert forall|j: int| 0 <= j < m - 1 implies is_white_space(#[trigger] t[j]) by {
            assert(t[j] == s[j + 1]);
        }
        if m - 1 < t.len() {
            assert(t[m - 1] == s[m]);
        }
        lemma_leading_ws_is(t, m - 1);
        assert(is_white_space(s[0]));
    }
}

/// `m` is the count of trailing white space when the last `m` characters are
/// white space and the one before them, if any, is not.
pub proof fn lemma_trailing_ws_is(s: Seq<char>, m: int)
    requires
        0 <= m <= s.len(),
        forall|j: int| s.len() - m <= j < s.len() ==> is_white_space(#[trigger] s[j]),
        m < s.len() ==> !is_white_space(s[s.len() - 1 - m]),
    ensures
        trailing_ws(s) == m,
    decreases m,
{
    if m > 0 {
        let t = s.drop_last();
        assert forall|j: int| t.len() - (m - 1) <= j < t.len() implies is_white_space(
            #[trigger] t[j],
        ) by {
            assert(t[j] == s[j]);
        }
        if m - 1 < t.len() {
            assert(t[t.len() - 1 - (m - 1)] == s[s.len() - 1 - m]);
        }
        lemma_trailing_ws_is(t, m - 1);
        assert(is_white_space(s[s.len() - 1]));
    }
}

/// A text with something other than white space in it: the white space on
/// its two ends leaves a non-empty middle, and trimming keeps just that middle.
pub proof fn lemma_trim_middle(s: Seq<char>)
    requires
        trim(s).len() > 0,
    ensures
        leading_ws(s) + trailing_ws(s) < s.len(),
        trim(s) == s.subrange(leading_ws(s) as int, s.len() - trailing_ws(s)),
        !is_white_space(s[leading_ws(s) as int]),
        !is_white_space(s[s.len() - 1 - trailing_ws(s)]),
{
    let l = leading_ws(s) as int;
    let u = trim_start(s);
    lemma_leading_ws_stop(s);
    lemma_trailing_ws_stop(u);
    let tu = trailing_ws(u) as int;
    assert(u.len() - tu > 0);
    assert(u[u.len() - 1 - tu] == s[s.len() - 1 - tu]);
    assert forall|j: int| s.len() - tu <= j < s.len() implies is_white_space(#[trigger] s[j]) by {
        assert(s[j] == u[j - l]);
    }
    lemma_trailing_ws_is(s, tu);
    assert(trim(s) =~= s.subrange(l, s.len() - tu));
}

/// Trimming what `trim_end` left gives what trimming the whole gives.
pub proof fn lemma_trim_of_trim_end(s: Seq<char>)
    requires
        trim(s).len() > 0,
    ensures
        trim_end(s).len() > 0,
        trim(trim_end(s)) == trim(s),
{
    lemma_trim_middle(s);
    lemma_leading_ws_stop(s);
    let l = leading_ws(s) as int;
    let t = trailing_ws(s) as int;
    let e = trim_end(s);
    assert(e == s.subrange(0, s.len() - t));
    assert forall|j: int| 0 <= j < l implies is_white_space(#[trigger] e[j]) by {
        assert(e[j] == s[j]);
    }
    assert(e[l] == s[l]);
    lemma_leading_ws_is(e, l);
    let w = trim_start(e);
    assert(w =~= s.subrange(l, s.len() - t));
    assert(w.len() > 0);
    assert(w[w.len() - 1] == s[s.len() - 1 - t]);
    lemma_trailing_ws_is(w, 0);
    assert(trim_end(w) =~= w);
}

/// A text that starts with something other than white space, then anything
/// with something other than white space in it: trimming takes white space
/// off the end only.
pub proof fn lemma_trim_led(a: Seq<char>, b: Seq<char>)
    requires
        a.len() > 0,
        !is_white_space(a[0]),
        trim(b).len() > 0,
    ensures
        trim(a + b) == a + trim_end(b),
{
    let s = a + b;
    lemma_trim_middle(b);
    let t = trailing_ws(b) as int;
    lemma_trailing_ws_stop(b);
    assert forall|j: int| s.len() - t <= j < s.len() implies is_white_space(#[trigger] s[j]) by {
        assert(s[j] == b[j - a.len()]);
    }
    assert(s[s.len() - 1 - t] == b[b.len() - 1 - t]);
    lemma_trailing_ws_is(s, t);
    lemma_leading_ws_is(s, 0);
    assert(trim_start(s) =~= s);
    assert(trim(s) =~= a + trim_end(b));
}

/// Trimming twice trims nothing more.
pub proof fn lemma_trim_idempotent(s: Seq<char>)
    ensures
        trim(trim(s)) == trim(s),
{
    let u = trim_start(s);
    lemma_leading_ws_stop(s);
    lemma_trailing_ws_stop(u);
    let t = trim(s);
    assert(t == u.subrange(0, u.len() - trailing_ws(u)));
    if t.len() > 0 {
        assert(t[0] == u[0]);
        assert(u[0] == s[leading_ws(s) as int]);
        assert(!is_white_space(t[0]));
        assert(leading_ws(t) == 0);
        assert(t.last() == u[u.len() - 1 - trailing_ws(u)]);
        assert(trailing_ws(t) == 0);
        assert(trim_start(t) =~= t);
        assert(trim_end(t) =~= t);
    } else {
        assert(trim(t) =~= t);
    }
}
/// The value of `v` as plain decimal digits, if they are digits and the
/// value is at most `max`. An empty run is zero.
pub fn digits_value_exec(v: &Vec<char>, max: u64) -> (r: Option<u64>)
    ensures
        match r {
            Some(n) => all_digits(v@) && digits_value(v@) == n && n <= max,
            None => !all_digits(v@) || digits_value(v@) > max,
        },
{
    let mut acc: u128 = 0;
    let mut i: usize = 0;
    while i < v.len()
        invariant
            i <= v@.len(),
            all_digits(v@.subrange(0, i as int)),
            acc == digits_value(v@.subrange(0, i as int)),
            acc <= max,
        decreases v.len() - i,
    {
        let c = v[i];
        if !('0' <= c && c <= '9') {
            assert(!is_digit(v@[i as int]));
            return None;
        }
        proof {
            lemma_digits_value_step(v@, i as int);
        }
        acc = acc * 10 + ((c as u32 - '0' as u32) as u128);
        i = i + 1;
        assert(all_digits(v@.subrange(0, i as int)));
        if acc > max as u128 {
            proof {
                if all_digits(v@) {
                    lemma_digits_value_monotone(v@, i as int, v@.len() as int);
                    assert(v@.subrange(0, v@.len() as int) =~= v@);
                }
            }
            return None;
        }
    }
    assert(v@.subrange(0, v@.len() as int) =~= v@);
    Some(acc as u64)
}

/// Whether some character of `s` is a digit other than zero.
pub open spec fn has_nonzero_digit(s: Seq<char>) -> bool {
    exists|i: int| 0 <= i < s.len() && '1' <= #[trigger] s[i] && s[i] <= '9'
}

pub fn has_nonzero_digit_exec(v: &Vec<char>) -> (r: bool)
    ensures
        r == has_nonzero_digit(v@),
{
    let mut i: usize = 0;
    while i < v.len()
        invariant
            i <= v@.len(),
            forall|j: int| 0 <= j < i ==> !('1' <= #[trigger] v@[j] && v@[j] <= '9'),
        decreases v.len() - i,
    {
        if '1' <= v[i] && v[i] <= '9' {
            assert('1' <= v@[i as int] && v@[i as int] <= '9');
            return true;
        }
        i = i + 1;
    }
    false
}

/// `s` without its trailing zeros.
pub open spec fn strip_zeros(s: Seq<char>) -> Seq<char>
    decreases s.len(),
{
    if s.len() > 0 && s.last() == '0' {
        strip_zeros(s.drop_last())
    } else {
        s
    }
}

pub fn strip_zeros_exec(v: &Vec<char>) -> (r: Vec<char>)
    ensures
        r@ == strip_zeros(v@),
{
    let mut n = v.len();
    assert(v@.subrange(0, n as int) =~= v@);
    while n > 0 && v[n - 1] == '0'
        invariant
            n <= v@.len(),
            strip_zeros(v@) == strip_zeros(v@.subrange(0, n as int)),
        decreases n,
    {
        assert(v@.subrange(0, n as int).drop_last() =~= v@.subrange(0, n - 1));
        n = n - 1;
    }
    slice(v, 0, n)
}

/// `10^k`.
pub open spec fn pow10(k: nat) -> nat
    decreases k,
{
    if k == 0 {
        1
    } else {
        10 * pow10((k - 1) as nat)
    }
}

/// The first `k` characters of `s`, padded with zeros to `k`.
pub open spec fn cut(s: Seq<char>, k: nat) -> Seq<char> {
    if s.len() >= k {
        s.subrange(0, k as int)
    } else {
        s + Seq::new((k - s.len()) as nat, |i: int| '0')
    }
}

pub fn cut_exec(v: &Vec<char>, k: usize) -> (r: Vec<char>)
    ensures
        r@ == cut(v@, k as nat),
{
    if v.len() >= k {
        slice(v, 0, k)
    } else {
        let mut r = slice(v, 0, v.len());
        let mut i = v.len();
        assert(r@ =~= v@ + Seq::new((i - v@.len()) as nat, |j: int| '0'));
        while i < k
            invariant
                v@.len() <= i <= k,
                r@ == v@ + Seq::new((i - v@.len()) as nat, |j: int| '0'),
            decreases k - i,
        {
            r.push('0');
            i = i + 1;
            assert(r@ =~= v@ + Seq::new((i - v@.len()) as nat, |j: int| '0'));
        }
        r
    }
}

pub proof fn lemma_cut_digits(s: Seq<char>, k: nat)
    requires
        all_digits(s),
    ensures
        all_digits(cut(s, k)),
        cut(s, k).len() == k,
{
}

pub proof fn lemma_digits_value_bound(s: Seq<char>)
    requires
        all_digits(s),
    ensures
        digits_value(s) < pow10(s.len()),
    decreases s.len(),
{
    if s.len() > 0 {
        lemma_digits_value_bound(s.drop_last());
        assert(digits_value(s.drop_last()) + 1 <= pow10(s.drop_last().len()));
        assert(digit_value(s.last()) <= 9);
        assert((digits_value(s.drop_last()) + 1) * 10 <= pow10(s.drop_last().len()) * 10)
            by (nonlinear_arith)
            requires
                digits_value(s.drop_last()) + 1 <= pow10(s.drop_last().len()),
        ;
    }
}
pub fn all_digits_exec(v: &Vec<char>) -> (r: bool)
    ensures
        r == all_digits(v@),
{
    let mut i: usize = 0;
    while i < v.len()
        invariant
            i <= v@.len(),
            forall|j: int| 0 <= j < i ==> is_digit(#[trigger] v@[j]),
        decreases v.len() - i,
    {
        if !('0' <= v[i] && v[i] <= '9') {
            assert(!is_digit(v@[i as int]));
            return false;
        }
        i = i + 1;
    }
    true
}

pub proof fn lemma_find_pair_prefix(s: Seq<char>, a: char, b: char, i: int)
    requires
        1 <= i < s.len(),
    ensures
        find_pair(s.subrange(0, i + 1), a, b) == if find_pair(s.subrange(0, i), a, b) >= 0 {
            find_pair(s.subrange(0, i), a, b)
        } else if s[i - 1] == a && s[i] == b {
            i - 1
        } else {
            -1
        },
{
    assert(s.subrange(0, i + 1).drop_last() =~= s.subrange(0, i));
}

pub proof fn lemma_find_pair_prefix_extends(s: Seq<char>, a: char, b: char, i: int)
    requires
        1 <= i <= s.len(),
        find_pair(s.subrange(0, i), a, b) >= 0,
    ensures
        find_pair(s, a, b) == find_pair(s.subrange(0, i), a, b),
    decreases s.len() - i,
{
    if i < s.len() {
        lemma_find_pair_prefix(s, a, b, i);
        lemma_find_pair_prefix_extends(s, a, b, i + 1);
    } else {
        assert(s.subrange(0, i) =~= s);
    }
}

pub proof fn lemma_find_pair(s: Seq<char>, a: char, b: char)
    ensures
        -1 <= find_pair(s, a, b),
        find_pair(s, a, b) >= 0 ==> find_pair(s, a, b) + 1 < s.len(),
        find_pair(s, a, b) >= 0 ==> s[find_pair(s, a, b)] == a && s[find_pair(s, a, b) + 1] == b,
    decreases s.len(),
{
    if s.len() >= 2 {
        lemma_find_pair(s.drop_last(), a, b);
        if find_pair(s.drop_last(), a, b) >= 0 {
            let k = find_pair(s.drop_last(), a, b);
            assert(s.drop_last()[k] == s[k]);
            assert(s.drop_last()[k + 1] == s[k + 1]);
        }
    }
}

/// The index of the first `a` immediately followed by `b`, or `None`.
pub fn find_pair_exec(v: &Vec<char>, a: char, b: char) -> (r: Option<usize>)
    ensures
        match r {
            Some(i) => find_pair(v@, a, b) == i,
            None => find_pair(v@, a, b) == -1,
        },
{
    if v.len() < 2 {
        return None;
    }
    let mut i: usize = 1;
    assert(v@.subrange(0, 1).len() == 1);
    while i < v.len()
        invariant
            1 <= i <= v@.len(),
            find_pair(v@.subrange(0, i as int), a, b) == -1,
        decreases v.len() - i,
    {
        proof {
            lemma_find_pair_prefix(v@, a, b, i as int);
        }
        if v[i - 1] == a && v[i] == b {
            proof {
                lemma_find_pair_prefix_extends(v@, a, b, (i + 1) as int);
            }
            return Some(i - 1);
        }
        i = i + 1;
    }
    assert(v@.subrange(0, v@.len() as int) =~= v@);
    None
}
pub proof fn lemma_pow10_values()
    ensures
        pow10(6) == 1_000_000,
        pow10(9) == 1_000_000_000,
{
    reveal_with_fuel(pow10, 10);
}

pub proof fn lemma_pow10_nine(k: nat)
    requires
        k <= 9,
    ensures
        pow10(k) <= 1_000_000_000,
    decreases k,
{
    if k > 0 {
        lemma_pow10_nine((k - 1) as nat);
        assert(pow10(k) == 10 * pow10((k - 1) as nat));
        if k == 9 {
            lemma_pow10_values();
        } else {
            lemma_pow10_below(k);
        }
    }
}

proof fn lemma_pow10_below(k: nat)
    requires
        k < 9,
    ensures
        pow10(k) <= 100_000_000,
    decreases k,
{
    reveal_with_fuel(pow10, 10);
    if k > 0 {
        lemma_pow10_below((k - 1) as nat);
    }
}

/// `str::split_whitespace` on `v`.
pub fn words_exec(v: &Vec<char>) -> (r: Vec<Vec<char>>)
    ensures
        r@.map_values(|w: Vec<char>| w@) == words(v@),
{
    let mut out: Vec<Vec<char>> = Vec::new();
    let mut i: usize = 0;
    assert(v@.subrange(0, 0) =~= Seq::<char>::empty());
    while i < v.len()
        invariant
            i <= v@.len(),
            out@.map_values(|w: Vec<char>| w@) == words(v@.subrange(0, i as int)),
            (i > 0 && !is_white_space(v@[i - 1])) ==> out@.len() > 0,
        decreases v.len() - i,
    {
        let c = v[i];
        let ghost pre = v@.subrange(0, i as int);
        let ghost next = v@.subrange(0, i + 1);
        assert(next.drop_last() =~= pre);
        assert(next.last() == c);
        if is_white(c) {
        } else if i >= 1 && !is_white(v[i - 1]) {
            assert(next[next.len() - 2] == v@[i - 1]);
            let ghost before = out@;
            let k = out.len() - 1;
            let mut last = out.pop().unwrap();
            last.push(c);
            out.push(last);
            assert(out@.map_values(|w: Vec<char>| w@) =~= before.map_values(|w: Vec<char>| w@).update(
                k as int,
                before[k as int]@.push(c),
            ));
        } else {
            if i >= 1 {
                assert(next[next.len() - 2] == v@[i - 1]);
            }
            let ghost before = out@;
            let mut w: Vec<char> = Vec::new();
            w.push(c);
            out.push(w);
            assert(out@.map_values(|w: Vec<char>| w@) =~= before.map_values(|w: Vec<char>| w@).push(
                seq![c],
            ));
        }
        i = i + 1;
    }
    assert(v@.subrange(0, v@.len() as int) =~= v@);
    out
}

/// The pieces, one after another.
pub open spec fn concat(pieces: Seq<Seq<char>>) -> Seq<char>
    decreases pieces.len(),
{
    if pieces.len() == 0 {
        Seq::empty()
    } else {
        concat(pieces.drop_last()) + pieces.last()
    }
}

/// `str::lines`: the text cut at each newline, a final newline ending the
/// last line rather than starting an empty one, and a carriage return before
/// a newline dropped.
pub open spec fn lines(s: Seq<char>) -> Seq<Seq<char>> {
    if s.len() == 0 {
        Seq::empty()
    } else {
        let body = if s.last() == '\n' {
            s.drop_last()
        } else {
            s
        };
        split(body, '\n').map_values(
            |l: Seq<char>|
                if l.len() > 0 && l.last() == '\r' {
                    l.drop_last()
                } else {
                    l
                },
        )
    }
}

/// `str::lines` on `v`.
pub fn lines_exec(v: &Vec<char>) -> (r: Vec<Vec<char>>)
    ensures
        r@.map_values(|l: Vec<char>| l@) == lines(v@),
{
    if v.len() == 0 {
        let r: Vec<Vec<char>> = Vec::new();
        assert(r@.map_values(|l: Vec<char>| l@) =~= lines(v@));
        return r;
    }
    let body = if v[v.len() - 1] == '\n' {
        slice(v, 0, v.len() - 1)
    } else {
        slice(v, 0, v.len())
    };
    assert(v@.subrange(0, v@.len() as int) =~= v@);
    assert(v@.subrange(0, v@.len() - 1) =~= v@.drop_last());
    let pieces = split_exec(&body, '\n');
    let ghost views = pieces@.map_values(|p: Vec<char>| p@);
    let mut out: Vec<Vec<char>> = Vec::new();
    let mut i: usize = 0;
    while i < pieces.len()
        invariant
            i <= pieces@.len(),
            views == pieces@.map_values(|p: Vec<char>| p@),
            views == split(body@, '\n'),
            lines(v@) == split(body@, '\n').map_values(
                |l: Seq<char>|
                    if l.len() > 0 && l.last() == '\r' {
                        l.drop_last()
                    } else {
                        l
                    },
            ),
            out@.map_values(|l: Vec<char>| l@) == lines(v@).subrange(0, i as int),
        decreases pieces.len() - i,
    {
        let p = &pieces[i];
        assert(views[i as int] == p@);
        let line = if p.len() > 0 && p[p.len() - 1] == '\r' {
            slice(p, 0, p.len() - 1)
        } else {
            slice(p, 0, p.len())
        };
        assert(p@.subrange(0, p@.len() as int) =~= p@);
        assert(p@.subrange(0, p@.len() - 1) =~= p@.drop_last());
        let ghost before = out@;
        out.push(line);
        assert(out@.map_values(|l: Vec<char>| l@) =~= before.map_values(|l: Vec<char>| l@).push(
            line@,
        ));
        assert(lines(v@).subrange(0, i + 1) =~= lines(v@).subrange(0, i as int).push(
            lines(v@)[i as int],
        ));
        i = i + 1;
    }
    assert(lines(v@).subrange(0, pieces@.len() as int) =~= lines(v@));
    out
}



/// A string that neither starts nor ends with white space is its own trim.
pub proof fn lemma_trim_unpadded(s: Seq<char>)
    requires
        s.len() > 0,
        !is_white_space(s[0]),
        !is_white_space(s.last()),
    ensures
        trim(s) == s,
{
    assert(leading_ws(s) == 0);
    assert(trim_start(s) =~= s);
    assert(trailing_ws(s) == 0);
    assert(trim_end(s) =~= s);
}

/// Reading back the decimal digits of `n` gives `n`.
pub proof fn lemma_decimal_value(n: nat)
    ensures
        digits_value(decimal(n)) == n,
        all_digits(decimal(n)),
        decimal(n).len() >= 1,
    decreases n,
{
    lemma_decimal_digits(n);
    lemma_decimal_len(n);
    let d = digit_char(n % 10);
    assert(digit_value(d) == n % 10);
    if n >= 10 {
        lemma_decimal_value(n / 10);
        let s = decimal(n);
        assert(s.drop_last() == decimal(n / 10));
        assert(s.last() == d);
        assert(digits_value(s) == digits_value(decimal(n / 10)) * 10 + digit_value(d));
        assert((n / 10) * 10 + n % 10 == n);
    } else {
        assert(decimal(n) =~= seq![d]);
        assert(decimal(n).drop_last() =~= Seq::<char>::empty());
        assert(digits_value(Seq::<char>::empty()) == 0);
        assert(digits_value(decimal(n)) == digit_value(d));
    }
}


/// `k` zero digits.
pub open spec fn zeros(k: nat) -> Seq<char> {
    Seq::new(k, |i: int| '0')
}

/// Zero digits are worth nothing.
pub proof fn lemma_zeros_value(k: nat)
    ensures
        digits_value(zeros(k)) == 0,
        all_digits(zeros(k)),
    decreases k,
{
    if k > 0 {
        lemma_zeros_value((k - 1) as nat);
        assert(zeros(k).drop_last() =~= zeros((k - 1) as nat));
    }
}

/// The value of two runs of digits written one after the other.
pub proof fn lemma_digits_value_concat(a: Seq<char>, b: Seq<char>)
    ensures
        digits_value(a + b) == digits_value(a) * pow10(b.len()) + digits_value(b),
    decreases b.len(),
{
    if b.len() == 0 {
        assert(a + b =~= a);
        assert(pow10(0) == 1);
        assert(digits_value(b) == 0);
        assert(digits_value(a) * 1 == digits_value(a));
    } else {
        lemma_digits_value_concat(a, b.drop_last());
        assert((a + b).drop_last() =~= a + b.drop_last());
        assert((a + b).last() == b.last());
        let x = digits_value(a);
        let p = pow10(b.drop_last().len());
        let y = digits_value(b.drop_last());
        let l = digit_value(b.last());
        assert(digits_value(a + b) == digits_value(a + b.drop_last()) * 10 + l);
        assert(digits_value(a + b.drop_last()) == x * p + y);
        assert(digits_value(b) == y * 10 + l);
        assert(pow10(b.len()) == 10 * p);
        assert((x * p + y) * 10 == x * (10 * p) + y * 10) by (nonlinear_arith);
    }
}

/// Below `10^k`, a number has at most `k` decimal digits.
pub proof fn lemma_decimal_len_bound(n: nat, k: nat)
    requires
        k >= 1,
        n < pow10(k),
    ensures
        decimal(n).len() <= k,
    decreases n,
{
    lemma_decimal_len(n);
    if n >= 10 {
        assert(k >= 2) by {
            if k == 1 {
                assert(pow10(1) == 10 * pow10(0));
            }
        }
        assert(pow10(k) == 10 * pow10((k - 1) as nat));
        lemma_decimal_len_bound(n / 10, (k - 1) as nat);
    }
}

/// Zero-padding keeps the value and gives exactly `width` digits.
pub proof fn lemma_padded(n: nat, width: nat)
    requires
        decimal(n).len() <= width,
    ensures
        padded(n, width).len() == width,
        all_digits(padded(n, width)),
        digits_value(padded(n, width)) == n,
{
    let d = decimal(n);
    lemma_decimal_value(n);
    let z = zeros((width - d.len()) as nat);
    lemma_zeros_value((width - d.len()) as nat);
    if d.len() < width {
        assert(padded(n, width) == z + d);
        lemma_digits_value_concat(z, d);
    }
}

/// Dropping trailing zeros keeps a prefix, and zeros put the rest back.
pub proof fn lemma_strip_zeros_split(s: Seq<char>)
    ensures
        strip_zeros(s).len() <= s.len(),
        strip_zeros(s) + zeros((s.len() - strip_zeros(s).len()) as nat) == s,
    decreases s.len(),
{
    if s.len() > 0 && s.last() == '0' {
        lemma_strip_zeros_split(s.drop_last());
        let t = strip_zeros(s.drop_last());
        assert(t + zeros((s.len() - t.len()) as nat) =~= (t + zeros((s.len() - 1 - t.len()) as nat)).push('0'));
        assert(s =~= s.drop_last().push('0'));
    } else {
        assert(s + zeros(0) =~= s);
    }
}

} // verus!
