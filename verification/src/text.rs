//! Character and string building blocks: decimal numbers, parsing of
//! stored numbers, and appending characters to strings.

use vstd::prelude::*;

verus! {

/// Appends one character to a string (`String::push`).
/// Claimed: the string afterwards is the old one followed by `c`.
#[verifier::external_body]
pub(crate) fn push_char(s: &mut String, c: char)
    ensures
        final(s)@ == old(s)@.push(c),
{
    s.push(c);
}

/// The ASCII digit for a value below ten.
pub open spec fn digit_char(d: nat) -> char {
    if d == 0 { '0' }
    else if d == 1 { '1' }
    else if d == 2 { '2' }
    else if d == 3 { '3' }
    else if d == 4 { '4' }
    else if d == 5 { '5' }
    else if d == 6 { '6' }
    else if d == 7 { '7' }
    else if d == 8 { '8' }
    else { '9' }
}

/// The value of an ASCII digit character.
pub open spec fn digit_value(c: char) -> nat {
    if c == '0' { 0 }
    else if c == '1' { 1 }
    else if c == '2' { 2 }
    else if c == '3' { 3 }
    else if c == '4' { 4 }
    else if c == '5' { 5 }
    else if c == '6' { 6 }
    else if c == '7' { 7 }
    else if c == '8' { 8 }
    else { 9 }
}

pub open spec fn is_digit(c: char) -> bool {
    '0' <= c && c <= '9'
}

/// The shortest decimal spelling of `n`, as `to_string` writes it.
pub open spec fn decimal(n: nat) -> Seq<char>
    decreases n,
{
    if n < 10 {
        seq![digit_char(n)]
    } else {
        decimal(n / 10).push(digit_char(n % 10))
    }
}

fn digit_to_char(d: u64) -> (c: char)
    requires
        d < 10,
    ensures
        c == digit_char(d as nat),
{
    if d == 0 { '0' }
    else if d == 1 { '1' }
    else if d == 2 { '2' }
    else if d == 3 { '3' }
    else if d == 4 { '4' }
    else if d == 5 { '5' }
    else if d == 6 { '6' }
    else if d == 7 { '7' }
    else if d == 8 { '8' }
    else { '9' }
}

/// Appends the decimal spelling of `n` to `s`.
pub fn push_decimal(s: &mut String, n: u64)
    ensures
        final(s)@ == old(s)@ + decimal(n as nat),
    decreases n,
{
    if n < 10 {
        let c = digit_to_char(n);
        push_char(s, c);
        assert(decimal(n as nat) == seq![digit_char(n as nat)]);
        assert(old(s)@.push(c) =~= old(s)@ + seq![c]);
    } else {
        push_decimal(s, n / 10);
        let c = digit_to_char(n % 10);
        let ghost mid = s@;
        push_char(s, c);
        assert(s@ =~= old(s)@ + decimal((n / 10) as nat).push(c));
    }
}

/// The decimal spelling of `n` (`n.to_string()`).
pub fn u64_to_decimal(n: u64) -> (r: String)
    ensures
        r@ == decimal(n as nat),
{
    let mut s = String::new();
    push_decimal(&mut s, n);
    assert(s@ =~= decimal(n as nat));
    s
}


/// The value of a string of ASCII digits, most significant first.
pub open spec fn digits_value(s: Seq<char>) -> nat
    decreases s.len(),
{
    if s.len() == 0 {
        0
    } else {
        digits_value(s.drop_last()) * 10 + digit_value(s.last())
    }
}

pub open spec fn all_digits(s: Seq<char>) -> bool {
    forall|i: int| 0 <= i < s.len() ==> is_digit(#[trigger] s[i])
}

/// What is left once an optional leading `+` is taken off.
pub open spec fn without_plus(s: Seq<char>) -> Seq<char> {
    if s.len() > 0 && s[0] == '+' {
        s.drop_first()
    } else {
        s
    }
}

/// `str::parse::<u64>`: an optional `+`, then one or more ASCII digits whose
/// value fits in a `u64`; anything else is refused.
pub open spec fn parse_u64_spec(s: Seq<char>) -> Option<u64> {
    let b = without_plus(s);
    if b.len() > 0 && all_digits(b) && digits_value(b) <= u64::MAX {
        Some(digits_value(b) as u64)
    } else {
        None
    }
}

/// `str::parse::<i32>`: an optional sign, then one or more ASCII digits
/// whose signed value fits in an `i32`; anything else is refused.
pub open spec fn parse_i32_spec(s: Seq<char>) -> Option<i32> {
    if s.len() > 0 && s[0] == '-' {
        let b = s.drop_first();
        if b.len() > 0 && all_digits(b) && digits_value(b) <= 0x8000_0000 {
            Some((0 - digits_value(b)) as i32)
        } else {
            None
        }
    } else {
        let b = without_plus(s);
        if b.len() > 0 && all_digits(b) && digits_value(b) <= 0x7fff_ffff {
            Some(digits_value(b) as i32)
        } else {
            None
        }
    }
}

/// The spelling of an `i32` by `to_string`: a minus sign before negative values.
pub open spec fn signed_decimal(n: int) -> Seq<char> {
    if n < 0 {
        seq!['-'] + decimal((0 - n) as nat)
    } else {
        decimal(n as nat)
    }
}

proof fn lemma_digits_value_prefix(b: Seq<char>, k: int)
    requires
        0 <= k <= b.len(),
    ensures
        digits_value(b.take(k)) <= digits_value(b),
    decreases b.len() - k,
{
    if k < b.len() {
        lemma_digits_value_prefix(b, k + 1);
        assert(b.take(k + 1).drop_last() =~= b.take(k));
    } else {
        assert(b.take(k) =~= b);
    }
}

fn char_digit_value(c: char) -> (d: u64)
    requires
        is_digit(c),
    ensures
        d == digit_value(c),
        d < 10,
{
    if c == '0' { 0 }
    else if c == '1' { 1 }
    else if c == '2' { 2 }
    else if c == '3' { 3 }
    else if c == '4' { 4 }
    else if c == '5' { 5 }
    else if c == '6' { 6 }
    else if c == '7' { 7 }
    else if c == '8' { 8 }
    else { 9 }
}

fn is_ascii_digit(c: char) -> (r: bool)
    ensures
        r == is_digit(c),
{
    '0' <= c && c <= '9'
}

/// Reads the digits of `s` from position `start` to its end, accepting them
/// when they are all digits and their value is at most `limit`.
fn parse_digits_from(s: &str, start: usize, limit: u64) -> (r: Option<u64>)
    requires
        start < s@.len(),
    ensures
        ({
            let b = s@.subrange(start as int, s@.len() as int);
            r == (if all_digits(b) && digits_value(b) <= limit {
                Some(digits_value(b) as u64)
            } else {
                None
            })
        }),
{
    let n = s.unicode_len();
    let ghost b = s@.subrange(start as int, s@.len() as int);
    let mut v: u64 = 0;
    let mut j: usize = start;
    assert(b.take(0) =~= Seq::<char>::empty());
    while j < n
        invariant
            n == s@.len(),
            start <= j <= n,
            b == s@.subrange(start as int, s@.len() as int),
            all_digits(b.take(j - start)),
            v == digits_value(b.take(j - start)),
            v <= limit,
        decreases n - j,
    {
        let c = s.get_char(j);
        assert(c == b[j - start]);
        if !is_ascii_digit(c) {
            assert(!all_digits(b));
            return None;
        }
        let d = char_digit_value(c);
        assert(b.take(j - start + 1).drop_last() =~= b.take(j - start));
        assert(b.take(j - start + 1).last() == c);
        if d > limit || v > (limit - d) / 10 {
            assert(v * 10 + d > limit) by (nonlinear_arith)
                requires
                    d > limit || v > (limit - d) / 10,
                    d < 10,
            {
            }
            proof {
                if all_digits(b) {
                    lemma_digits_value_prefix(b, j - start + 1);
                }
            }
            return None;
        }
        assert(v * 10 + d <= limit) by (nonlinear_arith)
            requires
                v <= (limit - d) / 10,
                d < 10,
                limit >= d,
        {
        }
        v = v * 10 + d;
        j = j + 1;
        assert forall|i: int| 0 <= i < j - start implies is_digit(#[trigger] b.take(j - start)[i]) by {
            if i < j - start - 1 {
                assert(b.take(j - start)[i] == b.take(j - start - 1)[i]);
            }
        }
    }
    assert(b.take(n - start) =~= b);
    Some(v)
}


/// `s.parse::<u64>().ok()`.
pub fn parse_u64(s: &str) -> (r: Option<u64>)
    ensures
        r == parse_u64_spec(s@),
{
    let n = s.unicode_len();
    if n == 0 {
        return None;
    }
    let start: usize = if s.get_char(0) == '+' { 1 } else { 0 };
    if start == n {
        return None;
    }
    let r = parse_digits_from(s, start, u64::MAX);
    assert(s@.subrange(start as int, s@.len() as int) =~= without_plus(s@));
    r
}

/// `s.parse::<i32>().ok()`.
pub fn parse_i32(s: &str) -> (r: Option<i32>)
    ensures
        r == parse_i32_spec(s@),
{
    let n = s.unicode_len();
    if n == 0 {
        return None;
    }
    let first = s.get_char(0);
    if first == '-' {
        if n == 1 {
            return None;
        }
        assert(s@.subrange(1, s@.len() as int) =~= s@.drop_first());
        match parse_digits_from(s, 1, 0x8000_0000) {
            Some(v) => {
                let r: i64 = 0 - (v as i64);
                Some(r as i32)
            },
            None => None,
        }
    } else {
        let start: usize = if first == '+' { 1 } else { 0 };
        if start == n {
            return None;
        }
        assert(s@.subrange(start as int, s@.len() as int) =~= without_plus(s@));
        match parse_digits_from(s, start, 0x7fff_ffff) {
            Some(v) => Some(v as i32),
            None => None,
        }
    }
}

/// The spelling of `n` by `n.to_string()`.
pub fn i32_to_decimal(n: i32) -> (r: String)
    ensures
        r@ == signed_decimal(n as int),
{
    let mut s = String::new();
    if n < 0 {
        push_char(&mut s, '-');
        let m: i64 = 0 - (n as i64);
        push_decimal(&mut s, m as u64);
        assert(s@ =~= seq!['-'] + decimal((0 - n) as nat));
    } else {
        push_decimal(&mut s, n as u64);
        assert(s@ =~= decimal(n as nat));
    }
    s
}

/// A decimal spelling is a non-empty run of digits whose value is the number.
pub proof fn lemma_decimal_digits(n: nat)
    ensures
        decimal(n).len() > 0,
        all_digits(decimal(n)),
        digits_value(decimal(n)) == n,
        decimal(n)[0] != '+' && decimal(n)[0] != '-',
    decreases n,
{
    if n < 10 {
        assert(digit_value(digit_char(n)) == n);
        assert(decimal(n).drop_last() =~= Seq::<char>::empty());
        assert(digits_value(Seq::<char>::empty()) == 0);
        assert(digits_value(decimal(n)) == digits_value(decimal(n).drop_last()) * 10 + digit_value(decimal(n).last()));
    } else {
        lemma_decimal_digits(n / 10);
        let d = decimal(n / 10);
        assert(decimal(n).drop_last() =~= d);
        assert(digit_value(digit_char(n % 10)) == n % 10);
        assert(digits_value(decimal(n)) == (n / 10) * 10 + n % 10);
        assert(decimal(n)[0] == d[0]);
        assert forall|i: int| 0 <= i < decimal(n).len() implies is_digit(#[trigger] decimal(n)[i]) by {
            if i < d.len() {
                assert(decimal(n)[i] == d[i]);
            }
        }
    }
}

/// Reading back what `u64_to_decimal` wrote gives the number again.
pub proof fn lemma_parse_u64_decimal(n: u64)
    ensures
        parse_u64_spec(decimal(n as nat)) == Some(n),
{
    lemma_decimal_digits(n as nat);
}

/// Reading back what `i32_to_decimal` wrote gives the number again.
pub proof fn lemma_parse_i32_decimal(n: i32)
    ensures
        parse_i32_spec(signed_decimal(n as int)) == Some(n),
{
    if n < 0 {
        let m = (0 - n) as nat;
        lemma_decimal_digits(m);
        assert((seq!['-'] + decimal(m)).drop_first() =~= decimal(m));
    } else {
        lemma_decimal_digits(n as nat);
    }
}


/// What `str::to_lowercase` returns for a string (full Unicode lower-case
/// mapping).
pub uninterp spec fn lowercase(s: Seq<char>) -> Seq<char>;

/// `str::to_lowercase`. Claimed: the result is `lowercase` of the input,
/// which depends on the input alone.
#[verifier::external_body]
pub(crate) fn to_lowercase(s: &str) -> (r: String)
    ensures
        r@ == lowercase(s@),
{
    s.to_lowercase()
}

/// Whether two strings hold the same characters.
pub fn same_text(a: &str, b: &str) -> (r: bool)
    ensures
        r == (a@ == b@),
{
    a.to_owned() == b.to_owned()
}

/// The part of `s` after its last `sep`; all of `s` when it holds none
/// (`s.split(sep).last()`).
pub open spec fn last_segment(s: Seq<char>, sep: char) -> Seq<char>
    decreases s.len(),
{
    if s.len() == 0 {
        s
    } else if s.last() == sep {
        Seq::<char>::empty()
    } else {
        last_segment(s.drop_last(), sep).push(s.last())
    }
}

/// The part of `s` before its last `sep`, when it holds one.
pub open spec fn before_last(s: Seq<char>, sep: char) -> Option<Seq<char>>
    decreases s.len(),
{
    if s.len() == 0 {
        None
    } else if s.last() == sep {
        Some(s.drop_last())
    } else {
        before_last(s.drop_last(), sep)
    }
}

/// Position of the last `sep` in `s`, if any.
pub open spec fn last_index_of(s: Seq<char>, sep: char) -> Option<int>
    decreases s.len(),
{
    if s.len() == 0 {
        None
    } else if s.last() == sep {
        Some(s.len() - 1)
    } else {
        last_index_of(s.drop_last(), sep)
    }
}

/// Where the last `sep` of `s` stands, and what lies before and after it.
pub proof fn lemma_last_index_of(s: Seq<char>, sep: char)
    ensures
        match last_index_of(s, sep) {
            Some(k) => 0 <= k < s.len() && s[k] == sep
                && (forall|j: int| k < j < s.len() ==> s[j] != sep)
                && last_segment(s, sep) == s.subrange(k + 1, s.len() as int)
                && before_last(s, sep) == Some(s.subrange(0, k)),
            None => (forall|j: int| 0 <= j < s.len() ==> s[j] != sep)
                && last_segment(s, sep) == s
                && before_last(s, sep) is None,
        },
    decreases s.len(),
{
    if s.len() > 0 {
        let t = s.drop_last();
        lemma_last_index_of(t, sep);
        if s.last() == sep {
            assert(s.subrange(s.len() as int, s.len() as int) =~= Seq::<char>::empty());
            assert(s.subrange(0, s.len() - 1) =~= t);
        } else {
            match last_index_of(t, sep) {
                Some(k) => {
                    assert(last_index_of(s, sep) == Some(k));
                    assert(s[k] == t[k]);
                    assert forall|j: int| k < j < s.len() implies s[j] != sep by {
                        if j < s.len() - 1 {
                            assert(s[j] == t[j]);
                        }
                    }
                    assert(s.subrange(k + 1, s.len() as int) =~= t.subrange(k + 1, t.len() as int).push(s.last()));
                    assert(s.subrange(0, k) =~= t.subrange(0, k));
                },
                None => {
                    assert(last_index_of(s, sep) is None);
                    assert forall|j: int| 0 <= j < s.len() implies s[j] != sep by {
                        if j < s.len() - 1 {
                            assert(s[j] == t[j]);
                        }
                    }
                    assert(t.push(s.last()) =~= s);
                },
            }
        }
    }
}

/// Finds the last `sep` in `s`, scanning from the end.
pub fn find_last(s: &str, sep: char) -> (r: Option<usize>)
    ensures
        match r {
            Some(k) => last_index_of(s@, sep) == Some(k as int),
            None => last_index_of(s@, sep) is None,
        },
{
    proof { lemma_last_index_of(s@, sep); }
    let n = s.unicode_len();
    let mut i = n;
    while i > 0
        invariant
            n == s@.len(),
            i <= n,
            forall|j: int| i <= j < n ==> s@[j] != sep,
        decreases i,
    {
        if s.get_char(i - 1) == sep {
            proof {
                lemma_last_index_of(s@, sep);
                match last_index_of(s@, sep) {
                    Some(k) => {
                        if k < i - 1 {
                            assert(s@[i - 1] != sep);
                        } else if k > i - 1 {
                            assert(s@[k] != sep);
                        }
                    },
                    None => {
                        assert(s@[i - 1] != sep);
                    },
                }
            }
            return Some(i - 1);
        }
        i = i - 1;
    }
    proof {
        lemma_last_index_of(s@, sep);
        match last_index_of(s@, sep) {
            Some(k) => { assert(s@[k] != sep); },
            None => {},
        }
    }
    None
}

/// `s.split(sep).last().unwrap()`: the text after the last `sep`.
pub fn last_segment_of(s: &str, sep: char) -> (r: String)
    ensures
        r@ == last_segment(s@, sep),
{
    proof { lemma_last_index_of(s@, sep); }
    let n = s.unicode_len();
    match find_last(s, sep) {
        Some(k) => s.substring_char(k + 1, n).to_owned(),
        None => s.to_owned(),
    }
}


/// Three-way lexicographic comparison of character sequences: negative,
/// zero or positive as `a` sorts before, equal to or after `b`. On valid
/// strings this is the order in which Rust compares `str` values, since
/// UTF-8 keeps code point order.
pub open spec fn lex_order(a: Seq<char>, b: Seq<char>) -> int
    decreases a.len(),
{
    if a.len() == 0 {
        if b.len() == 0 { 0 } else { -1 }
    } else if b.len() == 0 {
        1
    } else if a[0] < b[0] {
        -1
    } else if a[0] > b[0] {
        1
    } else {
        lex_order(a.drop_first(), b.drop_first())
    }
}

/// The comparison is antisymmetric and zero exactly on equal sequences.
pub proof fn lemma_lex_order_antisym(a: Seq<char>, b: Seq<char>)
    ensures
        lex_order(a, b) == -lex_order(b, a),
        -1 <= lex_order(a, b) <= 1,
        lex_order(a, b) == 0 <==> a == b,
    decreases a.len(),
{
    if a.len() > 0 && b.len() > 0 {
        lemma_lex_order_antisym(a.drop_first(), b.drop_first());
        if a[0] == b[0] && a.drop_first() == b.drop_first() {
            assert(a =~= seq![a[0]] + a.drop_first());
            assert(b =~= seq![b[0]] + b.drop_first());
        }
        if a == b {
            assert(a.drop_first() == b.drop_first());
        }
    } else if a.len() == 0 && b.len() == 0 {
        assert(a =~= b);
    }
}

/// The "sorts before" relation of the comparison is transitive.
pub proof fn lemma_lex_order_trans(a: Seq<char>, b: Seq<char>, c: Seq<char>)
    requires
        lex_order(a, b) < 0,
        lex_order(b, c) < 0,
    ensures
        lex_order(a, c) < 0,
    decreases a.len(),
{
    if a.len() > 0 && b.len() > 0 && c.len() > 0 && a[0] == b[0] && b[0] == c[0] {
        lemma_lex_order_trans(a.drop_first(), b.drop_first(), c.drop_first());
    }
}

/// Compares two strings character by character.
pub fn compare_text(a: &str, b: &str) -> (r: i8)
    ensures
        r as int == lex_order(a@, b@),
{
    let na = a.unicode_len();
    let nb = b.unicode_len();
    let mut i: usize = 0;
    assert(a@.skip(0) =~= a@);
    assert(b@.skip(0) =~= b@);
    while i < na && i < nb
        invariant
            na == a@.len(),
            nb == b@.len(),
            i <= na,
            i <= nb,
            lex_order(a@, b@) == lex_order(a@.skip(i as int), b@.skip(i as int)),
        decreases na - i,
    {
        let ca = a.get_char(i);
        let cb = b.get_char(i);
        assert(a@.skip(i as int)[0] == ca);
        assert(b@.skip(i as int)[0] == cb);
        if ca < cb {
            return -1;
        }
        if ca > cb {
            return 1;
        }
        assert(a@.skip(i as int).drop_first() =~= a@.skip(i + 1));
        assert(b@.skip(i as int).drop_first() =~= b@.skip(i + 1));
        i = i + 1;
    }
    if i < nb {
        -1
    } else if i < na {
        1
    } else {
        0
    }
}


/// Whether `prefix` opens `s` (`s.starts_with(prefix)`).
pub fn starts_with_text(s: &str, prefix: &str) -> (r: bool)
    ensures
        r == prefix@.is_prefix_of(s@),
{
    let n = s.unicode_len();
    let m = prefix.unicode_len();
    if m > n {
        return false;
    }
    let mut i: usize = 0;
    while i < m
        invariant
            m <= n,
            n == s@.len(),
            m == prefix@.len(),
            i <= m,
            forall|j: int| 0 <= j < i ==> prefix@[j] == s@[j],
        decreases m - i,
    {
        if prefix.get_char(i) != s.get_char(i) {
            return false;
        }
        i = i + 1;
    }
    true
}

/// Unicode White_Space, the characters `char::is_whitespace` accepts and
/// `str::trim` removes.
pub open spec fn is_white(c: char) -> bool {
    ('\u{9}' <= c && c <= '\u{d}') || c == ' ' || c == '\u{85}' || c == '\u{a0}'
        || c == '\u{1680}' || ('\u{2000}' <= c && c <= '\u{200a}') || c == '\u{2028}'
        || c == '\u{2029}' || c == '\u{202f}' || c == '\u{205f}' || c == '\u{3000}'
}

/// Tests one character for Unicode White_Space.
pub fn is_white_char(c: char) -> (r: bool)
    ensures
        r == is_white(c),
{
    ('\u{9}' <= c && c <= '\u{d}') || c == ' ' || c == '\u{85}' || c == '\u{a0}'
        || c == '\u{1680}' || ('\u{2000}' <= c && c <= '\u{200a}') || c == '\u{2028}'
        || c == '\u{2029}' || c == '\u{202f}' || c == '\u{205f}' || c == '\u{3000}'
}

/// Whether `s` holds nothing but white space (`s.trim().is_empty()`).
pub open spec fn is_blank(s: Seq<char>) -> bool {
    forall|i: int| 0 <= i < s.len() ==> is_white(#[trigger] s[i])
}

/// `s` without its leading white space.
pub open spec fn trim_start(s: Seq<char>) -> Seq<char>
    decreases s.len(),
{
    if s.len() > 0 && is_white(s[0]) {
        trim_start(s.drop_first())
    } else {
        s
    }
}

/// `s` without its trailing white space.
pub open spec fn trim_end(s: Seq<char>) -> Seq<char>
    decreases s.len(),
{
    if s.len() > 0 && is_white(s.last()) {
        trim_end(s.drop_last())
    } else {
        s
    }
}

/// `s` without leading and trailing white space (`str::trim`).
pub open spec fn trim(s: Seq<char>) -> Seq<char> {
    trim_end(trim_start(s))
}

proof fn lemma_trim_start_at(s: Seq<char>, k: int)
    requires
        0 <= k <= s.len(),
        forall|j: int| 0 <= j < k ==> is_white(#[trigger] s[j]),
        k == s.len() || !is_white(s[k]),
    ensures
        trim_start(s) == s.skip(k),
    decreases k,
{
    if k == 0 {
        assert(s.skip(0) =~= s);
    } else {
        let t = s.drop_first();
        assert forall|j: int| 0 <= j < k - 1 implies is_white(#[trigger] t[j]) by {
            assert(t[j] == s[j + 1]);
        }
        if k - 1 < t.len() {
            assert(t[k - 1] == s[k]);
        }
        lemma_trim_start_at(t, k - 1);
        assert(t.skip(k - 1) =~= s.skip(k));
    }
}

proof fn lemma_trim_end_at(s: Seq<char>, k: int)
    requires
        0 <= k <= s.len(),
        forall|j: int| k <= j < s.len() ==> is_white(#[trigger] s[j]),
        k == 0 || !is_white(s[k - 1]),
    ensures
        trim_end(s) == s.take(k),
    decreases s.len() - k,
{
    if k == s.len() {
        assert(s.take(k) =~= s);
    } else {
        let t = s.drop_last();
        assert(is_white(s[s.len() - 1]));
        assert forall|j: int| k <= j < t.len() implies is_white(#[trigger] t[j]) by {
            assert(t[j] == s[j]);
        }
        if k > 0 {
            assert(t[k - 1] == s[k - 1]);
        }
        lemma_trim_end_at(t, k);
        assert(t.take(k) =~= s.take(k));
    }
}

/// Trimming leaves nothing exactly when the text is blank.
pub proof fn lemma_trim_empty_iff_blank(s: Seq<char>)
    ensures
        (trim(s).len() == 0) == is_blank(s),
    decreases s.len(),
{
    if s.len() > 0 && is_white(s[0]) {
        lemma_trim_empty_iff_blank(s.drop_first());
        assert(trim(s) == trim(s.drop_first()));
        if is_blank(s.drop_first()) {
            assert forall|i: int| 0 <= i < s.len() implies is_white(#[trigger] s[i]) by {
                if i > 0 {
                    assert(s[i] == s.drop_first()[i - 1]);
                }
            }
        } else {
            let i = choose|i: int| 0 <= i < s.drop_first().len() && !is_white(#[trigger] s.drop_first()[i]);
            assert(s[i + 1] == s.drop_first()[i]);
        }
    } else if s.len() > 0 {
        assert(trim_start(s) == s);
        let k = trim_end(s).len();
        assert(trim_end(s).len() > 0) by {
            lemma_trim_end_nonempty(s);
        }
    }
}

proof fn lemma_trim_end_nonempty(s: Seq<char>)
    requires
        s.len() > 0,
        !is_white(s[0]),
    ensures
        trim_end(s).len() > 0,
    decreases s.len(),
{
    if is_white(s.last()) {
        assert(s.len() > 1);
        assert(s.drop_last()[0] == s[0]);
        lemma_trim_end_nonempty(s.drop_last());
    }
}

/// Finds where the white space at either end of `s[lo..hi]` stops.
fn trim_bounds(s: &str, lo: usize, hi: usize) -> (r: (usize, usize))
    requires
        lo <= hi <= s@.len(),
    ensures
        trim(s@.subrange(lo as int, hi as int)) == s@.subrange(r.0 as int, r.1 as int),
        lo <= r.0 <= r.1 <= hi,
{
    let ghost t = s@.subrange(lo as int, hi as int);
    let mut a = lo;
    while a < hi && is_white_char(s.get_char(a))
        invariant
            lo <= a <= hi,
            hi <= s@.len(),
            t == s@.subrange(lo as int, hi as int),
            forall|j: int| lo <= j < a ==> is_white(#[trigger] s@[j]),
        decreases hi - a,
    {
        a = a + 1;
    }
    proof {
        assert forall|j: int| 0 <= j < a - lo implies is_white(#[trigger] t[j]) by {
            assert(t[j] == s@[lo + j]);
        }
        if a < hi {
            assert(t[a - lo] == s@[a as int]);
        }
        lemma_trim_start_at(t, a - lo);
        assert(t.skip(a - lo) =~= s@.subrange(a as int, hi as int));
    }
    let ghost u = s@.subrange(a as int, hi as int);
    let mut b = hi;
    while b > a && is_white_char(s.get_char(b - 1))
        invariant
            a <= b <= hi,
            hi <= s@.len(),
            u == s@.subrange(a as int, hi as int),
            forall|j: int| b <= j < hi ==> is_white(#[trigger] s@[j]),
        decreases b - a,
    {
        b = b - 1;
    }
    proof {
        assert forall|j: int| b - a <= j < u.len() implies is_white(#[trigger] u[j]) by {
            assert(u[j] == s@[a + j]);
        }
        if b > a {
            assert(u[b - a - 1] == s@[b - 1]);
        }
        lemma_trim_end_at(u, b - a);
        assert(u.take(b - a) =~= s@.subrange(a as int, b as int));
    }
    (a, b)
}

/// `s.trim()`.
pub fn trim_text(s: &str) -> (r: String)
    ensures
        r@ == trim(s@),
{
    let n = s.unicode_len();
    let (a, b) = trim_bounds(s, 0, n);
    assert(s@.subrange(0, n as int) =~= s@);
    s.substring_char(a, b).to_owned()
}

/// Whether `s` is blank: empty once trimmed.
pub fn is_blank_text(s: &str) -> (r: bool)
    ensures
        r == is_blank(s@),
{
    let n = s.unicode_len();
    let mut i: usize = 0;
    while i < n
        invariant
            n == s@.len(),
            i <= n,
            forall|j: int| 0 <= j < i ==> is_white(#[trigger] s@[j]),
        decreases n - i,
    {
        if !is_white_char(s.get_char(i)) {
            return false;
        }
        i = i + 1;
    }
    true
}

/// Position of the first `'\n'` at or after `i`, or the length.
pub open spec fn line_end(s: Seq<char>, i: int) -> int
    decreases s.len() - i,
{
    if i >= s.len() {
        s.len() as int
    } else if s[i] == '\n' {
        i
    } else {
        line_end(s, i + 1)
    }
}

/// The first line of `s` that is not blank, trimmed; empty when there is
/// none (`s.lines().find(|l| !l.trim().is_empty()).unwrap_or("").trim()`).
/// A line ends at `'\n'`; a `'\r'` before it is white space and goes with
/// the trimming.
pub open spec fn first_nonblank_line(s: Seq<char>) -> Seq<char>
    decreases s.len(),
{
    let e = line_end(s, 0);
    let l = s.take(e);
    if trim(l).len() > 0 {
        trim(l)
    } else if e < s.len() {
        proof {
            lemma_line_end(s, 0);
        }
        first_nonblank_line(s.skip(e + 1))
    } else {
        Seq::<char>::empty()
    }
}

/// A line that starts at `i` ends at the next line break, or at the end.
pub proof fn lemma_line_end(s: Seq<char>, i: int)
    requires
        0 <= i <= s.len(),
    ensures
        i <= line_end(s, i) <= s.len(),
        line_end(s, i) < s.len() ==> s[line_end(s, i)] == '\n',
        forall|j: int| i <= j < line_end(s, i) ==> s[j] != '\n',
    decreases s.len() - i,
{
    if i < s.len() && s[i] != '\n' {
        lemma_line_end(s, i + 1);
    }
}

pub(crate) proof fn lemma_line_end_shift(s: Seq<char>, k: int, i: int)
    requires
        0 <= k <= s.len(),
        0 <= i <= s.len() - k,
    ensures
        line_end(s.skip(k), i) == line_end(s, k + i) - k,
    decreases s.len() - k - i,
{
    if i < s.len() - k && s[k + i] != '\n' {
        lemma_line_end_shift(s, k, i + 1);
    }
}

/// The first non-blank line of `s`, trimmed.
pub fn first_nonblank_line_of(s: &str) -> (r: String)
    ensures
        r@ == first_nonblank_line(s@),
{
    let n = s.unicode_len();
    let mut start: usize = 0;
    assert(s@.skip(0) =~= s@);
    while start <= n
        invariant
            n == s@.len(),
            start <= n,
            first_nonblank_line(s@) == first_nonblank_line(s@.skip(start as int)),
        decreases n - start,
    {
        let mut e = start;
        while e < n && s.get_char(e) != '\n'
            invariant
                n == s@.len(),
                start <= e <= n,
                forall|j: int| start <= j < e ==> s@[j] != '\n',
            decreases n - e,
        {
            e = e + 1;
        }
        let ghost rest = s@.skip(start as int);
        proof {
            lemma_line_end(s@, start as int);
            lemma_line_end_shift(s@, start as int, 0);
            let le = line_end(s@, start as int);
            if le < e {
                assert(s@[le] == '\n');
            }
            if e < le {
                assert(s@[e as int] == '\n');
            }
            assert(rest.take(e - start) =~= s@.subrange(start as int, e as int));
        }
        let (a, b) = trim_bounds(s, start, e);
        if a < b {
            return s.substring_char(a, b).to_owned();
        }
        if e == n {
            return String::new();
        }
        assert(rest.skip(e - start + 1) =~= s@.skip(e + 1));
        start = e + 1;
    }
    String::new()
}


proof fn lemma_utf8_len_at_least(s: Seq<char>)
    ensures
        vstd::utf8::encode_utf8(s).len() >= s.len(),
    decreases s.len(),
{
    if s.len() > 0 {
        lemma_utf8_len_at_least(s.drop_first());
    }
}

/// A text is one byte long in UTF-8 exactly when it is one ASCII character.
pub proof fn lemma_one_utf8_byte(s: Seq<char>)
    ensures
        (vstd::utf8::encode_utf8(s).len() == 1) <==> (s.len() == 1 && (s[0] as u32) < 0x80),
{
    if s.len() > 0 {
        lemma_utf8_len_at_least(s.drop_first());
        if s.len() == 1 {
            assert(s.drop_first().len() == 0);
            assert(vstd::utf8::encode_utf8(s.drop_first()).len() == 0);
        }
    }
}

} // verus!
