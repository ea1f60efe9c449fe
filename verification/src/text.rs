use vstd::prelude::*;

verus! {

// ---------------------------------------------------------------------------
// Character classes
// ---------------------------------------------------------------------------

/// Unicode `White_Space`, the set that `char::is_whitespace` and `str::trim` use.
pub open spec fn is_ws(c: char) -> bool {
    let u = c as u32;
    ||| 0x9 <= u <= 0xD
    ||| u == 0x20
    ||| u == 0x85
    ||| u == 0xA0
    ||| u == 0x1680
    ||| 0x2000 <= u <= 0x200A
    ||| u == 0x2028
    ||| u == 0x2029
    ||| u == 0x202F
    ||| u == 0x205F
    ||| u == 0x3000
}

/// Unicode general category `Cc`, the set that `char::is_control` uses.
pub open spec fn is_cc(c: char) -> bool {
    let u = c as u32;
    u <= 0x1F || (0x7F <= u <= 0x9F)
}

pub open spec fn is_ascii_digit_char(c: char) -> bool {
    '0' <= c && c <= '9'
}

pub open spec fn is_ascii_upper_char(c: char) -> bool {
    'A' <= c && c <= 'Z'
}

pub open spec fn is_ascii_lower_char(c: char) -> bool {
    'a' <= c && c <= 'z'
}

pub open spec fn ascii_lower_char(c: char) -> char {
    if is_ascii_upper_char(c) {
        ((c as u32) + 32) as char
    } else {
        c
    }
}

pub open spec fn ascii_lowercase(s: Seq<char>) -> Seq<char> {
    s.map_values(|c: char| ascii_lower_char(c))
}

pub open spec fn ascii_upper_char(c: char) -> char {
    if is_ascii_lower_char(c) {
        ((c as u32) - 32) as char
    } else {
        c
    }
}

/// Whether every character of `s` is ASCII.
pub open spec fn all_ascii(s: Seq<char>) -> bool {
    forall|i: int| 0 <= i < s.len() ==> (#[trigger] s[i] as u32) < 128
}

/// Whether `c` is white space in the sense of `char::is_whitespace`.
pub fn is_whitespace(c: char) -> (b: bool)
    ensures
        b == is_ws(c),
{
    let u = c as u32;
    (0x9 <= u && u <= 0xD) || u == 0x20 || u == 0x85 || u == 0xA0 || u == 0x1680 || (0x2000
        <= u && u <= 0x200A) || u == 0x2028 || u == 0x2029 || u == 0x202F || u == 0x205F || u
        == 0x3000
}

/// Whether `c` is a control character in the sense of `char::is_control`.
pub fn is_control(c: char) -> (b: bool)
    ensures
        b == is_cc(c),
{
    let u = c as u32;
    u <= 0x1F || (0x7F <= u && u <= 0x9F)
}

/// `char::to_ascii_lowercase`.
pub fn to_ascii_lower(c: char) -> (r: char)
    ensures
        r == ascii_lower_char(c),
{
    if 'A' <= c && c <= 'Z' {
        let u = (c as u32) + 32;
        assert(u < 0xD800);
        char_from_ascii_code(u)
    } else {
        c
    }
}

/// The character with an ASCII code point.
fn char_from_ascii_code(u: u32) -> (c: char)
    requires
        u < 128,
    ensures
        c == u as char,
        c as u32 == u,
{
    let b = u as u8;
    b as char
}

// ---------------------------------------------------------------------------
// Strings as character sequences
// ---------------------------------------------------------------------------

/// Appends one character to a string.
#[verifier::external_body]
pub(crate) fn push_char(s: &mut String, c: char)
    ensures
        final(s)@ == old(s)@.push(c),
{
    s.push(c);
}

/// The character sequences of a list of strings.
pub open spec fn string_views(v: Seq<String>) -> Seq<Seq<char>> {
    v.map_values(|s: String| s@)
}

/// The characters of a string slice, in order.
pub fn chars_of(s: &str) -> (v: Vec<char>)
    ensures
        v@ == s@,
{
    let mut v: Vec<char> = Vec::new();
    for c in it: s.chars()
        invariant
            v@ == it.seq().take(it.index() as int),
            it.seq() == s@,
    {
        v.push(c);
    }
    v
}

/// The string made of `v[lo..hi]`.
pub fn string_from_chars(v: &Vec<char>, lo: usize, hi: usize) -> (s: String)
    requires
        lo <= hi <= v@.len(),
    ensures
        s@ == v@.subrange(lo as int, hi as int),
{
    let mut s = String::new();
    let mut i = lo;
    while i < hi
        invariant
            lo <= i <= hi <= v@.len(),
            s@ == v@.subrange(lo as int, i as int),
        decreases hi - i,
    {
        push_char(&mut s, v[i]);
        assert(v@.subrange(lo as int, (i + 1) as int) =~= v@.subrange(lo as int, i as int).push(
            v@[i as int],
        ));
        i = i + 1;
    }
    s
}

/// A fresh string with the contents of a literal or slice.
pub fn owned(s: &str) -> (r: String)
    ensures
        r@ == s@,
{
    s.to_owned()
}

/// Equality of two string slices ignoring the case of ASCII letters.
pub fn eq_ignore_ascii_case(a: &str, b: &str) -> (r: bool)
    ensures
        r == (ascii_lowercase(a@) == ascii_lowercase(b@)),
{
    let va = chars_of(a);
    let vb = chars_of(b);
    if va.len() != vb.len() {
        assert(ascii_lowercase(a@).len() != ascii_lowercase(b@).len());
        return false;
    }
    let mut i: usize = 0;
    while i < va.len()
        invariant
            va@ == a@,
            vb@ == b@,
            va@.len() == vb@.len(),
            i <= va@.len(),
            forall|k: int| 0 <= k < i ==> ascii_lower_char(va@[k]) == ascii_lower_char(vb@[k]),
        decreases va.len() - i,
    {
        if to_ascii_lower(va[i]) != to_ascii_lower(vb[i]) {
            assert(ascii_lowercase(a@)[i as int] != ascii_lowercase(b@)[i as int]);
            return false;
        }
        i = i + 1;
    }
    assert(ascii_lowercase(a@) =~= ascii_lowercase(b@));
    true
}

/// Equality of two string slices by their characters.
pub fn str_eq(a: &str, b: &str) -> (r: bool)
    ensures
        r == (a@ == b@),
{
    let va = chars_of(a);
    let vb = chars_of(b);
    if va.len() != vb.len() {
        return false;
    }
    let mut i: usize = 0;
    while i < va.len()
        invariant
            va@ == a@,
            vb@ == b@,
            va@.len() == vb@.len(),
            i <= va@.len(),
            forall|k: int| 0 <= k < i ==> va@[k] == vb@[k],
        decreases va.len() - i,
    {
        if va[i] != vb[i] {
            return false;
        }
        i = i + 1;
    }
    assert(va@ =~= vb@);
    true
}

// ---------------------------------------------------------------------------
// Trimming
// ---------------------------------------------------------------------------

/// `s` without its leading white space.
pub open spec fn trim_start_spec(s: Seq<char>) -> Seq<char>
    decreases s.len(),
{
    if s.len() > 0 && is_ws(s[0]) {
        trim_start_spec(s.drop_first())
    } else {
        s
    }
}

/// `s` without its trailing white space.
pub open spec fn trim_end_spec(s: Seq<char>) -> Seq<char>
    decreases s.len(),
{
    if s.len() > 0 && is_ws(s.last()) {
        trim_end_spec(s.drop_last())
    } else {
        s
    }
}

/// `s` without leading and trailing white space, as `str::trim` gives it.
pub open spec fn trim_spec(s: Seq<char>) -> Seq<char> {
    trim_end_spec(trim_start_spec(s))
}

/// Whether `s` is empty once trimmed, that is, made of white space only.
pub open spec fn is_blank_spec(s: Seq<char>) -> bool {
    trim_spec(s).len() == 0
}

proof fn lemma_trim_start_skip(s: Seq<char>, i: int)
    requires
        0 <= i <= s.len(),
        forall|k: int| 0 <= k < i ==> is_ws(s[k]),
        i == s.len() || !is_ws(s[i]),
    ensures
        trim_start_spec(s) == s.skip(i),
    decreases i,
{
    if i == 0 {
        assert(s.skip(0) =~= s);
    } else {
        let t = s.drop_first();
        assert forall|k: int| 0 <= k < i - 1 implies is_ws(t[k]) by {
            assert(t[k] == s[k + 1]);
        }
        if i - 1 < t.len() {
            assert(t[i - 1] == s[i]);
        }
        lemma_trim_start_skip(t, i - 1);
        assert(t.skip(i - 1) =~= s.skip(i));
    }
}

proof fn lemma_trim_end_take(s: Seq<char>, j: int)
    requires
        0 <= j <= s.len(),
        forall|k: int| j <= k < s.len() ==> is_ws(s[k]),
        j == 0 || !is_ws(s[j - 1]),
    ensures
        trim_end_spec(s) == s.take(j),
    decreases s.len() - j,
{
    if j == s.len() {
        assert(s.take(j) =~= s);
        if s.len() > 0 {
            assert(s.last() == s[j - 1]);
        }
    } else {
        let t = s.drop_last();
        assert(s.last() == s[s.len() - 1]);
        assert forall|k: int| j <= k < t.len() implies is_ws(t[k]) by {
            assert(t[k] == s[k]);
        }
        if j > 0 {
            assert(t[j - 1] == s[j - 1]);
        }
        lemma_trim_end_take(t, j);
        assert(t.take(j) =~= s.take(j));
    }
}

/// Every character of the trimmed sequence comes from the untrimmed one, in order.
pub proof fn lemma_trim_bounds(s: Seq<char>, i: int, j: int)
    requires
        0 <= i <= j <= s.len(),
        forall|k: int| 0 <= k < i ==> is_ws(s[k]),
        forall|k: int| j <= k < s.len() ==> is_ws(s[k]),
        i == j || (!is_ws(s[i]) && !is_ws(s[j - 1])),
        i == s.len() || !is_ws(s[i]),
    ensures
        trim_spec(s) == s.subrange(i, j),
{
    lemma_trim_start_skip(s, i);
    let t = s.skip(i);
    assert forall|k: int| j - i <= k < t.len() implies is_ws(t[k]) by {
        assert(t[k] == s[k + i]);
    }
    if j - i > 0 {
        assert(t[j - i - 1] == s[j - 1]);
    }
    lemma_trim_end_take(t, j - i);
    assert(t.take(j - i) =~= s.subrange(i, j));
}

/// The bounds of the trimmed part of `v`.
pub fn trim_bounds(v: &Vec<char>) -> (r: (usize, usize))
    ensures
        r.0 <= r.1 <= v@.len(),
        trim_spec(v@) == v@.subrange(r.0 as int, r.1 as int),
{
    let n = v.len();
    let mut i: usize = 0;
    while i < n && is_whitespace(v[i])
        invariant
            i <= n == v@.len(),
            forall|k: int| 0 <= k < i ==> is_ws(v@[k]),
        decreases n - i,
    {
        i = i + 1;
    }
    let mut j: usize = n;
    while j > i && is_whitespace(v[j - 1])
        invariant
            i <= j <= n == v@.len(),
            forall|k: int| j <= k < n ==> is_ws(v@[k]),
        decreases j,
    {
        j = j - 1;
    }
    proof {
        lemma_trim_bounds(v@, i as int, j as int);
    }
    (i, j)
}

/// `str::trim`.
pub fn trim(s: &str) -> (r: String)
    ensures
        r@ == trim_spec(s@),
{
    let v = chars_of(s);
    let (i, j) = trim_bounds(&v);
    string_from_chars(&v, i, j)
}

/// `s.trim().is_empty()`.
pub fn is_blank(s: &str) -> (b: bool)
    ensures
        b == is_blank_spec(s@),
{
    let v = chars_of(s);
    let (i, j) = trim_bounds(&v);
    i == j
}

/// The trimmed string, or `fallback` when nothing is left after trimming.
pub open spec fn trim_or_spec(s: Seq<char>, fallback: Seq<char>) -> Seq<char> {
    if is_blank_spec(s) {
        fallback
    } else {
        trim_spec(s)
    }
}

/// The string as it is, or `fallback` when it is blank.
pub open spec fn or_if_blank_spec(s: Seq<char>, fallback: Seq<char>) -> Seq<char> {
    if is_blank_spec(s) {
        fallback
    } else {
        s
    }
}

/// `s.trim()`, or `fallback` when that is empty.
pub fn trim_or(s: &str, fallback: &str) -> (r: String)
    ensures
        r@ == trim_or_spec(s@, fallback@),
{
    let t = trim(s);
    if t.as_str().is_empty() {
        owned(fallback)
    } else {
        t
    }
}

/// `s` itself, or `fallback` when `s` is blank.
pub fn or_if_blank(s: &str, fallback: &str) -> (r: String)
    ensures
        r@ == or_if_blank_spec(s@, fallback@),
{
    if is_blank(s) {
        owned(fallback)
    } else {
        owned(s)
    }
}

/// A blank string is made of white space only.
pub proof fn lemma_blank_all_ws(s: Seq<char>)
    ensures
        is_blank_spec(s) <==> (forall|k: int| 0 <= k < s.len() ==> is_ws(s[k])),
    decreases s.len(),
{
    if s.len() > 0 {
        if is_ws(s[0]) {
            lemma_blank_all_ws(s.drop_first());
            assert(trim_start_spec(s) == trim_start_spec(s.drop_first()));
            if forall|k: int| 0 <= k < s.drop_first().len() ==> is_ws(s.drop_first()[k]) {
                assert forall|k: int| 0 <= k < s.len() implies is_ws(s[k]) by {
                    if k > 0 {
                        assert(s[k] == s.drop_first()[k - 1]);
                    }
                }
            }
            if forall|k: int| 0 <= k < s.len() ==> is_ws(s[k]) {
                assert forall|k: int| 0 <= k < s.drop_first().len() implies is_ws(
                    s.drop_first()[k],
                ) by {
                    assert(s.drop_first()[k] == s[k + 1]);
                }
            }
        } else {
            assert(trim_start_spec(s) == s);
            lemma_trim_end_nonempty(s);
        }
    } else {
        assert(trim_start_spec(s) == s);
        assert(trim_end_spec(s) == s);
    }
}

proof fn lemma_trim_end_nonempty(s: Seq<char>)
    requires
        s.len() > 0,
        !is_ws(s[0]),
    ensures
        trim_end_spec(s).len() > 0,
    decreases s.len(),
{
    if is_ws(s.last()) {
        assert(s.len() > 1);
        let t = s.drop_last();
        assert(t[0] == s[0]);
        lemma_trim_end_nonempty(t);
    }
}

// ---------------------------------------------------------------------------
// Decimal numbers
// ---------------------------------------------------------------------------

pub open spec fn digit_char(d: nat) -> char {
    ((d + 48) as u32) as char
}

/// The decimal digits of `n`, without sign or leading zeros.
pub open spec fn nat_to_decimal(n: nat) -> Seq<char>
    decreases n,
{
    if n < 10 {
        seq![digit_char(n)]
    } else {
        nat_to_decimal(n / 10).push(digit_char(n % 10))
    }
}

/// `n` written in decimal, with a leading `-` when negative, as `Display` writes integers.
pub open spec fn int_to_decimal(n: int) -> Seq<char> {
    if n < 0 {
        seq!['-'] + nat_to_decimal((-n) as nat)
    } else {
        nat_to_decimal(n as nat)
    }
}

/// The ASCII bytes of `n` written in decimal.
pub open spec fn nat_to_decimal_bytes(n: nat) -> Seq<u8> {
    nat_to_decimal(n).map_values(|c: char| c as u8)
}

fn digit_to_char(d: u64) -> (c: char)
    requires
        d < 10,
    ensures
        c == digit_char(d as nat),
{
    char_from_ascii_code((d + 48) as u32)
}

/// Appends the decimal digits of `n` to `s`.
pub fn push_decimal(s: &mut String, n: u64)
    ensures
        final(s)@ == old(s)@ + nat_to_decimal(n as nat),
    decreases n,
{
    if n >= 10 {
        push_decimal(s, n / 10);
    }
    push_char(s, digit_to_char(n % 10));
    proof {
        if n < 10 {
            assert(n % 10 == n);
        }
    }
    assert(final(s)@ =~= old(s)@ + nat_to_decimal(n as nat));
}

/// Appends the ASCII decimal digits of `n` to `v`.
pub fn push_decimal_bytes(v: &mut Vec<u8>, n: u64)
    ensures
        final(v)@ == old(v)@ + nat_to_decimal_bytes(n as nat),
    decreases n,
{
    if n >= 10 {
        push_decimal_bytes(v, n / 10);
    }
    let d = n % 10;
    v.push((d + 48) as u8);
    proof {
        if n < 10 {
            assert(n % 10 == n);
            assert(nat_to_decimal(n as nat) =~= seq![digit_char(n as nat)]);
        } else {
            assert(nat_to_decimal(n as nat) =~= nat_to_decimal((n / 10) as nat).push(
                digit_char((n % 10) as nat),
            ));
        }
        assert(digit_char(d as nat) as u8 == (d + 48) as u8);
    }
    assert(final(v)@ =~= old(v)@ + nat_to_decimal_bytes(n as nat));
}

/// `i64::to_string`.
pub fn i64_to_string(n: i64) -> (s: String)
    ensures
        s@ == int_to_decimal(n as int),
{
    let mut s = String::new();
    if n < 0 {
        push_char(&mut s, '-');
        let m: u64 = ((-(n + 1)) as u64) + 1;
        push_decimal(&mut s, m);
    } else {
        push_decimal(&mut s, n as u64);
    }
    s
}

/// `usize::to_string`.
pub fn usize_to_string(n: usize) -> (s: String)
    ensures
        s@ == nat_to_decimal(n as nat),
{
    let mut s = String::new();
    push_decimal(&mut s, n as u64);
    s
}

// ---------------------------------------------------------------------------
// Parsing integers
// ---------------------------------------------------------------------------

pub open spec fn all_ascii_digits(s: Seq<char>) -> bool {
    forall|k: int| 0 <= k < s.len() ==> is_ascii_digit_char(#[trigger] s[k])
}

/// The value of a run of ASCII digits.
pub open spec fn digits_value(s: Seq<char>) -> nat
    decreases s.len(),
{
    if s.len() == 0 {
        0
    } else {
        digits_value(s.drop_last()) * 10 + ((s.last() as u32) - 48) as nat
    }
}

/// What `str::parse::<i64>` gives: an optional sign, then one or more ASCII digits whose
/// value fits in an `i64`; anything else is an error (`None`).
pub open spec fn parse_i64_spec(s: Seq<char>) -> Option<int> {
    let neg = s.len() > 0 && s[0] == '-';
    let body = if s.len() > 0 && (s[0] == '-' || s[0] == '+') {
        s.drop_first()
    } else {
        s
    };
    if body.len() == 0 || !all_ascii_digits(body) {
        None
    } else {
        let v: int = if neg {
            -(digits_value(body) as int)
        } else {
            digits_value(body) as int
        };
        if i64::MIN <= v <= i64::MAX {
            Some(v)
        } else {
            None
        }
    }
}

proof fn lemma_digits_value_monotone(s: Seq<char>, i: int)
    requires
        0 <= i <= s.len(),
    ensures
        digits_value(s.take(i)) <= digits_value(s),
    decreases s.len() - i,
{
    if i < s.len() {
        lemma_digits_value_monotone(s, i + 1);
        let t = s.take(i + 1);
        assert(t.drop_last() =~= s.take(i));
    } else {
        assert(s.take(i) =~= s);
    }
}

/// `str::parse::<i64>`, with `None` for every input on which it returns an error.
pub fn parse_i64(s: &str) -> (r: Option<i64>)
    ensures
        r matches Some(v) ==> parse_i64_spec(s@) == Some(v as int),
        r is None ==> parse_i64_spec(s@) is None,
{
    let v = chars_of(s);
    let n = v.len();
    let mut start: usize = 0;
    let mut neg = false;
    if n > 0 && (v[0] == '-' || v[0] == '+') {
        neg = v[0] == '-';
        start = 1;
    }
    let ghost body = if n > 0 && (v@[0] == '-' || v@[0] == '+') {
        v@.drop_first()
    } else {
        v@
    };
    assert(body =~= v@.skip(start as int));
    if start == n {
        return None;
    }
    let limit: u128 = if neg {
        9223372036854775808
    } else {
        9223372036854775807
    };
    let mut acc: u128 = 0;
    let mut i: usize = start;
    while i < n
        invariant
            v@ == s@,
            neg == (v@.len() > 0 && v@[0] == '-'),
            start <= i <= n == v@.len(),
            body == v@.skip(start as int),
            body == (if v@.len() > 0 && (v@[0] == '-' || v@[0] == '+') {
                v@.drop_first()
            } else {
                v@
            }),
            acc as nat == digits_value(body.take(i - start)),
            acc <= limit,
            limit == (if neg { 9223372036854775808u128 } else { 9223372036854775807u128 }),
            all_ascii_digits(body.take(i - start)),
        decreases n - i,
    {
        let c = v[i];
        if !('0' <= c && c <= '9') {
            proof {
                assert(body[i - start] == c);
                assert(!all_ascii_digits(body));
            }
            return None;
        }
        let d = (c as u32 - 48) as u128;
        let ghost prev = acc;
        acc = acc * 10 + d;
        proof {
            let t = body.take(i - start + 1);
            assert(t.drop_last() =~= body.take(i - start));
            assert(t.last() == c);
            assert(digits_value(t) == digits_value(t.drop_last()) * 10 + ((c as u32) - 48) as nat);
            assert(acc as nat == digits_value(t));
            assert forall|k: int| 0 <= k < t.len() implies is_ascii_digit_char(t[k]) by {
                if k < t.len() - 1 {
                    assert(t[k] == body.take(i - start)[k]);
                }
            }
        }
        if acc > limit {
            proof {
                let k = i - start + 1;
                lemma_digits_value_monotone(body, k);
                assert(digits_value(body) >= acc);
            }
            return None;
        }
        i = i + 1;
    }
    assert(body.take(n - start) =~= body);
    if neg {
        if acc == 9223372036854775808 {
            Some(i64::MIN)
        } else {
            Some(-(acc as i64))
        }
    } else {
        Some(acc as i64)
    }
}

pub proof fn lemma_decimal_digits(n: nat)
    ensures
        all_ascii_digits(nat_to_decimal(n)),
        digits_value(nat_to_decimal(n)) == n,
        nat_to_decimal(n).len() > 0,
        nat_to_decimal(n)[0] != '-' && nat_to_decimal(n)[0] != '+',
    decreases n,
{
    if n >= 10 {
        lemma_decimal_digits(n / 10);
        let p = nat_to_decimal(n / 10);
        let s = p.push(digit_char(n % 10));
        assert(s.drop_last() =~= p);
        assert forall|k: int| 0 <= k < s.len() implies is_ascii_digit_char(#[trigger] s[k]) by {
            if k < p.len() {
                assert(s[k] == p[k]);
                assert(is_ascii_digit_char(p[k]));
            }
        }
        assert(s[0] == p[0]);
        assert((digit_char(n % 10) as u32) == (n % 10) + 48);
        assert(s.last() == digit_char(n % 10));
        assert(digits_value(s) == digits_value(p) * 10 + (n % 10));
        assert(nat_to_decimal(n) == s);
        assert(n == (n / 10) * 10 + n % 10) by (nonlinear_arith);
    } else {
        let s = nat_to_decimal(n);
        assert((digit_char(n) as u32) == n + 48);
        assert(s.drop_last() =~= Seq::<char>::empty());
        assert(s.last() == digit_char(n));
        assert(digits_value(s.drop_last()) == 0);
        assert(digits_value(s) == digits_value(s.drop_last()) * 10 + ((s.last() as u32) - 48) as nat);
    }
}

/// Writing an `i64` in decimal and reading it back gives the same number.
pub proof fn lemma_parse_i64_of_decimal(n: i64)
    ensures
        parse_i64_spec(int_to_decimal(n as int)) == Some(n as int),
{
    if n < 0 {
        let m: nat = (-(n as int)) as nat;
        lemma_decimal_digits(m);
        let s = int_to_decimal(n as int);
        assert(s == seq!['-'] + nat_to_decimal(m));
        assert(s.drop_first() =~= nat_to_decimal(m));
    } else {
        lemma_decimal_digits(n as nat);
    }
}

// ---------------------------------------------------------------------------
// Searching
// ---------------------------------------------------------------------------

/// Whether `needle` occurs in `hay` as a contiguous run, as `str::contains` tests it.
pub open spec fn contains_seq(hay: Seq<char>, needle: Seq<char>) -> bool {
    exists|i: int|
        0 <= i <= hay.len() - needle.len() && #[trigger] hay.subrange(i, i + needle.len())
            == needle
}

/// Whether `nd` occurs in `h` at position `i`.
fn occurs_at(h: &Vec<char>, nd: &Vec<char>, i: usize) -> (b: bool)
    requires
        i + nd@.len() <= h@.len(),
    ensures
        b == (h@.subrange(i as int, i + nd@.len()) == nd@),
{
    let mut j: usize = 0;
    while j < nd.len()
        invariant
            i + nd@.len() <= h@.len(),
            h@.len() == h.len(),
            j <= nd@.len(),
            forall|q: int| 0 <= q < j ==> h@[i + q] == nd@[q],
        decreases nd.len() - j,
    {
        if h[i + j] != nd[j] {
            assert(h@.subrange(i as int, i + nd@.len())[j as int] != nd@[j as int]);
            return false;
        }
        j = j + 1;
    }
    assert(h@.subrange(i as int, i + nd@.len()) =~= nd@);
    true
}

/// `hay.contains(needle)` for two strings.
pub fn str_contains(hay: &str, needle: &str) -> (b: bool)
    ensures
        b == contains_seq(hay@, needle@),
{
    let h = chars_of(hay);
    let nd = chars_of(needle);
    if nd.len() == 0 {
        assert(h@.subrange(0int, 0int + nd@.len()) =~= nd@);
        return true;
    }
    if nd.len() > h.len() {
        return false;
    }
    let last = h.len() - nd.len();
    let mut i: usize = 0;
    while i <= last
        invariant
            h@ == hay@,
            nd@ == needle@,
            1 <= nd@.len() <= h@.len(),
            h@.len() == h.len(),
            last == h@.len() - nd@.len(),
            i <= last + 1,
            forall|p: int| 0 <= p < i ==> #[trigger] h@.subrange(p, p + nd@.len()) != nd@,
        decreases last + 1 - i,
    {
        if occurs_at(&h, &nd, i) {
            return true;
        }
        i = i + 1;
    }
    false
}

/// Lexicographic order of character sequences by code point (the order of their UTF-8
/// bytes, which is how `String`s compare).
pub open spec fn text_lt(a: Seq<char>, b: Seq<char>) -> bool
    decreases a.len(),
{
    if a.len() == 0 {
        b.len() > 0
    } else if b.len() == 0 {
        false
    } else if a[0] != b[0] {
        (a[0] as u32) < (b[0] as u32)
    } else {
        text_lt(a.skip(1), b.skip(1))
    }
}

/// The text order is a strict total order: irreflexive, transitive, and any two different
/// texts are ordered one way or the other.
pub proof fn lemma_text_lt_irreflexive(a: Seq<char>)
    ensures
        !text_lt(a, a),
    decreases a.len(),
{
    if a.len() > 0 {
        lemma_text_lt_irreflexive(a.skip(1));
    }
}

pub proof fn lemma_text_lt_transitive(a: Seq<char>, b: Seq<char>, c: Seq<char>)
    requires
        text_lt(a, b),
        text_lt(b, c),
    ensures
        text_lt(a, c),
    decreases a.len(),
{
    if a.len() > 0 && b.len() > 0 && c.len() > 0 && a[0] == b[0] && b[0] == c[0] {
        lemma_text_lt_transitive(a.skip(1), b.skip(1), c.skip(1));
    }
}

pub proof fn lemma_text_lt_total(a: Seq<char>, b: Seq<char>)
    ensures
        a == b || text_lt(a, b) || text_lt(b, a),
    decreases a.len(),
{
    if a.len() > 0 && b.len() > 0 {
        if a[0] == b[0] {
            lemma_text_lt_total(a.skip(1), b.skip(1));
            if a.skip(1) == b.skip(1) {
                assert(a =~= seq![a[0]] + a.skip(1));
                assert(b =~= seq![b[0]] + b.skip(1));
            }
        } else {
            let x = a[0];
            let y = b[0];
            if (x as u32) == (y as u32) {
                vstd::utf8::char_u32_cast(x, x as u32);
                vstd::utf8::char_u32_cast(y, y as u32);
            }
        }
    } else if a.len() == 0 && b.len() == 0 {
        assert(a =~= b);
    }
}

/// Whether `a` sorts before `b` (see `text_lt`).
pub fn text_less(a: &str, b: &str) -> (r: bool)
    ensures
        r == text_lt(a@, b@),
{
    let va = chars_of(a);
    let vb = chars_of(b);
    let mut i: usize = 0;
    assert(va@.skip(0) =~= va@);
    assert(vb@.skip(0) =~= vb@);
    while i < va.len() && i < vb.len() && va[i] == vb[i]
        invariant
            va@ == a@,
            vb@ == b@,
            i <= va@.len(),
            i <= vb@.len(),
            text_lt(a@, b@) == text_lt(va@.skip(i as int), vb@.skip(i as int)),
        decreases va.len() - i,
    {
        assert(va@.skip(i as int).skip(1) =~= va@.skip(i + 1));
        assert(vb@.skip(i as int).skip(1) =~= vb@.skip(i + 1));
        assert(va@.skip(i as int)[0] == va@[i as int]);
        assert(vb@.skip(i as int)[0] == vb@[i as int]);
        i = i + 1;
    }
    if i == va.len() {
        i < vb.len()
    } else if i == vb.len() {
        false
    } else {
        assert(va@.skip(i as int)[0] == va@[i as int]);
        assert(vb@.skip(i as int)[0] == vb@[i as int]);
        (va[i] as u32) < (vb[i] as u32)
    }
}

// ---------------------------------------------------------------------------
// Unicode case mapping and classes that come from std's tables
// ---------------------------------------------------------------------------

/// What `str::to_lowercase` gives for a string.
pub uninterp spec fn unicode_lowercase(s: Seq<char>) -> Seq<char>;

/// What `char::to_uppercase` yields for a character, collected into a string.
pub uninterp spec fn unicode_uppercase(c: char) -> Seq<char>;

/// Whether `char::is_alphanumeric` holds of a character.
pub uninterp spec fn unicode_alphanumeric(c: char) -> bool;

/// The lower-case form of a text: on ASCII text `A`-`Z` become `a`-`z` and every other
/// character stays; other text as `str::to_lowercase` gives it.
pub open spec fn text_lowercase(s: Seq<char>) -> Seq<char> {
    if all_ascii(s) {
        ascii_lowercase(s)
    } else {
        unicode_lowercase(s)
    }
}

proof fn lemma_trim_start_lowercase(s: Seq<char>)
    ensures
        trim_start_spec(ascii_lowercase(s)) == ascii_lowercase(trim_start_spec(s)),
        all_ascii(s) ==> all_ascii(trim_start_spec(s)),
    decreases s.len(),
{
    if s.len() > 0 {
        assert(ascii_lowercase(s)[0] == ascii_lower_char(s[0]));
        assert(is_ws(ascii_lower_char(s[0])) == is_ws(s[0]));
        if is_ws(s[0]) {
            assert(ascii_lowercase(s).drop_first() =~= ascii_lowercase(s.drop_first()));
            lemma_trim_start_lowercase(s.drop_first());
            if all_ascii(s) {
                assert(all_ascii(s.drop_first()));
            }
        }
    }
}

proof fn lemma_trim_end_lowercase(s: Seq<char>)
    ensures
        trim_end_spec(ascii_lowercase(s)) == ascii_lowercase(trim_end_spec(s)),
        all_ascii(s) ==> all_ascii(trim_end_spec(s)),
    decreases s.len(),
{
    if s.len() > 0 {
        assert(ascii_lowercase(s).last() == ascii_lower_char(s.last()));
        assert(is_ws(ascii_lower_char(s.last())) == is_ws(s.last()));
        if is_ws(s.last()) {
            assert(ascii_lowercase(s).drop_last() =~= ascii_lowercase(s.drop_last()));
            lemma_trim_end_lowercase(s.drop_last());
            if all_ascii(s) {
                assert(all_ascii(s.drop_last()));
            }
        }
    }
}

/// Trimming and ASCII lower-casing can be done in either order, and trimming keeps text
/// ASCII.
pub proof fn lemma_trim_lowercase(s: Seq<char>)
    ensures
        trim_spec(ascii_lowercase(s)) == ascii_lowercase(trim_spec(s)),
        all_ascii(s) ==> all_ascii(trim_spec(s)),
{
    lemma_trim_start_lowercase(s);
    lemma_trim_end_lowercase(trim_start_spec(s));
}

/// ASCII lower-casing keeps text ASCII and a second pass changes nothing.
pub proof fn lemma_ascii_lowercase_idempotent(s: Seq<char>)
    requires
        all_ascii(s),
    ensures
        all_ascii(ascii_lowercase(s)),
        ascii_lowercase(ascii_lowercase(s)) == ascii_lowercase(s),
{
    assert forall|i: int| 0 <= i < s.len() implies (#[trigger] ascii_lowercase(s)[i] as u32) < 128 by {
        assert((s[i] as u32) < 128);
    }
    assert(ascii_lowercase(ascii_lowercase(s)) =~= ascii_lowercase(s));
}

/// Calls `str::to_lowercase`. Stated: its result is a function of the input alone (std's case
/// tables); it is empty exactly when the input is (every character lower-cases to one or more
/// characters); and on ASCII text it maps `A`-`Z` to `a`-`z` and keeps every other character.
/// How other characters lower-case is left unsaid.
#[verifier::external_body]
pub(crate) fn to_lowercase(s: &str) -> (r: String)
    ensures
        r@ == unicode_lowercase(s@),
        r@.len() == 0 <==> s@.len() == 0,
        all_ascii(s@) ==> r@ == ascii_lowercase(s@),
{
    s.to_lowercase()
}

/// Calls `char::to_uppercase` and collects the characters it yields. Stated: the result is a
/// function of the character alone (std's case tables), and an ASCII character gives the one
/// character `a`-`z` maps to `A`-`Z`, every other ASCII character itself. How other characters
/// upper-case is left unsaid.
#[verifier::external_body]
pub(crate) fn char_to_uppercase(c: char) -> (r: String)
    ensures
        r@ == unicode_uppercase(c),
        (c as u32) < 128 ==> r@ == seq![ascii_upper_char(c)],
{
    c.to_uppercase().collect()
}

/// Calls `char::is_alphanumeric`: true of characters that are alphabetic or numeric in
/// Unicode. For ASCII characters the documentation gives the answer: exactly the letters and
/// the digits.
#[verifier::external_body]
pub(crate) fn char_is_alphanumeric(c: char) -> (b: bool)
    ensures
        b == unicode_alphanumeric(c),
        (c as u32) < 128 ==> (b <==> (is_ascii_digit_char(c) || is_ascii_upper_char(c)
            || is_ascii_lower_char(c))),
{
    c.is_alphanumeric()
}

} // verus!
