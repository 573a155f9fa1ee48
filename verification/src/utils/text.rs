use vstd::prelude::*;

verus! {

// ── Decimal formatting ─────────────────────────────────────────────────────

/// The ASCII digit for `d` (0..=9).
pub open spec fn digit_char(d: int) -> char {
    (48 + d) as char
}

/// Decimal representation of a natural number, most significant digit first,
/// without leading zeros (zero is "0"), as `Display` writes integers.
pub open spec fn decimal(n: nat) -> Seq<char>
    decreases n,
{
    if n < 10 {
        seq![digit_char(n as int)]
    } else {
        decimal(n / 10) + seq![digit_char((n % 10) as int)]
    }
}

/// Decimal representation of an integer, with a leading '-' when negative.
pub open spec fn signed_decimal(n: int) -> Seq<char> {
    if n < 0 {
        seq!['-'] + decimal((-n) as nat)
    } else {
        decimal(n as nat)
    }
}

fn digit(d: u64) -> (c: char)
    requires
        d < 10,
    ensures
        c == digit_char(d as int),
{
    let b: u8 = 48u8 + (d as u8);
    b as char
}

fn push_decimal(n: u64, out: &mut Vec<char>)
    ensures
        final(out)@ == old(out)@ + decimal(n as nat),
    decreases n,
{
    if n >= 10 {
        push_decimal(n / 10, out);
    }
    out.push(digit(n % 10));
    proof {
        if n < 10 {
            assert(n % 10 == n);
        }
    }
}

/// A `String` of the given characters, built by `Iterator::collect` (the
/// `FromIterator<&char>` impl of `String`): its contents are exactly those
/// characters, in order.
#[verifier::external_body]
pub(crate) fn string_from_chars(chars: &Vec<char>) -> (s: String)
    ensures
        s@ == chars@,
{
    chars.iter().collect()
}

/// The characters of a string slice, in order.
pub fn chars_of(s: &str) -> (v: Vec<char>)
    ensures
        v@ == s@,
{
    broadcast use vstd::string::group_string_axioms;
    let mut v: Vec<char> = Vec::new();
    for c in it: s.chars()
        invariant
            v@ == it.seq().take(it.index()),
            it.seq() == s@,
    {
        v.push(c);
    }
    v
}

/// Decimal text of an unsigned integer.
pub fn u64_to_decimal(n: u64) -> (s: String)
    ensures
        s@ == decimal(n as nat),
{
    let mut v: Vec<char> = Vec::new();
    push_decimal(n, &mut v);
    assert(v@ == decimal(n as nat));
    string_from_chars(&v)
}

/// Decimal text of a signed integer.
pub fn i64_to_decimal(n: i64) -> (s: String)
    ensures
        s@ == signed_decimal(n as int),
{
    let mut v: Vec<char> = Vec::new();
    if n < 0 {
        v.push('-');
        let m: u64 = if n == i64::MIN { 9223372036854775808u64 } else { (-n) as u64 };
        push_decimal(m, &mut v);
    } else {
        push_decimal(n as u64, &mut v);
    }
    string_from_chars(&v)
}


// ── Decimal parsing ────────────────────────────────────────────────────────

pub open spec fn is_digit(c: char) -> bool {
    '0' <= c && c <= '9'
}

pub open spec fn digit_value(c: char) -> int {
    c as int - 48
}

pub open spec fn all_digits(s: Seq<char>) -> bool {
    forall|i: int| 0 <= i < s.len() ==> is_digit(#[trigger] s[i])
}

/// Value of a string of decimal digits (most significant first).
pub open spec fn digits_value(s: Seq<char>) -> int
    decreases s.len(),
{
    if s.len() == 0 {
        0
    } else {
        digits_value(s.drop_last()) * 10 + digit_value(s.last())
    }
}

/// The digits after an optional leading '+' (what `u32::from_str` accepts).
pub open spec fn unsigned_body(s: Seq<char>) -> Seq<char> {
    if s.len() > 0 && s[0] == '+' {
        s.drop_first()
    } else {
        s
    }
}

/// `u32::from_str`: an optional '+' followed by one or more ASCII digits
/// whose value fits in a `u32`; anything else is rejected.
pub open spec fn parse_u32_spec(s: Seq<char>) -> Option<u32> {
    let body = unsigned_body(s);
    if body.len() > 0 && all_digits(body) && digits_value(body) <= u32::MAX {
        Some(digits_value(body) as u32)
    } else {
        None
    }
}

/// `i32::from_str`: an optional '+' or '-' followed by one or more ASCII
/// digits whose (signed) value fits in an `i32`; anything else is rejected.
pub open spec fn parse_i32_spec(s: Seq<char>) -> Option<i32> {
    if s.len() > 0 && s[0] == '-' {
        let body = s.drop_first();
        if body.len() > 0 && all_digits(body) && digits_value(body) <= 2147483648 {
            Some((-digits_value(body)) as i32)
        } else {
            None
        }
    } else {
        let body = unsigned_body(s);
        if body.len() > 0 && all_digits(body) && digits_value(body) <= i32::MAX {
            Some(digits_value(body) as i32)
        } else {
            None
        }
    }
}

proof fn lemma_digits_value_nonneg(s: Seq<char>)
    requires
        all_digits(s),
    ensures
        digits_value(s) >= 0,
    decreases s.len(),
{
    if s.len() > 0 {
        assert(is_digit(s[s.len() - 1]));
        lemma_digits_value_nonneg(s.drop_last());
    }
}

/// A digit string is worth at least as much as any of its prefixes.
proof fn lemma_digits_value_prefix(s: Seq<char>, j: int)
    requires
        all_digits(s),
        0 <= j <= s.len(),
    ensures
        digits_value(s.take(j)) <= digits_value(s),
    decreases s.len(),
{
    if j < s.len() {
        assert(s.drop_last().take(j) =~= s.take(j));
        lemma_digits_value_prefix(s.drop_last(), j);
        assert(is_digit(s[s.len() - 1]));
        lemma_digits_value_nonneg(s.drop_last());
    } else {
        assert(s.take(j) =~= s);
    }
}

/// Value of the digits `s[lo..hi]` when it is a non-empty digit string worth
/// at most `limit`; `None` otherwise.
fn digits_in_range(s: &Vec<char>, lo: usize, hi: usize, limit: u64) -> (res: Option<u64>)
    requires
        lo <= hi <= s@.len(),
        limit <= u32::MAX + 1,
    ensures
        ({
            let t = s@.subrange(lo as int, hi as int);
            match res {
                Some(v) => t.len() > 0 && all_digits(t) && digits_value(t) <= limit && v == digits_value(t),
                None => !(t.len() > 0 && all_digits(t) && digits_value(t) <= limit),
            }
        }),
{
    let ghost t = s@.subrange(lo as int, hi as int);
    if lo == hi {
        return None;
    }
    let mut acc: u64 = 0;
    let mut j: usize = lo;
    while j < hi
        invariant
            lo <= j <= hi,
            hi <= s@.len(),
            limit <= u32::MAX + 1,
            t == s@.subrange(lo as int, hi as int),
            all_digits(s@.subrange(lo as int, j as int)),
            acc == digits_value(s@.subrange(lo as int, j as int)),
            acc <= limit,
        decreases hi - j,
    {
        let c = s[j];
        if !(c >= '0' && c <= '9') {
            assert(t[j - lo] == c);
            return None;
        }
        let d = (c as u32 - 48) as u64;
        let ghost prev = s@.subrange(lo as int, j as int);
        let ghost next = s@.subrange(lo as int, j + 1);
        assert(next.drop_last() =~= prev);
        assert(next.last() == c);
        acc = acc * 10 + d;
        j += 1;
        assert(all_digits(next)) by {
            assert forall|i: int| 0 <= i < next.len() implies is_digit(#[trigger] next[i]) by {
                if i < prev.len() {
                    assert(next[i] == prev[i]);
                }
            }
        }
        if acc > limit {
            proof {
                if all_digits(t) {
                    assert(t.take(j - lo) =~= next);
                    lemma_digits_value_prefix(t, j - lo);
                }
            }
            return None;
        }
    }
    assert(s@.subrange(lo as int, j as int) =~= t);
    Some(acc)
}

/// `u32::from_str` on the characters `s[lo..hi]`.
pub fn parse_u32_range(s: &Vec<char>, lo: usize, hi: usize) -> (res: Option<u32>)
    requires
        lo <= hi <= s@.len(),
    ensures
        res == parse_u32_spec(s@.subrange(lo as int, hi as int)),
{
    let ghost t = s@.subrange(lo as int, hi as int);
    let start = if lo < hi && s[lo] == '+' { lo + 1 } else { lo };
    assert(unsigned_body(t) =~= s@.subrange(start as int, hi as int));
    match digits_in_range(s, start, hi, 4294967295) {
        Some(v) => Some(v as u32),
        None => None,
    }
}

/// `i32::from_str` on the characters `s[lo..hi]`.
pub fn parse_i32_range(s: &Vec<char>, lo: usize, hi: usize) -> (res: Option<i32>)
    requires
        lo <= hi <= s@.len(),
    ensures
        res == parse_i32_spec(s@.subrange(lo as int, hi as int)),
{
    let ghost t = s@.subrange(lo as int, hi as int);
    if lo < hi && s[lo] == '-' {
        assert(t.drop_first() =~= s@.subrange(lo + 1, hi as int));
        match digits_in_range(s, lo + 1, hi, 2147483648) {
            Some(v) => {
                let r: i32 = if v == 2147483648 { i32::MIN } else { -(v as i32) };
                Some(r)
            },
            None => None,
        }
    } else {
        let start = if lo < hi && s[lo] == '+' { lo + 1 } else { lo };
        assert(unsigned_body(t) =~= s@.subrange(start as int, hi as int));
        match digits_in_range(s, start, hi, 2147483647) {
            Some(v) => Some(v as i32),
            None => None,
        }
    }
}


// ── Formatting and parsing agree ───────────────────────────────────────────

proof fn lemma_decimal_digits(n: nat)
    ensures
        decimal(n).len() >= 1,
        all_digits(decimal(n)),
        digits_value(decimal(n)) == n,
    decreases n,
{
    if n < 10 {
        let s = decimal(n);
        assert(s.drop_last() =~= Seq::<char>::empty());
        assert(digits_value(Seq::<char>::empty()) == 0);
        assert(digit_value(digit_char(n as int)) == n);
        assert(s.last() == digit_char(n as int));
        assert(digits_value(s) == digits_value(s.drop_last()) * 10 + digit_value(s.last()));
    } else {
        lemma_decimal_digits(n / 10);
        let s = decimal(n);
        let p = decimal(n / 10);
        assert(s.drop_last() =~= p);
        assert(s.last() == digit_char((n % 10) as int));
        assert(digit_value(digit_char((n % 10) as int)) == n % 10);
        assert(digits_value(s) == digits_value(s.drop_last()) * 10 + digit_value(s.last()));
        assert forall|i: int| 0 <= i < s.len() implies is_digit(#[trigger] s[i]) by {
            if i < p.len() {
                assert(s[i] == p[i]);
            }
        }
    }
}

/// Reading back the decimal text of a `u32` gives the number.
pub proof fn parse_u32_of_decimal(n: u32)
    ensures
        parse_u32_spec(decimal(n as nat)) == Some(n),
{
    lemma_decimal_digits(n as nat);
    let s = decimal(n as nat);
    assert(is_digit(s[0]));
    assert(unsigned_body(s) == s);
}

/// Reading back the decimal text of an `i32` gives the number.
pub proof fn parse_i32_of_decimal(n: i32)
    ensures
        parse_i32_spec(signed_decimal(n as int)) == Some(n),
{
    if n < 0 {
        let m = (-(n as int)) as nat;
        lemma_decimal_digits(m);
        let s = signed_decimal(n as int);
        assert(s[0] == '-');
        assert(s.drop_first() =~= decimal(m));
    } else {
        lemma_decimal_digits(n as nat);
        let s = decimal(n as nat);
        assert(is_digit(s[0]));
        assert(unsigned_body(s) == s);
    }
}

/// The decimal text of an integer is not empty and holds only ASCII digits
/// and, first, a '-' sign.
pub proof fn lemma_signed_decimal_chars(n: int)
    ensures
        signed_decimal(n).len() >= 1,
        forall|i: int| 0 <= i < signed_decimal(n).len() ==> is_digit(#[trigger] signed_decimal(n)[i])
            || signed_decimal(n)[i] == '-',
{
    if n < 0 {
        let d = decimal((-n) as nat);
        lemma_decimal_digits((-n) as nat);
        let s = signed_decimal(n);
        assert forall|i: int| 0 <= i < s.len() implies is_digit(#[trigger] s[i]) || s[i] == '-' by {
            if i > 0 {
                assert(s[i] == d[i - 1]);
            }
        }
    } else {
        lemma_decimal_digits(n as nat);
    }
}

/// The words of a text that ends in whitespace (or is empty), followed by a
/// run of non-whitespace: the text's words, then the run.
proof fn lemma_words_run(p: Seq<char>, a: Seq<char>)
    requires
        a.len() >= 1,
        forall|i: int| 0 <= i < a.len() ==> !is_whitespace(#[trigger] a[i]),
        p.len() == 0 || is_whitespace(p.last()),
    ensures
        words(p + a) == words(p).push(a),
    decreases a.len(),
{
    let s = p + a;
    if a.len() == 1 {
        assert(s.drop_last() =~= p);
        assert(s.last() == a[0]);
        assert(seq![a[0]] =~= a);
        if s.len() >= 2 {
            assert(s[s.len() - 2] == p.last());
        }
    } else {
        let a1 = a.drop_last();
        assert forall|i: int| 0 <= i < a1.len() implies !is_whitespace(#[trigger] a1[i]) by {
            assert(a1[i] == a[i]);
        }
        lemma_words_run(p, a1);
        assert(s.drop_last() =~= p + a1);
        assert(s[s.len() - 2] == a1.last());
        assert(s.last() == a.last());
        let w = words(p).push(a1);
        assert(w.drop_last() =~= words(p));
        assert(a1.push(a.last()) =~= a);
    }
}

/// Trailing whitespace adds no word.
proof fn lemma_words_trailing(s: Seq<char>, t: Seq<char>)
    requires
        forall|i: int| 0 <= i < t.len() ==> is_whitespace(#[trigger] t[i]),
    ensures
        words(s + t) == words(s),
    decreases t.len(),
{
    if t.len() == 0 {
        assert(s + t =~= s);
    } else {
        let t1 = t.drop_last();
        assert forall|i: int| 0 <= i < t1.len() implies is_whitespace(#[trigger] t1[i]) by {
            assert(t1[i] == t[i]);
        }
        lemma_words_trailing(s, t1);
        assert((s + t).drop_last() =~= s + t1);
        assert((s + t).last() == t.last());
    }
}

/// Two runs of non-whitespace separated by a space, then any whitespace,
/// are two words: the runs.
pub proof fn lemma_two_words(a: Seq<char>, b: Seq<char>, t: Seq<char>)
    requires
        a.len() >= 1,
        b.len() >= 1,
        forall|i: int| 0 <= i < a.len() ==> !is_whitespace(#[trigger] a[i]),
        forall|i: int| 0 <= i < b.len() ==> !is_whitespace(#[trigger] b[i]),
        forall|i: int| 0 <= i < t.len() ==> is_whitespace(#[trigger] t[i]),
    ensures
        words(a + seq![' '] + b + t) == seq![a, b],
{
    let e = Seq::<char>::empty();
    lemma_words_run(e, a);
    assert(e + a =~= a);
    assert(words(e) =~= Seq::<Seq<char>>::empty());
    let p = a + seq![' '];
    assert(p.drop_last() =~= a);
    assert(p.last() == ' ');
    lemma_words_run(p, b);
    lemma_words_trailing(p + b, t);
    assert(a + seq![' '] + b + t =~= (p + b) + t);
    assert(words(a).push(b) =~= seq![a, b]);
}

/// Around the only `sep` of a text, `split_pair` finds the parts before and after it.
pub proof fn lemma_split_pair_at(a: Seq<char>, sep: char, b: Seq<char>)
    requires
        forall|i: int| 0 <= i < a.len() ==> #[trigger] a[i] != sep,
        forall|i: int| 0 <= i < b.len() ==> #[trigger] b[i] != sep,
    ensures
        split_pair(a + seq![sep] + b, sep) == Some((a, b)),
{
    let t = a + seq![sep] + b;
    let k = a.len() as int;
    assert forall|j: int| 0 <= j < t.len() && j != k implies t[j] != sep by {
        if j < k {
            assert(t[j] == a[j]);
        } else {
            assert(t[j] == b[j - k - 1]);
        }
    }
    assert(single_sep_at(t, sep, k));
    let kc = choose|k: int| single_sep_at(t, sep, k);
    assert(kc == k);
    assert(t.take(k) =~= a);
    assert(t.skip(k + 1) =~= b);
}

/// The decimal text of an integer outside the `i32` range does not parse as an `i32`.
pub proof fn parse_i32_of_wide_decimal(n: int)
    requires
        n < i32::MIN || n > i32::MAX,
    ensures
        parse_i32_spec(signed_decimal(n)) is None,
{
    if n < 0 {
        let m = (-n) as nat;
        lemma_decimal_digits(m);
        let s = signed_decimal(n);
        assert(s[0] == '-');
        assert(s.drop_first() =~= decimal(m));
    } else {
        lemma_decimal_digits(n as nat);
        let s = decimal(n as nat);
        assert(is_digit(s[0]));
        assert(unsigned_body(s) == s);
    }
}

// ── Whitespace, words and separators ───────────────────────────────────────

/// `char::is_whitespace`: the Unicode `White_Space` property.
pub open spec fn is_whitespace(c: char) -> bool {
    let u = c as int;
    ||| 9 <= u <= 13
    ||| u == 32
    ||| u == 0x85
    ||| u == 0xA0
    ||| u == 0x1680
    ||| 0x2000 <= u <= 0x200A
    ||| u == 0x2028
    ||| u == 0x2029
    ||| u == 0x202F
    ||| u == 0x205F
    ||| u == 0x3000
}

pub fn is_ws(c: char) -> (b: bool)
    ensures
        b == is_whitespace(c),
{
    let u = c as u32;
    (9 <= u && u <= 13) || u == 32 || u == 0x85 || u == 0xA0 || u == 0x1680 || (0x2000 <= u && u
        <= 0x200A) || u == 0x2028 || u == 0x2029 || u == 0x202F || u == 0x205F || u == 0x3000
}

/// `str::trim_start`: the text without its leading whitespace.
pub open spec fn trim_start(s: Seq<char>) -> Seq<char>
    decreases s.len(),
{
    if s.len() > 0 && is_whitespace(s[0]) {
        trim_start(s.drop_first())
    } else {
        s
    }
}

/// `str::trim_end`: the text without its trailing whitespace.
pub open spec fn trim_end(s: Seq<char>) -> Seq<char>
    decreases s.len(),
{
    if s.len() > 0 && is_whitespace(s.last()) {
        trim_end(s.drop_last())
    } else {
        s
    }
}

/// `str::trim`: the text without leading and trailing whitespace.
pub open spec fn trim(s: Seq<char>) -> Seq<char> {
    trim_end(trim_start(s))
}

/// `str::split_whitespace`: the maximal runs of non-whitespace characters, in order.
pub open spec fn words(s: Seq<char>) -> Seq<Seq<char>>
    decreases s.len(),
{
    if s.len() == 0 {
        Seq::empty()
    } else {
        let w = words(s.drop_last());
        let c = s.last();
        if is_whitespace(c) {
            w
        } else if s.len() >= 2 && !is_whitespace(s[s.len() - 2]) {
            w.drop_last().push(w.last().push(c))
        } else {
            w.push(seq![c])
        }
    }
}

/// `k` is the position of the one and only `sep` in `t`.
pub open spec fn single_sep_at(t: Seq<char>, sep: char, k: int) -> bool {
    &&& 0 <= k < t.len()
    &&& t[k] == sep
    &&& forall|j: int| 0 <= j < t.len() && j != k ==> t[j] != sep
}

/// `t.split(sep)` when it yields exactly two pieces (the text before and
/// after the only `sep`); `None` when `sep` occurs zero or several times.
pub open spec fn split_pair(t: Seq<char>, sep: char) -> Option<(Seq<char>, Seq<char>)> {
    if exists|k: int| single_sep_at(t, sep, k) {
        let k = choose|k: int| single_sep_at(t, sep, k);
        Some((t.take(k), t.skip(k + 1)))
    } else {
        None
    }
}

proof fn lemma_trim_start(s: Seq<char>, a: int)
    requires
        0 <= a <= s.len(),
        forall|i: int| 0 <= i < a ==> is_whitespace(#[trigger] s[i]),
        a == s.len() || !is_whitespace(s[a]),
    ensures
        trim_start(s) == s.skip(a),
    decreases a,
{
    if a == 0 {
        assert(s.skip(0) =~= s);
    } else {
        assert(is_whitespace(s[0]));
        let t = s.drop_first();
        assert forall|i: int| 0 <= i < a - 1 implies is_whitespace(#[trigger] t[i]) by {
            assert(t[i] == s[i + 1]);
        }
        lemma_trim_start(t, a - 1);
        assert(t.skip(a - 1) =~= s.skip(a));
    }
}

proof fn lemma_trim_end(s: Seq<char>, b: int)
    requires
        0 <= b <= s.len(),
        forall|i: int| b <= i < s.len() ==> is_whitespace(#[trigger] s[i]),
        b == 0 || !is_whitespace(s[b - 1]),
    ensures
        trim_end(s) == s.take(b),
    decreases s.len() - b,
{
    if b == s.len() {
        assert(s.take(b) =~= s);
    } else {
        assert(is_whitespace(s[s.len() - 1]));
        let t = s.drop_last();
        assert forall|i: int| b <= i < t.len() implies is_whitespace(#[trigger] t[i]) by {
            assert(t[i] == s[i]);
        }
        lemma_trim_end(t, b);
        assert(t.take(b) =~= s.take(b));
    }
}

/// Bounds `(a, b)` of the text left by `trim`: `trim(s) == s[a..b]`.
pub fn trim_bounds(s: &Vec<char>) -> (ab: (usize, usize))
    ensures
        ab.0 <= ab.1 <= s@.len(),
        trim(s@) == s@.subrange(ab.0 as int, ab.1 as int),
{
    let n = s.len();
    let mut a: usize = 0;
    while a < n && is_ws(s[a])
        invariant
            a <= n,
            n == s@.len(),
            forall|i: int| 0 <= i < a ==> is_whitespace(#[trigger] s@[i]),
        decreases n - a,
    {
        a += 1;
    }
    let mut b: usize = n;
    while b > a && is_ws(s[b - 1])
        invariant
            a <= b <= n,
            n == s@.len(),
            forall|i: int| b <= i < n ==> is_whitespace(#[trigger] s@[i]),
            a == n || !is_whitespace(s@[a as int]),
        decreases b,
    {
        b -= 1;
    }
    proof {
        lemma_trim_start(s@, a as int);
        let t = s@.skip(a as int);
        assert forall|i: int| b - a <= i < t.len() implies is_whitespace(#[trigger] t[i]) by {
            assert(t[i] == s@[i + a]);
        }
        if b > a {
            assert(t[b - a - 1] == s@[b - 1]);
        }
        lemma_trim_end(t, b - a);
        assert(t.take(b - a) =~= s@.subrange(a as int, b as int));
    }
    (a, b)
}

/// Number of words in `s` and the bounds of the first two of them:
/// `words(s)[0] == s[s0..e0]` and `words(s)[1] == s[s1..e1]` when they exist.
pub fn first_two_words(s: &Vec<char>) -> (res: (usize, usize, usize, usize, usize))
    ensures
        res.0 == words(s@).len(),
        res.0 >= 1 ==> res.1 <= res.2 <= s@.len() && words(s@)[0] == s@.subrange(res.1 as int, res.2 as int),
        res.0 >= 2 ==> res.3 <= res.4 <= s@.len() && words(s@)[1] == s@.subrange(res.3 as int, res.4 as int),
{
    let n = s.len();
    let mut count: usize = 0;
    let mut s0: usize = 0;
    let mut e0: usize = 0;
    let mut s1: usize = 0;
    let mut e1: usize = 0;
    let mut i: usize = 0;
    while i < n
        invariant
            i <= n,
            n == s@.len(),
            count <= i,
            count == words(s@.take(i as int)).len(),
            count >= 1 ==> s0 <= e0 <= i && words(s@.take(i as int))[0] == s@.subrange(s0 as int, e0 as int),
            count >= 2 ==> s1 <= e1 <= i && words(s@.take(i as int))[1] == s@.subrange(s1 as int, e1 as int),
            i > 0 && !is_whitespace(s@[i - 1]) ==> count >= 1,
            i > 0 && !is_whitespace(s@[i - 1]) && count == 1 ==> e0 == i,
            i > 0 && !is_whitespace(s@[i - 1]) && count == 2 ==> e1 == i,
        decreases n - i,
    {
        let ghost prefix = s@.take(i as int);
        let ghost next = s@.take(i + 1);
        let ghost w = words(prefix);
        assert(next.drop_last() =~= prefix);
        let c = s[i];
        if is_ws(c) {
        } else if i > 0 && !is_ws(s[i - 1]) {
            assert(next[next.len() - 2] == s@[i - 1]);
            if count == 1 {
                e0 = i + 1;
                assert(w.drop_last().push(w.last().push(c))[0] =~= s@.subrange(s0 as int, e0 as int));
            } else if count == 2 {
                e1 = i + 1;
                assert(w.drop_last().push(w.last().push(c))[1] =~= s@.subrange(s1 as int, e1 as int));
            }
        } else {
            proof {
                if i > 0 {
                    assert(next[next.len() - 2] == s@[i - 1]);
                }
            }
            if count == 0 {
                s0 = i;
                e0 = i + 1;
                assert(w.push(seq![c])[0] =~= s@.subrange(s0 as int, e0 as int));
            } else if count == 1 {
                s1 = i;
                e1 = i + 1;
                assert(w.push(seq![c])[1] =~= s@.subrange(s1 as int, e1 as int));
            }
            count += 1;
        }
        i += 1;
    }
    assert(s@.take(n as int) =~= s@);
    (count, s0, e0, s1, e1)
}

/// Position of `sep` in `s[lo..hi]` (counted from `lo`) when it occurs there
/// exactly once.
pub fn find_single(s: &Vec<char>, lo: usize, hi: usize, sep: char) -> (res: Option<usize>)
    requires
        lo <= hi <= s@.len(),
    ensures
        match res {
            Some(k) => single_sep_at(s@.subrange(lo as int, hi as int), sep, k as int),
            None => !exists|k: int| single_sep_at(s@.subrange(lo as int, hi as int), sep, k),
        },
{
    let ghost t = s@.subrange(lo as int, hi as int);
    let mut found: Option<usize> = None;
    let mut j: usize = lo;
    while j < hi
        invariant
            lo <= j <= hi,
            hi <= s@.len(),
            t == s@.subrange(lo as int, hi as int),
            match found {
                Some(k) => lo <= k < j && s@[k as int] == sep && forall|m: int| lo <= m < j && m != k ==> s@[m] != sep,
                None => forall|m: int| lo <= m < j ==> s@[m] != sep,
            },
        decreases hi - j,
    {
        if s[j] == sep {
            match found {
                Some(k) => {
                    proof {
                        assert(t[k - lo] == sep && t[j - lo] == sep);
                        assert forall|q: int| !single_sep_at(t, sep, q) by {
                            if single_sep_at(t, sep, q) {
                                if q != k - lo {
                                    assert(t[k - lo] != sep);
                                } else {
                                    assert(t[j - lo] != sep);
                                }
                            }
                        }
                    }
                    return None;
                },
                None => {
                    found = Some(j);
                },
            }
        }
        j += 1;
    }
    match found {
        Some(k) => {
            proof {
                assert forall|m: int| 0 <= m < t.len() && m != k - lo implies t[m] != sep by {
                    assert(t[m] == s@[m + lo]);
                }
            }
            Some(k - lo)
        },
        None => {
            proof {
                assert forall|q: int| !single_sep_at(t, sep, q) by {
                    if single_sep_at(t, sep, q) {
                        assert(t[q] == s@[q + lo]);
                    }
                }
            }
            None
        },
    }
}

/// The characters `s[lo..hi]` as a vector.
pub fn chars_in_range(s: &Vec<char>, lo: usize, hi: usize) -> (v: Vec<char>)
    requires
        lo <= hi <= s@.len(),
    ensures
        v@ == s@.subrange(lo as int, hi as int),
{
    let mut v: Vec<char> = Vec::new();
    let mut j = lo;
    while j < hi
        invariant
            lo <= j <= hi,
            hi <= s@.len(),
            v@ == s@.subrange(lo as int, j as int),
        decreases hi - j,
    {
        v.push(s[j]);
        j += 1;
    }
    v
}

// ── Case folding and substring search ──────────────────────────────────────

/// What `str::to_lowercase` returns for a string with characters `s`
/// (Unicode lowercase mapping, including multi-character mappings and the
/// final-sigma rule).
pub uninterp spec fn lowercase(s: Seq<char>) -> Seq<char>;

/// `str::to_lowercase`: the result is `lowercase` of the text; the Unicode
/// case mapping itself is not written out here.
#[verifier::external_body]
pub(crate) fn to_lowercase(s: &str) -> (l: String)
    ensures
        l@ == lowercase(s@),
{
    s.to_lowercase()
}

/// `needle` occurs as a contiguous part of `hay` (the empty text occurs everywhere).
pub open spec fn contains_text(hay: Seq<char>, needle: Seq<char>) -> bool {
    exists|i: int| 0 <= i && i + needle.len() <= hay.len() && #[trigger] hay.subrange(i, i + needle.len()) == needle
}

/// `hay` and `needle` agree at offset `i` for the first `m` characters of `needle`.
pub open spec fn agrees_at(hay: Seq<char>, needle: Seq<char>, i: int, m: int) -> bool {
    forall|k: int| 0 <= k < m ==> hay[i + k] == #[trigger] needle[k]
}

/// `str::contains` with a string pattern.
pub fn contains(hay: &Vec<char>, needle: &Vec<char>) -> (b: bool)
    ensures
        b == contains_text(hay@, needle@),
{
    let n = hay.len();
    let m = needle.len();
    if m > n {
        proof {
            assert forall|i: int| 0 <= i && i + m <= n implies #[trigger] hay@.subrange(i, i + m) != needle@ by {}
        }
        return false;
    }
    let mut i: usize = 0;
    while i <= n - m
        invariant
            m <= n,
            n == hay@.len(),
            m == needle@.len(),
            i <= n - m + 1,
            forall|p: int| 0 <= p < i ==> #[trigger] hay@.subrange(p, p + m) != needle@,
        decreases n - m + 1 - i,
    {
        let mut k: usize = 0;
        while k < m && hay[i + k] == needle[k]
            invariant
                k <= m,
                i + m <= n,
                n == hay@.len(),
                m == needle@.len(),
                agrees_at(hay@, needle@, i as int, k as int),
            decreases m - k,
        {
            k += 1;
        }
        if k == m {
            assert(hay@.subrange(i as int, i + m) =~= needle@);
            return true;
        }
        assert(hay@.subrange(i as int, i + m)[k as int] != needle@[k as int]);
        i += 1;
    }
    proof {
        assert forall|p: int| 0 <= p && p + m <= n implies #[trigger] hay@.subrange(p, p + m) != needle@ by {
            assert(p < i);
        }
    }
    false
}

// ── Equality and prefixes ──────────────────────────────────────────────────

/// `a == b` on string slices: the same characters in the same order.
pub fn text_eq(a: &str, b: &str) -> (eq: bool)
    ensures
        eq == (a@ == b@),
{
    let x = chars_of(a);
    let y = chars_of(b);
    if x.len() != y.len() {
        return false;
    }
    let mut i: usize = 0;
    while i < x.len()
        invariant
            i <= x@.len(),
            x@ == a@,
            y@ == b@,
            x@.len() == y@.len(),
            forall|j: int| 0 <= j < i ==> x@[j] == y@[j],
        decreases x.len() - i,
    {
        if x[i] != y[i] {
            assert(x@[i as int] != y@[i as int]);
            return false;
        }
        i += 1;
    }
    assert(x@ =~= y@);
    true
}

/// `s` starts with the characters of `prefix`.
pub open spec fn has_prefix(s: Seq<char>, prefix: Seq<char>) -> bool {
    prefix.len() <= s.len() && s.take(prefix.len() as int) == prefix
}

/// `str::starts_with` with a string pattern, on character vectors.
pub fn starts_with(s: &Vec<char>, prefix: &Vec<char>) -> (b: bool)
    ensures
        b == has_prefix(s@, prefix@),
{
    if prefix.len() > s.len() {
        return false;
    }
    let mut i: usize = 0;
    while i < prefix.len()
        invariant
            i <= prefix@.len(),
            prefix@.len() <= s@.len(),
            forall|j: int| 0 <= j < i ==> s@[j] == prefix@[j],
        decreases prefix.len() - i,
    {
        if s[i] != prefix[i] {
            assert(s@.take(prefix@.len() as int)[i as int] != prefix@[i as int]);
            return false;
        }
        i += 1;
    }
    assert(s@.take(prefix@.len() as int) =~= prefix@);
    true
}

/// The view of an optional text.
pub open spec fn opt_text(s: Option<String>) -> Option<Seq<char>> {
    match s {
        Some(t) => Some(t@),
        None => None,
    }
}

/// The view of an optional list of texts.
pub open spec fn opt_texts(s: Option<Vec<String>>) -> Option<Seq<Seq<char>>> {
    match s {
        Some(v) => Some(v@.map_values(|t: String| t@)),
        None => None,
    }
}

/// A copy of an optional text.
pub fn clone_opt_text(s: &Option<String>) -> (c: Option<String>)
    ensures
        opt_text(c) == opt_text(*s),
{
    match s {
        Some(t) => Some(t.clone()),
        None => None,
    }
}

/// A copy of an optional list of texts.
pub fn clone_opt_texts(s: &Option<Vec<String>>) -> (c: Option<Vec<String>>)
    ensures
        opt_texts(c) == opt_texts(*s),
{
    match s {
        Some(v) => {
            let mut out: Vec<String> = Vec::new();
            let mut i: usize = 0;
            while i < v.len()
                invariant
                    i <= v@.len(),
                    out@.len() == i,
                    forall|j: int| 0 <= j < i ==> out@[j]@ == v@[j]@,
                decreases v.len() - i,
            {
                out.push(v[i].clone());
                i += 1;
            }
            assert(out@.map_values(|t: String| t@) =~= v@.map_values(|t: String| t@));
            Some(out)
        },
        None => None,
    }
}

// ── Debug text of a string ─────────────────────────────────────────────────

/// What `format!("{:?}", s)` produces for a string slice with characters `s`:
/// the text in double quotes with `char::escape_debug` escapes.
pub uninterp spec fn debug_text(s: Seq<char>) -> Seq<char>;

/// `<str as Debug>::fmt`, through `format!("{:?}", s)`: the result is
/// `debug_text` of the text; the escaping rules are not written out here.
#[verifier::external_body]
pub(crate) fn debug_quote(s: &str) -> (q: String)
    ensures
        q@ == debug_text(s@),
{
    format!("{s:?}")
}

} // verus!
