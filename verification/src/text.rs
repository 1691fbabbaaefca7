//! Character-level rules shared by the domain logic.

use vstd::prelude::*;

verus! {

/// Unicode `White_Space` code points, the set that `char::is_whitespace` and `str::trim` use.
pub open spec fn is_ws(c: char) -> bool {
    let u = c as u32;
    ||| 0x9 <= u <= 0xd
    ||| u == 0x20
    ||| u == 0x85
    ||| u == 0xa0
    ||| u == 0x1680
    ||| 0x2000 <= u <= 0x200a
    ||| u == 0x2028
    ||| u == 0x2029
    ||| u == 0x202f
    ||| u == 0x205f
    ||| u == 0x3000
}

/// `s` with leading and trailing white space removed.
pub open spec fn trim(s: Seq<char>) -> Seq<char>
    decreases s.len(),
{
    if s.len() == 0 {
        s
    } else if is_ws(s[0]) {
        trim(s.drop_first())
    } else if is_ws(s.last()) {
        trim(s.drop_last())
    } else {
        s
    }
}

/// Nothing but white space (the empty sequence included).
pub open spec fn is_blank(s: Seq<char>) -> bool {
    trim(s).len() == 0
}

/// ASCII decimal digit.
pub open spec fn is_digit(c: char) -> bool {
    '0' <= c <= '9'
}

/// ASCII letter or digit.
pub open spec fn is_ascii_alnum(c: char) -> bool {
    ||| '0' <= c <= '9'
    ||| 'a' <= c <= 'z'
    ||| 'A' <= c <= 'Z'
}

/// Number of ASCII digits in `s`.
pub open spec fn digit_count(s: Seq<char>) -> nat
    decreases s.len(),
{
    if s.len() == 0 {
        0
    } else {
        digit_count(s.drop_last()) + if is_digit(s.last()) {
            1nat
        } else {
            0nat
        }
    }
}

/// Whether `c` is a Unicode white-space character.
pub fn is_whitespace(c: char) -> (res: bool)
    ensures
        res == is_ws(c),
{
    let u = c as u32;
    (0x9 <= u && u <= 0xd) || u == 0x20 || u == 0x85 || u == 0xa0 || u == 0x1680 || (0x2000 <= u
        && u <= 0x200a) || u == 0x2028 || u == 0x2029 || u == 0x202f || u == 0x205f || u == 0x3000
}

/// Whether `c` is an ASCII decimal digit.
pub fn is_ascii_digit(c: char) -> (res: bool)
    ensures
        res == is_digit(c),
{
    '0' <= c && c <= '9'
}

/// Whether `c` is an ASCII letter or digit.
pub fn is_ascii_alphanumeric(c: char) -> (res: bool)
    ensures
        res == is_ascii_alnum(c),
{
    ('0' <= c && c <= '9') || ('a' <= c && c <= 'z') || ('A' <= c && c <= 'Z')
}

/// Equality of two string slices, character by character.
#[verifier::external_body]
pub(crate) fn str_eq(a: &str, b: &str) -> (res: bool)
    ensures
        res == (a@ == b@),
{
    a == b
}

/// The characters of `s`, in order.
pub fn chars_of(s: &str) -> (res: Vec<char>)
    ensures
        res@ == s@,
{
    broadcast use vstd::string::axiom_spec_iter;
    let mut out: Vec<char> = Vec::new();
    for c in it: s.chars()
        invariant
            out@ == it.seq().take(it.index() as int),
    {
        out.push(c);
    }
    out
}

/// Appends one character to `s`.
#[verifier::external_body]
pub(crate) fn push_char(s: &mut String, c: char)
    ensures
        final(s)@ == old(s)@.push(c),
{
    s.push(c)
}

/// `trim(s)` is the part of `s` between the bounds `a` and `b` when the bounds strip
/// exactly the white space at both ends.
pub proof fn lemma_trim_bounds(s: Seq<char>, a: int, b: int)
    requires
        0 <= a <= b <= s.len(),
        forall|i: int| 0 <= i < a ==> is_ws(#[trigger] s[i]),
        forall|i: int| b <= i < s.len() ==> is_ws(#[trigger] s[i]),
        a < b ==> !is_ws(s[a]) && !is_ws(s[b - 1]),
        a == b ==> forall|i: int| 0 <= i < s.len() ==> is_ws(#[trigger] s[i]),
    ensures
        trim(s) == s.subrange(a, b),
    decreases s.len(),
{
    if s.len() == 0 {
        assert(s.subrange(a, b) =~= s);
    } else if is_ws(s[0]) {
        let t = s.drop_first();
        if a == b {
            assert forall|i: int| 0 <= i < t.len() implies is_ws(#[trigger] t[i]) by {
                assert(t[i] == s[i + 1]);
            }
            lemma_trim_bounds(t, 0, 0);
            assert(s.subrange(a, b) =~= t.subrange(0, 0));
        } else {
            assert(a > 0);
            assert forall|i: int| 0 <= i < a - 1 implies is_ws(#[trigger] t[i]) by {
                assert(t[i] == s[i + 1]);
            }
            assert forall|i: int| b - 1 <= i < t.len() implies is_ws(#[trigger] t[i]) by {
                assert(t[i] == s[i + 1]);
            }
            assert(t[a - 1] == s[a]);
            assert(t[b - 2] == s[b - 1]);
            lemma_trim_bounds(t, a - 1, b - 1);
            assert(s.subrange(a, b) =~= t.subrange(a - 1, b - 1));
        }
    } else if is_ws(s.last()) {
        let t = s.drop_last();
        assert(a < b);
        assert(b < s.len());
        assert forall|i: int| 0 <= i < a implies is_ws(#[trigger] t[i]) by {
            assert(t[i] == s[i]);
        }
        assert forall|i: int| b <= i < t.len() implies is_ws(#[trigger] t[i]) by {
            assert(t[i] == s[i]);
        }
        assert(t[a] == s[a]);
        assert(t[b - 1] == s[b - 1]);
        lemma_trim_bounds(t, a, b);
        assert(s.subrange(a, b) =~= t.subrange(a, b));
    } else {
        assert(a == 0);
        assert(b == s.len());
        assert(s.subrange(a, b) =~= s);
    }
}

/// The bounds `(a, b)` such that `trim(chars) == chars[a..b]`.
pub fn trim_bounds(chars: &[char]) -> (res: (usize, usize))
    ensures
        res.0 <= res.1 <= chars@.len(),
        trim(chars@) == chars@.subrange(res.0 as int, res.1 as int),
{
    let n = chars.len();
    let mut a: usize = 0;
    while a < n && is_whitespace(chars[a])
        invariant
            a <= n,
            n == chars@.len(),
            forall|i: int| 0 <= i < a ==> is_ws(#[trigger] chars@[i]),
        decreases n - a,
    {
        a = a + 1;
    }
    if a == n {
        proof {
            lemma_trim_bounds(chars@, a as int, a as int);
            assert(chars@.subrange(a as int, a as int) =~= chars@.subrange(0, 0));
        }
        return (a, a);
    }
    let mut b: usize = n;
    while b > a + 1 && is_whitespace(chars[b - 1])
        invariant
            a < b <= n,
            n == chars@.len(),
            !is_ws(chars@[a as int]),
            forall|i: int| b <= i < n ==> is_ws(#[trigger] chars@[i]),
        decreases b,
    {
        b = b - 1;
    }
    proof {
        lemma_trim_bounds(chars@, a as int, b as int);
    }
    (a, b)
}

/// `s` with leading and trailing white space removed.
pub fn trimmed(s: &str) -> (res: String)
    ensures
        res@ == trim(s@),
{
    let chars = chars_of(s);
    let (a, b) = trim_bounds(chars.as_slice());
    let mut out = String::new();
    let mut i = a;
    while i < b
        invariant
            a <= i <= b <= chars@.len(),
            out@ == chars@.subrange(a as int, i as int),
        decreases b - i,
    {
        push_char(&mut out, chars[i]);
        assert(chars@.subrange(a as int, i + 1) =~= chars@.subrange(a as int, i as int).push(
            chars@[i as int],
        ));
        i = i + 1;
    }
    out
}

/// Whether `s` holds nothing but white space.
pub fn blank(s: &str) -> (res: bool)
    ensures
        res == is_blank(s@),
{
    let chars = chars_of(s);
    let (a, b) = trim_bounds(chars.as_slice());
    a == b
}

/// Number of ASCII digits in `s`.
pub fn count_digits(s: &str) -> (res: usize)
    ensures
        res == digit_count(s@),
{
    let chars = chars_of(s);
    let n = chars.len();
    let mut count: usize = 0;
    let mut i: usize = 0;
    while i < n
        invariant
            i <= n,
            n == chars@.len(),
            chars@ == s@,
            count <= i,
            count == digit_count(chars@.take(i as int)),
        decreases n - i,
    {
        assert(chars@.take(i + 1).drop_last() =~= chars@.take(i as int));
        if is_ascii_digit(chars[i]) {
            count = count + 1;
        }
        i = i + 1;
    }
    assert(chars@.take(n as int) =~= chars@);
    count
}


/// The code of `c` with ASCII capitals folded to lower case.
pub open spec fn lower_code(c: char) -> int {
    let u = c as u32;
    if 65 <= u <= 90 {
        u + 32
    } else {
        u as int
    }
}

/// `+` or `-`.
pub open spec fn is_sign(c: char) -> bool {
    c == '+' || c == '-'
}

/// `s` spells the lower-case word `w`, ignoring ASCII case.
pub open spec fn ci_word(s: Seq<char>, w: Seq<char>) -> bool {
    s.len() == w.len() && forall|i: int| 0 <= i < s.len() ==> lower_code(#[trigger] s[i]) == w[i] as u32
}

/// One or more ASCII digits and nothing else.
pub open spec fn digits_only(d: Seq<char>) -> bool {
    d.len() > 0 && forall|i: int| 0 <= i < d.len() ==> is_digit(#[trigger] d[i])
}

/// Digits with at most one `.`, at least one digit: `Digit+ | Digit+ '.' Digit* | Digit* '.' Digit+`.
pub open spec fn mantissa(m: Seq<char>) -> bool {
    &&& forall|i: int| 0 <= i < m.len() ==> is_digit(#[trigger] m[i]) || m[i] == '.'
    &&& forall|i: int, j: int|
        0 <= i < m.len() && 0 <= j < m.len() && #[trigger] m[i] == '.' && #[trigger] m[j] == '.'
            ==> i == j
    &&& exists|i: int| 0 <= i < m.len() && is_digit(#[trigger] m[i])
}

/// `'e' Sign? Digit+`, with `e` in either case.
pub open spec fn exponent(x: Seq<char>) -> bool {
    &&& x.len() >= 1
    &&& lower_code(x[0]) == 101
    &&& {
        let r = x.drop_first();
        if r.len() > 0 && is_sign(r[0]) {
            digits_only(r.drop_first())
        } else {
            digits_only(r)
        }
    }
}

/// `Number ::= Mantissa Exp?`.
pub open spec fn decimal(s: Seq<char>) -> bool {
    exists|e: int| 0 <= e <= s.len() && #[trigger] mantissa(s.take(e)) && (e == s.len() || exponent(s.skip(e)))
}

/// The strings that `str::parse::<f64>` accepts:
/// `Sign? ( 'inf' | 'infinity' | 'nan' | Number )`, letters in either case.
pub open spec fn float_literal(s: Seq<char>) -> bool {
    let body = if s.len() > 0 && is_sign(s[0]) {
        s.drop_first()
    } else {
        s
    };
    ||| ci_word(body, seq!['i', 'n', 'f'])
    ||| ci_word(body, seq!['i', 'n', 'f', 'i', 'n', 'i', 't', 'y'])
    ||| ci_word(body, seq!['n', 'a', 'n'])
    ||| decimal(body)
}

/// `c[from..to]` spells the lower-case word `w`, ignoring ASCII case.
fn ci_word_at(c: &[char], from: usize, to: usize, w: &[char]) -> (res: bool)
    requires
        from <= to <= c@.len(),
        forall|i: int| 0 <= i < w@.len() ==> 97 <= #[trigger] (w@[i] as u32) <= 122,
    ensures
        res == ci_word(c@.subrange(from as int, to as int), w@),
{
    let ghost s = c@.subrange(from as int, to as int);
    if to - from != w.len() {
        return false;
    }
    let mut i: usize = 0;
    while i < w.len()
        invariant
            from <= to <= c@.len(),
            to - from == w@.len(),
            s == c@.subrange(from as int, to as int),
            forall|k: int| 0 <= k < w@.len() ==> 97 <= #[trigger] (w@[k] as u32) <= 122,
            i <= w@.len(),
            forall|k: int| 0 <= k < i ==> lower_code(#[trigger] s[k]) == w@[k] as u32,
        decreases w.len() - i,
    {
        let ch = c[from + i];
        let wc = w[i];
        assert(s[i as int] == ch);
        assert(97 <= wc as u32 <= 122);
        if !(ch as u32 == wc as u32 || (ch as u32) == (wc as u32) - 32) {
            return false;
        }
        i = i + 1;
    }
    true
}

/// `c[from..to]` is one or more ASCII digits.
fn digits_only_at(c: &[char], from: usize, to: usize) -> (res: bool)
    requires
        from <= to <= c@.len(),
    ensures
        res == digits_only(c@.subrange(from as int, to as int)),
{
    let ghost s = c@.subrange(from as int, to as int);
    if from == to {
        return false;
    }
    let mut i = from;
    while i < to
        invariant
            from <= i <= to <= c@.len(),
            s == c@.subrange(from as int, to as int),
            forall|k: int| 0 <= k < i - from ==> is_digit(#[trigger] s[k]),
        decreases to - i,
    {
        assert(s[i - from] == c@[i as int]);
        if !is_ascii_digit(c[i]) {
            return false;
        }
        i = i + 1;
    }
    true
}

/// `c[from..to]` is a mantissa.
fn mantissa_at(c: &[char], from: usize, to: usize) -> (res: bool)
    requires
        from <= to <= c@.len(),
    ensures
        res == mantissa(c@.subrange(from as int, to as int)),
{
    let ghost m = c@.subrange(from as int, to as int);
    let mut seen_dot = false;
    let mut seen_digit = false;
    let mut i = from;
    while i < to
        invariant
            from <= i <= to <= c@.len(),
            m == c@.subrange(from as int, to as int),
            forall|k: int| 0 <= k < i - from ==> is_digit(#[trigger] m[k]) || m[k] == '.',
            forall|k1: int, k2: int|
                0 <= k1 < i - from && 0 <= k2 < i - from && #[trigger] m[k1] == '.'
                    && #[trigger] m[k2] == '.' ==> k1 == k2,
            seen_dot <==> exists|k: int| 0 <= k < i - from && #[trigger] m[k] == '.',
            seen_digit <==> exists|k: int| 0 <= k < i - from && is_digit(#[trigger] m[k]),
        decreases to - i,
    {
        let ch = c[i];
        let ghost j = i - from;
        assert(m[j] == ch);
        if is_ascii_digit(ch) {
            seen_digit = true;
        } else if ch == '.' {
            if seen_dot {
                let ghost k = choose|k: int| 0 <= k < i - from && #[trigger] m[k] == '.';
                assert(m[k] == '.' && m[j] == '.' && k != j);
                return false;
            }
            seen_dot = true;
        } else {
            return false;
        }
        i = i + 1;
    }
    seen_digit
}

/// `c[from..to]` is an exponent.
fn exponent_at(c: &[char], from: usize, to: usize) -> (res: bool)
    requires
        from <= to <= c@.len(),
    ensures
        res == exponent(c@.subrange(from as int, to as int)),
{
    let ghost x = c@.subrange(from as int, to as int);
    if from == to {
        return false;
    }
    let ch = c[from];
    assert(x[0] == ch);
    if !(ch as u32 == 101 || ch as u32 == 69) {
        return false;
    }
    let ghost r = x.drop_first();
    assert(r =~= c@.subrange(from + 1, to as int));
    if from + 1 < to && (c[from + 1] == '+' || c[from + 1] == '-') {
        assert(r[0] == c@[from + 1]);
        assert(r.drop_first() =~= c@.subrange(from + 2, to as int));
        digits_only_at(c, from + 2, to)
    } else {
        proof {
            if r.len() > 0 {
                assert(r[0] == c@[from + 1]);
            }
        }
        digits_only_at(c, from + 1, to)
    }
}

/// `c[from..to]` is a decimal number.
fn decimal_at(c: &[char], from: usize, to: usize) -> (res: bool)
    requires
        from <= to <= c@.len(),
    ensures
        res == decimal(c@.subrange(from as int, to as int)),
{
    let ghost s = c@.subrange(from as int, to as int);
    let mut e = from;
    while e < to && !(c[e] as u32 == 101 || c[e] as u32 == 69)
        invariant
            from <= e <= to <= c@.len(),
            s == c@.subrange(from as int, to as int),
            forall|k: int| 0 <= k < e - from ==> lower_code(#[trigger] s[k]) != 101,
        decreases to - e,
    {
        assert(s[e - from] == c@[e as int]);
        e = e + 1;
    }
    let ghost ep = e - from;
    assert(s.take(ep) =~= c@.subrange(from as int, e as int));
    assert(s.skip(ep) =~= c@.subrange(e as int, to as int));
    let m_ok = mantissa_at(c, from, e);
    let res = if !m_ok {
        false
    } else if e == to {
        true
    } else {
        exponent_at(c, e, to)
    };
    proof {
        if res {
            assert(0 <= ep <= s.len() && mantissa(s.take(ep)) && (ep == s.len() || exponent(
                s.skip(ep),
            )));
        } else {
            assert forall|x: int|
                0 <= x <= s.len() && #[trigger] mantissa(s.take(x)) implies !(x == s.len()
                || exponent(s.skip(x))) by {
                if x < ep {
                    if exponent(s.skip(x)) {
                        assert(s.skip(x)[0] == s[x]);
                    }
                } else if x > ep {
                    assert(s.take(x)[ep] == s[ep]);
                    assert(s[ep] == c@[e as int]);
                } else {
                }
            }
        }
    }
    res
}

/// Whether `str::parse::<f64>` accepts `s`: `Sign? ('inf' | 'infinity' | 'nan' | Number)`.
pub fn is_float_literal(s: &str) -> (res: bool)
    ensures
        res == float_literal(s@),
{
    let c = chars_of(s);
    let n = c.len();
    let start: usize = if n > 0 && (c[0] == '+' || c[0] == '-') {
        1
    } else {
        0
    };
    let ghost body = if s@.len() > 0 && is_sign(s@[0]) {
        s@.drop_first()
    } else {
        s@
    };
    assert(body =~= c@.subrange(start as int, n as int));
    let inf: Vec<char> = vec!['i', 'n', 'f'];
    let infinity: Vec<char> = vec!['i', 'n', 'f', 'i', 'n', 'i', 't', 'y'];
    let nan: Vec<char> = vec!['n', 'a', 'n'];
    ci_word_at(c.as_slice(), start, n, inf.as_slice()) || ci_word_at(
        c.as_slice(),
        start,
        n,
        infinity.as_slice(),
    ) || ci_word_at(c.as_slice(), start, n, nan.as_slice()) || decimal_at(c.as_slice(), start, n)
}

} // verus!
