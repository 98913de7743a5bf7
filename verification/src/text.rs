//! Character-level text primitives shared by the emitters, formatters and scanners.
//!
//! Everything here works on `Seq<char>` views: a `&str` or `String` is read through its view, and new
//! strings are built one character at a time so that each formatter can state exactly which
//! characters it produces.
use vstd::prelude::*;

verus! {

/// The Unicode `White_Space` property, which is what `char::is_whitespace` reports.
pub open spec fn is_ws(c: char) -> bool {
    let u = c as u32;
    ||| 0x9 <= u <= 0xD
    ||| u == 0x20
    ||| u == 0x85
    ||| u == 0xA0
    ||| u == 0x1680
    ||| 0x2000 <= u <= 0x200A
    ||| u == 0x2028
    ||| u == 0x2029
    ||| u == 0x202F
    ||| u == 0x205F
    ||| u == 0x3000
}

/// `s` with its leading whitespace removed (`str::trim_start`).
pub open spec fn trim_start(s: Seq<char>) -> Seq<char>
    decreases s.len(),
{
    if s.len() > 0 && is_ws(s[0]) {
        trim_start(s.drop_first())
    } else {
        s
    }
}

/// `s` with its trailing whitespace removed (`str::trim_end`).
pub open spec fn trim_end(s: Seq<char>) -> Seq<char>
    decreases s.len(),
{
    if s.len() > 0 && is_ws(s.last()) {
        trim_end(s.drop_last())
    } else {
        s
    }
}

/// `s` with leading and trailing whitespace removed (`str::trim`).
pub open spec fn trim(s: Seq<char>) -> Seq<char> {
    trim_end(trim_start(s))
}

/// The index of the first occurrence of `c` in `s`, if any (`str::find` with a `char`).
pub open spec fn find_char(s: Seq<char>, c: char) -> Option<int>
    decreases s.len(),
{
    if s.len() == 0 {
        None
    } else if s[0] == c {
        Some(0)
    } else {
        match find_char(s.drop_first(), c) {
            Some(i) => Some(i + 1),
            None => None,
        }
    }
}

/// Whether `pat` occurs in `s` starting at index `i`.
pub open spec fn occurs_at(s: Seq<char>, pat: Seq<char>, i: int) -> bool {
    0 <= i && i + pat.len() <= s.len() && s.subrange(i, i + pat.len()) == pat
}

/// The index of the first occurrence of `pat` in `s`, if any (`str::find` with a `&str`).
pub open spec fn find_sub(s: Seq<char>, pat: Seq<char>) -> Option<int> {
    if exists|i: int| occurs_at(s, pat, i) {
        Some(choose|i: int| occurs_at(s, pat, i) && forall|j: int| 0 <= j < i ==> !occurs_at(s, pat, j))
    } else {
        None
    }
}

/// Whether `s` begins with `prefix` (`str::starts_with`).
pub open spec fn starts_with(s: Seq<char>, prefix: Seq<char>) -> bool {
    prefix.len() <= s.len() && s.subrange(0, prefix.len() as int) == prefix
}

/// The character of a decimal digit.
pub open spec fn digit_char(d: nat) -> char {
    if d == 0 {
        '0'
    } else if d == 1 {
        '1'
    } else if d == 2 {
        '2'
    } else if d == 3 {
        '3'
    } else if d == 4 {
        '4'
    } else if d == 5 {
        '5'
    } else if d == 6 {
        '6'
    } else if d == 7 {
        '7'
    } else if d == 8 {
        '8'
    } else {
        '9'
    }
}

/// The decimal representation of `n` with no leading zeros (`format!("{n}")`).
pub open spec fn dec(n: nat) -> Seq<char>
    decreases n,
{
    if n < 10 {
        seq![digit_char(n)]
    } else {
        dec(n / 10).push(digit_char(n % 10))
    }
}

/// The decimal representation of `n` zero-padded to at least two digits (`format!("{n:02}")`).
pub open spec fn dec_pad2(n: nat) -> Seq<char> {
    if n < 10 {
        seq!['0'] + dec(n)
    } else {
        dec(n)
    }
}

/// The strings of `parts` joined by `sep` (`[&str]::join`).
pub open spec fn join(parts: Seq<Seq<char>>, sep: Seq<char>) -> Seq<char>
    decreases parts.len(),
{
    if parts.len() == 0 {
        Seq::empty()
    } else if parts.len() == 1 {
        parts[0]
    } else {
        join(parts.drop_last(), sep) + sep + parts.last()
    }
}

/// What `str::to_lowercase` returns for a string (full Unicode case mapping).
pub uninterp spec fn str_lowercase(s: Seq<char>) -> Seq<char>;

/// Calls `str::to_lowercase`.
///
/// Trusted: the result is named `str_lowercase` of the argument's characters; the Unicode case
/// mapping itself is not stated.
#[verifier::external_body]
pub(crate) fn to_lowercase(s: &str) -> (r: String)
    ensures
        r@ == str_lowercase(s@),
{
    s.to_lowercase()
}

/// Calls `String::push`: the character is appended at the end.
#[verifier::external_body]
pub(crate) fn push_char(s: &mut String, c: char)
    ensures
        final(s)@ == old(s)@.push(c),
{
    s.push(c)
}

/// The characters of `s`, in order.
pub fn chars_of(s: &str) -> (v: Vec<char>)
    ensures
        v@ == s@,
{
    let n = s.unicode_len();
    let mut v: Vec<char> = Vec::new();
    let mut i: usize = 0;
    while i < n
        invariant
            n == s@.len(),
            i <= n,
            v@ == s@.subrange(0, i as int),
        decreases n - i,
    {
        let c = s.get_char(i);
        v.push(c);
        i = i + 1;
        assert(v@ =~= s@.subrange(0, i as int));
    }
    assert(v@ =~= s@);
    v
}

/// A new string holding `v[lo..hi]`.
pub fn string_from_range(v: &Vec<char>, lo: usize, hi: usize) -> (s: String)
    requires
        lo <= hi <= v@.len(),
    ensures
        s@ == v@.subrange(lo as int, hi as int),
{
    let mut s = String::new();
    let mut i = lo;
    while i < hi
        invariant
            lo <= i <= hi,
            hi <= v@.len(),
            s@ == v@.subrange(lo as int, i as int),
        decreases hi - i,
    {
        push_char(&mut s, v[i]);
        i = i + 1;
        assert(s@ =~= v@.subrange(lo as int, i as int));
    }
    s
}

/// A new string holding the characters of `s`.
pub fn string_from_str(s: &str) -> (r: String)
    ensures
        r@ == s@,
{
    let v = chars_of(s);
    string_from_range(&v, 0, v.len())
}

/// Appends the characters of `t` to `s`.
pub fn push_str(s: &mut String, t: &str)
    ensures
        final(s)@ == old(s)@ + t@,
{
    let v = chars_of(t);
    let mut i: usize = 0;
    while i < v.len()
        invariant
            i <= v@.len(),
            v@ == t@,
            s@ == old(s)@ + t@.subrange(0, i as int),
        decreases v@.len() - i,
    {
        push_char(s, v[i]);
        i = i + 1;
        assert(s@ =~= old(s)@ + t@.subrange(0, i as int));
    }
    assert(t@.subrange(0, v@.len() as int) =~= t@);
}

/// Whether two strings hold the same characters.
pub fn str_eq(a: &str, b: &str) -> (r: bool)
    ensures
        r == (a@ == b@),
{
    let va = chars_of(a);
    let vb = chars_of(b);
    chars_eq(&va, &vb)
}

/// Whether two character vectors are equal.
pub fn chars_eq(a: &Vec<char>, b: &Vec<char>) -> (r: bool)
    ensures
        r == (a@ == b@),
{
    if a.len() != b.len() {
        return false;
    }
    let mut i: usize = 0;
    while i < a.len()
        invariant
            a@.len() == b@.len(),
            i <= a@.len(),
            forall|j: int| 0 <= j < i ==> a@[j] == b@[j],
        decreases a@.len() - i,
    {
        if a[i] != b[i] {
            return false;
        }
        i = i + 1;
    }
    assert(a@ =~= b@);
    true
}

/// The character of the decimal digit `d`.
fn digit_of(d: u64) -> (c: char)
    requires
        d < 10,
    ensures
        c == digit_char(d as nat),
{
    if d == 0 {
        '0'
    } else if d == 1 {
        '1'
    } else if d == 2 {
        '2'
    } else if d == 3 {
        '3'
    } else if d == 4 {
        '4'
    } else if d == 5 {
        '5'
    } else if d == 6 {
        '6'
    } else if d == 7 {
        '7'
    } else if d == 8 {
        '8'
    } else {
        '9'
    }
}

/// Appends the decimal representation of `n`.
pub fn push_decimal(s: &mut String, n: u64)
    ensures
        final(s)@ == old(s)@ + dec(n as nat),
    decreases n,
{
    if n < 10 {
        push_char(s, digit_of(n));
        assert(final(s)@ =~= old(s)@ + dec(n as nat));
    } else {
        push_decimal(s, n / 10);
        push_char(s, digit_of(n % 10));
        assert(final(s)@ =~= old(s)@ + dec(n as nat));
    }
}

/// Appends the decimal representation of `n`, zero-padded to two digits.
pub fn push_decimal_pad2(s: &mut String, n: u64)
    ensures
        final(s)@ == old(s)@ + dec_pad2(n as nat),
{
    if n < 10 {
        push_char(s, '0');
    }
    push_decimal(s, n);
    assert(final(s)@ =~= old(s)@ + dec_pad2(n as nat));
}

/// Leading whitespace stripped by `trim_start` is exactly the prefix before `k`.
pub proof fn lemma_trim_start_at(s: Seq<char>, k: int)
    requires
        0 <= k <= s.len(),
        forall|i: int| 0 <= i < k ==> is_ws(#[trigger] s[i]),
        k == s.len() || !is_ws(s[k]),
    ensures
        trim_start(s) == s.subrange(k, s.len() as int),
    decreases k,
{
    if k == 0 {
        assert(s.subrange(0, s.len() as int) =~= s);
    } else {
        let t = s.drop_first();
        assert forall|i: int| 0 <= i < k - 1 implies is_ws(#[trigger] t[i]) by {
            assert(t[i] == s[i + 1]);
        }
        lemma_trim_start_at(t, k - 1);
        assert(t.subrange(k - 1, t.len() as int) =~= s.subrange(k, s.len() as int));
    }
}

/// Trailing whitespace stripped by `trim_end` is exactly the suffix from `k`.
pub proof fn lemma_trim_end_at(s: Seq<char>, k: int)
    requires
        0 <= k <= s.len(),
        forall|i: int| k <= i < s.len() ==> is_ws(#[trigger] s[i]),
        k == 0 || !is_ws(s[k - 1]),
    ensures
        trim_end(s) == s.subrange(0, k),
    decreases s.len() - k,
{
    if k == s.len() {
        assert(s.subrange(0, k) =~= s);
    } else {
        let t = s.drop_last();
        assert forall|i: int| k <= i < t.len() implies is_ws(#[trigger] t[i]) by {
            assert(t[i] == s[i]);
        }
        lemma_trim_end_at(t, k);
        assert(t.subrange(0, k) =~= s.subrange(0, k));
    }
}

/// Whether `c` is Unicode whitespace (`char::is_whitespace`).
pub fn char_is_whitespace(c: char) -> (b: bool)
    ensures
        b == is_ws(c),
{
    let u = c as u32;
    (0x9 <= u && u <= 0xD) || u == 0x20 || u == 0x85 || u == 0xA0 || u == 0x1680 || (0x2000 <= u
        && u <= 0x200A) || u == 0x2028 || u == 0x2029 || u == 0x202F || u == 0x205F || u == 0x3000
}

/// The bounds of `trim(v[lo..hi])` inside `v`.
pub fn trim_range(v: &Vec<char>, lo: usize, hi: usize) -> (r: (usize, usize))
    requires
        lo <= hi <= v@.len(),
    ensures
        lo <= r.0 <= r.1 <= hi,
        v@.subrange(r.0 as int, r.1 as int) == trim(v@.subrange(lo as int, hi as int)),
{
    let ghost s = v@.subrange(lo as int, hi as int);
    let mut a = lo;
    while a < hi && char_is_whitespace(v[a])
        invariant
            lo <= a <= hi,
            hi <= v@.len(),
            forall|i: int| lo <= i < a ==> is_ws(#[trigger] v@[i]),
        decreases hi - a,
    {
        a = a + 1;
    }
    proof {
        assert forall|i: int| 0 <= i < a - lo implies is_ws(#[trigger] s[i]) by {
            assert(s[i] == v@[lo + i]);
        }
        lemma_trim_start_at(s, a - lo);
        assert(s.subrange(a - lo, s.len() as int) =~= v@.subrange(a as int, hi as int));
    }
    let ghost t = v@.subrange(a as int, hi as int);
    let mut b = hi;
    while b > a && char_is_whitespace(v[b - 1])
        invariant
            a <= b <= hi,
            hi <= v@.len(),
            forall|i: int| b <= i < hi ==> is_ws(#[trigger] v@[i]),
        decreases b - a,
    {
        b = b - 1;
    }
    proof {
        assert forall|i: int| b - a <= i < t.len() implies is_ws(#[trigger] t[i]) by {
            assert(t[i] == v@[a + i]);
        }
        lemma_trim_end_at(t, b - a);
        assert(t.subrange(0, b - a) =~= v@.subrange(a as int, b as int));
    }
    (a, b)
}


/// Lexicographic order on character sequences by code point, which is the byte order of their UTF-8
/// encodings and so the order `str`'s `Ord` uses.
pub open spec fn lex_lt(a: Seq<char>, b: Seq<char>) -> bool
    decreases a.len(),
{
    if b.len() == 0 {
        false
    } else if a.len() == 0 {
        true
    } else if (a[0] as u32) < (b[0] as u32) {
        true
    } else if a[0] == b[0] {
        lex_lt(a.drop_first(), b.drop_first())
    } else {
        false
    }
}

/// `lex_lt` is a strict total order.
pub proof fn lemma_lex_total(a: Seq<char>, b: Seq<char>)
    ensures
        !lex_lt(a, a),
        lex_lt(a, b) ==> !lex_lt(b, a),
        a != b ==> lex_lt(a, b) || lex_lt(b, a),
    decreases a.len(),
{
    if a.len() > 0 {
        lemma_lex_total(a.drop_first(), a.drop_first());
        if b.len() > 0 {
            lemma_lex_total(a.drop_first(), b.drop_first());
            lemma_char_code(a[0], b[0]);
            if a[0] == b[0] && a.drop_first() == b.drop_first() {
                assert(a =~= seq![a[0]] + a.drop_first());
                assert(b =~= seq![b[0]] + b.drop_first());
            }
        }
    } else if b.len() == 0 {
        assert(a =~= b);
    }
}

/// `lex_lt` is transitive.
pub proof fn lemma_lex_trans(a: Seq<char>, b: Seq<char>, c: Seq<char>)
    requires
        lex_lt(a, b),
        lex_lt(b, c),
    ensures
        lex_lt(a, c),
    decreases a.len(),
{
    if a.len() > 0 && b.len() > 0 && c.len() > 0 {
        if a[0] == b[0] && b[0] == c[0] {
            lemma_lex_trans(a.drop_first(), b.drop_first(), c.drop_first());
        }
    }
}

/// Compares two character sequences: negative, zero or positive as `a` sorts before, equal to or
/// after `b`.
pub fn compare_chars(a: &Vec<char>, b: &Vec<char>) -> (r: i8)
    ensures
        r < 0 <==> lex_lt(a@, b@),
        r == 0 <==> a@ == b@,
        r > 0 <==> lex_lt(b@, a@),
{
    proof {
        lemma_lex_total(a@, b@);
        assert(a@.skip(0) =~= a@);
        assert(b@.skip(0) =~= b@);
    }
    let mut i: usize = 0;
    while i < a.len() && i < b.len()
        invariant
            i <= a@.len(),
            i <= b@.len(),
            a@.subrange(0, i as int) == b@.subrange(0, i as int),
            lex_lt(a@, b@) == lex_lt(a@.skip(i as int), b@.skip(i as int)),
            lex_lt(b@, a@) == lex_lt(b@.skip(i as int), a@.skip(i as int)),
        decreases a@.len() - i,
    {
        let x = a[i];
        let y = b[i];
        let ghost sa = a@.skip(i as int);
        let ghost sb = b@.skip(i as int);
        assert(sa[0] == x && sb[0] == y);
        if (x as u32) < (y as u32) {
            return -1;
        }
        if (y as u32) < (x as u32) {
            return 1;
        }
        proof {
            lemma_char_code(x, y);
        }
        assert(x == y);
        assert(sa.drop_first() =~= a@.skip(i + 1));
        assert(sb.drop_first() =~= b@.skip(i + 1));
        i = i + 1;
        assert(a@.subrange(0, i as int) =~= a@.subrange(0, i - 1).push(x));
        assert(b@.subrange(0, i as int) =~= b@.subrange(0, i - 1).push(y));
    }
    if a.len() < b.len() {
        assert(a@.skip(i as int).len() == 0);
        -1
    } else if b.len() < a.len() {
        assert(b@.skip(i as int).len() == 0);
        1
    } else {
        assert(a@ =~= a@.subrange(0, i as int));
        assert(b@ =~= b@.subrange(0, i as int));
        0
    }
}


/// A character is determined by its code point.
pub proof fn lemma_char_code(a: char, b: char)
    ensures
        (a as u32) == (b as u32) ==> a == b,
{
}
/// `find_char` finds the first occurrence.
pub proof fn lemma_find_char_at(s: Seq<char>, c: char, k: int)
    requires
        0 <= k <= s.len(),
        forall|j: int| 0 <= j < k ==> s[j] != c,
        k < s.len() ==> s[k] == c,
    ensures
        find_char(s, c) == if k < s.len() {
            Some(k)
        } else {
            None::<int>
        },
    decreases k,
{
    if k > 0 {
        lemma_find_char_at(s.drop_first(), c, k - 1);
    }
}


/// The index of `c` in `v[a..b]`, as an index of `v`.
pub fn find_char_in(v: &Vec<char>, a: usize, b: usize, c: char) -> (r: Option<usize>)
    requires
        a <= b <= v@.len(),
    ensures
        match find_char(v@.subrange(a as int, b as int), c) {
            Some(i) => r is Some && r->0 == a + i,
            None => r is None,
        },
        match r {
            Some(k) => a <= k < b && v@[k as int] == c && forall|j: int| a <= j < k ==> v@[j] != c,
            None => forall|j: int| a <= j < b ==> v@[j] != c,
        },
{
    let ghost s = v@.subrange(a as int, b as int);
    let mut k = a;
    while k < b && v[k] != c
        invariant
            a <= k <= b,
            b <= v@.len(),
            s == v@.subrange(a as int, b as int),
            forall|j: int| a <= j < k ==> v@[j] != c,
        decreases b - k,
    {
        k = k + 1;
    }
    proof {
        assert forall|j: int| 0 <= j < k - a implies s[j] != c by {
            assert(s[j] == v@[a + j]);
        }
        if k < b {
            assert(s[k - a] == v@[k as int]);
        }
        lemma_find_char_at(s, c, k - a);
    }
    if k < b {
        Some(k)
    } else {
        None
    }
}


/// `c` with an ASCII capital letter mapped to its small letter.
pub open spec fn ascii_lower(c: char) -> char {
    if 'A' <= c <= 'Z' {
        ((c as u32) + 32) as char
    } else {
        c
    }
}

/// Whether every character of `s` is an ASCII digit.
pub open spec fn all_digits(s: Seq<char>) -> bool {
    forall|i: int| 0 <= i < s.len() ==> '0' <= #[trigger] s[i] <= '9'
}

/// `s` without a leading `+` or `-`.
pub open spec fn strip_sign(s: Seq<char>) -> Seq<char> {
    if s.len() > 0 && (s[0] == '+' || s[0] == '-') {
        s.drop_first()
    } else {
        s
    }
}

/// Whether `s`, compared case-insensitively, is the word `w` (given in small letters).
pub open spec fn is_word_ci(s: Seq<char>, w: Seq<char>) -> bool {
    s.len() == w.len() && forall|i: int| 0 <= i < s.len() ==> ascii_lower(#[trigger] s[i]) == w[i]
}

/// A decimal mantissa: digits with at most one `.`, and at least one digit.
pub open spec fn mantissa_syntax(m: Seq<char>) -> bool {
    match find_char(m, '.') {
        None => m.len() >= 1 && all_digits(m),
        Some(d) => m.len() >= 2 && all_digits(m.take(d)) && all_digits(m.skip(d + 1)),
    }
}

/// The index of the first `e` or `E` of `s`, or its length.
pub open spec fn exp_index(s: Seq<char>) -> int
    decreases s.len(),
{
    if s.len() == 0 {
        0
    } else if s[0] == 'e' || s[0] == 'E' {
        0
    } else {
        1 + exp_index(s.drop_first())
    }
}

/// The decimal number syntax: a mantissa, then optionally `e`/`E`, an optional sign and digits.
pub open spec fn number_syntax(b: Seq<char>) -> bool {
    let e = exp_index(b);
    &&& mantissa_syntax(b.take(e))
    &&& (e >= b.len() || (strip_sign(b.skip(e + 1)).len() >= 1 && all_digits(strip_sign(b.skip(e + 1)))))
}

/// The text syntax Rust's floating-point `FromStr` accepts, as its documentation gives the grammar
/// (case-insensitively): an optional sign, then `inf`, `infinity`, `nan` or a decimal number.
#[verifier::opaque]
pub open spec fn float_syntax(s: Seq<char>) -> bool {
    let b = strip_sign(s);
    ||| is_word_ci(b, "inf"@)
    ||| is_word_ci(b, "infinity"@)
    ||| is_word_ci(b, "nan"@)
    ||| number_syntax(b)
}

fn ascii_lower_exec(c: char) -> (r: char)
    ensures
        r == ascii_lower(c),
{
    if 'A' <= c && c <= 'Z' {
        let code: u32 = c as u32;
        let small: u8 = code as u8;
        (small + 32) as char
    } else {
        c
    }
}

fn word_ci_in(v: &Vec<char>, a: usize, w: &str) -> (b: bool)
    requires
        a <= v@.len(),
    ensures
        b == is_word_ci(v@.subrange(a as int, v@.len() as int), w@),
{
    let wv = chars_of(w);
    let ghost s = v@.subrange(a as int, v@.len() as int);
    let vn = v.len();
    if vn - a != wv.len() {
        return false;
    }
    let mut i: usize = 0;
    while i < wv.len()
        invariant
            i <= wv@.len(),
            wv@ == w@,
            a <= v@.len(),
            vn == v@.len(),
            v@.len() - a == wv@.len(),
            s == v@.subrange(a as int, v@.len() as int),
            forall|j: int| 0 <= j < i ==> ascii_lower(#[trigger] s[j]) == w@[j],
        decreases wv@.len() - i,
    {
        assert(s[i as int] == v@[a + i]);
        if ascii_lower_exec(v[a + i]) != wv[i] {
            return false;
        }
        i = i + 1;
    }
    true
}

fn digits_in(v: &Vec<char>, a: usize, b: usize) -> (r: bool)
    requires
        a <= b <= v@.len(),
    ensures
        r == all_digits(v@.subrange(a as int, b as int)),
{
    let ghost s = v@.subrange(a as int, b as int);
    let mut i = a;
    while i < b
        invariant
            a <= i <= b,
            b <= v@.len(),
            s == v@.subrange(a as int, b as int),
            forall|j: int| a <= j < i ==> '0' <= #[trigger] v@[j] <= '9',
        decreases b - i,
    {
        let c = v[i];
        if !('0' <= c && c <= '9') {
            assert(s[i - a] == c);
            return false;
        }
        i = i + 1;
    }
    assert forall|j: int| 0 <= j < s.len() implies '0' <= #[trigger] s[j] <= '9' by {
        assert(s[j] == v@[a + j]);
    }
    true
}

proof fn lemma_exp_index_at(s: Seq<char>, k: int)
    requires
        0 <= k <= s.len(),
        forall|j: int| 0 <= j < k ==> s[j] != 'e' && s[j] != 'E',
        k < s.len() ==> (s[k] == 'e' || s[k] == 'E'),
    ensures
        exp_index(s) == k,
    decreases k,
{
    if k > 0 {
        lemma_exp_index_at(s.drop_first(), k - 1);
    }
}

/// Whether Rust's floating-point parser accepts the text (see `float_syntax`).
pub fn is_float_text(s: &str) -> (b: bool)
    ensures
        b == float_syntax(s@),
{
    proof {
        reveal(float_syntax);
    }
    let v = chars_of(s);
    let n = v.len();
    let a: usize = if n > 0 && (v[0] == '+' || v[0] == '-') { 1 } else { 0 };
    let ghost body = strip_sign(v@);
    assert(body =~= v@.subrange(a as int, n as int));
    if word_ci_in(&v, a, "inf") || word_ci_in(&v, a, "infinity") || word_ci_in(&v, a, "nan") {
        return true;
    }
    // split the number at its first `e`/`E`
    let mut e = a;
    while e < n && v[e] != 'e' && v[e] != 'E'
        invariant
            a <= e <= n,
            n == v@.len(),
            forall|j: int| a <= j < e ==> v@[j] != 'e' && v@[j] != 'E',
        decreases n - e,
    {
        e = e + 1;
    }
    proof {
        assert forall|j: int| 0 <= j < e - a implies body[j] != 'e' && body[j] != 'E' by {
            assert(body[j] == v@[a + j]);
        }
        if e < n {
            assert(body[e - a] == v@[e as int]);
        }
        lemma_exp_index_at(body, e - a);
        assert(body.take(e - a) =~= v@.subrange(a as int, e as int));
    }
    // the mantissa v[a..e]
    let mant_ok = match find_char_in(&v, a, e, '.') {
        None => e - a >= 1 && digits_in(&v, a, e),
        Some(d) => {
            proof {
                let m = v@.subrange(a as int, e as int);
                assert(m.take(d - a) =~= v@.subrange(a as int, d as int));
                assert(m.skip(d - a + 1) =~= v@.subrange(d + 1, e as int));
            }
            e - a >= 2 && digits_in(&v, a, d) && digits_in(&v, d + 1, e)
        },
    };
    if !mant_ok {
        return false;
    }
    if e == n {
        return true;
    }
    // the exponent v[e+1..n], with an optional sign
    let x = e + 1;
    let xs: usize = if x < n && (v[x] == '+' || v[x] == '-') { x + 1 } else { x };
    proof {
        let ex = body.skip(e - a + 1);
        assert(ex =~= v@.subrange(x as int, n as int));
        assert(strip_sign(ex) =~= v@.subrange(xs as int, n as int));
    }
    n - xs >= 1 && digits_in(&v, xs, n)
}

/// Where the line starting at `pos` ends: at the next `\n`, or at the end of the text.
pub open spec fn line_end(t: Seq<char>, pos: int) -> int
    decreases t.len() - pos,
{
    if pos >= t.len() {
        t.len() as int
    } else if t[pos] == '\n' {
        pos
    } else {
        line_end(t, pos + 1)
    }
}

pub proof fn lemma_line_end(t: Seq<char>, pos: int)
    requires
        0 <= pos <= t.len(),
    ensures
        pos <= line_end(t, pos) <= t.len(),
        forall|j: int| pos <= j < line_end(t, pos) ==> t[j] != '\n',
        line_end(t, pos) < t.len() ==> t[line_end(t, pos)] == '\n',
    decreases t.len() - pos,
{
    if pos < t.len() && t[pos] != '\n' {
        lemma_line_end(t, pos + 1);
    }
}



// ── association lists keyed by text ──────────────────────────────────────────

/// The index of the first pair of `m` keyed by `k`.
pub open spec fn first_key<V>(m: Seq<(Seq<char>, V)>, k: Seq<char>) -> Option<int>
    decreases m.len(),
{
    if m.len() == 0 {
        None
    } else {
        match first_key(m.drop_last(), k) {
            Some(i) => Some(i),
            None => if m.last().0 == k {
                Some(m.len() - 1)
            } else {
                None
            },
        }
    }
}

/// The value `m` holds for key `k`.
pub open spec fn lookup<V>(m: Seq<(Seq<char>, V)>, k: Seq<char>) -> Option<V> {
    match first_key(m, k) {
        Some(i) => Some(m[i].1),
        None => None,
    }
}


pub proof fn lemma_first_key_bounds<V>(m: Seq<(Seq<char>, V)>, k: Seq<char>)
    ensures
        match first_key(m, k) {
            Some(i) => 0 <= i < m.len() && m[i].0 == k && forall|j: int| 0 <= j < i ==> m[j].0 != k,
            None => forall|j: int| 0 <= j < m.len() ==> m[j].0 != k,
        },
    decreases m.len(),
{
    if m.len() > 0 {
        lemma_first_key_bounds(m.drop_last(), k);
        assert forall|j: int| 0 <= j < m.len() - 1 implies m[j] == m.drop_last()[j] by {}
    }
}

pub proof fn lemma_first_key_at<V>(m: Seq<(Seq<char>, V)>, k: Seq<char>, i: int)
    requires
        0 <= i < m.len(),
        m[i].0 == k,
        forall|j: int| 0 <= j < i ==> m[j].0 != k,
    ensures
        first_key(m, k) == Some(i),
{
    lemma_first_key_bounds(m, k);
    match first_key(m, k) {
        Some(j) => {
            if j < i {
            } else if j > i {
            }
        },
        None => {},
    }
}

pub proof fn lemma_first_key_absent<V>(m: Seq<(Seq<char>, V)>, k: Seq<char>)
    requires
        forall|j: int| 0 <= j < m.len() ==> m[j].0 != k,
    ensures
        first_key(m, k) is None,
{
    lemma_first_key_bounds(m, k);
    if let Some(i) = first_key(m, k) {
        assert(m[i].0 == k);
    }
}


/// Where the line of `t` starting at `pos` ends (see `line_end`).
pub fn next_line_end(t: &Vec<char>, pos: usize) -> (e: usize)
    requires
        pos <= t@.len(),
    ensures
        e == line_end(t@, pos as int),
        pos <= e <= t@.len(),
{
    let mut k = pos;
    while k < t.len() && t[k] != '\n'
        invariant
            pos <= k <= t@.len(),
            line_end(t@, k as int) == line_end(t@, pos as int),
        decreases t@.len() - k,
    {
        k = k + 1;
    }
    k
}


/// Whether `s` starts with `p`.
pub fn has_prefix(s: &Vec<char>, p: &Vec<char>) -> (b: bool)
    ensures
        b == starts_with(s@, p@),
{
    if p.len() > s.len() {
        return false;
    }
    let mut i: usize = 0;
    while i < p.len()
        invariant
            i <= p@.len() <= s@.len(),
            forall|j: int| 0 <= j < i ==> s@[j] == p@[j],
        decreases p@.len() - i,
    {
        if s[i] != p[i] {
            assert(s@.subrange(0, p@.len() as int)[i as int] != p@[i as int]);
            return false;
        }
        i = i + 1;
    }
    assert(s@.subrange(0, p@.len() as int) =~= p@);
    true
}

/// Whether `s` starts with `p` (`str::starts_with`).
pub fn str_starts_with(s: &str, p: &str) -> (b: bool)
    ensures
        b == starts_with(s@, p@),
{
    let sv = chars_of(s);
    let pv = chars_of(p);
    has_prefix(&sv, &pv)
}

} // verus!
