//! Character-level text handling: Unicode white space, trimming, the first
//! white-space separated word, prefixes, decimal formatting of integers,
//! and lower-casing.
use vstd::prelude::*;
use vstd::string::*;

verus! {

/// Whether `c` has the Unicode `White_Space` property: the set of
/// characters for which `char::is_whitespace` holds.
pub open spec fn is_white_space(c: char) -> bool {
    let n = c as u32;
    ||| 0x09 <= n <= 0x0d
    ||| n == 0x20
    ||| n == 0x85
    ||| n == 0xa0
    ||| n == 0x1680
    ||| 0x2000 <= n <= 0x200a
    ||| n == 0x2028
    ||| n == 0x2029
    ||| n == 0x202f
    ||| n == 0x205f
    ||| n == 0x3000
}

/// Executable test for [`is_white_space`].
pub fn white_space(c: char) -> (b: bool)
    ensures
        b == is_white_space(c),
{
    let n = c as u32;
    (0x09 <= n && n <= 0x0d) || n == 0x20 || n == 0x85 || n == 0xa0 || n == 0x1680 || (0x2000
        <= n && n <= 0x200a) || n == 0x2028 || n == 0x2029 || n == 0x202f || n == 0x205f || n
        == 0x3000
}

/// `s` without its leading white space.
pub open spec fn trim_start(s: Seq<char>) -> Seq<char>
    decreases s.len(),
{
    if s.len() > 0 && is_white_space(s[0]) {
        trim_start(s.drop_first())
    } else {
        s
    }
}

/// `s` without its trailing white space.
pub open spec fn trim_end(s: Seq<char>) -> Seq<char>
    decreases s.len(),
{
    if s.len() > 0 && is_white_space(s.last()) {
        trim_end(s.drop_last())
    } else {
        s
    }
}

/// `s` without its leading and trailing white space (what `str::trim` gives).
pub open spec fn trimmed(s: Seq<char>) -> Seq<char> {
    trim_end(trim_start(s))
}

/// The longest prefix of `s` that holds no white space.
pub open spec fn leading_word(s: Seq<char>) -> Seq<char>
    decreases s.len(),
{
    if s.len() > 0 && !is_white_space(s[0]) {
        seq![s[0]] + leading_word(s.drop_first())
    } else {
        Seq::empty()
    }
}

/// The first white-space separated word of `s`, or the empty text when `s`
/// holds only white space (what `s.split_whitespace().next().unwrap_or("")`
/// gives).
pub open spec fn first_word(s: Seq<char>) -> Seq<char> {
    leading_word(trim_start(s))
}

/// Whether `s` begins with `prefix`.
pub open spec fn has_prefix(s: Seq<char>, prefix: Seq<char>) -> bool {
    prefix.len() <= s.len() && s.subrange(0, prefix.len() as int) == prefix
}

proof fn lemma_trim_start_skip(s: Seq<char>, i: int)
    requires
        0 <= i <= s.len(),
        forall|k: int| 0 <= k < i ==> is_white_space(#[trigger] s[k]),
    ensures
        trim_start(s) == trim_start(s.subrange(i, s.len() as int)),
    decreases i,
{
    if i > 0 {
        let t = s.drop_first();
        assert forall|k: int| 0 <= k < i - 1 implies is_white_space(#[trigger] t[k]) by {
            assert(t[k] == s[k + 1]);
        }
        lemma_trim_start_skip(t, i - 1);
        assert(t.subrange(i - 1, t.len() as int) =~= s.subrange(i, s.len() as int));
        assert(is_white_space(s[0]));
    } else {
        assert(s.subrange(0, s.len() as int) =~= s);
    }
}

proof fn lemma_trim_end_skip(s: Seq<char>, j: int)
    requires
        0 <= j <= s.len(),
        forall|k: int| j <= k < s.len() ==> is_white_space(#[trigger] s[k]),
    ensures
        trim_end(s) == trim_end(s.subrange(0, j)),
    decreases s.len() - j,
{
    if j < s.len() {
        let t = s.drop_last();
        assert forall|k: int| j <= k < t.len() implies is_white_space(#[trigger] t[k]) by {
            assert(t[k] == s[k]);
        }
        lemma_trim_end_skip(t, j);
        assert(t.subrange(0, j) =~= s.subrange(0, j));
        assert(is_white_space(s[s.len() - 1]));
    } else {
        assert(s.subrange(0, j) =~= s);
    }
}

proof fn lemma_leading_word(s: Seq<char>, j: int)
    requires
        0 <= j <= s.len(),
        forall|k: int| 0 <= k < j ==> !is_white_space(#[trigger] s[k]),
        j == s.len() || is_white_space(s[j]),
    ensures
        leading_word(s) == s.subrange(0, j),
    decreases j,
{
    if j > 0 {
        let t = s.drop_first();
        assert forall|k: int| 0 <= k < j - 1 implies !is_white_space(#[trigger] t[k]) by {
            assert(t[k] == s[k + 1]);
        }
        assert(j - 1 == t.len() || t[j - 1] == s[j]);
        lemma_leading_word(t, j - 1);
        assert(!is_white_space(s[0]));
        assert(seq![s[0]] + t.subrange(0, j - 1) =~= s.subrange(0, j));
    } else {
        assert(s.subrange(0, 0) =~= Seq::<char>::empty());
    }
}

/// The index of the first character of `s` at or after `from` that is not
/// white space, or the length of `s` when there is none.
fn skip_white_space(s: &str, from: usize) -> (i: usize)
    requires
        from <= s@.len(),
    ensures
        from <= i <= s@.len(),
        forall|k: int| from <= k < i ==> is_white_space(#[trigger] s@[k]),
        i == s@.len() || !is_white_space(s@[i as int]),
{
    let n = s.unicode_len();
    let mut i = from;
    while i < n
        invariant
            n == s@.len(),
            from <= i <= n,
            forall|k: int| from <= k < i ==> is_white_space(#[trigger] s@[k]),
        decreases n - i,
    {
        if !white_space(s.get_char(i)) {
            return i;
        }
        i = i + 1;
    }
    i
}

/// `s` without its leading and trailing white space (`str::trim`).
pub fn trim(s: &str) -> (r: &str)
    ensures
        r@ == trimmed(s@),
{
    let n = s.unicode_len();
    let i = skip_white_space(s, 0);
    let mut j = n;
    while j > i
        invariant
            n == s@.len(),
            i <= j <= n,
            forall|k: int| j <= k < n ==> is_white_space(#[trigger] s@[k]),
        ensures
            i <= j <= n,
            forall|k: int| j <= k < n ==> is_white_space(#[trigger] s@[k]),
            j == i || !is_white_space(s@[j - 1]),
        decreases j,
    {
        if !white_space(s.get_char(j - 1)) {
            break;
        }
        j = j - 1;
    }
    proof {
        lemma_trim_start_skip(s@, i as int);
        let t = s@.subrange(i as int, n as int);
        assert(trim_start(t) == t);
        assert forall|k: int| j - i <= k < t.len() implies is_white_space(#[trigger] t[k]) by {
            assert(t[k] == s@[k + i]);
        }
        lemma_trim_end_skip(t, j - i);
        let u = t.subrange(0, j - i);
        assert(u.len() == 0 || u.last() == s@[j - 1]);
        assert(trim_end(u) == u);
        assert(u =~= s@.subrange(i as int, j as int));
    }
    s.substring_char(i, j)
}

/// The first white-space separated word of `s`, or `""` when there is none
/// (`s.split_whitespace().next().unwrap_or("")`).
pub fn first_word_of(s: &str) -> (r: &str)
    ensures
        r@ == first_word(s@),
{
    let n = s.unicode_len();
    let i = skip_white_space(s, 0);
    let mut j = i;
    while j < n
        invariant
            n == s@.len(),
            i <= j <= n,
            forall|k: int| i <= k < j ==> !is_white_space(#[trigger] s@[k]),
        ensures
            i <= j <= n,
            forall|k: int| i <= k < j ==> !is_white_space(#[trigger] s@[k]),
            j == n || is_white_space(s@[j as int]),
        decreases n - j,
    {
        if white_space(s.get_char(j)) {
            break;
        }
        j = j + 1;
    }
    proof {
        lemma_trim_start_skip(s@, i as int);
        let t = s@.subrange(i as int, n as int);
        assert(trim_start(t) == t);
        assert forall|k: int| 0 <= k < j - i implies !is_white_space(#[trigger] t[k]) by {
            assert(t[k] == s@[k + i]);
        }
        assert(j - i == t.len() || t[j - i] == s@[j as int]);
        lemma_leading_word(t, j - i);
        assert(t.subrange(0, j - i) =~= s@.subrange(i as int, j as int));
    }
    s.substring_char(i, j)
}

/// Whether `s`, from index `at` on, begins with `pattern`.
fn occurs_at(s: &str, at: usize, pattern: &str) -> (b: bool)
    requires
        at <= s@.len(),
    ensures
        b == has_prefix(s@.subrange(at as int, s@.len() as int), pattern@),
{
    let n = s.unicode_len();
    let m = pattern.unicode_len();
    if m > n - at {
        return false;
    }
    let ghost t = s@.subrange(at as int, n as int);
    let mut k: usize = 0;
    while k < m
        invariant
            n == s@.len(),
            m == pattern@.len(),
            at + m <= n,
            t == s@.subrange(at as int, n as int),
            k <= m,
            forall|x: int| 0 <= x < k ==> t[x] == pattern@[x],
        decreases m - k,
    {
        if s.get_char(at + k) != pattern.get_char(k) {
            assert(t.subrange(0, m as int)[k as int] != pattern@[k as int]);
            return false;
        }
        k = k + 1;
    }
    assert(t.subrange(0, m as int) =~= pattern@);
    true
}

/// Whether `s` begins with `prefix` (`str::starts_with`).
pub fn starts_with(s: &str, prefix: &str) -> (b: bool)
    ensures
        b == has_prefix(s@, prefix@),
{
    let b = occurs_at(s, 0, prefix);
    assert(s@.subrange(0, s@.len() as int) =~= s@);
    b
}

/// The decimal digit character for `d` (`0 <= d < 10`).
pub open spec fn digit_char(d: int) -> char {
    (d + 48) as char
}

/// Decimal notation of the natural number `n`, with no leading zero.
pub open spec fn nat_decimal(n: nat) -> Seq<char>
    decreases n,
{
    if n < 10 {
        seq![digit_char(n as int)]
    } else {
        nat_decimal(n / 10).push(digit_char((n % 10) as int))
    }
}

/// Decimal notation of the integer `n` (what `n.to_string()` gives).
pub open spec fn int_decimal(n: int) -> Seq<char> {
    if n < 0 {
        seq!['-'] + nat_decimal((-n) as nat)
    } else {
        nat_decimal(n as nat)
    }
}

proof fn lemma_nat_decimal_digits(n: nat)
    ensures
        nat_decimal(n).len() >= 1,
        n >= 10 ==> nat_decimal(n).len() >= 2,
        forall|k: int|
            0 <= k < nat_decimal(n).len() ==> '0' <= #[trigger] nat_decimal(n)[k] <= '9',
    decreases n,
{
    if n >= 10 {
        lemma_nat_decimal_digits(n / 10);
        let d = nat_decimal(n);
        assert forall|k: int| 0 <= k < d.len() implies '0' <= #[trigger] d[k] <= '9' by {
            if k < d.len() - 1 {
                assert(d[k] == nat_decimal(n / 10)[k]);
            }
        }
    }
}

proof fn lemma_digit_char_injective(d: int, e: int)
    requires
        0 <= d < 10,
        0 <= e < 10,
        digit_char(d) == digit_char(e),
    ensures
        d == e,
{
    assert(digit_char(d) as int == d + 48);
    assert(digit_char(e) as int == e + 48);
}

proof fn lemma_nat_decimal_injective(a: nat, b: nat)
    requires
        nat_decimal(a) == nat_decimal(b),
    ensures
        a == b,
    decreases a,
{
    lemma_nat_decimal_digits(a);
    lemma_nat_decimal_digits(b);
    if a >= 10 && b >= 10 {
        assert(nat_decimal(a / 10) =~= nat_decimal(a).drop_last());
        assert(nat_decimal(b / 10) =~= nat_decimal(b).drop_last());
        lemma_nat_decimal_injective(a / 10, b / 10);
        assert(nat_decimal(a).last() == nat_decimal(b).last());
        assert(nat_decimal(a).last() == digit_char((a % 10) as int));
        assert(nat_decimal(b).last() == digit_char((b % 10) as int));
        lemma_digit_char_injective((a % 10) as int, (b % 10) as int);
    } else if a < 10 && b < 10 {
        assert(nat_decimal(a)[0] == nat_decimal(b)[0]);
        assert(nat_decimal(a)[0] == digit_char(a as int));
        assert(nat_decimal(b)[0] == digit_char(b as int));
        lemma_digit_char_injective(a as int, b as int);
    }
}

/// Different integers are written differently: decimal notation identifies
/// the number.
pub proof fn lemma_int_decimal_injective(a: int, b: int)
    requires
        int_decimal(a) == int_decimal(b),
    ensures
        a == b,
{
    if a < 0 && b < 0 {
        assert(nat_decimal((-a) as nat) =~= int_decimal(a).drop_first());
        assert(nat_decimal((-b) as nat) =~= int_decimal(b).drop_first());
        lemma_nat_decimal_injective((-a) as nat, (-b) as nat);
    } else if a >= 0 && b >= 0 {
        lemma_nat_decimal_injective(a as nat, b as nat);
    } else if a < 0 {
        lemma_nat_decimal_digits(b as nat);
        assert(int_decimal(a)[0] == '-');
        assert(int_decimal(b)[0] == nat_decimal(b as nat)[0]);
    } else {
        lemma_nat_decimal_digits(a as nat);
        assert(int_decimal(b)[0] == '-');
        assert(int_decimal(a)[0] == nat_decimal(a as nat)[0]);
    }
}

const DIGITS: &'static str = "0123456789";

fn append_decimal(out: &mut String, n: u64)
    ensures
        final(out)@ == old(out)@ + nat_decimal(n as nat),
    decreases n,
{
    if n >= 10 {
        append_decimal(out, n / 10);
    }
    let d = (n % 10) as usize;
    proof {
        reveal_strlit("0123456789");
    }
    let digit = DIGITS.substring_char(d, d + 1);
    assert(digit@ =~= seq![digit_char(d as int)]);
    out.append(digit);
}

/// Decimal notation of `n` (`n.to_string()`).
pub fn decimal(n: i64) -> (r: String)
    ensures
        r@ == int_decimal(n as int),
{
    let mut out = String::new();
    if n < 0 {
        out.append("-");
        let magnitude = (0i128 - n as i128) as u64;
        append_decimal(&mut out, magnitude);
        proof {
            reveal_strlit("-");
        }
    } else {
        append_decimal(&mut out, n as u64);
    }
    out
}

proof fn lemma_trim_start_shape(s: Seq<char>) -> (i: int)
    ensures
        0 <= i <= s.len(),
        trim_start(s) == s.subrange(i, s.len() as int),
        trim_start(s).len() > 0 ==> !is_white_space(trim_start(s)[0]),
    decreases s.len(),
{
    if s.len() > 0 && is_white_space(s[0]) {
        let t = s.drop_first();
        let k = lemma_trim_start_shape(t);
        assert(t.subrange(k, t.len() as int) =~= s.subrange(k + 1, s.len() as int));
        k + 1
    } else {
        assert(s.subrange(0, s.len() as int) =~= s);
        0
    }
}

proof fn lemma_trim_end_shape(s: Seq<char>) -> (j: int)
    ensures
        0 <= j <= s.len(),
        trim_end(s) == s.subrange(0, j),
        trim_end(s).len() > 0 ==> !is_white_space(trim_end(s).last()),
    decreases s.len(),
{
    if s.len() > 0 && is_white_space(s.last()) {
        let t = s.drop_last();
        let k = lemma_trim_end_shape(t);
        assert(t.subrange(0, k) =~= s.subrange(0, k));
        k
    } else {
        assert(s.subrange(0, s.len() as int) =~= s);
        s.len() as int
    }
}

/// Trimming gives a piece of the text that neither starts nor ends with
/// white space, so trimming it again changes nothing.
pub proof fn lemma_trimmed(s: Seq<char>)
    ensures
        exists|i: int, j: int| 0 <= i <= j <= s.len() && trimmed(s) == s.subrange(i, j),
        trimmed(s).len() > 0 ==> !is_white_space(trimmed(s)[0]) && !is_white_space(
            trimmed(s).last(),
        ),
        trimmed(trimmed(s)) == trimmed(s),
{
    let i = lemma_trim_start_shape(s);
    let t = trim_start(s);
    let j = lemma_trim_end_shape(t);
    let u = trimmed(s);
    assert(u =~= s.subrange(i, i + j));
    assert(u.len() > 0 ==> u[0] == t[0]);
    assert(trim_start(u) == u);
    assert(trim_end(u) == u);
}

proof fn lemma_leading_word_has_no_white_space(s: Seq<char>)
    ensures
        forall|k: int| 0 <= k < leading_word(s).len() ==> !is_white_space(#[trigger] leading_word(s)[k]),
    decreases s.len(),
{
    if s.len() > 0 && !is_white_space(s[0]) {
        lemma_leading_word_has_no_white_space(s.drop_first());
        let w = leading_word(s);
        assert forall|k: int| 0 <= k < w.len() implies !is_white_space(#[trigger] w[k]) by {
            if k > 0 {
                assert(w[k] == leading_word(s.drop_first())[k - 1]);
            }
        }
    }
}

/// The first word of a text holds no white space.
pub proof fn lemma_first_word_has_no_white_space(s: Seq<char>)
    ensures
        forall|k: int| 0 <= k < first_word(s).len() ==> !is_white_space(#[trigger] first_word(s)[k]),
{
    lemma_leading_word_has_no_white_space(trim_start(s));
}

/// The lower-case form of `s` under Unicode's case mapping, which
/// `str::to_lowercase` computes; it depends on `s` alone.
pub uninterp spec fn lowercase_of(s: Seq<char>) -> Seq<char>;

/// Calls `str::to_lowercase`. The contract claims that the result is
/// [`lowercase_of`] the argument: a function of the text alone, since the
/// standard library's case mapping does not depend on locale or state.
#[verifier::external_body]
pub(crate) fn to_lowercase(s: &str) -> (r: String)
    ensures
        r@ == lowercase_of(s@),
{
    s.to_lowercase()
}

} // verus!
