//! Character-level text helpers with contracts over `Seq<char>`.
//!
//! The library builds identifiers, labels and URLs out of smaller pieces of
//! text. Every helper here states its result over the character sequence that
//! `@` gives for `str` and `String`.
use vstd::prelude::*;

verus! {

/// The code points of the Unicode `White_Space` property, which is what
/// `char::is_whitespace` and `str::trim` use.
pub open spec fn is_white_space(c: char) -> bool {
    let u = c as u32;
    ||| (0x9 <= u && u <= 0xD)
    ||| u == 0x20
    ||| u == 0x85
    ||| u == 0xA0
    ||| u == 0x1680
    ||| (0x2000 <= u && u <= 0x200A)
    ||| u == 0x2028
    ||| u == 0x2029
    ||| u == 0x202F
    ||| u == 0x205F
    ||| u == 0x3000
}

/// The characters that a trim removes.
#[derive(Clone, Copy, PartialEq, Eq, Debug)]
pub enum TrimSet {
    WhiteSpace,
    Slash,
}

pub open spec fn in_trim_set(set: TrimSet, c: char) -> bool {
    match set {
        TrimSet::WhiteSpace => is_white_space(c),
        TrimSet::Slash => c == '/',
    }
}

/// `s` without its leading characters from `set`.
pub open spec fn trim_start_seq(s: Seq<char>, set: TrimSet) -> Seq<char>
    decreases s.len(),
{
    if s.len() > 0 && in_trim_set(set, s[0]) {
        trim_start_seq(s.drop_first(), set)
    } else {
        s
    }
}

/// `s` without its trailing characters from `set`.
pub open spec fn trim_end_seq(s: Seq<char>, set: TrimSet) -> Seq<char>
    decreases s.len(),
{
    if s.len() > 0 && in_trim_set(set, s.last()) {
        trim_end_seq(s.drop_last(), set)
    } else {
        s
    }
}

/// `s` without leading and trailing characters from `set`.
pub open spec fn trim_seq(s: Seq<char>, set: TrimSet) -> Seq<char> {
    trim_end_seq(trim_start_seq(s, set), set)
}

/// What `str::trim` gives.
pub open spec fn trimmed(s: Seq<char>) -> Seq<char> {
    trim_seq(s, TrimSet::WhiteSpace)
}

/// The ASCII digits and lowercase hexadecimal letters, by value.
pub open spec fn digit_char(d: nat) -> char {
    seq!['0', '1', '2', '3', '4', '5', '6', '7', '8', '9', 'a', 'b', 'c', 'd', 'e', 'f'][d as int]
}

/// The shortest decimal numeral of `n`.
pub open spec fn decimal(n: nat) -> Seq<char>
    decreases n,
{
    if n < 10 {
        seq![digit_char(n)]
    } else {
        decimal(n / 10) + seq![digit_char(n % 10)]
    }
}

/// The decimal digits are ten different characters, none of them a colon.
pub proof fn lemma_decimal_digits(a: nat, b: nat)
    requires
        a < 10,
        b < 10,
    ensures
        digit_char(a) != ':',
        digit_char(a) == digit_char(b) ==> a == b,
{
    let d = seq!['0', '1', '2', '3', '4', '5', '6', '7', '8', '9', 'a', 'b', 'c', 'd', 'e', 'f'];
    assert(d[0] == '0' && d[1] == '1' && d[2] == '2' && d[3] == '3' && d[4] == '4');
    assert(d[5] == '5' && d[6] == '6' && d[7] == '7' && d[8] == '8' && d[9] == '9');
}

/// A decimal numeral is not empty and holds no colon.
pub proof fn lemma_decimal_colon_free(n: nat)
    ensures
        decimal(n).len() > 0,
        forall|k: int| 0 <= k < decimal(n).len() ==> #[trigger] decimal(n)[k] != ':',
    decreases n,
{
    lemma_decimal_digits(n % 10, 0);
    if n >= 10 {
        lemma_decimal_colon_free(n / 10);
        let a = decimal(n / 10);
        assert forall|k: int| 0 <= k < decimal(n).len() implies #[trigger] decimal(n)[k] != ':' by {
            if k < a.len() {
                assert(decimal(n)[k] == a[k]);
            }
        }
    }
}

/// Different numbers have different decimal numerals.
pub proof fn lemma_decimal_injective(a: nat, b: nat)
    requires
        decimal(a) == decimal(b),
    ensures
        a == b,
    decreases a,
{
    lemma_decimal_colon_free(a / 10);
    lemma_decimal_colon_free(b / 10);
    if a < 10 && b < 10 {
        assert(decimal(a)[0] == digit_char(a));
        lemma_decimal_digits(a, b);
    } else if a < 10 {
        assert(decimal(b).len() == decimal(b / 10).len() + 1);
    } else if b < 10 {
        assert(decimal(a).len() == decimal(a / 10).len() + 1);
    } else {
        let da = decimal(a);
        assert(da.len() == decimal(a / 10).len() + 1);
        assert(decimal(b).len() == decimal(b / 10).len() + 1);
        assert(da[da.len() - 1] == digit_char(a % 10));
        assert(decimal(b)[da.len() - 1] == digit_char(b % 10));
        lemma_decimal_digits(a % 10, b % 10);
        assert(decimal(a / 10) =~= da.drop_last());
        assert(decimal(b / 10) =~= decimal(b).drop_last());
        lemma_decimal_injective(a / 10, b / 10);
    }
}

/// A numeral ended by a colon can be read back off the front of a text.
pub proof fn lemma_numeral_prefix(a: nat, b: nat, x: Seq<char>, y: Seq<char>)
    requires
        decimal(a) + seq![':'] + x == decimal(b) + seq![':'] + y,
    ensures
        a == b,
{
    let da = decimal(a);
    let db = decimal(b);
    let s = da + seq![':'] + x;
    lemma_decimal_colon_free(a);
    lemma_decimal_colon_free(b);
    if da.len() < db.len() {
        assert(s[da.len() as int] == ':');
        assert((db + seq![':'] + y)[da.len() as int] == db[da.len() as int]);
    } else if db.len() < da.len() {
        assert((db + seq![':'] + y)[db.len() as int] == ':');
        assert(s[db.len() as int] == da[db.len() as int]);
    } else {
        assert(s.take(da.len() as int) =~= da);
        assert((db + seq![':'] + y).take(db.len() as int) =~= db);
        lemma_decimal_injective(a, b);
    }
}

/// The last `count` digits of `n` in base `base`, most significant first,
/// with leading zeros.
pub open spec fn padded_digits(n: nat, base: nat, count: nat) -> Seq<char>
    decreases count,
{
    if count == 0 {
        Seq::empty()
    } else {
        padded_digits(n / base, base, (count - 1) as nat) + seq![digit_char(n % base)]
    }
}

/// `{:016x}` of a `u64`.
pub open spec fn hex16(n: u64) -> Seq<char> {
    padded_digits(n as nat, 16, 16)
}

/// `16` to the power `k`.
pub open spec fn pow16(k: nat) -> nat
    decreases k,
{
    if k == 0 {
        1
    } else {
        16 * pow16((k - 1) as nat)
    }
}

/// Padding to `count` digits gives exactly `count` digits.
pub proof fn lemma_padded_digits_len(n: nat, base: nat, count: nat)
    requires
        base > 0,
    ensures
        padded_digits(n, base, count).len() == count,
    decreases count,
{
    if count > 0 {
        lemma_padded_digits_len(n / base, base, (count - 1) as nat);
    }
}

/// Distinct hexadecimal digit values have distinct characters.
pub proof fn lemma_digit_char_injective(x: nat, y: nat)
    requires
        x < 16,
        y < 16,
        digit_char(x) == digit_char(y),
    ensures
        x == y,
{
    let s = seq!['0', '1', '2', '3', '4', '5', '6', '7', '8', '9', 'a', 'b', 'c', 'd', 'e', 'f'];
    assert(s[0] == '0' && s[1] == '1' && s[2] == '2' && s[3] == '3' && s[4] == '4' && s[5] == '5'
        && s[6] == '6' && s[7] == '7' && s[8] == '8' && s[9] == '9' && s[10] == 'a' && s[11]
        == 'b' && s[12] == 'c' && s[13] == 'd' && s[14] == 'e' && s[15] == 'f');
}

/// Two numbers below `16^k` with the same `k` hexadecimal digits are equal.
pub proof fn lemma_padded_hex_injective(a: nat, b: nat, k: nat)
    requires
        a < pow16(k),
        b < pow16(k),
        padded_digits(a, 16, k) == padded_digits(b, 16, k),
    ensures
        a == b,
    decreases k,
{
    if k > 0 {
        let p = pow16((k - 1) as nat);
        let pa = padded_digits(a / 16, 16, (k - 1) as nat);
        let pb = padded_digits(b / 16, 16, (k - 1) as nat);
        lemma_padded_digits_len(a / 16, 16, (k - 1) as nat);
        lemma_padded_digits_len(b / 16, 16, (k - 1) as nat);
        let whole = padded_digits(a, 16, k);
        assert(whole == pa + seq![digit_char(a % 16)]);
        assert(whole == pb + seq![digit_char(b % 16)]);
        assert(whole[k - 1] == digit_char(a % 16));
        assert(whole[k - 1] == digit_char(b % 16));
        lemma_digit_char_injective(a % 16, b % 16);
        assert(pa =~= whole.subrange(0, k - 1));
        assert(pb =~= whole.subrange(0, k - 1));
        assert(a / 16 < p) by (nonlinear_arith)
            requires
                a < 16 * p,
        ;
        assert(b / 16 < p) by (nonlinear_arith)
            requires
                b < 16 * p,
        ;
        lemma_padded_hex_injective(a / 16, b / 16, (k - 1) as nat);
    }
}

/// Distinct 64-bit numbers have distinct sixteen-digit hexadecimal forms.
pub proof fn lemma_hex16_injective(a: u64, b: u64)
    requires
        hex16(a) == hex16(b),
    ensures
        a == b,
{
    reveal_with_fuel(pow16, 17);
    assert(pow16(16) == 0x1_0000_0000_0000_0000);
    lemma_padded_hex_injective(a as nat, b as nat, 16);
}

pub proof fn lemma_trim_start_skip(s: Seq<char>, set: TrimSet, i: int)
    requires
        0 <= i <= s.len(),
        forall|k: int| 0 <= k < i ==> in_trim_set(set, #[trigger] s[k]),
    ensures
        trim_start_seq(s, set) == trim_start_seq(s.subrange(i, s.len() as int), set),
    decreases i,
{
    if i > 0 {
        lemma_trim_start_skip(s, set, i - 1);
        let t = s.subrange(i - 1, s.len() as int);
        assert(t[0] == s[i - 1]);
        assert(t.drop_first() =~= s.subrange(i, s.len() as int));
    } else {
        assert(s.subrange(0, s.len() as int) =~= s);
    }
}

pub proof fn lemma_trim_end_skip(s: Seq<char>, set: TrimSet, j: int)
    requires
        0 <= j <= s.len(),
        forall|k: int| j <= k < s.len() ==> in_trim_set(set, #[trigger] s[k]),
    ensures
        trim_end_seq(s, set) == trim_end_seq(s.subrange(0, j), set),
    decreases s.len() - j,
{
    if j < s.len() {
        lemma_trim_end_skip(s, set, j + 1);
        let t = s.subrange(0, j + 1);
        assert(t.last() == s[j]);
        assert(t.drop_last() =~= s.subrange(0, j));
    } else {
        assert(s.subrange(0, s.len() as int) =~= s);
    }
}

/// Whether `c` belongs to `set`.
pub fn char_in_trim_set(c: char, set: TrimSet) -> (b: bool)
    ensures
        b == in_trim_set(set, c),
{
    match set {
        TrimSet::Slash => c == '/',
        TrimSet::WhiteSpace => {
            let u = c as u32;
            (0x9 <= u && u <= 0xD) || u == 0x20 || u == 0x85 || u == 0xA0 || u == 0x1680 || (0x2000
                <= u && u <= 0x200A) || u == 0x2028 || u == 0x2029 || u == 0x202F || u == 0x205F
                || u == 0x3000
        },
    }
}

/// `s` without leading characters from `set` (`str::trim_start_matches`).
pub fn trim_start_in(s: &str, set: TrimSet) -> (r: &str)
    ensures
        r@ == trim_start_seq(s@, set),
{
    let n = s.unicode_len();
    let mut i: usize = 0;
    while i < n
        invariant
            n == s@.len(),
            i <= n,
            forall|k: int| 0 <= k < i ==> in_trim_set(set, #[trigger] s@[k]),
        ensures
            i <= n,
            forall|k: int| 0 <= k < i ==> in_trim_set(set, #[trigger] s@[k]),
            i < n ==> !in_trim_set(set, s@[i as int]),
        decreases n - i,
    {
        if !char_in_trim_set(s.get_char(i), set) {
            break;
        }
        i = i + 1;
    }
    proof {
        lemma_trim_start_skip(s@, set, i as int);
        let t = s@.subrange(i as int, n as int);
        if t.len() > 0 {
            assert(t[0] == s@[i as int]);
        }
    }
    s.substring_char(i, n)
}

/// `s` without trailing characters from `set` (`str::trim_end_matches`).
pub fn trim_end_in(s: &str, set: TrimSet) -> (r: &str)
    ensures
        r@ == trim_end_seq(s@, set),
{
    let n = s.unicode_len();
    let mut j: usize = n;
    while j > 0
        invariant
            n == s@.len(),
            j <= n,
            forall|k: int| j <= k < n ==> in_trim_set(set, #[trigger] s@[k]),
        ensures
            j <= n,
            forall|k: int| j <= k < n ==> in_trim_set(set, #[trigger] s@[k]),
            j > 0 ==> !in_trim_set(set, s@[j - 1]),
        decreases j,
    {
        if !char_in_trim_set(s.get_char(j - 1), set) {
            break;
        }
        j = j - 1;
    }
    proof {
        lemma_trim_end_skip(s@, set, j as int);
        let t = s@.subrange(0, j as int);
        if t.len() > 0 {
            assert(t.last() == s@[j - 1]);
        }
    }
    s.substring_char(0, j)
}

/// `s` without leading and trailing characters from `set`.
pub fn trim_in(s: &str, set: TrimSet) -> (r: &str)
    ensures
        r@ == trim_seq(s@, set),
{
    let start = trim_start_in(s, set);
    trim_end_in(start, set)
}

/// `str::trim`.
pub fn trim(s: &str) -> (r: &str)
    ensures
        r@ == trimmed(s@),
{
    trim_in(s, TrimSet::WhiteSpace)
}

/// Character-wise equality of two string slices.
pub fn str_eq(a: &str, b: &str) -> (r: bool)
    ensures
        r == (a@ == b@),
{
    let n = a.unicode_len();
    if n != b.unicode_len() {
        return false;
    }
    let mut i: usize = 0;
    while i < n
        invariant
            n == a@.len(),
            n == b@.len(),
            i <= n,
            forall|k: int| 0 <= k < i ==> a@[k] == b@[k],
        decreases n - i,
    {
        if a.get_char(i) != b.get_char(i) {
            return false;
        }
        i = i + 1;
    }
    assert(a@ =~= b@);
    true
}

/// Whether `s` is empty, counted in characters.
pub fn str_is_empty(s: &str) -> (r: bool)
    ensures
        r == (s@.len() == 0),
{
    s.unicode_len() == 0
}

/// `s` with `prefix` removed, where `s` starts with it (`str::strip_prefix`).
pub fn strip_prefix<'a>(s: &'a str, prefix: &str) -> (r: Option<&'a str>)
    ensures
        r is Some <==> (prefix@.len() <= s@.len() && s@.subrange(0, prefix@.len() as int)
            == prefix@),
        r matches Some(rest) ==> rest@ == s@.subrange(prefix@.len() as int, s@.len() as int),
{
    let n = s.unicode_len();
    let p = prefix.unicode_len();
    if p > n {
        return None;
    }
    let head = s.substring_char(0, p);
    if str_eq(head, prefix) {
        Some(s.substring_char(p, n))
    } else {
        None
    }
}

/// `s` with `suffix` removed, where `s` ends with it (`str::strip_suffix`).
pub fn strip_suffix<'a>(s: &'a str, suffix: &str) -> (r: Option<&'a str>)
    ensures
        r is Some <==> (suffix@.len() <= s@.len() && s@.subrange(
            s@.len() - suffix@.len(),
            s@.len() as int,
        ) == suffix@),
        r matches Some(rest) ==> rest@ == s@.subrange(0, s@.len() - suffix@.len()),
{
    let n = s.unicode_len();
    let p = suffix.unicode_len();
    if p > n {
        return None;
    }
    let tail = s.substring_char(n - p, n);
    if str_eq(tail, suffix) {
        Some(s.substring_char(0, n - p))
    } else {
        None
    }
}

/// `String::push`: appends one character at the end of the string.
#[verifier::external_body]
pub fn push_char(s: &mut String, c: char)
    ensures
        final(s)@ == old(s)@.push(c),
{
    s.push(c);
}

/// The character of digit value `d`.
pub fn digit(d: u64) -> (c: char)
    requires
        d < 16,
    ensures
        c == digit_char(d as nat),
{
    match d {
        0 => '0',
        1 => '1',
        2 => '2',
        3 => '3',
        4 => '4',
        5 => '5',
        6 => '6',
        7 => '7',
        8 => '8',
        9 => '9',
        10 => 'a',
        11 => 'b',
        12 => 'c',
        13 => 'd',
        14 => 'e',
        _ => 'f',
    }
}

/// Appends the decimal numeral of `n`.
pub fn push_decimal(s: &mut String, n: u64)
    ensures
        final(s)@ == old(s)@ + decimal(n as nat),
    decreases n,
{
    if n >= 10 {
        push_decimal(s, n / 10);
    }
    push_char(s, digit(n % 10));
    proof {
        if n < 10 {
            assert(old(s)@ + decimal(n as nat) =~= old(s)@.push(digit_char(n as nat)));
        } else {
            assert(decimal(n as nat) == decimal((n / 10) as nat) + seq![digit_char((n % 10) as nat)]);
            assert((old(s)@ + decimal((n / 10) as nat)).push(digit_char((n % 10) as nat)) =~= old(
                s,
            )@ + decimal(n as nat));
        }
    }
}

/// Appends the last `count` digits of `n` in base `base`, with leading zeros.
pub fn push_padded_digits(s: &mut String, n: u64, base: u64, count: u64)
    requires
        base == 10 || base == 16,
    ensures
        final(s)@ == old(s)@ + padded_digits(n as nat, base as nat, count as nat),
    decreases count,
{
    if count == 0 {
        assert(old(s)@ + padded_digits(n as nat, base as nat, 0) =~= old(s)@);
        return ;
    }
    push_padded_digits(s, n / base, base, count - 1);
    push_char(s, digit(n % base));
    proof {
        let ghost prev = padded_digits((n / base) as nat, base as nat, (count - 1) as nat);
        assert(padded_digits(n as nat, base as nat, count as nat) == prev + seq![
            digit_char((n % base) as nat),
        ]);
        assert((old(s)@ + prev).push(digit_char((n % base) as nat)) =~= old(s)@ + prev + seq![
            digit_char((n % base) as nat),
        ]);
    }
}

/// `format!("{:016x}", n)`.
pub fn format_hex16(n: u64) -> (r: String)
    ensures
        r@ == hex16(n),
{
    let mut s = String::new();
    push_padded_digits(&mut s, n, 16, 16);
    assert(Seq::<char>::empty() + hex16(n) =~= hex16(n));
    s
}

/// Appends `t` to `s`.
pub fn push_str(s: &mut String, t: &str)
    ensures
        final(s)@ == old(s)@ + t@,
{
    s.append(t);
}

/// An owned copy of `s`.
pub fn owned(s: &str) -> (r: String)
    ensures
        r@ == s@,
{
    s.to_owned()
}

/// `a` followed by `b`.
pub fn concat2(a: &str, b: &str) -> (r: String)
    ensures
        r@ == a@ + b@,
{
    let mut s = owned(a);
    push_str(&mut s, b);
    s
}

/// `a`, `b` and `c`, one after another.
pub fn concat3(a: &str, b: &str, c: &str) -> (r: String)
    ensures
        r@ == a@ + b@ + c@,
{
    let mut s = owned(a);
    push_str(&mut s, b);
    push_str(&mut s, c);
    s
}

/// The texts of a list of strings.
pub open spec fn string_texts(v: Seq<String>) -> Seq<Seq<char>> {
    v.map_values(|k: String| k@)
}

/// The parts, one after another, separated by `sep`.
pub open spec fn joined_with(parts: Seq<Seq<char>>, sep: char) -> Seq<char>
    decreases parts.len(),
{
    if parts.len() == 0 {
        Seq::empty()
    } else if parts.len() == 1 {
        parts[0]
    } else {
        joined_with(parts.drop_last(), sep) + seq![sep] + parts.last()
    }
}

/// The parts, one after another, separated by the text `sep`.
pub open spec fn joined_by(parts: Seq<Seq<char>>, sep: Seq<char>) -> Seq<char>
    decreases parts.len(),
{
    if parts.len() == 0 {
        Seq::empty()
    } else if parts.len() == 1 {
        parts[0]
    } else {
        joined_by(parts.drop_last(), sep) + sep + parts.last()
    }
}

/// Lexicographic order of character sequences by code point, which is the
/// order of `String`'s `Ord` (UTF-8 keeps code-point order byte by byte).
pub open spec fn text_less(a: Seq<char>, b: Seq<char>) -> bool
    decreases a.len(),
{
    if a.len() == 0 {
        b.len() > 0
    } else if b.len() == 0 {
        false
    } else if a[0] != b[0] {
        (a[0] as int) < (b[0] as int)
    } else {
        text_less(a.drop_first(), b.drop_first())
    }
}

pub proof fn lemma_text_less_irreflexive(a: Seq<char>)
    ensures
        !text_less(a, a),
    decreases a.len(),
{
    if a.len() > 0 {
        lemma_text_less_irreflexive(a.drop_first());
    }
}

pub proof fn lemma_text_less_total(a: Seq<char>, b: Seq<char>)
    ensures
        a == b || text_less(a, b) || text_less(b, a),
    decreases a.len(),
{
    if a.len() > 0 && b.len() > 0 {
        if a[0] == b[0] {
            lemma_text_less_total(a.drop_first(), b.drop_first());
            if a.drop_first() == b.drop_first() {
                assert(a =~= seq![a[0]] + a.drop_first());
                assert(b =~= seq![b[0]] + b.drop_first());
            }
        } else {
            assert((a[0] as int) != (b[0] as int));
        }
    } else if a.len() == 0 && b.len() == 0 {
        assert(a =~= b);
    }
}

pub proof fn lemma_text_less_asymmetric(a: Seq<char>, b: Seq<char>)
    ensures
        text_less(a, b) ==> !text_less(b, a),
    decreases a.len(),
{
    if a.len() > 0 && b.len() > 0 && a[0] == b[0] {
        lemma_text_less_asymmetric(a.drop_first(), b.drop_first());
    }
}

pub proof fn lemma_text_less_transitive(a: Seq<char>, b: Seq<char>, c: Seq<char>)
    requires
        text_less(a, b),
        text_less(b, c),
    ensures
        text_less(a, c),
    decreases a.len(),
{
    if a.len() > 0 && b.len() > 0 && c.len() > 0 {
        if a[0] == b[0] && b[0] == c[0] {
            lemma_text_less_transitive(a.drop_first(), b.drop_first(), c.drop_first());
        }
    }
}

/// Whether `a` comes before `b` in `String` order.
pub fn str_less(a: &str, b: &str) -> (r: bool)
    ensures
        r == text_less(a@, b@),
{
    let n = a.unicode_len();
    let m = b.unicode_len();
    let mut i: usize = 0;
    assert(a@.skip(0) =~= a@);
    assert(b@.skip(0) =~= b@);
    while i < n && i < m
        invariant
            n == a@.len(),
            m == b@.len(),
            i <= n,
            i <= m,
            text_less(a@, b@) == text_less(a@.skip(i as int), b@.skip(i as int)),
        decreases n - i,
    {
        let x = a.get_char(i);
        let y = b.get_char(i);
        assert(a@.skip(i as int)[0] == x);
        assert(b@.skip(i as int)[0] == y);
        if x != y {
            return x < y;
        }
        assert(a@.skip(i as int).drop_first() =~= a@.skip(i + 1));
        assert(b@.skip(i as int).drop_first() =~= b@.skip(i + 1));
        i = i + 1;
    }
    i == n && i < m
}

/// The ASCII upper-case form of a character: a lower-case ASCII letter
/// becomes its capital, every other character stays.
pub open spec fn ascii_upper(c: char) -> char {
    if 'a' <= c <= 'z' {
        ((c as int) - 32) as char
    } else {
        c
    }
}

/// The ASCII upper-case form of a text.
pub fn to_ascii_uppercase(s: &str) -> (r: String)
    ensures
        r@ == s@.map_values(|c: char| ascii_upper(c)),
{
    let mut r = String::new();
    let n = s.unicode_len();
    let mut i: usize = 0;
    while i < n
        invariant
            n == s@.len(),
            i <= n,
            r@ == s@.take(i as int).map_values(|c: char| ascii_upper(c)),
        decreases n - i,
    {
        let c = s.get_char(i);
        let u = if 'a' <= c && c <= 'z' {
            ((c as u8) - 32) as char
        } else {
            c
        };
        push_char(&mut r, u);
        assert(s@.take(i + 1).map_values(|c: char| ascii_upper(c)) =~= s@.take(i as int).map_values(
            |c: char| ascii_upper(c),
        ).push(ascii_upper(c)));
        i = i + 1;
    }
    assert(s@.take(n as int) =~= s@);
    r
}

} // verus!
