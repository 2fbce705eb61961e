//! Character-level string helpers shared by the library: character access,
//! lexicographic order (the order of Rust's `String`), decimal rendering of
//! integers and of fixed-point numbers.

use vstd::prelude::*;

verus! {

broadcast use vstd::string::group_string_axioms;

/// The characters of `s`, in order.
pub fn chars_of(s: &str) -> (v: Vec<char>)
    ensures
        v@ == s@,
{
    let mut v: Vec<char> = Vec::new();
    for c in it: s.chars()
        invariant
            v@ == it.seq().take(it.index() as int),
    {
        v.push(c);
    }
    v
}

/// `String::push`: appends one character.
#[verifier::external_body]
pub(crate) fn push_char(s: &mut String, c: char)
    ensures
        final(s)@ == old(s)@.push(c),
{
    s.push(c);
}

/// A `String` holding exactly the characters `v`.
pub fn string_from_chars(v: &[char]) -> (s: String)
    ensures
        s@ == v@,
{
    let mut s = String::new();
    let mut i: usize = 0;
    while i < v.len()
        invariant
            i <= v@.len(),
            s@ == v@.take(i as int),
        decreases v@.len() - i,
    {
        push_char(&mut s, v[i]);
        assert(v@.take(i as int).push(v@[i as int]) =~= v@.take(i + 1));
        i = i + 1;
    }
    assert(v@.take(v@.len() as int) =~= v@);
    s
}

/// Strict lexicographic order on character sequences. On strings this is the
/// order of Rust's `String` (UTF-8 byte order agrees with code point order).
pub open spec fn char_seq_lt(a: Seq<char>, b: Seq<char>) -> bool {
    exists|k: int| #[trigger] lex_witness(a, b, k)
}

/// `k` is the first position at which `a` and `b` part, and there `a` is smaller
/// (or `a` ends).
pub open spec fn lex_witness(a: Seq<char>, b: Seq<char>, k: int) -> bool {
    &&& 0 <= k <= a.len()
    &&& k < b.len()
    &&& forall|j: int| 0 <= j < k ==> a[j] == b[j]
    &&& (k == a.len() || a[k] < b[k])
}

pub proof fn lemma_char_seq_lt_irreflexive(a: Seq<char>)
    ensures
        !char_seq_lt(a, a),
{
}

pub proof fn lemma_char_seq_lt_asymmetric(a: Seq<char>, b: Seq<char>)
    ensures
        !(char_seq_lt(a, b) && char_seq_lt(b, a)),
{
    if char_seq_lt(a, b) && char_seq_lt(b, a) {
        let k1 = choose|k: int| #[trigger] lex_witness(a, b, k);
        let k2 = choose|k: int| #[trigger] lex_witness(b, a, k);
        if k1 < k2 {
            assert(a[k1] == b[k1]);
        } else if k2 < k1 {
            assert(a[k2] == b[k2]);
        }
    }
}

pub proof fn lemma_char_seq_lt_transitive(a: Seq<char>, b: Seq<char>, c: Seq<char>)
    requires
        char_seq_lt(a, b),
        char_seq_lt(b, c),
    ensures
        char_seq_lt(a, c),
{
    let k1 = choose|k: int| #[trigger] lex_witness(a, b, k);
    let k2 = choose|k: int| #[trigger] lex_witness(b, c, k);
    if k1 < k2 {
        assert(lex_witness(a, c, k1));
    } else if k2 < k1 {
        assert(lex_witness(a, c, k2));
    } else {
        assert(lex_witness(a, c, k1));
    }
}

pub proof fn lemma_char_seq_lt_total(a: Seq<char>, b: Seq<char>)
    requires
        a != b,
    ensures
        char_seq_lt(a, b) || char_seq_lt(b, a),
{
    let n = if a.len() < b.len() { a.len() } else { b.len() };
    if forall|j: int| 0 <= j < n ==> a[j] == b[j] {
        if a.len() < b.len() {
            assert(lex_witness(a, b, a.len() as int));
        } else if b.len() < a.len() {
            assert(lex_witness(b, a, b.len() as int));
        } else {
            assert(a =~= b);
        }
    } else {
        let k = choose|k: int| 0 <= k < n && a[k] != b[k];
        lemma_first_difference(a, b, k);
        let f = choose|f: int| 0 <= f <= k && a[f] != b[f] && forall|j: int| 0 <= j < f ==> a[j] == b[j];
        if a[f] < b[f] {
            assert(lex_witness(a, b, f));
        } else {
            assert(lex_witness(b, a, f));
        }
    }
}

proof fn lemma_first_difference(a: Seq<char>, b: Seq<char>, k: int)
    requires
        0 <= k < a.len(),
        k < b.len(),
        a[k] != b[k],
    ensures
        exists|f: int| 0 <= f <= k && a[f] != b[f] && forall|j: int| 0 <= j < f ==> a[j] == b[j],
    decreases k,
{
    if exists|j: int| 0 <= j < k && a[j] != b[j] {
        let j = choose|j: int| 0 <= j < k && a[j] != b[j];
        lemma_first_difference(a, b, j);
    } else {
        assert(forall|j: int| 0 <= j < k ==> a[j] == b[j]);
    }
}

/// Whether `a` sorts strictly before `b` (the order of Rust's `String`).
pub fn str_lt(a: &str, b: &str) -> (r: bool)
    ensures
        r == char_seq_lt(a@, b@),
{
    let av = chars_of(a);
    let bv = chars_of(b);
    let mut i: usize = 0;
    while i < av.len() && i < bv.len()
        invariant
            av@ == a@,
            bv@ == b@,
            i <= av@.len(),
            i <= bv@.len(),
            forall|j: int| 0 <= j < i ==> av@[j] == bv@[j],
        decreases av@.len() - i,
    {
        if av[i] != bv[i] {
            let r = av[i] < bv[i];
            proof {
                if r {
                    assert(lex_witness(a@, b@, i as int));
                } else {
                    assert(lex_witness(b@, a@, i as int));
                    lemma_char_seq_lt_asymmetric(a@, b@);
                }
            }
            return r;
        }
        i = i + 1;
    }
    if i < bv.len() {
        assert(lex_witness(a@, b@, i as int));
        true
    } else {
        proof {
            if char_seq_lt(a@, b@) {
                let k = choose|k: int| #[trigger] lex_witness(a@, b@, k);
                assert(a@[k] == b@[k]);
            }
        }
        false
    }
}

/// Whether `a` and `b` hold the same characters.
pub fn str_eq(a: &str, b: &str) -> (r: bool)
    ensures
        r == (a@ == b@),
{
    let av = chars_of(a);
    let bv = chars_of(b);
    if av.len() != bv.len() {
        return false;
    }
    let mut i: usize = 0;
    while i < av.len()
        invariant
            av@ == a@,
            bv@ == b@,
            av@.len() == bv@.len(),
            i <= av@.len(),
            forall|j: int| 0 <= j < i ==> av@[j] == bv@[j],
        decreases av@.len() - i,
    {
        if av[i] != bv[i] {
            return false;
        }
        i = i + 1;
    }
    assert(av@ =~= bv@);
    true
}

/// The decimal digit character for `d < 10`.
pub open spec fn digit_char(d: nat) -> char {
    if d == 0 { '0' } else if d == 1 { '1' } else if d == 2 { '2' } else if d == 3 { '3' }
    else if d == 4 { '4' } else if d == 5 { '5' } else if d == 6 { '6' } else if d == 7 { '7' }
    else if d == 8 { '8' } else { '9' }
}

/// Decimal digits of `n`, most significant first, no leading zeros.
pub open spec fn decimal(n: nat) -> Seq<char>
    decreases n,
{
    if n < 10 {
        seq![digit_char(n)]
    } else {
        decimal(n / 10).push(digit_char(n % 10))
    }
}

fn digit_of(d: u64) -> (c: char)
    requires
        d < 10,
    ensures
        c == digit_char(d as nat),
{
    if d == 0 { '0' } else if d == 1 { '1' } else if d == 2 { '2' } else if d == 3 { '3' }
    else if d == 4 { '4' } else if d == 5 { '5' } else if d == 6 { '6' } else if d == 7 { '7' }
    else if d == 8 { '8' } else { '9' }
}

/// Appends the decimal digits of `n`.
pub fn push_decimal(s: &mut String, n: u64)
    ensures
        final(s)@ == old(s)@ + decimal(n as nat),
    decreases n,
{
    if n >= 10 {
        push_decimal(s, n / 10);
    }
    push_char(s, digit_of(n % 10));
    assert(old(s)@ + decimal(n as nat) =~= final(s)@);
}

/// `d` decimal digits of `n` (`n < 10^d`), zero-padded on the left.
pub open spec fn padded_decimal(n: nat, d: nat) -> Seq<char>
    decreases d,
{
    if d == 0 {
        Seq::empty()
    } else {
        padded_decimal(n / 10, (d - 1) as nat).push(digit_char(n % 10))
    }
}

fn push_padded_decimal(s: &mut String, n: u64, d: u32)
    ensures
        final(s)@ == old(s)@ + padded_decimal(n as nat, d as nat),
    decreases d,
{
    if d > 0 {
        push_padded_decimal(s, n / 10, d - 1);
        push_char(s, digit_of(n % 10));
        assert(old(s)@ + padded_decimal(n as nat, d as nat) =~= final(s)@);
    } else {
        assert(old(s)@ + padded_decimal(n as nat, d as nat) =~= final(s)@);
    }
}

/// Decimal text of an integer, with a leading `-` when negative.
pub open spec fn int_text(v: int) -> Seq<char> {
    if v < 0 { seq!['-'] + decimal(abs(v)) } else { decimal(abs(v)) }
}

/// Appends the decimal text of `v`.
pub fn push_int(s: &mut String, v: i64)
    ensures
        final(s)@ == old(s)@ + int_text(v as int),
{
    let a = abs_u64(v);
    let ghost s0 = s@;
    if v < 0 {
        push_char(s, '-');
    }
    push_decimal(s, a);
    assert(s@ =~= s0 + int_text(v as int));
}

/// Scale of the library's fixed-point numbers: `1.0` is `SCALE`.
pub const SCALE: i64 = 1_000_000;

/// Fractional digits of `f` (`0 < f`, `f < 10^d`) with trailing zeros dropped.
pub open spec fn fraction_digits(f: nat, d: nat) -> Seq<char>
    decreases d,
{
    if d > 0 && f % 10 == 0 {
        fraction_digits(f / 10, (d - 1) as nat)
    } else {
        padded_decimal(f, d)
    }
}

pub open spec fn abs(v: int) -> nat {
    if v < 0 { (-v) as nat } else { v as nat }
}

/// Shortest decimal text of the fixed-point number `v` (`v / SCALE`), as
/// `f64`'s `Display` writes such a number: `-45`, `0.5`, `0.72`.
pub open spec fn fixed_text(v: int) -> Seq<char> {
    let a = abs(v);
    let sign = if v < 0 { seq!['-'] } else { Seq::empty() };
    let int_part = decimal(a / (SCALE as nat));
    let frac = a % (SCALE as nat);
    if frac == 0 {
        sign + int_part
    } else {
        sign + int_part + seq!['.'] + fraction_digits(frac, 6)
    }
}

fn push_fraction_digits(s: &mut String, f: u64, d: u32)
    requires
        d <= 6,
    ensures
        final(s)@ == old(s)@ + fraction_digits(f as nat, d as nat),
    decreases d,
{
    if d > 0 && f % 10 == 0 {
        push_fraction_digits(s, f / 10, d - 1);
    } else {
        push_padded_decimal(s, f, d);
    }
}

fn abs_u64(v: i64) -> (a: u64)
    ensures
        a as nat == abs(v as int),
{
    if v < 0 {
        if v == i64::MIN {
            9_223_372_036_854_775_808u64
        } else {
            (-v) as u64
        }
    } else {
        v as u64
    }
}

/// Appends the text of the fixed-point number `v`.
pub fn push_fixed(s: &mut String, v: i64)
    ensures
        final(s)@ == old(s)@ + fixed_text(v as int),
{
    let a = abs_u64(v);
    let ghost s0 = s@;
    if v < 0 {
        push_char(s, '-');
    }
    push_decimal(s, a / 1_000_000);
    let frac = a % 1_000_000;
    if frac != 0 {
        push_char(s, '.');
        push_fraction_digits(s, frac, 6);
    }
    assert(s@ =~= s0 + fixed_text(v as int));
}

/// `a` millionths in hundredths, rounded to nearest with exact ties to
/// the even hundredth, as `{:.2}` rounds.
pub open spec fn round_hundredths(a: nat) -> nat {
    let q = a / 10000;
    let r = a % 10000;
    if r > 5000 || (r == 5000 && q % 2 == 1) {
        (q + 1) as nat
    } else {
        q
    }
}

/// Text of `v` rounded to two decimals as `{:.2}` writes a number: to
/// nearest, exact ties to even, keeping the sign: `0.45`, `1.00`, `0.12`
/// for `0.125`.
pub open spec fn fixed2_text(v: int) -> Seq<char> {
    let h = round_hundredths(abs(v));
    let sign = if v < 0 { seq!['-'] } else { Seq::empty() };
    sign + decimal(h / 100) + seq!['.'] + padded_decimal(h % 100, 2)
}

/// Appends `v` rounded to two decimals.
pub fn push_fixed2(s: &mut String, v: i64)
    ensures
        final(s)@ == old(s)@ + fixed2_text(v as int),
{
    let a = abs_u64(v);
    let q = a / 10000;
    let r = a % 10000;
    let h = if r > 5000 || (r == 5000 && q % 2 == 1) { q + 1 } else { q };
    assert(h == round_hundredths(a as nat));
    let ghost s0 = s@;
    if v < 0 {
        push_char(s, '-');
    }
    push_decimal(s, h / 100);
    push_char(s, '.');
    push_padded_decimal(s, h % 100, 2);
    assert(s@ =~= s0 + fixed2_text(v as int));
}

/// Appends a string slice.
pub fn push_str(s: &mut String, t: &str)
    ensures
        final(s)@ == old(s)@ + t@,
{
    s.append(t);
}

} // verus!
