use vstd::prelude::*;
use vstd::arithmetic::power::{pow, lemma_pow_adds, lemma_pow_multiplies, lemma_pow_mod_noop, lemma_pow1};
use vstd::arithmetic::div_mod::{lemma_mul_mod_noop_left, lemma_mul_mod_noop_right};
use vstd::arithmetic::mul::{lemma_mul_is_associative, lemma_mul_is_commutative};
use vstd::utf8::{encode_scalar, encode_utf8};

verus! {

/// The Mersenne prime 2^61 - 1, the modulus of the polynomial string hash.
pub const HASH_MODULUS: u64 = 0x1FFF_FFFF_FFFF_FFFF;

/// The base of the polynomial string hash.
pub const HASH_BASE: u64 = 1_000_003;

/// A string as the interpreter sees it: of its text only the length in bytes is kept,
/// and two such strings are equal exactly when their lengths are.
#[derive(Clone, Copy, Debug, PartialEq, Eq, Structural)]
pub struct HashedString {
    pub length: u128,
}

/// The UTF-8 encoding of a string's characters.
pub open spec fn utf8_bytes(s: Seq<char>) -> Seq<u8> {
    vstd::utf8::encode_utf8(s)
}

/// The number of bytes of the UTF-8 encoding of a string, as its hashed form records it.
pub open spec fn byte_len(s: Seq<char>) -> u128 {
    (vstd::utf8::encode_utf8(s).len() as usize) as u128
}

/// The polynomial hash of `bytes`: Horner's scheme with base `HASH_BASE`,
/// each step reduced modulo `HASH_MODULUS`.
pub open spec fn poly_hash(bytes: Seq<u8>) -> int
    decreases bytes.len(),
{
    if bytes.len() == 0 {
        0
    } else {
        let prev = poly_hash(bytes.drop_last());
        let shifted = (prev * HASH_BASE) % (HASH_MODULUS as int);
        let sum = shifted + bytes.last();
        if sum >= HASH_MODULUS { sum - HASH_MODULUS } else { sum }
    }
}

impl HashedString {
    /// The hashed string of `s`, which records its length in UTF-8 bytes.
    pub fn new(s: &str) -> (r: HashedString)
        ensures
            r.length == byte_len(s@),
    {
        HashedString { length: s.len() as u128 }
    }

    /// The hashed string of the concatenation of two strings: the lengths add up,
    /// saturating at the largest length.
    pub fn concat(self, rhs: HashedString) -> (r: HashedString)
        ensures
            r.length == (if self.length + rhs.length > u128::MAX {
                u128::MAX as int
            } else {
                self.length + rhs.length
            }),
    {
        HashedString { length: self.length.saturating_add(rhs.length) }
    }

    /// The polynomial hash of the bytes of `s` modulo `HASH_MODULUS`.
    pub fn compute_hash(s: &str) -> (h: u64)
        ensures
            h == poly_hash(utf8_bytes(s@)),
            h < HASH_MODULUS,
    {
        let bytes = s.as_bytes();
        let mut value: u64 = 0;
        let mut i: usize = 0;
        while i < bytes.len()
            invariant
                0 <= i <= bytes@.len(),
                bytes@ == utf8_bytes(s@),
                value == poly_hash(bytes@.take(i as int)),
                value < HASH_MODULUS,
            decreases bytes@.len() - i,
        {
            let byte = bytes[i];
            assert(bytes@.take(i + 1).drop_last() =~= bytes@.take(i as int));
            value = add_mod(mul_mod(value, HASH_BASE), byte as u64);
            i = i + 1;
        }
        assert(bytes@.take(i as int) =~= bytes@);
        value
    }

    /// The value by which this string is hashed: its length.
    pub fn hash(&self) -> (h: u128)
        ensures
            h == self.length,
    {
        self.length
    }

    /// The length in bytes of this string.
    pub fn len(&self) -> (l: u128)
        ensures
            l == self.length,
    {
        self.length
    }
}

/// The UTF-8 encoding of two joined strings is the two encodings joined.
pub proof fn lemma_encode_utf8_concat(a: Seq<char>, b: Seq<char>)
    ensures
        encode_utf8(a + b) == encode_utf8(a) + encode_utf8(b),
    decreases a.len(),
{
    if a.len() == 0 {
        assert(a + b =~= b);
        assert(encode_utf8(a) =~= Seq::<u8>::empty());
        assert(encode_utf8(a) + encode_utf8(b) =~= encode_utf8(b));
    } else {
        lemma_encode_utf8_concat(a.drop_first(), b);
        assert((a + b).drop_first() =~= a.drop_first() + b);
        assert((a + b)[0] == a[0]);
        assert(encode_scalar(a[0] as u32) + (encode_utf8(a.drop_first()) + encode_utf8(b))
            =~= (encode_scalar(a[0] as u32) + encode_utf8(a.drop_first())) + encode_utf8(b));
    }
}

/// The hashed form of two joined strings is the join of their hashed forms, where the
/// joined encoding fits in memory.
pub proof fn lemma_hashed_concat(a: Seq<char>, b: Seq<char>)
    requires
        vstd::utf8::encode_utf8(a + b).len() <= usize::MAX,
    ensures
        byte_len(a + b) == (if byte_len(a) + byte_len(b) > u128::MAX {
            u128::MAX as int
        } else {
            byte_len(a) + byte_len(b)
        }),
{
    lemma_encode_utf8_concat(a, b);
}

/// The hash of a string is below the modulus.
pub proof fn lemma_poly_hash_bound(bytes: Seq<u8>)
    ensures
        0 <= poly_hash(bytes) < HASH_MODULUS,
    decreases bytes.len(),
{
    if bytes.len() > 0 {
        lemma_poly_hash_bound(bytes.drop_last());
    }
}

/// One more byte: the hash is the earlier hash times the base, plus the byte, modulo
/// the modulus.
pub proof fn lemma_poly_hash_push(bytes: Seq<u8>, c: u8)
    ensures
        poly_hash(bytes.push(c)) == (poly_hash(bytes) * HASH_BASE + c) % (HASH_MODULUS as int),
{
    let m = HASH_MODULUS as int;
    let p = poly_hash(bytes);
    lemma_poly_hash_bound(bytes);
    assert(bytes.push(c).drop_last() =~= bytes);
    let shifted = (p * HASH_BASE) % m;
    vstd::arithmetic::div_mod::lemma_add_mod_noop(p * HASH_BASE, c as int, m);
    vstd::arithmetic::div_mod::lemma_small_mod(c as nat, m as nat);
    vstd::arithmetic::div_mod::lemma_mod_bound(p * HASH_BASE, m);
    let sum = shifted + c;
    if sum >= m {
        vstd::arithmetic::div_mod::lemma_small_mod((sum - m) as nat, m as nat);
        vstd::arithmetic::div_mod::lemma_mod_sub_multiples_vanish(sum, m);
    } else {
        vstd::arithmetic::div_mod::lemma_small_mod(sum as nat, m as nat);
    }
}

/// The hash of two joined byte strings: the hash of the first times the base to the
/// power of the second's length, plus the hash of the second, modulo the modulus.
pub proof fn lemma_poly_hash_concat(x: Seq<u8>, y: Seq<u8>)
    ensures
        poly_hash(x + y) == ((poly_hash(x) * pow(HASH_BASE as int, y.len())) % (HASH_MODULUS as int)
            + poly_hash(y)) % (HASH_MODULUS as int),
    decreases y.len(),
{
    let m = HASH_MODULUS as int;
    let b = HASH_BASE as int;
    let hx = poly_hash(x);
    lemma_poly_hash_bound(x);
    if y.len() == 0 {
        assert(x + y =~= x);
        vstd::arithmetic::power::lemma_pow0(b);
        vstd::arithmetic::div_mod::lemma_small_mod(hx as nat, m as nat);
    } else {
        let y0 = y.drop_last();
        let c = y.last();
        let k = y0.len();
        lemma_poly_hash_concat(x, y0);
        assert(x + y =~= (x + y0).push(c));
        assert(y =~= y0.push(c));
        lemma_poly_hash_push(x + y0, c);
        lemma_poly_hash_push(y0, c);
        let hy0 = poly_hash(y0);
        let bk = pow(b, k);
        // the hash of the joined string, from the induction
        let e = hx * bk + hy0;
        vstd::arithmetic::div_mod::lemma_add_mod_noop(hx * bk, hy0, m);
        vstd::arithmetic::div_mod::lemma_mod_twice(hx * bk, m);
        lemma_poly_hash_bound(y0);
        vstd::arithmetic::div_mod::lemma_small_mod(hy0 as nat, m as nat);
        assert(poly_hash(x + y0) == e % m);
        // (e % m) * b + c == e * b + c modulo m
        vstd::arithmetic::div_mod::lemma_mul_mod_noop_left(e, b, m);
        vstd::arithmetic::div_mod::lemma_add_mod_noop((e % m) * b, c as int, m);
        vstd::arithmetic::div_mod::lemma_add_mod_noop(e * b, c as int, m);
        vstd::arithmetic::div_mod::lemma_mod_twice(e * b, m);
        assert(poly_hash(x + y) == (e * b + c) % m) by {
            vstd::arithmetic::div_mod::lemma_mod_twice((e % m) * b, m);
        }
        // e * b + c == hx * b^(k+1) + (hy0 * b + c)
        assert(pow(b, y.len()) == bk * b) by {
            vstd::arithmetic::power::lemma_pow_adds(b, k, 1);
            vstd::arithmetic::power::lemma_pow1(b);
        }
        assert(e * b + c == hx * pow(b, y.len()) + (hy0 * b + c)) by (nonlinear_arith)
            requires
                e == hx * bk + hy0,
                pow(b, y.len()) == bk * b,
        ;
        let big = hx * pow(b, y.len());
        let tail = hy0 * b + c;
        assert(poly_hash(y) == tail % m);
        vstd::arithmetic::div_mod::lemma_add_mod_noop(big, tail, m);
        vstd::arithmetic::div_mod::lemma_mod_twice(tail, m);
        vstd::arithmetic::div_mod::lemma_add_mod_noop(big % m, tail % m, m);
        vstd::arithmetic::div_mod::lemma_mod_twice(big, m);
        vstd::arithmetic::div_mod::lemma_add_mod_noop(big, tail % m, m);
    }
}

/// The law of the rolling hash: the hash of two joined strings is the hash of the
/// first, shifted by the base to the power of the second's length in bytes, plus the
/// hash of the second, modulo the modulus; and the hash of the empty string is 0.
pub proof fn lemma_compute_hash_concat(a: Seq<char>, b: Seq<char>)
    ensures
        poly_hash(utf8_bytes(Seq::<char>::empty())) == 0,
        poly_hash(utf8_bytes(a + b)) == ((poly_hash(utf8_bytes(a)) * pow(HASH_BASE as int, utf8_bytes(b).len()))
            % (HASH_MODULUS as int) + poly_hash(utf8_bytes(b))) % (HASH_MODULUS as int),
{
    assert(encode_utf8(Seq::<char>::empty()) =~= Seq::<u8>::empty());
    lemma_encode_utf8_concat(a, b);
    lemma_poly_hash_concat(utf8_bytes(a), utf8_bytes(b));
}

/// `a * b` modulo `HASH_MODULUS`, computed in 128 bits so that it cannot overflow.
pub fn mul_mod(a: u64, b: u64) -> (r: u64)
    ensures
        r == (a * b) % (HASH_MODULUS as int),
        r < HASH_MODULUS,
{
    let wide_a = a as u128;
    let wide_b = b as u128;
    assert(wide_a * wide_b <= u64::MAX * u64::MAX) by (nonlinear_arith)
        requires
            wide_a <= u64::MAX,
            wide_b <= u64::MAX,
    ;
    let product = wide_a * wide_b;
    (product % (HASH_MODULUS as u128)) as u64
}

/// `a + b`, reduced once by `HASH_MODULUS` when it reaches the modulus.
pub fn add_mod(a: u64, b: u64) -> (r: u64)
    requires
        a + b <= u64::MAX,
    ensures
        r == (if a + b >= HASH_MODULUS { a + b - HASH_MODULUS } else { a + b }),
{
    let s = a + b;
    if s >= HASH_MODULUS {
        s - HASH_MODULUS
    } else {
        s
    }
}

/// For arguments below the modulus, `add_mod` is addition modulo `HASH_MODULUS`.
pub proof fn lemma_add_mod_is_modular_addition(a: u64, b: u64)
    requires
        a < HASH_MODULUS,
        b < HASH_MODULUS,
    ensures
        a + b <= u64::MAX,
        (if a + b >= HASH_MODULUS { a + b - HASH_MODULUS } else { a + b }) == (a + b) % (
        HASH_MODULUS as int),
{
    let m = HASH_MODULUS as int;
    let s = a + b;
    if s >= m {
        assert((s - m) % m == s - m) by {
            vstd::arithmetic::div_mod::lemma_small_mod((s - m) as nat, m as nat);
        }
        vstd::arithmetic::div_mod::lemma_mod_sub_multiples_vanish(s, m);
    } else {
        vstd::arithmetic::div_mod::lemma_small_mod(s as nat, m as nat);
    }
}

/// One halving step of square-and-multiply keeps `r * b^e` fixed modulo `m`.
proof fn lemma_pow_halving_step(r: int, b: int, e: nat, m: int)
    requires
        m > 0,
        e > 0,
    ensures
        ((if e % 2 == 1 { (r * b) % m } else { r }) * pow((b * b) % m, e / 2)) % m == (r * pow(
            b,
            e,
        )) % m,
{
    let half = e / 2;
    let odd: nat = e % 2;
    // b^e = (b^2)^(e/2) * b^(e%2)
    lemma_pow1(b);
    assert(pow(b, 2) == b * b) by {
        lemma_pow_adds(b, 1, 1);
    }
    lemma_pow_multiplies(b, 2, half);
    assert(e == 2 * half + odd);
    lemma_pow_adds(b, 2 * half, odd);
    let q = pow(b * b, half);
    assert(pow(b, e) == q * pow(b, odd));
    // reduce the base of the squared power modulo m
    lemma_pow_mod_noop(b * b, half, m);
    let qm = pow((b * b) % m, half);
    assert(qm % m == q % m);
    if odd == 1 {
        lemma_pow1(b);
        lemma_mul_mod_noop_left(r * b, qm, m);
        lemma_mul_mod_noop_right(r * b, qm, m);
        lemma_mul_mod_noop_right(r * b, q, m);
        lemma_mul_is_associative(r, b, q);
        lemma_mul_is_commutative(b, q);
        lemma_mul_is_associative(r, q, b);
    } else {
        assert(pow(b, odd) == 1) by {
            vstd::arithmetic::power::lemma_pow0(b);
        }
        lemma_mul_mod_noop_right(r, qm, m);
        lemma_mul_mod_noop_right(r, q, m);
    }
}

/// Modular exponentiation `base^exp mod HASH_MODULUS` by repeated squaring.
pub fn pow_mod(base: u64, exp: u64) -> (r: u64)
    ensures
        r == pow(base as int, exp as nat) % (HASH_MODULUS as int),
{
    let ghost m = HASH_MODULUS as int;
    let ghost b0 = base as int;
    let ghost e0 = exp as nat;
    let mut base = base;
    let mut exp = exp;
    let mut result: u64 = 1;
    proof {
        lemma_pow_mod_noop(b0, e0, m);
    }
    base = base % HASH_MODULUS;
    proof {
        vstd::arithmetic::power::lemma_pow0(base as int);
        vstd::arithmetic::div_mod::lemma_small_mod(1, m as nat);
        assert((result * pow(base as int, exp as nat)) % m == pow(b0, e0) % m);
    }
    while exp > 0
        invariant
            m == HASH_MODULUS,
            base < HASH_MODULUS,
            result < HASH_MODULUS,
            (result * pow(base as int, exp as nat)) % m == pow(b0, e0) % m,
        decreases exp,
    {
        proof {
            lemma_pow_halving_step(result as int, base as int, exp as nat, m);
        }
        assert(exp & 1 == exp % 2) by (bit_vector);
        if exp & 1 == 1 {
            result = mul_mod(result, base);
        }
        base = mul_mod(base, base);
        assert(exp >> 1 == exp / 2) by (bit_vector);
        exp = exp >> 1;
    }
    proof {
        vstd::arithmetic::power::lemma_pow0(base as int);
        vstd::arithmetic::div_mod::lemma_small_mod(result as nat, m as nat);
    }
    result
}

} // verus!
