use vstd::prelude::*;
use vstd::arithmetic::power2::pow2;

verus! {

// ------------------------------------------------------------------
// Trusted boundary around num_bigint::BigUint.
//
// A field element can be as large as the Cairo prime (roughly 2^251),
// so the executable representation is an arbitrary-precision unsigned
// integer from the num_bigint crate. The value a BigUint holds is
// named by `big` below; every wrapper states what the called
// num_bigint operation returns in terms of that name.
// ------------------------------------------------------------------

#[verifier::external_type_specification]
#[verifier::external_body]
pub struct ExBigUint(num_bigint::BigUint);

/// The natural number a num_bigint::BigUint holds.
pub uninterp spec fn big(b: num_bigint::BigUint) -> nat;

/// Relies on `<BigUint as From<u64>>::from`: builds the big integer with that value.
#[verifier::external_body]
fn biguint_from_u64(x: u64) -> (r: num_bigint::BigUint)
    ensures
        big(r) == x as nat,
{
    num_bigint::BigUint::from(x)
}

/// Relies on `<BigUint as Clone>::clone`: the copy holds the same value.
#[verifier::external_body]
fn biguint_clone(a: &num_bigint::BigUint) -> (r: num_bigint::BigUint)
    ensures
        big(r) == big(*a),
{
    a.clone()
}

/// Relies on `<BigUint as PartialEq>::eq`: equality of the held values.
#[verifier::external_body]
fn biguint_eq(a: &num_bigint::BigUint, b: &num_bigint::BigUint) -> (r: bool)
    ensures
        r == (big(*a) == big(*b)),
{
    a == b
}

/// Relies on `<BigUint as PartialOrd>::lt`: order of the held values.
#[verifier::external_body]
fn biguint_lt(a: &num_bigint::BigUint, b: &num_bigint::BigUint) -> (r: bool)
    ensures
        r == (big(*a) < big(*b)),
{
    a < b
}

/// Relies on `Add<&BigUint> for &BigUint`: exact integer addition.
#[verifier::external_body]
fn biguint_add(a: &num_bigint::BigUint, b: &num_bigint::BigUint) -> (r: num_bigint::BigUint)
    ensures
        big(r) == big(*a) + big(*b),
{
    a + b
}

/// Relies on `Sub<&BigUint> for &BigUint`: exact integer subtraction;
/// the crate panics on underflow, so the smaller value may not be the minuend.
#[verifier::external_body]
fn biguint_sub(a: &num_bigint::BigUint, b: &num_bigint::BigUint) -> (r: num_bigint::BigUint)
    requires
        big(*a) >= big(*b),
    ensures
        big(r) == big(*a) - big(*b),
{
    a - b
}

/// Relies on `Mul<&BigUint> for &BigUint`: exact integer multiplication.
#[verifier::external_body]
fn biguint_mul(a: &num_bigint::BigUint, b: &num_bigint::BigUint) -> (r: num_bigint::BigUint)
    ensures
        big(r) == big(*a) * big(*b),
{
    a * b
}

/// Relies on `Rem<&BigUint> for &BigUint`: the Euclidean remainder;
/// the crate panics on a zero divisor.
#[verifier::external_body]
fn biguint_rem(a: &num_bigint::BigUint, b: &num_bigint::BigUint) -> (r: num_bigint::BigUint)
    requires
        big(*b) > 0,
    ensures
        big(r) == big(*a) % big(*b),
{
    a % b
}

/// Relies on `Shl<usize> for &BigUint`: a left shift multiplies by a power of two.
#[verifier::external_body]
fn biguint_shl(a: &num_bigint::BigUint, n: usize) -> (r: num_bigint::BigUint)
    ensures
        big(r) == big(*a) * pow2(n as nat),
{
    a << n
}

/// The modular multiplicative inverse num_bigint computes, where one
/// exists; it depends on the two values alone.
pub uninterp spec fn inv_mod_spec(a: nat, m: nat) -> nat;

/// Relies on `BigUint::modinv`: the result x (if any) satisfies
/// `self * x = 1 (mod modulus)` with `x` in `[0, modulus)`, and exists
/// exactly when `gcd(self, modulus) == 1`.
#[verifier::external_body]
fn biguint_modinv(a: &num_bigint::BigUint, m: &num_bigint::BigUint) -> (r: Option<
    num_bigint::BigUint,
>)
    requires
        big(*m) > 1,
    ensures
        match r {
            Some(x) => spec_gcd(big(*a), big(*m)) == 1 && big(x) == inv_mod_spec(
                big(*a),
                big(*m),
            ) && big(x) < big(*m) && (big(*a) * big(x)) % big(*m) == 1,
            None => spec_gcd(big(*a), big(*m)) != 1,
        },
{
    a.modinv(m)
}

/// Relies on `<u64 as TryFrom<&BigUint>>::try_from`: succeeds exactly
/// when the value fits in 64 bits, and then returns it.
#[verifier::external_body]
fn biguint_to_u64(a: &num_bigint::BigUint) -> (r: Option<u64>)
    ensures
        match r {
            Some(x) => x as nat == big(*a),
            None => big(*a) >= 0x1_0000_0000_0000_0000,
        },
{
    u64::try_from(a).ok()
}

/// Bitwise conjunction of two natural numbers, binary digit by digit.
pub open spec fn nat_and(a: nat, b: nat) -> nat
    decreases a + b,
{
    if a == 0 || b == 0 {
        0
    } else {
        2 * nat_and(a / 2, b / 2) + if a % 2 == 1 && b % 2 == 1 {
            1nat
        } else {
            0nat
        }
    }
}

/// Bitwise exclusive disjunction of two natural numbers.
pub open spec fn nat_xor(a: nat, b: nat) -> nat
    decreases a + b,
{
    if a == 0 {
        b
    } else if b == 0 {
        a
    } else {
        2 * nat_xor(a / 2, b / 2) + if (a % 2 == 1) != (b % 2 == 1) {
            1nat
        } else {
            0nat
        }
    }
}

/// Bitwise disjunction of two natural numbers.
pub open spec fn nat_or(a: nat, b: nat) -> nat
    decreases a + b,
{
    if a == 0 {
        b
    } else if b == 0 {
        a
    } else {
        2 * nat_or(a / 2, b / 2) + if a % 2 == 1 || b % 2 == 1 {
            1nat
        } else {
            0nat
        }
    }
}

/// Relies on `BitAnd<&BigUint> for &BigUint`: the bitwise conjunction.
#[verifier::external_body]
fn biguint_and(a: &num_bigint::BigUint, b: &num_bigint::BigUint) -> (r: num_bigint::BigUint)
    ensures
        big(r) == nat_and(big(*a), big(*b)),
{
    a & b
}

/// Relies on `BitXor<&BigUint> for &BigUint`: the bitwise exclusive
/// disjunction.
#[verifier::external_body]
fn biguint_xor(a: &num_bigint::BigUint, b: &num_bigint::BigUint) -> (r: num_bigint::BigUint)
    ensures
        big(r) == nat_xor(big(*a), big(*b)),
{
    a ^ b
}

/// Relies on `BitOr<&BigUint> for &BigUint`: the bitwise disjunction.
#[verifier::external_body]
fn biguint_or(a: &num_bigint::BigUint, b: &num_bigint::BigUint) -> (r: num_bigint::BigUint)
    ensures
        big(r) == nat_or(big(*a), big(*b)),
{
    a | b
}

/// The natural number big-endian bytes stand for.
pub open spec fn be_bytes_nat(s: Seq<u8>) -> nat
    decreases s.len(),
{
    if s.len() == 0 {
        0
    } else {
        be_bytes_nat(s.drop_last()) * 256 + (s.last() as nat)
    }
}

/// Relies on `BigUint::from_bytes_be`: reads big-endian bytes.
#[verifier::external_body]
fn biguint_from_bytes_be(bytes: &[u8]) -> (r: num_bigint::BigUint)
    ensures
        big(r) == be_bytes_nat(bytes@),
{
    num_bigint::BigUint::from_bytes_be(bytes)
}

/// The decimal digits of a natural number, most significant first.
pub open spec fn dec_digits(n: nat) -> Seq<char>
    decreases n,
{
    let d = (((n % 10) + ('0' as nat)) as u8) as char;
    if n < 10 {
        seq![d]
    } else {
        dec_digits(n / 10).push(d)
    }
}

/// Relies on `BigUint::to_str_radix` with radix ten: the decimal digits
/// of the value, most significant first.
#[verifier::external_body]
fn biguint_to_dec(a: &num_bigint::BigUint) -> (r: String)
    ensures
        r@ == dec_digits(big(*a)),
{
    a.to_str_radix(10)
}

/// The greatest common divisor, by Euclid's rule.
pub open spec fn spec_gcd(a: nat, b: nat) -> nat
    decreases b,
{
    if b == 0 {
        a
    } else {
        spec_gcd(b, a % b)
    }
}

// ------------------------------------------------------------------
// Felt: an unbounded non-negative integer, used for field elements.
// ------------------------------------------------------------------

/// An unbounded non-negative integer value, as stored in a Cairo memory
/// cell. Field arithmetic reduces such values modulo a prime.
#[derive(Debug)]
pub struct Felt {
    inner: num_bigint::BigUint,
}

impl View for Felt {
    type V = nat;

    closed spec fn view(&self) -> nat {
        big(self.inner)
    }
}

impl Clone for Felt {
    fn clone(&self) -> (r: Self)
        ensures
            r@ == self@,
    {
        Felt { inner: biguint_clone(&self.inner) }
    }
}

/// The default Cairo prime, 2^251 + 17 * 2^192 + 1.
pub open spec fn default_prime() -> nat {
    pow2(251) + 17 * pow2(192) + 1
}

impl Felt {
    pub fn from_u64(x: u64) -> (r: Self)
        ensures
            r@ == x as nat,
    {
        Felt { inner: biguint_from_u64(x) }
    }

    /// The default Cairo prime as a value.
    pub fn prime() -> (r: Self)
        ensures
            r@ == default_prime(),
    {
        let one = biguint_from_u64(1);
        let seventeen = biguint_from_u64(17);
        let high = biguint_shl(&one, 251);
        let mid = biguint_mul(&seventeen, &biguint_shl(&one, 192));
        let r = biguint_add(&biguint_add(&high, &mid), &one);
        Felt { inner: r }
    }

    pub fn eq_felt(&self, other: &Felt) -> (r: bool)
        ensures
            r == (self@ == other@),
    {
        biguint_eq(&self.inner, &other.inner)
    }

    pub fn lt_felt(&self, other: &Felt) -> (r: bool)
        ensures
            r == (self@ < other@),
    {
        biguint_lt(&self.inner, &other.inner)
    }

    pub fn is_zero(&self) -> (r: bool)
        ensures
            r == (self@ == 0),
    {
        let zero = biguint_from_u64(0);
        biguint_eq(&self.inner, &zero)
    }

    /// Exact sum, without reduction.
    pub fn add_felt(&self, other: &Felt) -> (r: Self)
        ensures
            r@ == self@ + other@,
    {
        Felt { inner: biguint_add(&self.inner, &other.inner) }
    }

    /// Exact difference, without reduction.
    pub fn sub_felt(&self, other: &Felt) -> (r: Self)
        requires
            self@ >= other@,
        ensures
            r@ == self@ - other@,
    {
        Felt { inner: biguint_sub(&self.inner, &other.inner) }
    }

    /// Sum modulo the prime.
    pub fn add_mod(&self, other: &Felt, prime: &Felt) -> (r: Self)
        requires
            prime@ > 0,
        ensures
            r@ == (self@ + other@) % prime@,
    {
        let s = biguint_add(&self.inner, &other.inner);
        Felt { inner: biguint_rem(&s, &prime.inner) }
    }

    /// Difference modulo the prime.
    pub fn sub_mod(&self, other: &Felt, prime: &Felt) -> (r: Self)
        requires
            prime@ > 0,
            self@ < prime@,
            other@ < prime@,
        ensures
            r@ == (self@ + prime@ - other@) % (prime@ as int),
    {
        let s = biguint_add(&self.inner, &prime.inner);
        let d = biguint_sub(&s, &other.inner);
        Felt { inner: biguint_rem(&d, &prime.inner) }
    }

    /// Product modulo the prime.
    pub fn mul_mod(&self, other: &Felt, prime: &Felt) -> (r: Self)
        requires
            prime@ > 0,
        ensures
            r@ == (self@ * other@) % prime@,
    {
        let m = biguint_mul(&self.inner, &other.inner);
        Felt { inner: biguint_rem(&m, &prime.inner) }
    }

    /// Remainder by the prime.
    pub fn rem_prime(&self, prime: &Felt) -> (r: Self)
        requires
            prime@ > 0,
        ensures
            r@ == self@ % prime@,
    {
        Felt { inner: biguint_rem(&self.inner, &prime.inner) }
    }

    /// The modular multiplicative inverse, when one exists.
    pub fn inv_mod(&self, prime: &Felt) -> (r: Option<Felt>)
        requires
            prime@ > 1,
        ensures
            match r {
                Some(x) => spec_gcd(self@, prime@) == 1 && x@ == inv_mod_spec(self@, prime@)
                    && x@ < prime@ && (self@ * x@) % prime@ == 1,
                None => spec_gcd(self@, prime@) != 1,
            },
    {
        match biguint_modinv(&self.inner, &prime.inner) {
            Some(x) => Some(Felt { inner: x }),
            None => None,
        }
    }

    /// Bitwise conjunction.
    pub fn and_felt(&self, other: &Felt) -> (r: Self)
        ensures
            r@ == nat_and(self@, other@),
    {
        Felt { inner: biguint_and(&self.inner, &other.inner) }
    }

    /// Bitwise exclusive disjunction.
    pub fn xor_felt(&self, other: &Felt) -> (r: Self)
        ensures
            r@ == nat_xor(self@, other@),
    {
        Felt { inner: biguint_xor(&self.inner, &other.inner) }
    }

    /// Bitwise disjunction.
    pub fn or_felt(&self, other: &Felt) -> (r: Self)
        ensures
            r@ == nat_or(self@, other@),
    {
        Felt { inner: biguint_or(&self.inner, &other.inner) }
    }

    /// The value big-endian bytes stand for.
    pub fn from_bytes_be(bytes: &[u8]) -> (r: Self)
        ensures
            r@ == be_bytes_nat(bytes@),
    {
        Felt { inner: biguint_from_bytes_be(bytes) }
    }

    /// The value written out in decimal.
    pub fn to_dec_string(&self) -> (r: String)
        ensures
            r@ == dec_digits(self@),
    {
        biguint_to_dec(&self.inner)
    }

    /// The value as a u64, when it fits.
    pub fn to_u64(&self) -> (r: Option<u64>)
        ensures
            match r {
                Some(x) => x as nat == self@,
                None => self@ >= 0x1_0000_0000_0000_0000,
            },
    {
        biguint_to_u64(&self.inner)
    }
}

} // verus!
