use vstd::prelude::*;
use crate::felt::Felt;

verus! {

/// An address in segmented memory: a segment index (negative for temporary
/// segments) together with an offset inside that segment.
#[derive(Debug, Clone, Copy, PartialEq, Eq, Structural)]
pub struct RelocatableValue {
    pub segment_index: i64,
    pub offset: i64,
}

/// A memory cell value: either a field element or a relocatable address.
#[derive(Debug)]
pub enum MaybeRelocatable {
    Int(Felt),
    RelocatableValue(RelocatableValue),
}

/// The mathematical value of a memory cell.
pub enum Cell {
    Int(nat),
    Addr(RelocatableValue),
}

impl View for MaybeRelocatable {
    type V = Cell;

    open spec fn view(&self) -> Cell {
        match self {
            MaybeRelocatable::Int(f) => Cell::Int(f@),
            MaybeRelocatable::RelocatableValue(r) => Cell::Addr(*r),
        }
    }
}

impl Clone for MaybeRelocatable {
    fn clone(&self) -> (r: Self)
        ensures
            r@ == self@,
    {
        match self {
            MaybeRelocatable::Int(f) => MaybeRelocatable::Int(f.clone()),
            MaybeRelocatable::RelocatableValue(r) => MaybeRelocatable::RelocatableValue(*r),
        }
    }
}

impl PartialEq for MaybeRelocatable {
    fn eq(&self, other: &Self) -> (r: bool) {
        match (self, other) {
            (MaybeRelocatable::Int(a), MaybeRelocatable::Int(b)) => a.eq_felt(b),
            (
                MaybeRelocatable::RelocatableValue(a),
                MaybeRelocatable::RelocatableValue(b),
            ) => a == b,
            _ => false,
        }
    }
}

impl vstd::std_specs::cmp::PartialEqSpecImpl for MaybeRelocatable {
    open spec fn obeys_eq_spec() -> bool {
        true
    }

    open spec fn eq_spec(&self, other: &Self) -> bool {
        self@ == other@
    }
}

impl Eq for MaybeRelocatable {}

/// An arithmetic fault on cell values.
#[derive(Debug, Clone, Copy, PartialEq, Eq, Structural)]
pub enum MathError {
    /// The operation needed a field element where an address stood, or the
    /// other way round (two addresses cannot be added, an address cannot be
    /// subtracted from a field element).
    PureValue,
    /// Two addresses in different segments cannot be subtracted.
    SegmentMismatch,
    /// The resulting offset cannot be represented.
    OffsetOutOfRange,
}

/// Remainder with the dividend's sign, as integer remainder behaves on
/// signed arbitrary-precision values.
pub open spec fn signed_rem(t: int, p: int) -> int {
    if t >= 0 {
        t % p
    } else {
        -((-t) % p)
    }
}

/// Offset arithmetic: the new offset of an address after `v` is added to
/// it and the sum is reduced by the prime, if it is representable.
pub open spec fn offset_reduce(t: int, p: nat) -> Result<i64, MathError> {
    let m = signed_rem(t, p as int);
    if i64::MIN <= m <= i64::MAX {
        Ok(m as i64)
    } else {
        Err(MathError::OffsetOutOfRange)
    }
}

/// Addition of cell values modulo the prime: two field elements add in the
/// field; a field element added to an address moves its offset; two
/// addresses cannot be added.
pub open spec fn cell_add(a: Cell, b: Cell, p: nat) -> Result<Cell, MathError> {
    match (a, b) {
        (Cell::Int(x), Cell::Int(y)) => Ok(Cell::Int(((x + y) % p) as nat)),
        (Cell::Int(x), Cell::Addr(r)) => match offset_reduce(r.offset + x, p) {
            Ok(o) => Ok(Cell::Addr(RelocatableValue { segment_index: r.segment_index, offset: o })),
            Err(e) => Err(e),
        },
        (Cell::Addr(r), Cell::Int(x)) => match offset_reduce(r.offset + x, p) {
            Ok(o) => Ok(Cell::Addr(RelocatableValue { segment_index: r.segment_index, offset: o })),
            Err(e) => Err(e),
        },
        (Cell::Addr(_), Cell::Addr(_)) => Err(MathError::PureValue),
    }
}

/// Subtraction of cell values modulo the prime: field elements subtract in
/// the field; a field element subtracted from an address moves its offset;
/// two addresses of one segment yield their offset difference as a field
/// element; a field element minus an address is forbidden.
pub open spec fn cell_sub(a: Cell, b: Cell, p: nat) -> Result<Cell, MathError> {
    match (a, b) {
        (Cell::Int(x), Cell::Int(y)) => Ok(Cell::Int(((x - y) % (p as int)) as nat)),
        (Cell::Int(_), Cell::Addr(_)) => Err(MathError::PureValue),
        (Cell::Addr(r), Cell::Int(x)) => match offset_reduce(r.offset - x, p) {
            Ok(o) => Ok(Cell::Addr(RelocatableValue { segment_index: r.segment_index, offset: o })),
            Err(e) => Err(e),
        },
        (Cell::Addr(r1), Cell::Addr(r2)) => if r1.segment_index == r2.segment_index {
            Ok(Cell::Int(((r1.offset - r2.offset) % (p as int)) as nat))
        } else {
            Err(MathError::SegmentMismatch)
        },
    }
}

/// Reduction of a cell value by the prime: a field element is reduced; an
/// address keeps its segment and reduces its offset (a no-op for every
/// representable offset when the prime is larger than the offset range).
pub open spec fn cell_rem(a: Cell, p: nat) -> Cell {
    match a {
        Cell::Int(x) => Cell::Int((x % p) as nat),
        Cell::Addr(r) => Cell::Addr(
            RelocatableValue {
                segment_index: r.segment_index,
                offset: signed_rem(r.offset as int, p as int) as i64,
            },
        ),
    }
}

/// A signed machine amount added to a cell value, reduced by the prime.
pub open spec fn cell_add_int(a: Cell, d: int, p: nat) -> Result<Cell, MathError> {
    if d >= 0 {
        cell_add(a, Cell::Int(d as nat), p)
    } else {
        cell_sub(a, Cell::Int((-d) as nat), p)
    }
}

/// The mathematical outcome of a computed cell result.
pub open spec fn cell_result_of(r: Result<MaybeRelocatable, MathError>) -> Result<
    Cell,
    MathError,
> {
    match r {
        Ok(v) => Ok(v@),
        Err(e) => Err(e),
    }
}

/// A non-negative amount reduced by the prime, as an offset when it is
/// representable.
fn reduced_nonneg(t: &Felt, p: &Felt) -> (r: Result<i64, MathError>)
    requires
        p@ > 0,
    ensures
        r == offset_reduce(t@ as int, p@),
{
    let m = t.rem_prime(p);
    proof {
        vstd::arithmetic::div_mod::lemma_mod_bound(t@ as int, p@ as int);
    }
    match m.to_u64() {
        Some(x) => if x <= 0x7fff_ffff_ffff_ffff {
            Ok(x as i64)
        } else {
            Err(MathError::OffsetOutOfRange)
        },
        None => Err(MathError::OffsetOutOfRange),
    }
}

/// A negative amount `-d` reduced by the prime: the reduction keeps the
/// dividend's sign, so the result is `-(d % p)` when representable.
fn reduced_neg(d: &Felt, p: &Felt) -> (r: Result<i64, MathError>)
    requires
        p@ > 0,
        d@ > 0,
    ensures
        r == offset_reduce(-(d@ as int), p@),
{
    let dm = d.rem_prime(p);
    proof {
        vstd::arithmetic::div_mod::lemma_mod_bound(d@ as int, p@ as int);
    }
    match dm.to_u64() {
        Some(x) => if x < 0x8000_0000_0000_0000 {
            Ok((0i64 - (x as i64)) as i64)
        } else if x == 0x8000_0000_0000_0000 {
            Ok(i64::MIN)
        } else {
            Err(MathError::OffsetOutOfRange)
        },
        None => Err(MathError::OffsetOutOfRange),
    }
}

/// The offset of an address after a field element is added to it, reduced
/// by the prime.
fn offset_add_felt(o: i64, v: &Felt, p: &Felt) -> (r: Result<i64, MathError>)
    requires
        p@ > 0,
    ensures
        r == offset_reduce(o + v@, p@),
{
    if o >= 0 {
        let t = Felt::from_u64(o as u64).add_felt(v);
        reduced_nonneg(&t, p)
    } else {
        let mag: u64 = ((-1i64 - o) as u64) + 1;
        let mb = Felt::from_u64(mag);
        if v.lt_felt(&mb) {
            let d = mb.sub_felt(v);
            reduced_neg(&d, p)
        } else {
            let t = v.sub_felt(&mb);
            reduced_nonneg(&t, p)
        }
    }
}

/// The offset of an address after a field element is subtracted from it,
/// reduced by the prime.
fn offset_sub_felt(o: i64, v: &Felt, p: &Felt) -> (r: Result<i64, MathError>)
    requires
        p@ > 0,
    ensures
        r == offset_reduce(o - v@, p@),
{
    if o >= 0 {
        let ob = Felt::from_u64(o as u64);
        if ob.lt_felt(v) {
            let d = v.sub_felt(&ob);
            reduced_neg(&d, p)
        } else {
            let t = ob.sub_felt(v);
            reduced_nonneg(&t, p)
        }
    } else {
        let mag: u64 = ((-1i64 - o) as u64) + 1;
        let d = Felt::from_u64(mag).add_felt(v);
        reduced_neg(&d, p)
    }
}

/// An offset reduced by the prime, keeping its sign; always representable
/// because the magnitude never grows.
fn rem_offset(o: i64, p: &Felt) -> (r: i64)
    requires
        p@ > 0,
    ensures
        r == signed_rem(o as int, p@ as int),
{
    if o >= 0 {
        let m = Felt::from_u64(o as u64).rem_prime(p);
        proof {
            vstd::arithmetic::div_mod::lemma_mod_decreases(o as nat, p@);
        }
        match m.to_u64() {
            Some(x) => x as i64,
            None => {
                proof {
                    assert(false);
                }
                0
            },
        }
    } else {
        let mag: u64 = ((-1i64 - o) as u64) + 1;
        let m = Felt::from_u64(mag).rem_prime(p);
        proof {
            vstd::arithmetic::div_mod::lemma_mod_decreases(mag as nat, p@);
        }
        match m.to_u64() {
            Some(x) => if x < 0x8000_0000_0000_0000 {
                (0i64 - (x as i64)) as i64
            } else {
                i64::MIN
            },
            None => {
                proof {
                    assert(false);
                }
                0
            },
        }
    }
}

impl MaybeRelocatable {
    /// Addition of cell values, reduced by the prime.
    pub fn add_cell(&self, rhs: &Self, prime: &Felt) -> (r: Result<Self, MathError>)
        requires
            prime@ > 0,
        ensures
            cell_result_of(r) == cell_add(self@, rhs@, prime@),
    {
        match (self, rhs) {
            (MaybeRelocatable::Int(a), MaybeRelocatable::Int(b)) => Ok(
                MaybeRelocatable::Int(a.add_mod(b, prime)),
            ),
            (MaybeRelocatable::Int(a), MaybeRelocatable::RelocatableValue(r)) => match
                offset_add_felt(r.offset, a, prime) {
                Ok(o) => Ok(
                    MaybeRelocatable::RelocatableValue(RelocatableValue::new(r.segment_index, o)),
                ),
                Err(e) => Err(e),
            },
            (MaybeRelocatable::RelocatableValue(r), MaybeRelocatable::Int(a)) => match
                offset_add_felt(r.offset, a, prime) {
                Ok(o) => Ok(
                    MaybeRelocatable::RelocatableValue(RelocatableValue::new(r.segment_index, o)),
                ),
                Err(e) => Err(e),
            },
            (
                MaybeRelocatable::RelocatableValue(_),
                MaybeRelocatable::RelocatableValue(_),
            ) => Err(MathError::PureValue),
        }
    }

    /// Subtraction of cell values, reduced by the prime.
    pub fn sub_cell(&self, rhs: &Self, prime: &Felt) -> (r: Result<Self, MathError>)
        requires
            prime@ > 0,
        ensures
            cell_result_of(r) == cell_sub(self@, rhs@, prime@),
    {
        match (self, rhs) {
            (MaybeRelocatable::Int(a), MaybeRelocatable::Int(b)) => {
                let xa = a.rem_prime(prime);
                let ya = b.rem_prime(prime);
                proof {
                    vstd::arithmetic::div_mod::lemma_mod_bound(a@ as int, prime@ as int);
                    vstd::arithmetic::div_mod::lemma_mod_bound(b@ as int, prime@ as int);
                    vstd::arithmetic::div_mod::lemma_mod_add_multiples_vanish(
                        xa@ - ya@,
                        prime@ as int,
                    );
                    vstd::arithmetic::div_mod::lemma_sub_mod_noop(
                        a@ as int,
                        b@ as int,
                        prime@ as int,
                    );
                }
                Ok(MaybeRelocatable::Int(xa.sub_mod(&ya, prime)))
            },
            (MaybeRelocatable::Int(_), MaybeRelocatable::RelocatableValue(_)) => Err(
                MathError::PureValue,
            ),
            (MaybeRelocatable::RelocatableValue(r), MaybeRelocatable::Int(a)) => match
                offset_sub_felt(r.offset, a, prime) {
                Ok(o) => Ok(
                    MaybeRelocatable::RelocatableValue(RelocatableValue::new(r.segment_index, o)),
                ),
                Err(e) => Err(e),
            },
            (
                MaybeRelocatable::RelocatableValue(r1),
                MaybeRelocatable::RelocatableValue(r2),
            ) => {
                if r1.segment_index == r2.segment_index {
                    let d = rem_offset_diff(r1.offset, r2.offset, prime);
                    Ok(MaybeRelocatable::Int(d))
                } else {
                    Err(MathError::SegmentMismatch)
                }
            },
        }
    }

    /// Reduction of a cell value by the prime.
    pub fn rem_cell(&self, prime: &Felt) -> (r: Self)
        requires
            prime@ > 0,
        ensures
            r@ == cell_rem(self@, prime@),
    {
        match self {
            MaybeRelocatable::Int(a) => MaybeRelocatable::Int(a.rem_prime(prime)),
            MaybeRelocatable::RelocatableValue(r) => MaybeRelocatable::RelocatableValue(
                RelocatableValue::new(r.segment_index, rem_offset(r.offset, prime)),
            ),
        }
    }

    /// The cell a signed machine amount further on, reduced by the prime:
    /// a non-negative amount adds, a negative one subtracts.
    pub fn add_int(&self, d: i64, prime: &Felt) -> (r: Result<Self, MathError>)
        requires
            prime@ > 0,
        ensures
            cell_result_of(r) == cell_add_int(self@, d as int, prime@),
    {
        if d >= 0 {
            self.add_cell(&MaybeRelocatable::Int(Felt::from_u64(d as u64)), prime)
        } else {
            let mag: u64 = ((-1i64 - d) as u64) + 1;
            self.sub_cell(&MaybeRelocatable::Int(Felt::from_u64(mag)), prime)
        }
    }

    /// The cell a fixed number of cells further on: a field element grows
    /// exactly, an address moves its offset.
    pub fn add_usize(&self, u: usize) -> (r: Result<Self, MathError>)
        requires
            u <= i64::MAX,
        ensures
            match (self@, cell_result_of(r)) {
                (Cell::Int(x), Ok(Cell::Int(y))) => y == x + u,
                (Cell::Addr(a), Ok(Cell::Addr(b))) => b.segment_index == a.segment_index
                    && b.offset == a.offset + u,
                (Cell::Addr(a), Err(e)) => e == MathError::OffsetOutOfRange && a.offset + u
                    > i64::MAX,
                _ => false,
            },
    {
        match self {
            MaybeRelocatable::Int(a) => Ok(
                MaybeRelocatable::Int(a.add_felt(&Felt::from_u64(u as u64))),
            ),
            MaybeRelocatable::RelocatableValue(r) => match r.add_off(u as i64) {
                Ok(a) => Ok(MaybeRelocatable::RelocatableValue(a)),
                Err(e) => Err(e),
            },
        }
    }
}

/// A negative value `-d` reduced by a positive modulus equals the modulus
/// minus the reduced magnitude, reduced once more.
proof fn lemma_neg_mod(d: int, p: int)
    requires
        p > 0,
        d >= 0,
    ensures
        (-d) % p == (p - (d % p)) % p,
{
    vstd::arithmetic::div_mod::lemma_mod_add_multiples_vanish(-d, p);
    vstd::arithmetic::div_mod::lemma_sub_mod_noop_right(p, d, p);
}

/// The difference of two offsets of one segment, as a field element
/// reduced by the prime.
fn rem_offset_diff(o1: i64, o2: i64, p: &Felt) -> (r: Felt)
    requires
        p@ > 0,
    ensures
        r@ == ((o1 - o2) % (p@ as int)) as nat,
{
    if o1 >= o2 {
        // The difference is non-negative and below 2^64.
        let d: u64 = ((o1 as i128 - o2 as i128) as u64);
        Felt::from_u64(d).rem_prime(p)
    } else {
        // The difference is negative; reduce its magnitude and flip.
        let d: u64 = ((o2 as i128 - o1 as i128) as u64);
        let dm = Felt::from_u64(d).rem_prime(p);
        proof {
            vstd::arithmetic::div_mod::lemma_mod_bound(d as int, p@ as int);
            lemma_neg_mod(d as int, p@ as int);
            assert((o1 - o2) == -(d as int));
        }
        if dm.is_zero() {
            proof {
                vstd::arithmetic::div_mod::lemma_mod_self_0(p@ as int);
            }
            Felt::from_u64(0)
        } else {
            let r = p.sub_felt(&dm);
            proof {
                vstd::arithmetic::div_mod::lemma_small_mod((p@ - dm@) as nat, p@);
            }
            r
        }
    }
}

impl RelocatableValue {
    pub fn new(segment_index: i64, offset: i64) -> (r: Self)
        ensures
            r.segment_index == segment_index,
            r.offset == offset,
    {
        Self { segment_index, offset }
    }

    /// Whether this address lies in a temporary segment.
    pub fn is_temporary(&self) -> (r: bool)
        ensures
            r == (self.segment_index < 0),
    {
        self.segment_index < 0
    }

    /// The address a fixed number of cells further on.
    pub fn add_off(&self, d: i64) -> (r: Result<Self, MathError>)
        ensures
            match r {
                Ok(a) => a.segment_index == self.segment_index && a.offset == self.offset + d
                    && i64::MIN <= self.offset + d <= i64::MAX,
                Err(e) => e == MathError::OffsetOutOfRange && !(i64::MIN <= self.offset + d
                    <= i64::MAX),
            },
    {
        match self.offset.checked_add(d) {
            Some(o) => Ok(Self { segment_index: self.segment_index, offset: o }),
            None => Err(MathError::OffsetOutOfRange),
        }
    }
}

} // verus!
