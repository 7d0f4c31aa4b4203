//! Reading protocol values from a byte buffer.
//!
//! A [`ByteCursor`] stands for `std::io::Cursor<&[u8]>`: the bytes and a
//! read position. Every [`ReadFrom`] type states, as a spec function, the
//! value that the bytes from the position on decode to and how many bytes
//! that takes; reading yields that value and advances past it, or fails
//! with [`ReadError::UnexpectedEof`] and leaves the position at the end, as
//! `Cursor::read_exact` does.

use glam::{IVec2, IVec3};
use uuid::Uuid;
use vstd::prelude::*;

verus! {

/// Why a read failed.
#[derive(Clone, Copy, Debug, PartialEq, Eq, Structural)]
pub enum ReadError {
    /// The bytes ran out before the value was complete.
    UnexpectedEof,
}

/// Bytes and a read position into them.
pub struct ByteCursor<'a> {
    data: &'a [u8],
    pos: usize,
}

impl<'a> ByteCursor<'a> {
    /// The read position never passes the end of the bytes.
    #[verifier::type_invariant]
    spec fn inv(&self) -> bool {
        self.pos <= self.data@.len()
    }

    /// The bytes read from.
    pub closed spec fn bytes(&self) -> Seq<u8> {
        self.data@
    }

    /// The read position.
    pub closed spec fn pos(&self) -> int {
        self.pos as int
    }

    /// The bytes from the read position on.
    pub open spec fn remaining(&self) -> Seq<u8> {
        if self.pos() <= self.bytes().len() {
            self.bytes().subrange(self.pos(), self.bytes().len() as int)
        } else {
            Seq::empty()
        }
    }

    /// A cursor at the start of `data`.
    pub fn new(data: &'a [u8]) -> (c: Self)
        ensures
            c.bytes() == data@,
            c.pos() == 0,
    {
        ByteCursor { data, pos: 0 }
    }

    /// The read position.
    pub fn position(&self) -> (p: usize)
        ensures
            p == self.pos(),
    {
        self.pos
    }

    /// Takes the next `n` bytes, or fails, moving to the end, where fewer
    /// remain.
    pub fn read_exact(&mut self, n: usize) -> (r: Result<&'a [u8], ReadError>)
        ensures
            final(self).bytes() == old(self).bytes(),
            old(self).remaining().len() >= n ==> (r matches Ok(b) && b@ == old(
                self,
            ).remaining().take(n as int) && final(self).pos() == old(self).pos() + n),
            old(self).remaining().len() < n ==> r == Err::<&'a [u8], ReadError>(
                ReadError::UnexpectedEof,
            ) && final(self).pos() == old(self).bytes().len(),
    {
        proof {
            use_type_invariant(&*self);
        }
        let len = self.data.len();
        if n <= len - self.pos {
            let start = self.pos;
            let taken = self.data.split_at(start).1.split_at(n).0;
            self.pos = start + n;
            proof {
                assert(taken@ == old(self).remaining().take(n as int));
            }
            Ok(taken)
        } else {
            self.pos = len;
            Err(ReadError::UnexpectedEof)
        }
    }
}

/// 256 to the power `n`.
pub open spec fn pow256(n: nat) -> int
    decreases n,
{
    if n == 0 {
        1
    } else {
        256 * pow256((n - 1) as nat)
    }
}

/// The value of bytes read as a big-endian unsigned number.
pub open spec fn be_value(s: Seq<u8>) -> int
    decreases s.len(),
{
    if s.len() == 0 {
        0
    } else {
        be_value(s.drop_last()) * 256 + s.last()
    }
}

/// The two's complement value of an unsigned number of `width` bytes.
pub open spec fn twos_complement(u: int, width: nat) -> int {
    if u >= pow256(width) / 2 {
        u - pow256(width)
    } else {
        u
    }
}

proof fn lemma_pow256_monotone(a: nat, b: nat)
    requires
        a <= b,
    ensures
        1 <= pow256(a) <= pow256(b),
    decreases b,
{
    if b > 0 {
        if a < b {
            lemma_pow256_monotone(a, (b - 1) as nat);
        } else {
            lemma_pow256_monotone(0, (b - 1) as nat);
        }
    }
}

/// Reads bytes as a big-endian unsigned number.
fn be_unsigned(b: &[u8]) -> (v: u64)
    requires
        b@.len() <= 8,
    ensures
        v == be_value(b@),
        v < pow256(b@.len()),
{
    let n = b.len();
    let mut v: u64 = 0;
    let mut i: usize = 0;
    proof {
        assert(pow256(8) == 18446744073709551616) by {
            reveal_with_fuel(pow256, 9);
        }
    }
    while i < n
        invariant
            n == b@.len(),
            n <= 8,
            i <= n,
            v == be_value(b@.take(i as int)),
            v < pow256(i as nat),
            pow256(8) == 18446744073709551616,
        decreases n - i,
    {
        let byte = b[i];
        let ghost p = pow256(i as nat);
        proof {
            lemma_pow256_monotone((i + 1) as nat, 8);
            assert(pow256((i + 1) as nat) == 256 * p);
            assert(v * 256 + byte < 256 * p) by (nonlinear_arith)
                requires
                    v < p,
                    byte < 256,
            ;
            assert(b@.take(i + 1).drop_last() == b@.take(i as int));
            assert(b@.take(i + 1).last() == byte);
        }
        v = v * 256 + byte as u64;
        i = i + 1;
    }
    proof {
        assert(b@.take(n as int) == b@);
    }
    v
}

/// A value that can be read from a byte cursor.
pub trait ReadFrom: Sized {
    /// The value that `bytes` start with and the number of bytes it takes,
    /// or `None` where the bytes run out first.
    spec fn decode(bytes: Seq<u8>) -> Option<(Self, nat)>;

    /// Reads the value at the cursor's position.
    fn read(data: &mut ByteCursor) -> (r: Result<Self, ReadError>)
        ensures
            final(data).bytes() == old(data).bytes(),
            match Self::decode(old(data).remaining()) {
                Some((v, n)) => r == Ok::<Self, ReadError>(v) && final(data).pos() == old(data).pos()
                    + n,
                None => r == Err::<Self, ReadError>(ReadError::UnexpectedEof) && final(data).pos()
                    == old(data).bytes().len(),
            },
    ;
}

/// The big-endian unsigned number at the start of `bytes`, `width` bytes
/// wide.
pub open spec fn decode_unsigned(bytes: Seq<u8>, width: nat) -> Option<(int, nat)> {
    if bytes.len() >= width {
        Some((be_value(bytes.take(width as int)), width))
    } else {
        None
    }
}

/// The big-endian two's complement number at the start of `bytes`, `width`
/// bytes wide.
pub open spec fn decode_signed(bytes: Seq<u8>, width: nat) -> Option<(int, nat)> {
    if bytes.len() >= width {
        Some((twos_complement(be_value(bytes.take(width as int)), width), width))
    } else {
        None
    }
}

/// Reads a big-endian unsigned number `width` bytes wide.
fn read_unsigned(data: &mut ByteCursor, width: usize) -> (r: Result<u64, ReadError>)
    requires
        width <= 8,
    ensures
        final(data).bytes() == old(data).bytes(),
        match decode_unsigned(old(data).remaining(), width as nat) {
            Some((v, n)) => (r matches Ok(x) && x == v) && final(data).pos() == old(data).pos() + n
                && v < pow256(width as nat),
            None => r == Err::<u64, ReadError>(ReadError::UnexpectedEof) && final(data).pos()
                == old(data).bytes().len(),
        },
{
    match data.read_exact(width) {
        Ok(b) => Ok(be_unsigned(b)),
        Err(e) => Err(e),
    }
}

impl ReadFrom for u8 {
    open spec fn decode(bytes: Seq<u8>) -> Option<(u8, nat)> {
        match decode_unsigned(bytes, 1) {
            Some((v, n)) => Some((v as u8, n)),
            None => None,
        }
    }

    fn read(data: &mut ByteCursor) -> (r: Result<u8, ReadError>) {
        proof {
            assert(pow256(1) == 256) by {
                reveal_with_fuel(pow256, 2);
            }
        }
        match read_unsigned(data, 1) {
            Ok(v) => Ok(v as u8),
            Err(e) => Err(e),
        }
    }
}

impl ReadFrom for u16 {
    open spec fn decode(bytes: Seq<u8>) -> Option<(u16, nat)> {
        match decode_unsigned(bytes, 2) {
            Some((v, n)) => Some((v as u16, n)),
            None => None,
        }
    }

    fn read(data: &mut ByteCursor) -> (r: Result<u16, ReadError>) {
        proof {
            assert(pow256(2) == 65536) by {
                reveal_with_fuel(pow256, 3);
            }
        }
        match read_unsigned(data, 2) {
            Ok(v) => Ok(v as u16),
            Err(e) => Err(e),
        }
    }
}

impl ReadFrom for u32 {
    open spec fn decode(bytes: Seq<u8>) -> Option<(u32, nat)> {
        match decode_unsigned(bytes, 4) {
            Some((v, n)) => Some((v as u32, n)),
            None => None,
        }
    }

    fn read(data: &mut ByteCursor) -> (r: Result<u32, ReadError>) {
        proof {
            assert(pow256(4) == 4294967296) by {
                reveal_with_fuel(pow256, 5);
            }
        }
        match read_unsigned(data, 4) {
            Ok(v) => Ok(v as u32),
            Err(e) => Err(e),
        }
    }
}

impl ReadFrom for u64 {
    open spec fn decode(bytes: Seq<u8>) -> Option<(u64, nat)> {
        match decode_unsigned(bytes, 8) {
            Some((v, n)) => Some((v as u64, n)),
            None => None,
        }
    }

    fn read(data: &mut ByteCursor) -> (r: Result<u64, ReadError>) {
        read_unsigned(data, 8)
    }
}

impl ReadFrom for i8 {
    open spec fn decode(bytes: Seq<u8>) -> Option<(i8, nat)> {
        match decode_signed(bytes, 1) {
            Some((v, n)) => Some((v as i8, n)),
            None => None,
        }
    }

    fn read(data: &mut ByteCursor) -> (r: Result<i8, ReadError>) {
        proof {
            assert(pow256(1) == 256) by {
                reveal_with_fuel(pow256, 2);
            }
        }
        match read_unsigned(data, 1) {
            Ok(v) => Ok(if v >= 128 {
                (v as i16 - 256) as i8
            } else {
                v as i8
            }),
            Err(e) => Err(e),
        }
    }
}

impl ReadFrom for i16 {
    open spec fn decode(bytes: Seq<u8>) -> Option<(i16, nat)> {
        match decode_signed(bytes, 2) {
            Some((v, n)) => Some((v as i16, n)),
            None => None,
        }
    }

    fn read(data: &mut ByteCursor) -> (r: Result<i16, ReadError>) {
        proof {
            assert(pow256(2) == 65536) by {
                reveal_with_fuel(pow256, 3);
            }
        }
        match read_unsigned(data, 2) {
            Ok(v) => Ok(if v >= 32768 {
                (v as i32 - 65536) as i16
            } else {
                v as i16
            }),
            Err(e) => Err(e),
        }
    }
}

impl ReadFrom for i32 {
    open spec fn decode(bytes: Seq<u8>) -> Option<(i32, nat)> {
        match decode_signed(bytes, 4) {
            Some((v, n)) => Some((v as i32, n)),
            None => None,
        }
    }

    fn read(data: &mut ByteCursor) -> (r: Result<i32, ReadError>) {
        proof {
            assert(pow256(4) == 4294967296) by {
                reveal_with_fuel(pow256, 5);
            }
        }
        match read_unsigned(data, 4) {
            Ok(v) => Ok(if v >= 2147483648 {
                (v as i64 - 4294967296) as i32
            } else {
                v as i32
            }),
            Err(e) => Err(e),
        }
    }
}

impl ReadFrom for i64 {
    open spec fn decode(bytes: Seq<u8>) -> Option<(i64, nat)> {
        match decode_signed(bytes, 8) {
            Some((v, n)) => Some((v as i64, n)),
            None => None,
        }
    }

    fn read(data: &mut ByteCursor) -> (r: Result<i64, ReadError>) {
        proof {
            assert(pow256(8) == 18446744073709551616) by {
                reveal_with_fuel(pow256, 9);
            }
        }
        match read_unsigned(data, 8) {
            Ok(v) => Ok(if v >= 9223372036854775808 {
                (v as i128 - 18446744073709551616) as i64
            } else {
                v as i64
            }),
            Err(e) => Err(e),
        }
    }
}

impl ReadFrom for bool {
    /// A byte; any byte but zero is `true`.
    open spec fn decode(bytes: Seq<u8>) -> Option<(bool, nat)> {
        match <u8 as ReadFrom>::decode(bytes) {
            Some((b, n)) => Some((b != 0, n)),
            None => None,
        }
    }

    fn read(data: &mut ByteCursor) -> (r: Result<bool, ReadError>) {
        match <u8 as ReadFrom>::read(data) {
            Ok(b) => Ok(b != 0),
            Err(e) => Err(e),
        }
    }
}

impl<T: ReadFrom> ReadFrom for Option<T> {
    /// A presence flag, then the value where the flag is set.
    open spec fn decode(bytes: Seq<u8>) -> Option<(Option<T>, nat)> {
        match <bool as ReadFrom>::decode(bytes) {
            Some((true, n)) => match T::decode(bytes.skip(n as int)) {
                Some((v, m)) => Some((Some(v), n + m)),
                None => None,
            },
            Some((false, n)) => Some((None, n)),
            None => None,
        }
    }

    fn read(data: &mut ByteCursor) -> (r: Result<Option<T>, ReadError>) {
        let ghost start = *data;
        match <bool as ReadFrom>::read(data) {
            Ok(true) => {
                proof {
                    assert(data.remaining() == start.remaining().skip(1));
                }
                match T::read(data) {
                    Ok(v) => Ok(Some(v)),
                    Err(e) => Err(e),
                }
            },
            Ok(false) => Ok(None),
            Err(e) => Err(e),
        }
    }
}

/// Declares `uuid::Uuid`.
#[verifier::external_type_specification]
#[verifier::external_body]
pub struct ExUuid(Uuid);

/// The UUID that `Uuid::from_u64_pair` builds from its most and least
/// significant 64 bits.
pub uninterp spec fn uuid_of(high: u64, low: u64) -> Uuid;

/// Calls `Uuid::from_u64_pair`.
#[verifier::external_body]
fn uuid_from_u64_pair(high: u64, low: u64) -> (u: Uuid)
    ensures
        u == uuid_of(high, low),
{
    Uuid::from_u64_pair(high, low)
}

impl ReadFrom for Uuid {
    /// The most significant 64 bits, then the least significant, each
    /// big-endian.
    open spec fn decode(bytes: Seq<u8>) -> Option<(Uuid, nat)> {
        if bytes.len() >= 16 {
            Some(
                (
                    uuid_of(
                        be_value(bytes.take(8)) as u64,
                        be_value(bytes.skip(8).take(8)) as u64,
                    ),
                    16,
                ),
            )
        } else {
            None
        }
    }

    fn read(data: &mut ByteCursor) -> (r: Result<Uuid, ReadError>) {
        let ghost start = *data;
        let high = match <u64 as ReadFrom>::read(data) {
            Ok(v) => v,
            Err(e) => return Err(e),
        };
        proof {
            assert(data.remaining() == start.remaining().skip(8));
        }
        let low = match <u64 as ReadFrom>::read(data) {
            Ok(v) => v,
            Err(e) => {
                return Err(e);
            },
        };
        Ok(uuid_from_u64_pair(high, low))
    }
}

/// The big-endian `i32` that starts `k` four-byte words into `bytes`.
pub open spec fn i32_word(bytes: Seq<u8>, k: int) -> i32 {
    twos_complement(be_value(bytes.skip(4 * k).take(4)), 4) as i32
}

/// Declares `glam::IVec2`.
#[verifier::external_type_specification]
#[verifier::external_body]
pub struct ExIVec2(IVec2);

/// The vector that `IVec2::new` builds from its `x` and `y` components.
pub uninterp spec fn ivec2_of(x: i32, y: i32) -> IVec2;

/// Calls `IVec2::new`.
#[verifier::external_body]
fn ivec2_new(x: i32, y: i32) -> (v: IVec2)
    ensures
        v == ivec2_of(x, y),
{
    IVec2::new(x, y)
}

impl ReadFrom for IVec2 {
    /// `x`, then `y`, each a big-endian `i32`.
    open spec fn decode(bytes: Seq<u8>) -> Option<(IVec2, nat)> {
        if bytes.len() >= 8 {
            Some((ivec2_of(i32_word(bytes, 0), i32_word(bytes, 1)), 8))
        } else {
            None
        }
    }

    fn read(data: &mut ByteCursor) -> (r: Result<IVec2, ReadError>) {
        let ghost start = *data;
        let x = match <i32 as ReadFrom>::read(data) {
            Ok(v) => v,
            Err(e) => return Err(e),
        };
        proof {
            assert(data.remaining() == start.remaining().skip(4));
            assert(start.remaining().skip(0) == start.remaining());
        }
        let y = match <i32 as ReadFrom>::read(data) {
            Ok(v) => v,
            Err(e) => return Err(e),
        };
        Ok(ivec2_new(x, y))
    }
}

/// Declares `glam::IVec3`.
#[verifier::external_type_specification]
#[verifier::external_body]
pub struct ExIVec3(IVec3);

/// The vector that `IVec3::new` builds from its `x`, `y` and `z`
/// components.
pub uninterp spec fn ivec3_of(x: i32, y: i32, z: i32) -> IVec3;

/// Calls `IVec3::new`.
#[verifier::external_body]
fn ivec3_new(x: i32, y: i32, z: i32) -> (v: IVec3)
    ensures
        v == ivec3_of(x, y, z),
{
    IVec3::new(x, y, z)
}

impl ReadFrom for IVec3 {
    /// `x`, then `y`, then `z`, each a big-endian `i32`.
    open spec fn decode(bytes: Seq<u8>) -> Option<(IVec3, nat)> {
        if bytes.len() >= 12 {
            Some((ivec3_of(i32_word(bytes, 0), i32_word(bytes, 1), i32_word(bytes, 2)), 12))
        } else {
            None
        }
    }

    fn read(data: &mut ByteCursor) -> (r: Result<IVec3, ReadError>) {
        let ghost start = *data;
        let x = match <i32 as ReadFrom>::read(data) {
            Ok(v) => v,
            Err(e) => return Err(e),
        };
        proof {
            assert(data.remaining() == start.remaining().skip(4));
            assert(start.remaining().skip(0) == start.remaining());
        }
        let y = match <i32 as ReadFrom>::read(data) {
            Ok(v) => v,
            Err(e) => return Err(e),
        };
        proof {
            assert(data.remaining() == start.remaining().skip(8));
            assert(start.remaining().skip(4).skip(4) == start.remaining().skip(8));
        }
        let z = match <i32 as ReadFrom>::read(data) {
            Ok(v) => v,
            Err(e) => return Err(e),
        };
        Ok(ivec3_new(x, y, z))
    }
}

/// `count` values of `T` read one after another from the start of `bytes`,
/// and the number of bytes they take.
pub open spec fn decode_many<T: ReadFrom>(bytes: Seq<u8>, count: nat) -> Option<(Seq<T>, nat)>
    decreases count,
{
    if count == 0 {
        Some((Seq::empty(), 0))
    } else {
        match decode_many::<T>(bytes, (count - 1) as nat) {
            Some((vs, n)) => match T::decode(bytes.skip(n as int)) {
                Some((v, m)) => Some((vs.push(v), n + m)),
                None => None,
            },
            None => None,
        }
    }
}

proof fn lemma_decode_many_stays_none<T: ReadFrom>(bytes: Seq<u8>, k: nat, count: nat)
    requires
        k <= count,
        decode_many::<T>(bytes, k) is None,
    ensures
        decode_many::<T>(bytes, count) is None,
    decreases count - k,
{
    if k < count {
        lemma_decode_many_stays_none::<T>(bytes, k, (count - 1) as nat);
    }
}

/// Calls `<[T; N]>::try_from` on a vector of exactly `N` items.
#[verifier::external_body]
fn vec_into_array<T, const N: usize>(v: Vec<T>) -> (a: [T; N])
    requires
        v@.len() == N,
    ensures
        a@ == v@,
{
    <[T; N]>::try_from(v).ok().unwrap()
}

impl<T: ReadFrom, const N: usize> ReadFrom for [T; N] {
    /// `N` values, one after another.
    open spec fn decode(bytes: Seq<u8>) -> Option<([T; N], nat)> {
        match decode_many::<T>(bytes, N as nat) {
            Some((vs, n)) => Some((choose|a: [T; N]| a@ == vs, n)),
            None => None,
        }
    }

    fn read(data: &mut ByteCursor) -> (r: Result<[T; N], ReadError>) {
        proof {
            use_type_invariant(&*data);
        }
        let ghost start = *data;
        let mut items: Vec<T> = Vec::new();
        let mut i: usize = 0;
        proof {
            assert(start.remaining().skip(0) =~= start.remaining());
        }
        while i < N
            invariant
                i <= N,
                items@.len() == i,
                start == *old(data),
                data.bytes() == start.bytes(),
                start.pos() <= data.pos() <= start.bytes().len(),
                data.remaining() == start.remaining().skip(data.pos() - start.pos()),
                decode_many::<T>(start.remaining(), i as nat) == Some(
                    (items@, (data.pos() - start.pos()) as nat),
                ),
            decreases N - i,
        {
            let ghost before = *data;
            match T::read(data) {
                Ok(v) => {
                    items.push(v);
                    proof {
                        use_type_invariant(&*data);
                        assert(data.remaining() =~= start.remaining().skip(data.pos() - start.pos()));
                    }
                },
                Err(e) => {
                    proof {
                        assert(T::decode(before.remaining()) is None);
                        assert(decode_many::<T>(start.remaining(), (i + 1) as nat) is None);
                        assert(data.bytes() == start.bytes());
                        lemma_decode_many_stays_none::<T>(start.remaining(), (i + 1) as nat, N as nat);
                    }
                    return Err(e);
                },
            }
            i = i + 1;
        }
        let a: [T; N] = vec_into_array(items);
        proof {
            let vs = items@;
            assert(a@ == vs);
            let c = choose|b: [T; N]| b@ == vs;
            assert(c@ == vs);
            vstd::array::axiom_array_ext_equal(a, c);
            assert(a == c);
        }
        Ok(a)
    }
}

/// A big-endian number of `s.len()` bytes lies in `0 .. 256^len`.
proof fn lemma_be_value_bounds(s: Seq<u8>)
    ensures
        0 <= be_value(s) < pow256(s.len()),
    decreases s.len(),
{
    if s.len() > 0 {
        lemma_be_value_bounds(s.drop_last());
        let a = be_value(s.drop_last());
        let p = pow256(s.drop_last().len());
        let l = s.last() as int;
        assert(0 <= a * 256 + l < p * 256) by (nonlinear_arith)
            requires
                0 <= a < p,
                0 <= l < 256,
        ;
    }
}

/// The first byte of a big-endian number is its most significant digit.
proof fn lemma_be_value_front(s: Seq<u8>)
    requires
        s.len() > 0,
    ensures
        be_value(s) == s[0] * pow256((s.len() - 1) as nat) + be_value(s.drop_first()),
    decreases s.len(),
{
    if s.len() == 1 {
        assert(s.drop_last().len() == 0);
        assert(s.drop_first().len() == 0);
        assert(s.last() == s[0]);
        assert(be_value(s.drop_last()) == 0);
        assert(be_value(s.drop_first()) == 0);
        assert(pow256(0) == 1);
        assert(be_value(s) == be_value(s.drop_last()) * 256 + s.last());
    } else {
        let init = s.drop_last();
        lemma_be_value_front(init);
        assert(init.drop_first() == s.drop_first().drop_last());
        assert(s.drop_first().last() == s.last());
        let p = pow256((init.len() - 1) as nat);
        assert(pow256((s.len() - 1) as nat) == 256 * p);
        let a = s[0] as int;
        let b = be_value(init.drop_first());
        assert((a * p + b) * 256 == a * (256 * p) + b * 256) by (nonlinear_arith);
        assert(init[0] == s[0]);
        assert(be_value(s) == be_value(init) * 256 + s.last());
        assert(be_value(s.drop_first()) == be_value(s.drop_first().drop_last()) * 256
            + s.drop_first().last());
        assert(be_value(init) == a * p + b);
        assert(be_value(s.drop_first()) == b * 256 + s.last());
    }
}

/// Of a number of `w` bytes (`1 <= w <= 8`) read from the start of `b`, its
/// two's complement value agrees with the unsigned value modulo `256^w`,
/// is negative exactly when the first byte has its top bit set, and lies in
/// the signed range of `w` bytes.
proof fn lemma_twos_complement_of_bytes(b: Seq<u8>, w: nat)
    requires
        1 <= w <= 8,
        b.len() >= w,
    ensures
        ({
            let u = be_value(b.take(w as int));
            let t = twos_complement(u, w);
            &&& (t - u) % pow256(w) == 0
            &&& (t < 0 <==> b[0] >= 128)
            &&& -(pow256(w) / 2) <= t < pow256(w) / 2
        }),
{
    let s = b.take(w as int);
    lemma_be_value_bounds(s);
    lemma_be_value_front(s);
    lemma_be_value_bounds(s.drop_first());
    assert(s[0] == b[0]);
    let p = pow256((w - 1) as nat);
    lemma_pow256_monotone(0, (w - 1) as nat);
    assert(pow256(w) == 256 * p);
    let u = be_value(s);
    let r = be_value(s.drop_first());
    let f = b[0] as int;
    assert(u == f * p + r);
    assert(0 <= r < p);
    assert(pow256(w) / 2 == 128 * p);
    assert((u >= 128 * p) <==> (f >= 128)) by (nonlinear_arith)
        requires
            u == f * p + r,
            0 <= r < p,
            0 <= f < 256,
            p >= 1,
    ;
    let t = twos_complement(u, w);
    if u >= pow256(w) / 2 {
        assert(t - u == -pow256(w));
        assert((-pow256(w)) % pow256(w) == 0) by (nonlinear_arith)
            requires
                pow256(w) >= 1,
        ;
    } else {
        assert(t - u == 0);
    }
}

/// An `i64` is read as the eight bytes of its big-endian two's complement
/// form: reading needs eight bytes and takes exactly eight; the value
/// agrees with the eight bytes read as an unsigned number modulo 2^64, and
/// is negative exactly when the first byte has its top bit set.
pub proof fn law_i64_big_endian(bytes: Seq<u8>)
    ensures
        <i64 as ReadFrom>::decode(bytes) is Some <==> bytes.len() >= 8,
        <i64 as ReadFrom>::decode(bytes) matches Some((v, n)) ==> n == 8 && (v - be_value(
            bytes.take(8),
        )) % 18446744073709551616 == 0 && (v < 0 <==> bytes[0] >= 128),
{
    if bytes.len() >= 8 {
        lemma_twos_complement_of_bytes(bytes, 8);
        assert(pow256(8) == 18446744073709551616) by {
            reveal_with_fuel(pow256, 9);
        }
    }
}

/// The narrower signed integers are read the same way: an `i32` from four
/// bytes, an `i16` from two and an `i8` from one, each agreeing with the
/// bytes read unsigned modulo `256^width` and negative exactly when the
/// first byte has its top bit set.
pub proof fn law_narrow_signed_big_endian(bytes: Seq<u8>)
    ensures
        <i32 as ReadFrom>::decode(bytes) is Some <==> bytes.len() >= 4,
        <i32 as ReadFrom>::decode(bytes) matches Some((v, n)) ==> n == 4 && (v - be_value(
            bytes.take(4),
        )) % 4294967296 == 0 && (v < 0 <==> bytes[0] >= 128),
        <i16 as ReadFrom>::decode(bytes) is Some <==> bytes.len() >= 2,
        <i16 as ReadFrom>::decode(bytes) matches Some((v, n)) ==> n == 2 && (v - be_value(
            bytes.take(2),
        )) % 65536 == 0 && (v < 0 <==> bytes[0] >= 128),
        <i8 as ReadFrom>::decode(bytes) is Some <==> bytes.len() >= 1,
        <i8 as ReadFrom>::decode(bytes) matches Some((v, n)) ==> n == 1 && (v - bytes[0]) % 256 == 0
            && (v < 0 <==> bytes[0] >= 128),
{
    assert(pow256(4) == 4294967296) by {
        reveal_with_fuel(pow256, 5);
    }
    assert(pow256(2) == 65536) by {
        reveal_with_fuel(pow256, 3);
    }
    assert(pow256(1) == 256) by {
        reveal_with_fuel(pow256, 2);
    }
    if bytes.len() >= 4 {
        lemma_twos_complement_of_bytes(bytes, 4);
    }
    if bytes.len() >= 2 {
        lemma_twos_complement_of_bytes(bytes, 2);
    }
    if bytes.len() >= 1 {
        lemma_twos_complement_of_bytes(bytes, 1);
        let one = bytes.take(1);
        assert(one.drop_last().len() == 0);
        assert(be_value(one) == be_value(one.drop_last()) * 256 + one.last());
        assert(one.last() == bytes[0]);
    }
}

/// The unsigned integers are read as the big-endian number their bytes
/// form: a `u64` from eight bytes, a `u32` from four, a `u16` from two and a
/// `u8` from one; and a `bool` is `true` exactly when its byte is not zero.
pub proof fn law_unsigned_big_endian(bytes: Seq<u8>)
    ensures
        <u64 as ReadFrom>::decode(bytes) is Some <==> bytes.len() >= 8,
        <u64 as ReadFrom>::decode(bytes) matches Some((v, n)) ==> n == 8 && v == be_value(bytes.take(8)),
        <u32 as ReadFrom>::decode(bytes) is Some <==> bytes.len() >= 4,
        <u32 as ReadFrom>::decode(bytes) matches Some((v, n)) ==> n == 4 && v == be_value(bytes.take(4)),
        <u16 as ReadFrom>::decode(bytes) is Some <==> bytes.len() >= 2,
        <u16 as ReadFrom>::decode(bytes) matches Some((v, n)) ==> n == 2 && v == be_value(bytes.take(2)),
        <u8 as ReadFrom>::decode(bytes) is Some <==> bytes.len() >= 1,
        <u8 as ReadFrom>::decode(bytes) matches Some((v, n)) ==> n == 1 && v == bytes[0],
        <bool as ReadFrom>::decode(bytes) is Some <==> bytes.len() >= 1,
        <bool as ReadFrom>::decode(bytes) matches Some((v, n)) ==> n == 1 && (v <==> bytes[0] != 0),
{
    assert(pow256(8) == 18446744073709551616) by {
        reveal_with_fuel(pow256, 9);
    }
    assert(pow256(4) == 4294967296) by {
        reveal_with_fuel(pow256, 5);
    }
    assert(pow256(2) == 65536) by {
        reveal_with_fuel(pow256, 3);
    }
    assert(pow256(1) == 256) by {
        reveal_with_fuel(pow256, 2);
    }
    if bytes.len() >= 8 {
        lemma_be_value_bounds(bytes.take(8));
    }
    if bytes.len() >= 4 {
        lemma_be_value_bounds(bytes.take(4));
    }
    if bytes.len() >= 2 {
        lemma_be_value_bounds(bytes.take(2));
    }
    if bytes.len() >= 1 {
        let one = bytes.take(1);
        assert(one.drop_last().len() == 0);
        assert(be_value(one) == be_value(one.drop_last()) * 256 + one.last());
        assert(one.last() == bytes[0]);
    }
}

} // verus!
