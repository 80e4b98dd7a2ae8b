//! A non-cryptographic hash function that mixes the data only.
//!
//! Each 64-bit word of input is folded into a single register by XOR and then
//! scrambled with the splitmix64 finalizer. Byte input is read eight bytes at a
//! time in the machine's own byte order, so digests differ between machines of
//! different endianness: never persist or transmit them.
use core::hash::{BuildHasher, Hasher};
use vstd::endian::{endianness, Endian};
use vstd::prelude::*;

verus! {

/// First multiplier of the finalizer.
pub const C1: u64 = 0xbf58476d1ce4e5b9;

/// Second multiplier of the finalizer.
pub const C2: u64 = 0x94d049bb133111eb;

/// The register after folding the word `i` into the register `acc`.
#[verifier::opaque]
pub open spec fn mix_word(acc: u64, i: u64) -> u64 {
    let x = i ^ acc;
    let x = (x ^ (x >> 30u64)).wrapping_mul(C1);
    let x = (x ^ (x >> 27u64)).wrapping_mul(C2);
    x ^ (x >> 31u64)
}

/// The register after folding the words `ws`, first to last, into `acc`.
pub open spec fn absorb_words(acc: u64, ws: Seq<u64>) -> u64
    decreases ws.len(),
{
    if ws.len() == 0 {
        acc
    } else {
        mix_word(absorb_words(acc, ws.drop_last()), ws.last())
    }
}

/// Eight bytes read least significant first.
pub open spec fn le_word(b: Seq<u8>) -> u64 {
    (b[0] as u64) | (b[1] as u64) << 8u64 | (b[2] as u64) << 16u64 | (b[3] as u64) << 24u64 | (
    b[4] as u64) << 32u64 | (b[5] as u64) << 40u64 | (b[6] as u64) << 48u64 | (b[7] as u64)
        << 56u64
}

/// Eight bytes read most significant first.
pub open spec fn be_word(b: Seq<u8>) -> u64 {
    (b[7] as u64) | (b[6] as u64) << 8u64 | (b[5] as u64) << 16u64 | (b[4] as u64) << 24u64 | (
    b[3] as u64) << 32u64 | (b[2] as u64) << 40u64 | (b[1] as u64) << 48u64 | (b[0] as u64)
        << 56u64
}

/// Eight bytes read in the byte order of the machine that runs the code.
pub open spec fn native_word(b: Seq<u8>) -> u64 {
    match endianness() {
        Endian::Little => le_word(b),
        Endian::Big => be_word(b),
    }
}

/// Trailing bytes packed most significant first into one word.
pub open spec fn tail_word(b: Seq<u8>) -> u64
    decreases b.len(),
{
    if b.len() == 0 {
        0
    } else {
        (tail_word(b.drop_last()) << 8u64) | (b.last() as u64)
    }
}

/// The words of each whole group of eight bytes, in order.
pub open spec fn whole_words(b: Seq<u8>) -> Seq<u64> {
    Seq::new(b.len() / 8, |k: int| native_word(b.subrange(8 * k, 8 * k + 8)))
}

/// The words that a byte slice is absorbed as: one per whole group of eight
/// bytes, then one for the remaining zero to seven bytes.
pub open spec fn byte_words(b: Seq<u8>) -> Seq<u64> {
    whole_words(b).push(tail_word(b.subrange(8 * (b.len() / 8) as int, b.len() as int)))
}

/// Relies on u64::from_ne_bytes: the eight bytes read in the machine's own byte
/// order, as u64::from_le_bytes on little-endian targets and u64::from_be_bytes
/// on big-endian ones.
#[verifier::external_body]
fn read_native_word(chunk: [u8; 8]) -> (r: u64)
    ensures
        r == native_word(chunk@),
{
    u64::from_ne_bytes(chunk)
}

/// The register of a fresh hasher, zero, is unchanged by absorbing the word
/// zero: each step of the finalizer maps zero to zero, so the digest of a fresh
/// hasher equals the mix of zero into a zero register.
pub proof fn zero_is_fixed_point()
    ensures
        mix_word(0, 0) == 0,
{
    reveal(mix_word);
    assert(mix_word(0, 0) == 0) by (bit_vector);
}

/// An empty byte slice advances the register exactly as the word zero does; on
/// a fresh register the digest therefore stays zero.
pub proof fn empty_write_is_zero_word(acc: u64)
    ensures
        absorb_words(acc, byte_words(Seq::empty())) == mix_word(acc, 0),
        absorb_words(0, byte_words(Seq::empty())) == 0,
{
    let b = Seq::<u8>::empty();
    assert(b.subrange(0, 0) =~= b);
    assert(tail_word(b) == 0);
    assert(whole_words(b) =~= Seq::<u64>::empty());
    assert(byte_words(b).drop_last() =~= Seq::<u64>::empty());
    assert(absorb_words(acc, Seq::<u64>::empty()) == acc);
    assert(absorb_words(0, Seq::<u64>::empty()) == 0);
    zero_is_fixed_point();
}

/// Two hashers with equal registers that absorb the same bytes end with equal
/// registers, so two fresh hashers give equal digests for equal input.
pub proof fn write_is_deterministic(a: Mixer, b: Mixer, bytes: Seq<u8>)
    requires
        a@ == b@,
    ensures
        absorb_words(a@, byte_words(bytes)) == absorb_words(b@, byte_words(bytes)),
{
}

/// A byte slice made of whole groups of eight bytes is absorbed as the
/// native-order word of each group, in order, followed by the word zero for the
/// empty remainder.
pub proof fn whole_groups_then_zero(acc: u64, bytes: Seq<u8>)
    requires
        bytes.len() % 8 == 0,
    ensures
        whole_words(bytes).len() == bytes.len() / 8,
        forall|k: int|
            0 <= k < bytes.len() / 8 ==> #[trigger] whole_words(bytes)[k] == native_word(
                bytes.subrange(8 * k, 8 * k + 8),
            ),
        absorb_words(acc, byte_words(bytes)) == mix_word(absorb_words(acc, whole_words(bytes)), 0),
{
    let rest = bytes.subrange(8 * (bytes.len() / 8) as int, bytes.len() as int);
    assert(rest.len() == 0);
    assert(byte_words(bytes).drop_last() =~= whole_words(bytes));
}

/// Builds a [`Mixer`].
#[derive(Clone, Copy, Debug)]
pub struct Mix;

impl BuildHasher for Mix {
    type Hasher = Mixer;

    fn build_hasher(&self) -> (r: Mixer)
        ensures
            r@ == 0,
    {
        Mixer(0)
    }
}

/// A hasher that mixes the data only.
#[derive(Clone, Copy, Debug)]
pub struct Mixer(u64);

impl View for Mixer {
    type V = u64;

    closed spec fn view(&self) -> u64 {
        self.0
    }
}

impl Hasher for Mixer {
    fn write(&mut self, bytes: &[u8])
        ensures
            final(self)@ == absorb_words(old(self)@, byte_words(bytes@)),
    {
        let ghost start = self@;
        let n = bytes.len();
        let mut pos: usize = 0;
        while n - pos >= 8
            invariant
                n == bytes@.len(),
                pos <= n,
                pos % 8 == 0,
                self@ == absorb_words(start, whole_words(bytes@).take(pos as int / 8)),
            decreases n - pos,
        {
            let chunk: [u8; 8] = [
                bytes[pos],
                bytes[pos + 1],
                bytes[pos + 2],
                bytes[pos + 3],
                bytes[pos + 4],
                bytes[pos + 5],
                bytes[pos + 6],
                bytes[pos + 7],
            ];
            assert(chunk@ =~= bytes@.subrange(pos as int, pos + 8));
            let w = read_native_word(chunk);
            self.write_u64(w);
            proof {
                let ws = whole_words(bytes@);
                assert(ws.take((pos + 8) as int / 8).drop_last() =~= ws.take(pos as int / 8));
            }
            pos = pos + 8;
        }
        let whole = pos;
        assert(whole == 8 * (n / 8));
        let mut i: u64 = 0;
        while pos < n
            invariant
                n == bytes@.len(),
                whole <= pos <= n,
                i == tail_word(bytes@.subrange(whole as int, pos as int)),
            decreases n - pos,
        {
            assert(bytes@.subrange(whole as int, pos + 1).drop_last() =~= bytes@.subrange(
                whole as int,
                pos as int,
            ));
            i = (i << 8) | bytes[pos] as u64;
            pos = pos + 1;
        }
        proof {
            assert(whole_words(bytes@).take(whole as int / 8) =~= whole_words(bytes@));
            assert(byte_words(bytes@).drop_last() =~= whole_words(bytes@));
        }
        self.write_u64(i);
    }

    fn write_u8(&mut self, i: u8)
        ensures
            final(self)@ == mix_word(old(self)@, i as u64),
    {
        self.write_u64(i as u64);
    }

    fn write_u16(&mut self, i: u16)
        ensures
            final(self)@ == mix_word(old(self)@, i as u64),
    {
        self.write_u64(i as u64);
    }

    fn write_u32(&mut self, i: u32)
        ensures
            final(self)@ == mix_word(old(self)@, i as u64),
    {
        self.write_u64(i as u64);
    }

    fn write_u64(&mut self, i: u64)
        ensures
            final(self)@ == mix_word(old(self)@, i),
    {
        proof {
            reveal(mix_word);
        }
        let mut x = i ^ self.0;
        x = (x ^ (x >> 30)).wrapping_mul(C1);
        x = (x ^ (x >> 27)).wrapping_mul(C2);
        self.0 = x ^ (x >> 31);
    }

    fn write_u128(&mut self, i: u128)
        ensures
            final(self)@ == mix_word(mix_word(old(self)@, i as u64), (i >> 64u128) as u64),
    {
        self.write_u64(i as u64);
        self.write_u64((i >> 64) as u64);
    }

    fn write_usize(&mut self, i: usize)
        ensures
            usize::BITS == 128 ==> final(self)@ == mix_word(mix_word(old(self)@, i as u64), 0),
            usize::BITS != 128 ==> final(self)@ == mix_word(old(self)@, i as u64),
    {
        if usize::BITS == u128::BITS {
            self.write_u128(i as u128);
        } else {
            self.write_u64(i as u64);
        }
    }

    fn finish(&self) -> (r: u64)
        ensures
            r == self@,
    {
        self.0
    }
}

} // verus!
