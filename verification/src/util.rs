//! Savestate encoding and the random number generator.

use vstd::prelude::*;

verus! {

//
// Filling a buffer from a reader
//

/// How far `read_to_buf` has got.
#[derive(Clone, Copy, PartialEq, Eq, Structural, Debug)]
pub enum ReadProgress {
    /// The buffer is full.
    Filled,
    /// This many bytes of the buffer are filled; the reader is asked for more.
    Partial(usize),
}

/// The reader signalled end of file before the buffer was full.
#[derive(Clone, Copy, PartialEq, Eq, Structural, Debug)]
pub enum ReadError {
    EofReachedPrematurely,
}

/// One round of filling `buf` from a reader: the first `total` bytes are already filled and
/// the reader handed back `chunk` (at most the rest of the buffer).  The chunk is copied in
/// after them.  An empty chunk means end of file before the buffer was full.
pub fn read_to_buf(buf: &mut [u8], total: usize, chunk: &[u8]) -> (r: Result<ReadProgress, ReadError>)
    requires
        total < old(buf)@.len(),
        chunk@.len() <= old(buf)@.len() - total,
    ensures
        chunk@.len() == 0 ==> r == Err::<ReadProgress, ReadError>(ReadError::EofReachedPrematurely)
            && final(buf)@ == old(buf)@,
        chunk@.len() > 0 ==> {
            &&& final(buf)@ == old(buf)@.subrange(0, total as int) + chunk@
                + old(buf)@.subrange(total + chunk@.len(), old(buf)@.len() as int)
            &&& r == if total + chunk@.len() == old(buf)@.len() {
                Ok::<ReadProgress, ReadError>(ReadProgress::Filled)
            } else {
                Ok(ReadProgress::Partial((total + chunk@.len()) as usize))
            }
        },
{
    if chunk.len() == 0 {
        return Err(ReadError::EofReachedPrematurely);
    }
    assert(buf@.len() == buf.len());
    let mut i: usize = 0;
    while i < chunk.len()
        invariant
            i <= chunk@.len(),
            total + chunk@.len() <= buf@.len(),
            buf@.len() == old(buf)@.len(),
            buf@.len() == buf.len(),
            forall|j: int| 0 <= j < total ==> buf@[j] == old(buf)@[j],
            forall|j: int| 0 <= j < i ==> buf@[total + j] == chunk@[j],
            forall|j: int| total + i <= j < buf@.len() ==> buf@[j] == old(buf)@[j],
        decreases chunk@.len() - i,
    {
        buf[total + i] = chunk[i];
        i = i + 1;
    }
    assert(buf@ =~= old(buf)@.subrange(0, total as int) + chunk@
        + old(buf)@.subrange(total + chunk@.len(), old(buf)@.len() as int));
    if total + chunk.len() == buf.len() {
        Ok(ReadProgress::Filled)
    } else {
        Ok(ReadProgress::Partial(total + chunk.len()))
    }
}

//
// A tiny custom serialization infrastructure, used for savestates.
//

/// The `n` bytes of `v` in little-endian order.
pub open spec fn le_bytes(v: int, n: nat) -> Seq<u8>
    decreases n,
{
    if n == 0 {
        Seq::empty()
    } else {
        seq![(v % 256) as u8] + le_bytes(v / 256, (n - 1) as nat)
    }
}

/// The number that little-endian bytes spell.
pub open spec fn le_value(b: Seq<u8>) -> int
    decreases b.len(),
{
    if b.len() == 0 {
        0
    } else {
        b[0] + 256 * le_value(b.subrange(1, b.len() as int))
    }
}

/// 256 to the power `n`.
pub open spec fn pow256(n: nat) -> int
    decreases n,
{
    if n == 0 { 1 } else { 256 * pow256((n - 1) as nat) }
}

/// Reading back `n` little-endian bytes gives the number modulo 256^n.
pub proof fn lemma_le_roundtrip(v: int, n: nat)
    requires
        0 <= v,
    ensures
        le_bytes(v, n).len() == n,
        le_value(le_bytes(v, n)) == v % pow256(n),
    decreases n,
{
    if n > 0 {
        lemma_le_roundtrip(v / 256, (n - 1) as nat);
        let b = le_bytes(v, n);
        assert(b.subrange(1, b.len() as int) =~= le_bytes(v / 256, (n - 1) as nat));
        let p = pow256((n - 1) as nat);
        assert(p > 0) by {
            lemma_pow256_pos((n - 1) as nat);
        }
        assert(v % 256 + 256 * ((v / 256) % p) == v % (256 * p)) by (nonlinear_arith)
            requires
                p > 0,
                v >= 0,
        {
            vstd::arithmetic::div_mod::lemma_breakdown(v, 256, p);
        }
    }
}

pub proof fn lemma_pow256_mono(m: nat, n: nat)
    requires
        m <= n,
    ensures
        pow256(m) <= pow256(n),
    decreases n,
{
    lemma_pow256_pos(n);
    if m < n {
        lemma_pow256_mono(m, (n - 1) as nat);
    }
}

pub proof fn lemma_pow256_pos(n: nat)
    ensures
        pow256(n) > 0,
    decreases n,
{
    if n > 0 {
        lemma_pow256_pos((n - 1) as nat);
    }
}

/// A value that can be written to and read back from a savestate.
pub trait Save: Sized {
    /// The bytes that `save` appends.
    spec fn spec_saved(&self) -> Seq<u8>;

    /// The number of bytes that `load` reads.
    spec fn spec_size(&self) -> nat;

    /// The value after `load` reads `bytes` over `self`.
    spec fn spec_loaded(&self, bytes: Seq<u8>) -> Self;

    fn save(&self, out: &mut Vec<u8>)
        ensures
            final(out)@ == old(out)@ + self.spec_saved(),
    ;

    fn load(&mut self, input: &[u8], pos: usize) -> (next: usize)
        requires
            pos + old(self).spec_size() <= input.len(),
        ensures
            next == pos + old(self).spec_size(),
            final(self).spec_size() == old(self).spec_size(),
            *final(self) == old(self).spec_loaded(input@.subrange(pos as int, next as int)),
    ;
}

impl Save for u8 {
    open spec fn spec_saved(&self) -> Seq<u8> {
        seq![*self]
    }

    open spec fn spec_size(&self) -> nat {
        1
    }

    open spec fn spec_loaded(&self, bytes: Seq<u8>) -> u8 {
        bytes[0]
    }

    fn save(&self, out: &mut Vec<u8>) {
        out.push(*self);
        assert(out@ =~= old(out)@ + self.spec_saved());
    }

    fn load(&mut self, input: &[u8], pos: usize) -> (next: usize) {
        *self = input[pos];
        pos + 1
    }
}

impl Save for u16 {
    /// Little-endian.
    open spec fn spec_saved(&self) -> Seq<u8> {
        le_bytes(*self as int, 2)
    }

    open spec fn spec_size(&self) -> nat {
        2
    }

    open spec fn spec_loaded(&self, bytes: Seq<u8>) -> u16 {
        (bytes[0] + 256 * bytes[1]) as u16
    }

    fn save(&self, out: &mut Vec<u8>) {
        let v = *self;
        proof { crate::bits::lemma_word(v); }
        out.push(*self as u8);
        out.push((*self >> 8u16) as u8);
        assert(le_bytes(v as int, 2) =~= seq![(v % 256) as u8, ((v / 256) % 256) as u8]) by {
            reveal_with_fuel(le_bytes, 3);
        }
        assert(out@ =~= old(out)@ + self.spec_saved());
    }

    fn load(&mut self, input: &[u8], pos: usize) -> (next: usize) {
        let (b0, b1) = (input[pos], input[pos + 1]);
        proof { crate::bits::lemma_bytes_to_word(b0, b1); }
        *self = (b0 as u16) | ((b1 as u16) << 8u16);
        pos + 2
    }
}

impl Save for u64 {
    /// Little-endian.
    open spec fn spec_saved(&self) -> Seq<u8> {
        le_bytes(*self as int, 8)
    }

    open spec fn spec_size(&self) -> nat {
        8
    }

    open spec fn spec_loaded(&self, bytes: Seq<u8>) -> u64 {
        le_value(bytes.subrange(0, 8)) as u64
    }

    fn save(&self, out: &mut Vec<u8>) {
        let mut x = *self;
        let mut i: usize = 0;
        while i < 8
            invariant
                i <= 8,
                old(out)@ + self.spec_saved() == out@ + le_bytes(x as int, (8 - i) as nat),
            decreases 8 - i,
        {
            assert(x as u8 == x % 256 && x >> 8u64 == x / 256) by (bit_vector);
            out.push(x as u8);
            assert(le_bytes(x as int, (8 - i) as nat) =~= seq![(x % 256) as u8] + le_bytes(
                x as int / 256,
                (8 - i - 1) as nat,
            ));
            x = x >> 8u64;
            i = i + 1;
        }
        assert(le_bytes(x as int, 0) =~= Seq::<u8>::empty());
        assert(out@ =~= old(out)@ + self.spec_saved());
    }

    fn load(&mut self, input: &[u8], pos: usize) -> (next: usize) {
        let ghost bytes = input@.subrange(pos as int, pos + 8);
        let mut v: u64 = 0;
        let mut i: usize = 8;
        while i > 0
            invariant
                i <= 8,
                pos + 8 <= input.len(),
                bytes == input@.subrange(pos as int, pos + 8),
                v == le_value(bytes.subrange(i as int, 8)),
                v < pow256((8 - i) as nat),
            decreases i,
        {
            i = i - 1;
            let b = input[pos + i];
            let ghost rest = bytes.subrange(i as int, 8);
            assert(rest.subrange(1, rest.len() as int) =~= bytes.subrange(i + 1, 8));
            assert(pow256((8 - i) as nat) == 256 * pow256((8 - i - 1) as nat));
            assert(pow256(8) == 0x1_0000_0000_0000_0000) by {
                reveal_with_fuel(pow256, 9);
            }
            assert(pow256((8 - i) as nat) <= pow256(8)) by {
                lemma_pow256_mono((8 - i) as nat, 8);
            }
            assert(v * 256 + b < pow256((8 - i) as nat)) by (nonlinear_arith)
                requires
                    v < pow256((8 - i - 1) as nat),
                    b < 256,
                    pow256((8 - i) as nat) == 256 * pow256((8 - i - 1) as nat),
            ;
            v = v * 256 + b as u64;
        }
        assert(bytes.subrange(0, 8) =~= bytes);
        *self = v;
        pos + 8
    }
}

impl Save for bool {
    /// A byte: 1 for true and 0 for false.
    open spec fn spec_saved(&self) -> Seq<u8> {
        seq![if *self { 1u8 } else { 0u8 }]
    }

    open spec fn spec_size(&self) -> nat {
        1
    }

    /// True when the byte is not 0.
    open spec fn spec_loaded(&self, bytes: Seq<u8>) -> bool {
        bytes[0] != 0
    }

    fn save(&self, out: &mut Vec<u8>) {
        out.push(if *self { 1 } else { 0 });
        assert(out@ =~= old(out)@ + self.spec_saved());
    }

    fn load(&mut self, input: &[u8], pos: usize) -> (next: usize) {
        *self = input[pos] != 0;
        pos + 1
    }
}

//
// Laws of the savestate encoding
//

/// A byte reads back as it was saved, whatever value the load overwrites.
pub proof fn lemma_save_load_u8(v: u8, any: u8)
    ensures
        v.spec_saved().len() == v.spec_size(),
        any.spec_loaded(v.spec_saved()) == v,
{
}

/// A 16-bit word reads back as it was saved.
pub proof fn lemma_save_load_u16(v: u16, any: u16)
    ensures
        v.spec_saved().len() == v.spec_size(),
        any.spec_loaded(v.spec_saved()) == v,
{
    reveal_with_fuel(le_bytes, 3);
}

/// A 64-bit word reads back as it was saved.
pub proof fn lemma_save_load_u64(v: u64, any: u64)
    ensures
        v.spec_saved().len() == v.spec_size(),
        any.spec_loaded(v.spec_saved()) == v,
{
    lemma_le_roundtrip(v as int, 8);
    assert(pow256(8) == 0x1_0000_0000_0000_0000) by {
        reveal_with_fuel(pow256, 9);
    }
    assert(v.spec_saved().subrange(0, 8) =~= v.spec_saved());
}

/// A flag reads back as it was saved.
pub proof fn lemma_save_load_bool(v: bool, any: bool)
    ensures
        v.spec_saved().len() == v.spec_size(),
        any.spec_loaded(v.spec_saved()) == v,
{
}

//
// Random number generation
//

#[derive(Clone, Copy, PartialEq, Eq, Structural)]
pub struct Xorshift {
    pub x: u32,
    pub y: u32,
    pub z: u32,
    pub w: u32,
}

/// One step of xorshift128: the state moves along by one word and the new last word is
/// the output.
pub open spec fn xorshift_next(s: Xorshift) -> (Xorshift, u32) {
    let t = s.x ^ (s.x << 11u32);
    let w = s.w ^ (s.w >> 19u32) ^ (t ^ (t >> 8u32));
    (Xorshift { x: s.y, y: s.z, z: s.w, w: w }, w)
}

impl Xorshift {
    pub fn new() -> (r: Xorshift)
        ensures
            r == (Xorshift { x: 123456789, y: 362436069, z: 521288629, w: 88675123 }),
    {
        Xorshift { x: 123456789, y: 362436069, z: 521288629, w: 88675123 }
    }

    pub fn next(&mut self) -> (r: u32)
        ensures
            (*final(self), r) == xorshift_next(*old(self)),
    {
        let t = self.x ^ (self.x << 11u32);
        self.x = self.y;
        self.y = self.z;
        self.z = self.w;
        self.w = self.w ^ (self.w >> 19u32) ^ (t ^ (t >> 8u32));
        self.w
    }
}

//
// Simple assertions
//

/// Debug output is compiled out of release builds: the check and the message are dropped.
pub fn debug_assert(_cond: bool, _msg: &str) {
}

/// Debug output is compiled out of release builds: the message is dropped.
pub fn debug_print(_msg: &str) {
}

//
// Wall-clock time
//

/// Milliseconds from a time of day given as whole seconds and microseconds.
pub fn current_time_millis(tv_sec: u64, tv_usec: u64) -> (ms: u64)
    requires
        tv_sec * 1000 + tv_usec / 1000 <= u64::MAX,
    ensures
        ms == tv_sec * 1000 + tv_usec / 1000,
{
    tv_sec * 1000 + tv_usec / 1000
}


/// The generator never falls into the all-zero state, from which it could not leave: a state
/// with a nonzero word steps to a state with a nonzero word.
pub proof fn lemma_xorshift_nonzero(s: Xorshift)
    requires
        s.x != 0 || s.y != 0 || s.z != 0 || s.w != 0,
    ensures
        ({
            let n = xorshift_next(s).0;
            n.x != 0 || n.y != 0 || n.z != 0 || n.w != 0
        }),
{
    let x = s.x;
    let w = s.w;
    assert(x != 0 && w == 0 ==> (w ^ (w >> 19u32) ^ ((x ^ (x << 11u32)) ^ ((x ^ (x << 11u32)) >> 8u32))) != 0)
        by (bit_vector);
}

} // verus!
