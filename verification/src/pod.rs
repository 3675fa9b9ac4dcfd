//! Plain values that a message body can carry, and their bytes.
//!
//! A `Pod` value travels as exactly as many bytes as it occupies in memory
//! (`size_of`). Integers and booleans travel as their memory image: the
//! integer in the machine's native byte order, a boolean as `0` or `1`.
use vstd::arithmetic::div_mod::lemma_mod_breakdown;
use vstd::endian::{endianness, Endian};
use vstd::layout::{layout_of_primitives, size_of};
use vstd::prelude::*;

verus! {

/// A plain value with a byte image of its memory size.
pub trait Pod: Sized + Copy {
    /// The bytes that stand for `v`; there are `size_of::<Self>()` of them.
    spec fn spec_encode(v: Self) -> Seq<u8>;

    /// The value that `bytes` stand for.
    spec fn spec_decode(bytes: Seq<u8>) -> Self;

    /// Whether the memory size of the type is large enough for every value
    /// to come back from its bytes. Always true of the integers and `bool`.
    spec fn spec_round_trips() -> bool;

    /// Images have the memory size of the type, and decoding gives back what
    /// was encoded wherever the size is large enough.
    proof fn lemma_encoding(v: Self)
        ensures
            Self::spec_encode(v).len() == size_of::<Self>(),
            Self::spec_round_trips() ==> Self::spec_decode(Self::spec_encode(v)) == v,
    ;

    /// Appends the bytes of `self` to `out`.
    fn encode(&self, out: &mut Vec<u8>)
        ensures
            final(out)@ == old(out)@ + Self::spec_encode(*self),
    ;

    /// Reads a value from exactly `size_of::<Self>()` bytes.
    fn decode(bytes: &[u8]) -> (v: Self)
        requires
            bytes@.len() == size_of::<Self>(),
        ensures
            v == Self::spec_decode(bytes@),
    ;
}

/// `256` to the power `n`.
pub open spec fn pow256(n: nat) -> nat
    decreases n,
{
    if n == 0 {
        1
    } else {
        256 * pow256((n - 1) as nat)
    }
}

/// The `n` low bytes of `v`, least significant first.
pub open spec fn le_bytes(v: nat, n: nat) -> Seq<u8>
    decreases n,
{
    if n == 0 {
        Seq::empty()
    } else {
        seq![(v % 256) as u8] + le_bytes(v / 256, (n - 1) as nat)
    }
}

/// The number whose bytes, least significant first, are `s`.
pub open spec fn le_value(s: Seq<u8>) -> nat
    decreases s.len(),
{
    if s.len() == 0 {
        0
    } else {
        (s[0] + 256 * le_value(s.drop_first())) as nat
    }
}

/// Reading back the `n` low bytes of `v` gives `v` modulo `256^n`.
pub proof fn lemma_le_round_trip(v: nat, n: nat)
    ensures
        le_bytes(v, n).len() == n,
        le_value(le_bytes(v, n)) == v % pow256(n),
    decreases n,
{
    if n > 0 {
        let rest = le_bytes(v / 256, (n - 1) as nat);
        lemma_le_round_trip(v / 256, (n - 1) as nat);
        assert(le_bytes(v, n).drop_first() =~= rest);
        lemma_pow256_positive((n - 1) as nat);
        lemma_mod_breakdown(v as int, 256, pow256((n - 1) as nat) as int);
    }
}

/// Powers of 256 are positive.
pub proof fn lemma_pow256_positive(n: nat)
    ensures
        pow256(n) > 0,
    decreases n,
{
    if n > 0 {
        lemma_pow256_positive((n - 1) as nat);
    }
}

/// A number written in `len` bytes is below `256^len`.
pub proof fn lemma_le_value_bound(s: Seq<u8>)
    ensures
        le_value(s) < pow256(s.len()),
    decreases s.len(),
{
    if s.len() > 0 {
        lemma_le_value_bound(s.drop_first());
        let r = le_value(s.drop_first());
        let p = pow256((s.len() - 1) as nat);
        assert(s[0] + 256 * r < 256 * p) by (nonlinear_arith)
            requires
                s[0] < 256,
                r < p,
        ;
    }
}

/// The powers of 256 that the fixed-width integers use.
pub proof fn lemma_pow256_values()
    ensures
        pow256(1) == 0x100,
        pow256(2) == 0x10000,
        pow256(4) == 0x1_0000_0000,
        pow256(8) == 0x1_0000_0000_0000_0000,
{
    reveal_with_fuel(pow256, 9);
}

/// Appends the `n` low bytes of `v`, least significant first.
pub fn encode_le(v: u64, n: usize, out: &mut Vec<u8>)
    requires
        n <= 8,
    ensures
        final(out)@ == old(out)@ + le_bytes(v as nat, n as nat),
{
    let ghost start = out@;
    let mut cur: u64 = v;
    let mut i: usize = 0;
    assert(out@ + le_bytes(cur as nat, (n - i) as nat) =~= start + le_bytes(v as nat, n as nat));
    while i < n
        invariant
            i <= n,
            out@ + le_bytes(cur as nat, (n - i) as nat) == start + le_bytes(v as nat, n as nat),
        decreases n - i,
    {
        let byte: u8 = (cur % 256) as u8;
        let ghost before = out@;
        out.push(byte);
        proof {
            let tail = le_bytes(cur as nat / 256, (n - i - 1) as nat);
            assert(le_bytes(cur as nat, (n - i) as nat) == seq![(cur as nat % 256) as u8] + tail);
            assert(out@ + tail =~= before + le_bytes(cur as nat, (n - i) as nat));
        }
        cur = cur / 256;
        i = i + 1;
    }
    assert(le_bytes(cur as nat, 0) =~= Seq::<u8>::empty());
    assert(out@ =~= out@ + le_bytes(cur as nat, 0));
}

/// Reads a number of at most eight bytes, least significant first.
pub fn decode_le(bytes: &[u8]) -> (v: u64)
    requires
        bytes@.len() <= 8,
    ensures
        v == le_value(bytes@),
{
    let n = bytes.len();
    let mut i: usize = n;
    let mut acc: u64 = 0;
    proof {
        lemma_pow256_values();
        assert(bytes@.subrange(n as int, n as int) =~= Seq::<u8>::empty());
    }
    while i > 0
        invariant
            i <= n,
            n == bytes@.len(),
            n <= 8,
            acc == le_value(bytes@.subrange(i as int, n as int)),
        decreases i,
    {
        let ghost rest = bytes@.subrange(i as int, n as int);
        let ghost next = bytes@.subrange(i - 1, n as int);
        let b = bytes[i - 1];
        proof {
            assert(next.drop_first() =~= rest);
            assert(next[0] == b);
            lemma_le_value_bound(next);
            lemma_pow_mono(next.len(), 8);
            lemma_pow256_values();
        }
        acc = acc * 256 + b as u64;
        i = i - 1;
    }
    assert(bytes@.subrange(0, n as int) =~= bytes@);
    acc
}

/// `256^a <= 256^b` when `a <= b`.
pub proof fn lemma_pow_mono(a: nat, b: nat)
    requires
        a <= b,
    ensures
        pow256(a) <= pow256(b),
    decreases b,
{
    if a < b {
        lemma_pow_mono(a, (b - 1) as nat);
        lemma_pow256_positive((b - 1) as nat);
    }
}

/// Encoding `v` in `n` bytes and reading it back gives `v` when it fits.
pub proof fn lemma_le_fits(v: nat, n: nat)
    requires
        v < pow256(n),
    ensures
        le_bytes(v, n).len() == n,
        le_value(le_bytes(v, n)) == v,
{
    lemma_le_round_trip(v, n);
    lemma_pow256_positive(n);
    vstd::arithmetic::div_mod::lemma_small_mod(v, pow256(n));
}


/// `s` in reverse order.
pub open spec fn reversed(s: Seq<u8>) -> Seq<u8> {
    Seq::new(s.len(), |i: int| s[s.len() - 1 - i])
}

/// The `n` low bytes of `v` in the byte order of the machine.
pub open spec fn ne_bytes(v: nat, n: nat) -> Seq<u8> {
    if endianness() == Endian::Little {
        le_bytes(v, n)
    } else {
        reversed(le_bytes(v, n))
    }
}

/// The number whose bytes, in the byte order of the machine, are `s`.
pub open spec fn ne_value(s: Seq<u8>) -> nat {
    if endianness() == Endian::Little {
        le_value(s)
    } else {
        le_value(reversed(s))
    }
}

/// Reading back the `n` low bytes of a `v` that fits gives `v`, whatever
/// the byte order.
pub proof fn lemma_ne_fits(v: nat, n: nat)
    requires
        v < pow256(n),
    ensures
        ne_bytes(v, n).len() == n,
        ne_value(ne_bytes(v, n)) == v,
{
    lemma_le_fits(v, n);
    assert(reversed(reversed(le_bytes(v, n))) =~= le_bytes(v, n));
}

/// The memory image of the `u16` value 1: `u16::to_ne_bytes` gives the bytes
/// of an integer in the machine's native byte order, which is how the
/// machine stores it.
#[verifier::external_body]
fn one_in_native_order() -> (bytes: [u8; 2])
    ensures
        bytes@ == ne_bytes(1, 2),
{
    1u16.to_ne_bytes()
}

/// Whether the machine stores the least significant byte first.
pub fn native_is_little() -> (little: bool)
    ensures
        little == (endianness() == Endian::Little),
{
    let one = one_in_native_order();
    proof {
        reveal_with_fuel(le_bytes, 3);
    }
    one[0] == 1
}

/// Appends the `n` low bytes of `v` in the byte order of the machine.
pub fn encode_ne(v: u64, n: usize, out: &mut Vec<u8>)
    requires
        n <= 8,
    ensures
        final(out)@ == old(out)@ + ne_bytes(v as nat, n as nat),
{
    if native_is_little() {
        encode_le(v, n, out);
    } else {
        let mut tmp: Vec<u8> = Vec::new();
        encode_le(v, n, &mut tmp);
        assert(tmp@ =~= le_bytes(v as nat, n as nat));
        let ghost start = out@;
        let ghost le = tmp@;
        let mut j: usize = n;
        proof {
            lemma_le_round_trip(v as nat, n as nat);
        }
        while j > 0
            invariant
                j <= n,
                tmp@ == le,
                le.len() == n,
                out@ == start + reversed(le.subrange(j as int, n as int)),
            decreases j,
        {
            j = j - 1;
            out.push(tmp[j]);
            assert(reversed(le.subrange(j as int, n as int)) =~= reversed(
                le.subrange(j + 1, n as int),
            ).push(le[j as int]));
        }
        assert(le.subrange(0, n as int) =~= le);
    }
}

/// Reads a number of at most eight bytes in the byte order of the machine.
pub fn decode_ne(bytes: &[u8]) -> (v: u64)
    requires
        bytes@.len() <= 8,
    ensures
        v == ne_value(bytes@),
{
    if native_is_little() {
        decode_le(bytes)
    } else {
        let n = bytes.len();
        let mut rev: Vec<u8> = Vec::new();
        let mut j: usize = n;
        while j > 0
            invariant
                j <= n,
                n == bytes@.len(),
                rev@ == reversed(bytes@.subrange(j as int, n as int)),
            decreases j,
        {
            j = j - 1;
            rev.push(bytes[j]);
            assert(reversed(bytes@.subrange(j as int, n as int)) =~= reversed(
                bytes@.subrange(j + 1, n as int),
            ).push(bytes@[j as int]));
        }
        assert(bytes@.subrange(0, n as int) =~= bytes@);
        decode_le(rev.as_slice())
    }
}

/// The sizes of the fixed-width integers, and that a `usize` is four or
/// eight bytes.
pub proof fn lemma_primitive_sizes()
    ensures
        size_of::<u8>() == 1,
        size_of::<u16>() == 2,
        size_of::<u32>() == 4,
        size_of::<u64>() == 8,
        size_of::<bool>() == 1,
        size_of::<usize>() == 4 || size_of::<usize>() == 8,
        usize::MAX < pow256(size_of::<usize>()),
{
    broadcast use layout_of_primitives;

    lemma_pow256_values();
    assert(usize::BITS == 32 || usize::BITS == 64);
}

/// `n` zero bytes.
pub open spec fn zeros(n: nat) -> Seq<u8> {
    Seq::new(n, |i: int| 0u8)
}

/// `s` cut or padded with zero bytes to exactly `n` bytes.
pub open spec fn fit(s: Seq<u8>, n: nat) -> Seq<u8> {
    if s.len() >= n {
        s.subrange(0, n as int)
    } else {
        s + zeros((n - s.len()) as nat)
    }
}

/// Appends `s` cut or padded with zero bytes to exactly `n` bytes.
pub fn push_fitted(out: &mut Vec<u8>, s: &[u8], n: usize)
    ensures
        final(out)@ == old(out)@ + fit(s@, n as nat),
{
    let ghost start = out@;
    let mut i: usize = 0;
    while i < n
        invariant
            i <= n,
            out@ == start + fit(s@, n as nat).subrange(0, i as int),
        decreases n - i,
    {
        let b: u8 = if i < s.len() { s[i] } else { 0u8 };
        out.push(b);
        assert(fit(s@, n as nat).subrange(0, i + 1) =~= fit(s@, n as nat).subrange(
            0,
            i as int,
        ).push(b));
        i = i + 1;
    }
    assert(fit(s@, n as nat).subrange(0, n as int) =~= fit(s@, n as nat));
}

impl Pod for u8 {
    open spec fn spec_encode(v: u8) -> Seq<u8> {
        ne_bytes(v as nat, 1)
    }

    open spec fn spec_decode(bytes: Seq<u8>) -> u8 {
        ne_value(bytes) as u8
    }

    open spec fn spec_round_trips() -> bool {
        true
    }

    proof fn lemma_encoding(v: u8) {
        lemma_primitive_sizes();
        lemma_pow256_values();
        lemma_ne_fits(v as nat, 1);
    }

    fn encode(&self, out: &mut Vec<u8>) {
        encode_ne(*self as u64, 1, out);
    }

    fn decode(bytes: &[u8]) -> (v: u8) {
        proof {
            lemma_primitive_sizes();
            lemma_pow256_values();
            lemma_le_value_bound(bytes@);
            lemma_le_value_bound(reversed(bytes@));
        }
        decode_ne(bytes) as u8
    }
}

impl Pod for u16 {
    open spec fn spec_encode(v: u16) -> Seq<u8> {
        ne_bytes(v as nat, 2)
    }

    open spec fn spec_decode(bytes: Seq<u8>) -> u16 {
        ne_value(bytes) as u16
    }

    open spec fn spec_round_trips() -> bool {
        true
    }

    proof fn lemma_encoding(v: u16) {
        lemma_primitive_sizes();
        lemma_pow256_values();
        lemma_ne_fits(v as nat, 2);
    }

    fn encode(&self, out: &mut Vec<u8>) {
        proof {
            lemma_primitive_sizes();
        }
        encode_ne(*self as u64, 2, out);
    }

    fn decode(bytes: &[u8]) -> (v: u16) {
        proof {
            lemma_primitive_sizes();
            lemma_pow256_values();
            lemma_le_value_bound(bytes@);
            lemma_le_value_bound(reversed(bytes@));
        }
        decode_ne(bytes) as u16
    }
}

impl Pod for u32 {
    open spec fn spec_encode(v: u32) -> Seq<u8> {
        ne_bytes(v as nat, 4)
    }

    open spec fn spec_decode(bytes: Seq<u8>) -> u32 {
        ne_value(bytes) as u32
    }

    open spec fn spec_round_trips() -> bool {
        true
    }

    proof fn lemma_encoding(v: u32) {
        lemma_primitive_sizes();
        lemma_pow256_values();
        lemma_ne_fits(v as nat, 4);
    }

    fn encode(&self, out: &mut Vec<u8>) {
        proof {
            lemma_primitive_sizes();
        }
        encode_ne(*self as u64, 4, out);
    }

    fn decode(bytes: &[u8]) -> (v: u32) {
        proof {
            lemma_primitive_sizes();
            lemma_pow256_values();
            lemma_le_value_bound(bytes@);
            lemma_le_value_bound(reversed(bytes@));
        }
        decode_ne(bytes) as u32
    }
}

impl Pod for u64 {
    open spec fn spec_encode(v: u64) -> Seq<u8> {
        ne_bytes(v as nat, 8)
    }

    open spec fn spec_decode(bytes: Seq<u8>) -> u64 {
        ne_value(bytes) as u64
    }

    open spec fn spec_round_trips() -> bool {
        true
    }

    proof fn lemma_encoding(v: u64) {
        lemma_primitive_sizes();
        lemma_pow256_values();
        lemma_ne_fits(v as nat, 8);
    }

    fn encode(&self, out: &mut Vec<u8>) {
        proof {
            lemma_primitive_sizes();
        }
        encode_ne(*self, 8, out);
    }

    fn decode(bytes: &[u8]) -> (v: u64) {
        proof {
            lemma_primitive_sizes();
        }
        decode_ne(bytes)
    }
}

impl Pod for usize {
    open spec fn spec_encode(v: usize) -> Seq<u8> {
        ne_bytes(v as nat, size_of::<usize>())
    }

    open spec fn spec_decode(bytes: Seq<u8>) -> usize {
        ne_value(bytes) as usize
    }

    open spec fn spec_round_trips() -> bool {
        true
    }

    proof fn lemma_encoding(v: usize) {
        lemma_primitive_sizes();
        lemma_ne_fits(v as nat, size_of::<usize>());
    }

    fn encode(&self, out: &mut Vec<u8>) {
        proof {
            lemma_primitive_sizes();
        }
        encode_ne(*self as u64, core::mem::size_of::<usize>(), out);
    }

    fn decode(bytes: &[u8]) -> (v: usize) {
        proof {
            lemma_primitive_sizes();
            lemma_pow_mono(size_of::<usize>(), 8);
        }
        decode_ne(bytes) as usize
    }
}

/// A `bool` is one byte: `1` for true, `0` for false; any non-zero byte reads
/// as true.
impl Pod for bool {
    open spec fn spec_encode(v: bool) -> Seq<u8> {
        seq![if v { 1u8 } else { 0u8 }]
    }

    open spec fn spec_decode(bytes: Seq<u8>) -> bool {
        bytes[0] != 0
    }

    open spec fn spec_round_trips() -> bool {
        true
    }

    proof fn lemma_encoding(v: bool) {
        lemma_primitive_sizes();
    }

    fn encode(&self, out: &mut Vec<u8>) {
        out.push(if *self { 1u8 } else { 0u8 });
        assert(out@ =~= old(out)@ + Self::spec_encode(*self));
    }

    fn decode(bytes: &[u8]) -> (v: bool) {
        proof {
            lemma_primitive_sizes();
        }
        bytes[0] != 0
    }
}

} // verus!

verus! {

/// A `u8` is its own image: pushing `v` appends the byte `v`, and the byte
/// `b` reads back as `b`.
pub proof fn lemma_u8_image(v: u8, b: u8)
    ensures
        u8::spec_encode(v) == seq![v],
        u8::spec_decode(seq![b]) == b,
{
    reveal_with_fuel(le_bytes, 2);
    reveal_with_fuel(le_value, 2);
    assert(le_bytes(v as nat, 1) =~= seq![v]);
    assert(reversed(seq![v]) =~= seq![v]);
    assert(reversed(seq![b]) =~= seq![b]);
    assert(seq![b].drop_first() =~= Seq::<u8>::empty());
}

/// A `bool` is the byte 1 or 0, and any non-zero byte reads as true.
pub proof fn lemma_bool_image(b: u8)
    ensures
        bool::spec_encode(true) == seq![1u8],
        bool::spec_encode(false) == seq![0u8],
        bool::spec_decode(seq![b]) == (b != 0),
{
}

/// A `u16` is its low byte and its high byte, low first on a little-endian
/// machine and high first on a big-endian one.
pub proof fn lemma_u16_image(v: u16, b0: u8, b1: u8)
    ensures
        endianness() == Endian::Little ==> u16::spec_encode(v) == seq![
            (v % 0x100) as u8,
            (v / 0x100) as u8,
        ],
        endianness() == Endian::Little ==> u16::spec_decode(seq![b0, b1]) == b0 + 0x100 * b1,
        endianness() == Endian::Big ==> u16::spec_encode(v) == seq![
            (v / 0x100) as u8,
            (v % 0x100) as u8,
        ],
        endianness() == Endian::Big ==> u16::spec_decode(seq![b0, b1]) == 0x100 * b0 + b1,
{
    reveal_with_fuel(le_bytes, 3);
    reveal_with_fuel(le_value, 3);
    let le = le_bytes(v as nat, 2);
    assert(le =~= seq![(v % 0x100) as u8, (v / 0x100) as u8]);
    assert(reversed(le) =~= seq![(v / 0x100) as u8, (v % 0x100) as u8]);
    let s = seq![b0, b1];
    assert(s.drop_first() =~= seq![b1]);
    assert(seq![b1].drop_first() =~= Seq::<u8>::empty());
    assert(reversed(s) =~= seq![b1, b0]);
    assert(seq![b1, b0].drop_first() =~= seq![b0]);
    assert(seq![b0].drop_first() =~= Seq::<u8>::empty());
}


/// A `u32` is its 4 bytes from least to most significant on a
/// little-endian machine, and from most to least significant on a big-endian
/// one; reading bytes back weighs them the same way.
pub proof fn lemma_u32_image(v: u32, b0: u8, b1: u8, b2: u8, b3: u8)
    ensures
        endianness() == Endian::Little ==> u32::spec_encode(v) == seq![
            (v % 0x100) as u8,
            ((v / 0x100) % 0x100) as u8,
            ((v / 0x10000) % 0x100) as u8,
            (v / 0x1000000) as u8,
        ],
        endianness() == Endian::Little ==> u32::spec_decode(seq![b0, b1, b2, b3]) == b0 + 0x100 * b1 + 0x10000 * b2 + 0x1000000 * b3,
        endianness() == Endian::Big ==> u32::spec_encode(v) == seq![
            (v / 0x1000000) as u8,
            ((v / 0x10000) % 0x100) as u8,
            ((v / 0x100) % 0x100) as u8,
            (v % 0x100) as u8,
        ],
        endianness() == Endian::Big ==> u32::spec_decode(seq![b0, b1, b2, b3]) == 0x1000000 * b0 + 0x10000 * b1 + 0x100 * b2 + b3,
{
    reveal_with_fuel(le_bytes, 5);
    reveal_with_fuel(le_value, 5);
    lemma_pow256_values();
    vstd::arithmetic::div_mod::lemma_div_denominator(v as int, 0x100, 0x100);
    vstd::arithmetic::div_mod::lemma_div_denominator(v as int, 0x10000, 0x100);
    let le = le_bytes(v as nat, 4);
    assert(le =~= seq![
            (v % 0x100) as u8,
            ((v / 0x100) % 0x100) as u8,
            ((v / 0x10000) % 0x100) as u8,
            (v / 0x1000000) as u8,
        ]);
    assert(reversed(le) =~= seq![
            (v / 0x1000000) as u8,
            ((v / 0x10000) % 0x100) as u8,
            ((v / 0x100) % 0x100) as u8,
            (v % 0x100) as u8,
        ]);
    assert(seq![b0, b1, b2, b3].drop_first() =~= seq![b1, b2, b3]);
    assert(seq![b1, b2, b3].drop_first() =~= seq![b2, b3]);
    assert(seq![b2, b3].drop_first() =~= seq![b3]);
    assert(seq![b3].drop_first() =~= Seq::<u8>::empty());
    assert(seq![b3, b2, b1, b0].drop_first() =~= seq![b2, b1, b0]);
    assert(seq![b2, b1, b0].drop_first() =~= seq![b1, b0]);
    assert(seq![b1, b0].drop_first() =~= seq![b0]);
    assert(seq![b0].drop_first() =~= Seq::<u8>::empty());
    assert(reversed(seq![b0, b1, b2, b3]) =~= seq![b3, b2, b1, b0]);
}

/// A `u64` is its 8 bytes from least to most significant on a
/// little-endian machine, and from most to least significant on a big-endian
/// one; reading bytes back weighs them the same way.
pub proof fn lemma_u64_image(v: u64, b0: u8, b1: u8, b2: u8, b3: u8, b4: u8, b5: u8, b6: u8, b7: u8)
    ensures
        endianness() == Endian::Little ==> u64::spec_encode(v) == seq![
            (v % 0x100) as u8,
            ((v / 0x100) % 0x100) as u8,
            ((v / 0x10000) % 0x100) as u8,
            ((v / 0x1000000) % 0x100) as u8,
            ((v / 0x100000000) % 0x100) as u8,
            ((v / 0x10000000000) % 0x100) as u8,
            ((v / 0x1000000000000) % 0x100) as u8,
            (v / 0x100000000000000) as u8,
        ],
        endianness() == Endian::Little ==> u64::spec_decode(seq![b0, b1, b2, b3, b4, b5, b6, b7]) == b0 + 0x100 * b1 + 0x10000 * b2 + 0x1000000 * b3 + 0x100000000 * b4 + 0x10000000000 * b5 + 0x1000000000000 * b6 + 0x100000000000000 * b7,
        endianness() == Endian::Big ==> u64::spec_encode(v) == seq![
            (v / 0x100000000000000) as u8,
            ((v / 0x1000000000000) % 0x100) as u8,
            ((v / 0x10000000000) % 0x100) as u8,
            ((v / 0x100000000) % 0x100) as u8,
            ((v / 0x1000000) % 0x100) as u8,
            ((v / 0x10000) % 0x100) as u8,
            ((v / 0x100) % 0x100) as u8,
            (v % 0x100) as u8,
        ],
        endianness() == Endian::Big ==> u64::spec_decode(seq![b0, b1, b2, b3, b4, b5, b6, b7]) == 0x100000000000000 * b0 + 0x1000000000000 * b1 + 0x10000000000 * b2 + 0x100000000 * b3 + 0x1000000 * b4 + 0x10000 * b5 + 0x100 * b6 + b7,
{
    reveal_with_fuel(le_bytes, 9);
    reveal_with_fuel(le_value, 9);
    lemma_pow256_values();
    vstd::arithmetic::div_mod::lemma_div_denominator(v as int, 0x100, 0x100);
    vstd::arithmetic::div_mod::lemma_div_denominator(v as int, 0x10000, 0x100);
    vstd::arithmetic::div_mod::lemma_div_denominator(v as int, 0x1000000, 0x100);
    vstd::arithmetic::div_mod::lemma_div_denominator(v as int, 0x100000000, 0x100);
    vstd::arithmetic::div_mod::lemma_div_denominator(v as int, 0x10000000000, 0x100);
    vstd::arithmetic::div_mod::lemma_div_denominator(v as int, 0x1000000000000, 0x100);
    let le = le_bytes(v as nat, 8);
    assert(le =~= seq![
            (v % 0x100) as u8,
            ((v / 0x100) % 0x100) as u8,
            ((v / 0x10000) % 0x100) as u8,
            ((v / 0x1000000) % 0x100) as u8,
            ((v / 0x100000000) % 0x100) as u8,
            ((v / 0x10000000000) % 0x100) as u8,
            ((v / 0x1000000000000) % 0x100) as u8,
            (v / 0x100000000000000) as u8,
        ]);
    assert(reversed(le) =~= seq![
            (v / 0x100000000000000) as u8,
            ((v / 0x1000000000000) % 0x100) as u8,
            ((v / 0x10000000000) % 0x100) as u8,
            ((v / 0x100000000) % 0x100) as u8,
            ((v / 0x1000000) % 0x100) as u8,
            ((v / 0x10000) % 0x100) as u8,
            ((v / 0x100) % 0x100) as u8,
            (v % 0x100) as u8,
        ]);
    assert(seq![b0, b1, b2, b3, b4, b5, b6, b7].drop_first() =~= seq![b1, b2, b3, b4, b5, b6, b7]);
    assert(seq![b1, b2, b3, b4, b5, b6, b7].drop_first() =~= seq![b2, b3, b4, b5, b6, b7]);
    assert(seq![b2, b3, b4, b5, b6, b7].drop_first() =~= seq![b3, b4, b5, b6, b7]);
    assert(seq![b3, b4, b5, b6, b7].drop_first() =~= seq![b4, b5, b6, b7]);
    assert(seq![b4, b5, b6, b7].drop_first() =~= seq![b5, b6, b7]);
    assert(seq![b5, b6, b7].drop_first() =~= seq![b6, b7]);
    assert(seq![b6, b7].drop_first() =~= seq![b7]);
    assert(seq![b7].drop_first() =~= Seq::<u8>::empty());
    assert(seq![b7, b6, b5, b4, b3, b2, b1, b0].drop_first() =~= seq![b6, b5, b4, b3, b2, b1, b0]);
    assert(seq![b6, b5, b4, b3, b2, b1, b0].drop_first() =~= seq![b5, b4, b3, b2, b1, b0]);
    assert(seq![b5, b4, b3, b2, b1, b0].drop_first() =~= seq![b4, b3, b2, b1, b0]);
    assert(seq![b4, b3, b2, b1, b0].drop_first() =~= seq![b3, b2, b1, b0]);
    assert(seq![b3, b2, b1, b0].drop_first() =~= seq![b2, b1, b0]);
    assert(seq![b2, b1, b0].drop_first() =~= seq![b1, b0]);
    assert(seq![b1, b0].drop_first() =~= seq![b0]);
    assert(seq![b0].drop_first() =~= Seq::<u8>::empty());
    assert(reversed(seq![b0, b1, b2, b3, b4, b5, b6, b7]) =~= seq![b7, b6, b5, b4, b3, b2, b1, b0]);
}

/// A `usize` has the image of the fixed-width integer of its width.
pub proof fn lemma_usize_image(v: usize)
    ensures
        size_of::<usize>() == 4 ==> usize::spec_encode(v) == u32::spec_encode(v as u32),
        size_of::<usize>() == 8 ==> usize::spec_encode(v) == u64::spec_encode(v as u64),
{
    lemma_primitive_sizes();
}

} // verus!
