//! Snapshot serialisation: values encoded to and decoded from byte
//! buffers, little-endian.
//!
//! The surrounding program owns the files or streams the bytes travel
//! through; the codec itself works on plain buffers, so every encoder and
//! decoder here is verified: saving appends exactly the value's encoding,
//! and a successful load consumes exactly one encoding of the value it
//! returns.

use vstd::prelude::*;

verus! {

/// The canonical little-endian encoding of a number in `n` bytes.
pub open spec fn le_bytes(v: nat, n: nat) -> Seq<u8>
    decreases n,
{
    if n == 0 {
        Seq::empty()
    } else {
        seq![(v % 256) as u8] + le_bytes(v / 256, (n - 1) as nat)
    }
}

/// The concatenation of the encodings of a sequence of values.
pub open spec fn seq_encoding<T: Saveable>(s: Seq<T>) -> Seq<u8>
    decreases s.len(),
{
    if s.len() == 0 {
        Seq::empty()
    } else {
        seq_encoding(s.drop_last()) + s.last().encoding()
    }
}


/// The one-byte encoding, spelled out.
pub proof fn lemma_le_bytes_1(v: nat)
    ensures
        le_bytes(v, 1) =~= seq![(v % 256) as u8],
{
    reveal_with_fuel(le_bytes, 2);
}

/// The two-byte encoding, spelled out.
pub proof fn lemma_le_bytes_2(v: nat)
    ensures
        le_bytes(v, 2) =~= seq![(v % 256) as u8, ((v / 256) % 256) as u8],
{
    reveal_with_fuel(le_bytes, 3);
}

/// The four-byte encoding, spelled out.
pub proof fn lemma_le_bytes_4(v: nat)
    ensures
        le_bytes(v, 4) =~= seq![
            (v % 256) as u8,
            ((v / 256) % 256) as u8,
            ((v / 0x10000) % 256) as u8,
            ((v / 0x1000000) % 256) as u8,
        ],
{
    reveal_with_fuel(le_bytes, 5);
    vstd::arithmetic::div_mod::lemma_div_denominator(v as int, 256, 256);
    vstd::arithmetic::div_mod::lemma_div_denominator(v as int, 0x10000, 256);
}

/// The eight-byte encoding, spelled out.
pub proof fn lemma_le_bytes_8(v: nat)
    ensures
        le_bytes(v, 8) =~= seq![
            (v % 256) as u8,
            ((v / 256) % 256) as u8,
            ((v / 0x10000) % 256) as u8,
            ((v / 0x1000000) % 256) as u8,
            ((v / 0x100000000) % 256) as u8,
            ((v / 0x10000000000) % 256) as u8,
            ((v / 0x1000000000000) % 256) as u8,
            ((v / 0x100000000000000) % 256) as u8,
        ],
{
    reveal_with_fuel(le_bytes, 9);
    vstd::arithmetic::div_mod::lemma_div_denominator(v as int, 256, 256);
    vstd::arithmetic::div_mod::lemma_div_denominator(v as int, 0x10000, 256);
    vstd::arithmetic::div_mod::lemma_div_denominator(v as int, 0x1000000, 256);
    vstd::arithmetic::div_mod::lemma_div_denominator(v as int, 0x100000000, 256);
    vstd::arithmetic::div_mod::lemma_div_denominator(v as int, 0x10000000000, 256);
    vstd::arithmetic::div_mod::lemma_div_denominator(v as int, 0x1000000000000, 256);
}

/// A value with a snapshot encoding.
///
/// `save` appends the value's canonical encoding to a buffer; `load`
/// replaces the value by decoding at a cursor, advancing the cursor past
/// exactly one canonical encoding when it succeeds and failing on
/// malformed or missing bytes.
pub trait Saveable: Sized {
    /// The canonical byte encoding of the value.
    spec fn encoding(&self) -> Seq<u8>;

    /// Appends the value's encoding to the buffer.
    fn save(&self, out: &mut Vec<u8>)
        ensures
            final(out)@ == old(out)@ + self.encoding(),
    ;

    /// Decodes a value at the cursor, replacing `self`.
    fn load(&mut self, data: &Vec<u8>, pos: &mut usize) -> (ok: bool)
        ensures
            ok ==> *old(pos) <= *final(pos) <= data@.len() && final(self).encoding() == data@
                .subrange(*old(pos) as int, *final(pos) as int),
    ;
}

impl Saveable for bool {
    open spec fn encoding(&self) -> Seq<u8> {
        seq![
            if *self {
                1u8
            } else {
                0u8
            },
        ]
    }

    fn save(&self, out: &mut Vec<u8>) {
        out.push(if *self {
            1
        } else {
            0
        });
        proof {
            assert(final(out)@ =~= old(out)@ + self.encoding());
        }
    }

    fn load(&mut self, data: &Vec<u8>, pos: &mut usize) -> (ok: bool) {
        let p = *pos;
        if p >= data.len() {
            return false;
        }
        let b = data[p];
        if b > 1 {
            return false;
        }
        *self = b == 1;
        *pos = p + 1;
        proof {
            assert(final(self).encoding() =~= data@.subrange(p as int, p as int + 1));
        }
        true
    }
}

impl Saveable for u8 {
    open spec fn encoding(&self) -> Seq<u8> {
        le_bytes(*self as nat, 1)
    }

    fn save(&self, out: &mut Vec<u8>) {
        out.push(*self);
        proof {
            lemma_le_bytes_1(*self as nat);
            assert(final(out)@ =~= old(out)@ + self.encoding());
        }
    }

    fn load(&mut self, data: &Vec<u8>, pos: &mut usize) -> (ok: bool) {
        let p = *pos;
        if p >= data.len() {
            return false;
        }
        *self = data[p];
        *pos = p + 1;
        proof {
            lemma_le_bytes_1(data@[p as int] as nat);
            assert(final(self).encoding() =~= data@.subrange(p as int, p as int + 1));
        }
        true
    }
}

impl Saveable for u16 {
    open spec fn encoding(&self) -> Seq<u8> {
        le_bytes(*self as nat, 2)
    }

    fn save(&self, out: &mut Vec<u8>) {
        out.push((*self % 256) as u8);
        out.push(((*self / 256) % 256) as u8);
        proof {
            lemma_le_bytes_2(*self as nat);
            assert(final(out)@ =~= old(out)@ + self.encoding());
        }
    }

    fn load(&mut self, data: &Vec<u8>, pos: &mut usize) -> (ok: bool) {
        let p = *pos;
        if p >= data.len() || data.len() - p < 2 {
            return false;
        }
        let b0 = data[p] as u16;
        let b1 = data[p + 1] as u16;
        *self = b0 + b1 * 256;
        *pos = p + 2;
        proof {
            lemma_le_bytes_2((b0 + b1 * 256) as nat);
            assert(final(self).encoding() =~= data@.subrange(p as int, p as int + 2));
        }
        true
    }
}

impl Saveable for u32 {
    open spec fn encoding(&self) -> Seq<u8> {
        le_bytes(*self as nat, 4)
    }

    fn save(&self, out: &mut Vec<u8>) {
        let v = *self;
        out.push((v % 256) as u8);
        out.push(((v / 256) % 256) as u8);
        out.push(((v / 0x10000) % 256) as u8);
        out.push(((v / 0x1000000) % 256) as u8);
        proof {
            lemma_le_bytes_4(v as nat);
            assert(final(out)@ =~= old(out)@ + self.encoding());
        }
    }

    #[verifier::rlimit(100)]
    fn load(&mut self, data: &Vec<u8>, pos: &mut usize) -> (ok: bool) {
        let p = *pos;
        if p >= data.len() || data.len() - p < 4 {
            return false;
        }
        let b0 = data[p] as u32;
        let b1 = data[p + 1] as u32;
        let b2 = data[p + 2] as u32;
        let b3 = data[p + 3] as u32;
        *self = b0 + b1 * 256 + b2 * 0x10000 + b3 * 0x1000000;
        *pos = p + 4;
        proof {
            let v3 = b3 as nat;
            let v2 = (b2 as nat) + 256 * v3;
            let v1 = (b1 as nat) + 256 * v2;
            let v0 = (b0 as nat) + 256 * v1;
            assert((*final(self)) as nat == v0);
            vstd::arithmetic::div_mod::lemma_fundamental_div_mod_converse(
                v0 as int, 256, v1 as int, b0 as int);
            vstd::arithmetic::div_mod::lemma_fundamental_div_mod_converse(
                v1 as int, 256, v2 as int, b1 as int);
            vstd::arithmetic::div_mod::lemma_fundamental_div_mod_converse(
                v2 as int, 256, v3 as int, b2 as int);
            vstd::arithmetic::div_mod::lemma_fundamental_div_mod_converse(
                v3 as int, 256, 0, b3 as int);
            reveal_with_fuel(le_bytes, 6);
            assert(le_bytes(0, 0) =~= Seq::<u8>::empty());
            assert(final(self).encoding() =~= data@.subrange(p as int, p as int + 4));
        }
        true
    }
}

impl Saveable for u64 {
    open spec fn encoding(&self) -> Seq<u8> {
        le_bytes(*self as nat, 8)
    }

    #[verifier::rlimit(100)]
    fn save(&self, out: &mut Vec<u8>) {
        let v = *self;
        out.push((v % 256) as u8);
        out.push(((v / 256) % 256) as u8);
        out.push(((v / 0x10000) % 256) as u8);
        out.push(((v / 0x1000000) % 256) as u8);
        out.push(((v / 0x100000000) % 256) as u8);
        out.push(((v / 0x10000000000) % 256) as u8);
        out.push(((v / 0x1000000000000) % 256) as u8);
        out.push(((v / 0x100000000000000) % 256) as u8);
        proof {
            lemma_le_bytes_8(v as nat);
            assert(final(out)@ =~= old(out)@ + self.encoding());
        }
    }

    #[verifier::rlimit(100)]
    fn load(&mut self, data: &Vec<u8>, pos: &mut usize) -> (ok: bool) {
        let p = *pos;
        if p >= data.len() || data.len() - p < 8 {
            return false;
        }
        let b0 = data[p] as u64;
        let b1 = data[p + 1] as u64;
        let b2 = data[p + 2] as u64;
        let b3 = data[p + 3] as u64;
        let b4 = data[p + 4] as u64;
        let b5 = data[p + 5] as u64;
        let b6 = data[p + 6] as u64;
        let b7 = data[p + 7] as u64;
        *self = b0 + b1 * 256 + b2 * 0x10000 + b3 * 0x1000000 + b4 * 0x100000000 + b5
            * 0x10000000000 + b6 * 0x1000000000000 + b7 * 0x100000000000000;
        *pos = p + 8;
        proof {
            let v7 = b7 as nat;
            let v6 = (b6 as nat) + 256 * v7;
            let v5 = (b5 as nat) + 256 * v6;
            let v4 = (b4 as nat) + 256 * v5;
            let v3 = (b3 as nat) + 256 * v4;
            let v2 = (b2 as nat) + 256 * v3;
            let v1 = (b1 as nat) + 256 * v2;
            let v0 = (b0 as nat) + 256 * v1;
            assert((*final(self)) as nat == v0);
            vstd::arithmetic::div_mod::lemma_fundamental_div_mod_converse(
                v0 as int, 256, v1 as int, b0 as int);
            vstd::arithmetic::div_mod::lemma_fundamental_div_mod_converse(
                v1 as int, 256, v2 as int, b1 as int);
            vstd::arithmetic::div_mod::lemma_fundamental_div_mod_converse(
                v2 as int, 256, v3 as int, b2 as int);
            vstd::arithmetic::div_mod::lemma_fundamental_div_mod_converse(
                v3 as int, 256, v4 as int, b3 as int);
            vstd::arithmetic::div_mod::lemma_fundamental_div_mod_converse(
                v4 as int, 256, v5 as int, b4 as int);
            vstd::arithmetic::div_mod::lemma_fundamental_div_mod_converse(
                v5 as int, 256, v6 as int, b5 as int);
            vstd::arithmetic::div_mod::lemma_fundamental_div_mod_converse(
                v6 as int, 256, v7 as int, b6 as int);
            vstd::arithmetic::div_mod::lemma_fundamental_div_mod_converse(
                v7 as int, 256, 0, b7 as int);
            reveal_with_fuel(le_bytes, 10);
            assert(le_bytes(0, 0) =~= Seq::<u8>::empty());
            assert(final(self).encoding() =~= data@.subrange(p as int, p as int + 8));
        }
        true
    }
}

impl Saveable for usize {
    open spec fn encoding(&self) -> Seq<u8> {
        le_bytes(*self as nat, 8)
    }

    fn save(&self, out: &mut Vec<u8>) {
        let v = *self as u64;
        v.save(out);
        proof {
            assert((v as nat) == (*self as nat));
            assert(final(out)@ =~= old(out)@ + self.encoding());
        }
    }

    fn load(&mut self, data: &Vec<u8>, pos: &mut usize) -> (ok: bool) {
        let mut a: u64 = 0;
        if !a.load(data, pos) {
            return false;
        }
        if a > (usize::MAX as u64) {
            return false;
        }
        *self = a as usize;
        true
    }
}

impl<T: Saveable + Default> Saveable for Vec<T> {
    open spec fn encoding(&self) -> Seq<u8> {
        le_bytes(self@.len() as nat, 8) + seq_encoding(self@)
    }

    fn save(&self, out: &mut Vec<u8>) {
        let n = self.len();
        n.save(out);
        let mut i: usize = 0;
        while i < n
            invariant
                i <= n,
                n == self@.len(),
                out@ == old(out)@ + le_bytes(n as nat, 8) + seq_encoding(self@.subrange(
                    0,
                    i as int,
                )),
            decreases n - i,
        {
            proof {
                assert(self@.subrange(0, i as int + 1).drop_last() =~= self@.subrange(0, i as int));
                assert(self@.subrange(0, i as int + 1).last() == self@[i as int]);
            }
            self[i].save(out);
            proof {
                assert(out@ =~= old(out)@ + le_bytes(n as nat, 8) + seq_encoding(self@.subrange(
                    0,
                    i as int + 1,
                )));
            }
            i = i + 1;
        }
        proof {
            assert(self@.subrange(0, n as int) =~= self@);
            assert(final(out)@ =~= old(out)@ + self.encoding());
        }
    }

    fn load(&mut self, data: &Vec<u8>, pos: &mut usize) -> (ok: bool) {
        let p0 = *pos;
        let mut n: usize = 0;
        if !n.load(data, pos) {
            return false;
        }
        let ghost p1 = *pos;
        self.clear();
        let mut i: usize = 0;
        while i < n
            invariant
                i <= n,
                self@.len() == i,
                p1 <= *pos <= data@.len(),
                le_bytes(n as nat, 8) == data@.subrange(p0 as int, p1 as int),
                p0 <= p1,
                seq_encoding(self@) == data@.subrange(p1 as int, *pos as int),
            decreases n - i,
        {
            let a_opt: Option<T> = read_value(data, pos);
            let ghost pins_before = self@;
            let ghost pos_before = *pos;
            match a_opt {
                Some(a) => {
                    self.push(a);
                    proof {
                        assert(self@.drop_last() =~= pins_before);
                        assert(seq_encoding(self@) =~= seq_encoding(pins_before)
                            + self@.last().encoding());
                        assert(data@.subrange(p1 as int, *pos as int) =~= data@.subrange(
                            p1 as int,
                            pos_before as int,
                        ) + data@.subrange(pos_before as int, *pos as int));
                    }
                },
                None => {
                    return false;
                },
            }
            i = i + 1;
        }
        proof {
            assert(final(self).encoding() =~= data@.subrange(p0 as int, *pos as int));
        }
        true
    }
}

/// Decodes one value at the cursor, advancing it past exactly one
/// canonical encoding of the returned value on success.
pub fn read_value<T: Saveable + Default>(data: &Vec<u8>, pos: &mut usize) -> (r: Option<T>)
    ensures
        r matches Some(v) ==> *old(pos) <= *final(pos) <= data@.len() && v.encoding() == data@
            .subrange(*old(pos) as int, *final(pos) as int),
{
    let mut a: T = Default::default();
    if a.load(data, pos) {
        Some(a)
    } else {
        None
    }
}

} // verus!
