//! Brokefish: a 64-bit block cipher built like Blowfish, whose key schedule
//! sign-extends every key byte before folding it into a word.

use vstd::prelude::*;
use crate::bytes::{
    lemma_u32_le_bytes_of_read, lemma_u32_le_round_trip, push_u32_le, read_u32_le, spec_u32_le,
    u32_le_bytes,
};
use crate::consts::{default_p, default_s, initial_p, initial_s};

verus! {

/// Key material as mathematics: the 18 subkeys and the four substitution
/// tables of 256 entries each, laid end to end with table 0 first.
pub struct CipherState {
    pub p: Seq<u32>,
    pub s: Seq<u32>,
}

impl CipherState {
    /// Both arrays have their fixed lengths.
    pub open spec fn wf(self) -> bool {
        self.p.len() == 18 && self.s.len() == 1024
    }
}

/// The pair of words a block is made of: left, then right.
pub type Block = (u32, u32);

/// A byte read as a signed 8-bit number and widened to 32 bits.
pub open spec fn sign_extend(b: u8) -> u32 {
    if b < 0x80 {
        b as u32
    } else {
        (b as u32) | 0xffff_ff00u32
    }
}

/// Position `pos` of a cursor over a buffer of `len` bytes, where a cursor at
/// or past the end stands for the start.
pub open spec fn wrap_pos(pos: int, len: int) -> int {
    if pos >= len {
        0
    } else {
        pos
    }
}

/// The word built from `n` bytes of the endlessly repeated `key`, starting at
/// byte `start`: each byte sign-extended, earlier bytes more significant.
pub open spec fn spec_key_word(key: Seq<u8>, start: int, n: nat) -> u32
    decreases n,
{
    if n == 0 {
        0u32
    } else {
        (spec_key_word(key, start, (n - 1) as nat) << 8) | sign_extend(
            key[(start + n - 1) % (key.len() as int)],
        )
    }
}

/// Sum of two words modulo 2^32.
pub open spec fn spec_wrapping_sum(a: u32, b: u32) -> u32 {
    if a + b > u32::MAX {
        (a + b - 0x1_0000_0000) as u32
    } else {
        (a + b) as u32
    }
}

/// The round function: the four bytes of `x`, most significant first, index
/// tables 0 to 3; the entries are combined as `((t0 + t1) ^ t2) + t3`.
pub open spec fn spec_round_function(st: CipherState, x: u32) -> u32 {
    let a = st.s[(x >> 24) as int];
    let b = st.s[256 + ((x >> 16) & 0xff) as int];
    let c = st.s[512 + ((x >> 8) & 0xff) as int];
    let d = st.s[768 + (x & 0xff) as int];
    spec_wrapping_sum(spec_wrapping_sum(a, b) ^ c, d)
}

/// One double round of encryption with subkeys `2i` and `2i + 1`.
pub open spec fn spec_enc_round(st: CipherState, i: int, lr: Block) -> Block {
    let l1 = lr.0 ^ st.p[2 * i];
    let r1 = (lr.1 ^ spec_round_function(st, l1)) ^ st.p[2 * i + 1];
    let l2 = l1 ^ spec_round_function(st, r1);
    (l2, r1)
}

/// The first `n` double rounds of encryption.
pub open spec fn spec_enc_rounds(st: CipherState, lr: Block, n: nat) -> Block
    decreases n,
{
    if n == 0 {
        lr
    } else {
        spec_enc_round(st, n - 1, spec_enc_rounds(st, lr, (n - 1) as nat))
    }
}

/// Encryption of one block: eight double rounds, the last two subkeys, and
/// the halves exchanged.
pub open spec fn spec_encrypt_block(st: CipherState, lr: Block) -> Block {
    let e = spec_enc_rounds(st, lr, 8);
    (e.1 ^ st.p[17], e.0 ^ st.p[16])
}

/// One double round of decryption with subkeys `2i + 1` and `2i`.
pub open spec fn spec_dec_round(st: CipherState, i: int, lr: Block) -> Block {
    let l1 = lr.0 ^ st.p[2 * i + 1];
    let r1 = (lr.1 ^ spec_round_function(st, l1)) ^ st.p[2 * i];
    let l2 = l1 ^ spec_round_function(st, r1);
    (l2, r1)
}

/// The first `n` double rounds of decryption, which use subkey pairs 8 down
/// to `9 - n`.
pub open spec fn spec_dec_rounds(st: CipherState, lr: Block, n: nat) -> Block
    decreases n,
{
    if n == 0 {
        lr
    } else {
        spec_dec_round(st, 9 - n, spec_dec_rounds(st, lr, (n - 1) as nat))
    }
}

/// Decryption of one block: eight double rounds, subkeys 1 and 0, and the
/// halves exchanged.
pub open spec fn spec_decrypt_block(st: CipherState, lr: Block) -> Block {
    let d = spec_dec_rounds(st, lr, 8);
    (d.1 ^ st.p[0], d.0 ^ st.p[1])
}


/// The subkey array after the key has been folded in: entry `i` is XORed
/// with the word built from key bytes `4i` to `4i + 3`.
pub open spec fn spec_key_xor(p: Seq<u32>, key: Seq<u8>) -> Seq<u32> {
    Seq::new(18, |i: int| p[i] ^ spec_key_word(key, 4 * i, 4))
}

/// `st` with the pair `lr` stored at step `k` of the fill order: steps 0 to 8
/// fill the subkeys, steps 9 to 520 the substitution tables, two entries each.
pub open spec fn spec_store_pair(st: CipherState, k: int, lr: Block) -> CipherState {
    if k < 9 {
        CipherState { p: st.p.update(2 * k, lr.0).update(2 * k + 1, lr.1), s: st.s }
    } else {
        CipherState {
            p: st.p,
            s: st.s.update(2 * (k - 9), lr.0).update(2 * (k - 9) + 1, lr.1),
        }
    }
}

/// State and running block after `n` steps of the fill: every step encrypts
/// the running block, which starts as zero, under the state as it then is and
/// stores the result.
pub open spec fn spec_fill(st: CipherState, n: nat) -> (CipherState, Block)
    decreases n,
{
    if n == 0 {
        (st, (0u32, 0u32))
    } else {
        let prev = spec_fill(st, (n - 1) as nat);
        let out = spec_encrypt_block(prev.0, prev.1);
        (spec_store_pair(prev.0, n - 1, out), out)
    }
}

/// The key schedule applied to `st`.
pub open spec fn spec_expand_key(st: CipherState, key: Seq<u8>) -> CipherState {
    spec_fill(CipherState { p: spec_key_xor(st.p, key), s: st.s }, 521).0
}

/// The state every cipher starts from.
pub open spec fn initial_state() -> CipherState {
    CipherState { p: initial_p(), s: initial_s() }
}

/// The key material derived from `key`.
pub open spec fn spec_new(key: Seq<u8>) -> CipherState {
    spec_expand_key(initial_state(), key)
}

/// Advancing a wrapped cursor by one byte is adding one modulo the length.
proof fn lemma_wrap_step(x: int, len: int)
    requires
        len > 0,
        x >= 0,
    ensures
        wrap_pos(x % len + 1, len) == (x + 1) % len,
        0 <= x % len < len,
{
    vstd::arithmetic::div_mod::lemma_add_mod_noop(x, 1, len);
    vstd::arithmetic::div_mod::lemma_mod_pos_bound(x, len);
    if len == 1 {
        vstd::arithmetic::div_mod::lemma_mod_pos_bound(x + 1, len);
    } else {
        vstd::arithmetic::div_mod::lemma_small_mod(1, len as nat);
        if x % len + 1 < len {
            vstd::arithmetic::div_mod::lemma_small_mod((x % len + 1) as nat, len as nat);
        } else {
            vstd::arithmetic::div_mod::lemma_mod_self_0(len);
        }
    }
}

/// A key word depends on its starting byte only modulo the key's length.
proof fn lemma_key_word_mod(key: Seq<u8>, start: int, n: nat)
    requires
        key.len() > 0,
        start >= 0,
    ensures
        spec_key_word(key, start % (key.len() as int), n) == spec_key_word(key, start, n),
    decreases n,
{
    if n > 0 {
        let len = key.len() as int;
        lemma_key_word_mod(key, start, (n - 1) as nat);
        vstd::arithmetic::div_mod::lemma_add_mod_noop(start, n - 1, len);
        vstd::arithmetic::div_mod::lemma_add_mod_noop(start % len, n - 1, len);
        vstd::arithmetic::div_mod::lemma_mod_twice(start, len);
    }
}

/// Reads the next four bytes of `buf` as one word, most significant first,
/// each byte sign-extended before it is combined. A cursor at or past the end
/// goes back to the start before a byte is read.
pub fn next_u32_wrap(buf: &[u8], offset: &mut usize) -> (v: u32)
    requires
        buf@.len() > 0,
    ensures
        v == spec_key_word(buf@, wrap_pos(*old(offset) as int, buf@.len() as int), 4),
        1 <= *final(offset) <= buf@.len(),
        wrap_pos(*final(offset) as int, buf@.len() as int) == (wrap_pos(
            *old(offset) as int,
            buf@.len() as int,
        ) + 4) % (buf@.len() as int),
{
    let ghost len = buf@.len() as int;
    let ghost start = wrap_pos(*offset as int, len);
    let mut v: u32 = 0;
    let mut j: usize = 0;
    proof {
        vstd::arithmetic::div_mod::lemma_small_mod(start as nat, len as nat);
    }
    while j < 4
        invariant
            j <= 4,
            len == buf@.len(),
            len > 0,
            start >= 0,
            wrap_pos(*offset as int, len) == (start + j) % len,
            j > 0 ==> 1 <= *offset <= len,
            v == spec_key_word(buf@, start, j as nat),
        decreases 4 - j,
    {
        if *offset >= buf.len() {
            *offset = 0;
        }
        proof {
            lemma_wrap_step(start + j, len);
        }
        let b: u8 = buf[*offset];
        let wide: u32 = if b < 0x80 {
            b as u32
        } else {
            (b as u32) | 0xffff_ff00u32
        };
        v = (v << 8) | wide;
        *offset += 1;
        j += 1;
    }
    v
}

/// The cipher with its key material: the 18 subkeys and the four
/// substitution tables, table 0 first.
#[derive(Clone, Debug, PartialEq, Eq)]
pub struct Brokefish {
    s: [u32; 1024],
    p: [u32; 18],
}

impl View for Brokefish {
    type V = CipherState;

    closed spec fn view(&self) -> CipherState {
        CipherState { p: self.p@, s: self.s@ }
    }
}

impl Brokefish {
    /// Derives the key material from `key`, which is read as if it repeated
    /// without end.
    pub fn new(key: &[u8]) -> (bf: Brokefish)
        requires
            key@.len() > 0,
        ensures
            bf@ == spec_new(key@),
            bf@.wf(),
    {
        let mut bf = Brokefish { s: default_s(), p: default_p() };
        bf.expand_key(key);
        bf
    }

    /// Runs the key schedule: folds the key into the subkeys, then refills
    /// subkeys and tables with successive encryptions of a zero block.
    pub fn expand_key(&mut self, key: &[u8])
        requires
            key@.len() > 0,
        ensures
            final(self)@ == spec_expand_key(old(self)@, key@),
            final(self)@.wf(),
    {
        let ghost len = key@.len() as int;
        let mut key_pos: usize = 0;
        let mut i: usize = 0;
        proof {
            vstd::arithmetic::div_mod::lemma_small_mod(0, len as nat);
        }
        while i < 18
            invariant
                i <= 18,
                len == key@.len(),
                len > 0,
                self.s@ == old(self).s@,
                wrap_pos(key_pos as int, len) == (4 * i) % len,
                forall|k: int|
                    0 <= k < i ==> #[trigger] self.p@[k] == old(self).p@[k] ^ spec_key_word(
                        key@,
                        4 * k,
                        4,
                    ),
                forall|k: int| i <= k < 18 ==> #[trigger] self.p@[k] == old(self).p@[k],
            decreases 18 - i,
        {
            let word = next_u32_wrap(key, &mut key_pos);
            proof {
                lemma_key_word_mod(key@, 4 * i, 4);
                vstd::arithmetic::div_mod::lemma_add_mod_noop(4 * i, 4, len);
                vstd::arithmetic::div_mod::lemma_add_mod_noop((4 * i) % len, 4, len);
                vstd::arithmetic::div_mod::lemma_mod_twice(4 * i, len);
            }
            let mixed: u32 = self.p[i] ^ word;
            self.p[i] = mixed;
            i += 1;
        }
        let ghost mixed_state = CipherState { p: spec_key_xor(old(self)@.p, key@), s: old(self)@.s };
        assert(self.p@ =~= mixed_state.p);
        let mut lr: [u32; 2] = [0u32, 0u32];
        let mut n: usize = 0;
        while n < 521
            invariant
                n <= 521,
                self@.wf(),
                self@ == spec_fill(mixed_state, n as nat).0,
                (lr[0], lr[1]) == spec_fill(mixed_state, n as nat).1,
            decreases 521 - n,
        {
            lr = self.encrypt_block(lr);
            if n < 9 {
                self.p[2 * n] = lr[0];
                self.p[2 * n + 1] = lr[1];
            } else {
                self.s[2 * (n - 9)] = lr[0];
                self.s[2 * (n - 9) + 1] = lr[1];
            }
            n += 1;
        }
    }

    /// The round function applied to `x`.
    pub fn round_function(&self, x: u32) -> (y: u32)
        ensures
            y == spec_round_function(self@, x),
    {
        assert(x >> 24 < 256 && (x >> 16) & 0xff < 256 && (x >> 8) & 0xff < 256 && x & 0xff < 256)
            by (bit_vector);
        let a = self.s[(x >> 24) as usize];
        let b = self.s[256 + ((x >> 16) & 0xff) as usize];
        let c = self.s[512 + ((x >> 8) & 0xff) as usize];
        let d = self.s[768 + (x & 0xff) as usize];
        (a.wrapping_add(b) ^ c).wrapping_add(d)
    }

    /// Encrypts one block, given as its left and right words.
    pub fn encrypt_block(&self, lr: [u32; 2]) -> (out: [u32; 2])
        ensures
            (out[0], out[1]) == spec_encrypt_block(self@, (lr[0], lr[1])),
    {
        let mut l: u32 = lr[0];
        let mut r: u32 = lr[1];
        let mut i: usize = 0;
        while i < 8
            invariant
                i <= 8,
                (l, r) == spec_enc_rounds(self@, (lr[0], lr[1]), i as nat),
            decreases 8 - i,
        {
            l ^= self.p[2 * i];
            r ^= self.round_function(l);
            r ^= self.p[2 * i + 1];
            l ^= self.round_function(r);
            i += 1;
        }
        l ^= self.p[16];
        r ^= self.p[17];
        [r, l]
    }

    /// Decrypts one block, given as its left and right words.
    pub fn decrypt_block(&self, lr: [u32; 2]) -> (out: [u32; 2])
        ensures
            (out[0], out[1]) == spec_decrypt_block(self@, (lr[0], lr[1])),
    {
        let mut l: u32 = lr[0];
        let mut r: u32 = lr[1];
        let mut i: usize = 8;
        while i > 0
            invariant
                i <= 8,
                (l, r) == spec_dec_rounds(self@, (lr[0], lr[1]), (8 - i) as nat),
            decreases i,
        {
            l ^= self.p[2 * i + 1];
            r ^= self.round_function(l);
            r ^= self.p[2 * i];
            l ^= self.round_function(r);
            i -= 1;
        }
        l ^= self.p[1];
        r ^= self.p[0];
        [r, l]
    }

    /// Encrypts every full block of eight bytes of `data` on its own and
    /// carries a shorter rest at the end through unchanged.
    pub fn encrypt(&self, data: &[u8]) -> (out: Vec<u8>)
        ensures
            out@ == spec_encrypt(self@, data@),
            out@.len() == data@.len(),
    {
        let mut out: Vec<u8> = Vec::new();
        let mut i: usize = 0;
        assert(data@.skip(0) =~= data@);
        while data.len() - i >= 8
            invariant
                i <= data@.len(),
                out@ + spec_encrypt(self@, data@.skip(i as int)) == spec_encrypt(self@, data@),
            decreases data@.len() - i,
        {
            let l = read_u32_le(data, i);
            let r = read_u32_le(data, i + 4);
            let e = self.encrypt_block([l, r]);
            let ghost before = out@;
            let ghost rest = data@.skip(i as int);
            push_u32_le(&mut out, e[0]);
            push_u32_le(&mut out, e[1]);
            proof {
                assert(rest.skip(8) =~= data@.skip(i + 8));
                assert(spec_block_at(rest, 0) == (l, r));
                assert(out@ =~= before + spec_block_bytes((e[0], e[1])));
                assert(out@ + spec_encrypt(self@, data@.skip(i + 8)) =~= before + spec_encrypt(
                    self@,
                    rest,
                ));
            }
            i += 8;
        }
        while i < data.len()
            invariant
                i <= data@.len(),
                data@.len() - i < 8,
                out@ + data@.skip(i as int) == spec_encrypt(self@, data@),
            decreases data@.len() - i,
        {
            let ghost before = out@;
            out.push(data[i]);
            assert(out@ + data@.skip(i + 1) =~= before + data@.skip(i as int));
            i += 1;
        }
        proof {
            assert(out@ + data@.skip(i as int) =~= out@);
            lemma_encrypt_len(self@, data@);
        }
        out
    }

    /// Decrypts every full block of eight bytes of `data` on its own and
    /// carries a shorter rest at the end through unchanged: nothing is padded,
    /// and the result is as long as `data`.
    pub fn decrypt(&self, data: &[u8]) -> (out: Vec<u8>)
        ensures
            out@ == spec_decrypt(self@, data@),
            out@.len() == data@.len(),
    {
        let mut out: Vec<u8> = Vec::new();
        let mut i: usize = 0;
        assert(data@.skip(0) =~= data@);
        while data.len() - i >= 8
            invariant
                i <= data@.len(),
                out@ + spec_decrypt(self@, data@.skip(i as int)) == spec_decrypt(self@, data@),
            decreases data@.len() - i,
        {
            let l = read_u32_le(data, i);
            let r = read_u32_le(data, i + 4);
            let d = self.decrypt_block([l, r]);
            let ghost before = out@;
            let ghost rest = data@.skip(i as int);
            push_u32_le(&mut out, d[0]);
            push_u32_le(&mut out, d[1]);
            proof {
                assert(rest.skip(8) =~= data@.skip(i + 8));
                assert(spec_block_at(rest, 0) == (l, r));
                assert(out@ =~= before + spec_block_bytes((d[0], d[1])));
                assert(out@ + spec_decrypt(self@, data@.skip(i + 8)) =~= before + spec_decrypt(
                    self@,
                    rest,
                ));
            }
            i += 8;
        }
        while i < data.len()
            invariant
                i <= data@.len(),
                data@.len() - i < 8,
                out@ + data@.skip(i as int) == spec_decrypt(self@, data@),
            decreases data@.len() - i,
        {
            let ghost before = out@;
            out.push(data[i]);
            assert(out@ + data@.skip(i + 1) =~= before + data@.skip(i as int));
            i += 1;
        }
        proof {
            assert(out@ + data@.skip(i as int) =~= out@);
            lemma_decrypt_len(self@, data@);
        }
        out
    }
}

/// Subkey pair `k` applied to a block with its halves exchanged: what the
/// decryption rounds see after `k` rounds of encryption remain to be undone.
pub open spec fn spec_masked(st: CipherState, k: int, lr: Block) -> Block {
    (lr.1 ^ st.p[2 * k + 1], lr.0 ^ st.p[2 * k])
}

/// Decryption round `i` undoes encryption round `i - 1` under the masks.
proof fn lemma_round_undone(st: CipherState, i: int, lr: Block)
    requires
        1 <= i <= 8,
    ensures
        spec_dec_round(st, i, spec_masked(st, i, spec_enc_round(st, i - 1, lr))) == spec_masked(
            st,
            i - 1,
            lr,
        ),
{
    let l = lr.0;
    let r = lr.1;
    let pa = st.p[2 * (i - 1)];
    let pb = st.p[2 * (i - 1) + 1];
    let pc = st.p[2 * i];
    let pd = st.p[2 * i + 1];
    let l1 = l ^ pa;
    let f1 = spec_round_function(st, l1);
    let r1 = (r ^ f1) ^ pb;
    let f2 = spec_round_function(st, r1);
    let l2 = l1 ^ f2;
    assert(spec_enc_round(st, i - 1, lr) == (l2, r1));
    assert((r1 ^ pd) ^ pd == r1) by (bit_vector);
    assert((((l1 ^ f2) ^ pc) ^ f2) ^ pc == l1) by (bit_vector);
    assert((((r ^ f1) ^ pb) ^ f1) == r ^ pb) by (bit_vector);
}

/// After `n` decryption rounds on an encrypted block, the state is that of
/// `8 - n` encryption rounds under the masks of pair `8 - n`.
proof fn lemma_rounds_undone(st: CipherState, lr: Block, n: nat)
    requires
        n <= 8,
    ensures
        spec_dec_rounds(st, spec_encrypt_block(st, lr), n) == spec_masked(
            st,
            8 - n,
            spec_enc_rounds(st, lr, (8 - n) as nat),
        ),
    decreases n,
{
    if n > 0 {
        lemma_rounds_undone(st, lr, (n - 1) as nat);
        let inner = spec_enc_rounds(st, lr, (8 - n) as nat);
        assert(spec_enc_rounds(st, lr, (9 - n) as nat) == spec_enc_round(st, 8 - n, inner));
        lemma_round_undone(st, 9 - n, inner);
    }
}

/// Decrypting an encrypted block gives the block back, whatever the key
/// material holds.
pub proof fn lemma_decrypt_encrypt_block(st: CipherState, lr: Block)
    ensures
        spec_decrypt_block(st, spec_encrypt_block(st, lr)) == lr,
{
    lemma_rounds_undone(st, lr, 8);
    let l = lr.0;
    let r = lr.1;
    let first = st.p[0];
    let second = st.p[1];
    assert(spec_enc_rounds(st, lr, 0) == lr);
    assert((l ^ first) ^ first == l) by (bit_vector);
    assert((r ^ second) ^ second == r) by (bit_vector);
}

/// The block whose two words stand, little-endian, in the eight bytes at `i`.
pub open spec fn spec_block_at(data: Seq<u8>, i: int) -> Block {
    (spec_u32_le(data, i), spec_u32_le(data, i + 4))
}

/// The eight bytes of a block: each word little-endian, left word first.
pub open spec fn spec_block_bytes(lr: Block) -> Seq<u8> {
    u32_le_bytes(lr.0) + u32_le_bytes(lr.1)
}

/// Encryption of a buffer: every full block of eight bytes is encrypted on
/// its own; a shorter rest at the end is kept as it is.
pub open spec fn spec_encrypt(st: CipherState, data: Seq<u8>) -> Seq<u8>
    decreases data.len(),
{
    if data.len() < 8 {
        data
    } else {
        spec_block_bytes(spec_encrypt_block(st, spec_block_at(data, 0))) + spec_encrypt(
            st,
            data.skip(8),
        )
    }
}

/// Decryption of a buffer: every full block of eight bytes is decrypted on
/// its own; a shorter rest at the end is kept as it is.
pub open spec fn spec_decrypt(st: CipherState, data: Seq<u8>) -> Seq<u8>
    decreases data.len(),
{
    if data.len() < 8 {
        data
    } else {
        spec_block_bytes(spec_decrypt_block(st, spec_block_at(data, 0))) + spec_decrypt(
            st,
            data.skip(8),
        )
    }
}

/// Encryption keeps the length of a buffer.
pub proof fn lemma_encrypt_len(st: CipherState, data: Seq<u8>)
    ensures
        spec_encrypt(st, data).len() == data.len(),
    decreases data.len(),
{
    if data.len() >= 8 {
        lemma_encrypt_len(st, data.skip(8));
    }
}

/// Decryption keeps the length of a buffer.
pub proof fn lemma_decrypt_len(st: CipherState, data: Seq<u8>)
    ensures
        spec_decrypt(st, data).len() == data.len(),
    decreases data.len(),
{
    if data.len() >= 8 {
        lemma_decrypt_len(st, data.skip(8));
    }
}

/// The block read from the front of a block's bytes followed by anything is
/// that block.
proof fn lemma_block_at_front(lr: Block, rest: Seq<u8>)
    ensures
        spec_block_at(spec_block_bytes(lr) + rest, 0) == lr,
        (spec_block_bytes(lr) + rest).skip(8) == rest,
        spec_block_bytes(lr).len() == 8,
{
    let c = spec_block_bytes(lr) + rest;
    lemma_u32_le_round_trip(lr.0);
    lemma_u32_le_round_trip(lr.1);
    let a = u32_le_bytes(lr.0);
    let b = u32_le_bytes(lr.1);
    assert(c[0] == a[0] && c[1] == a[1] && c[2] == a[2] && c[3] == a[3]);
    assert(c[4] == b[0] && c[5] == b[1] && c[6] == b[2] && c[7] == b[3]);
    assert(c.skip(8) =~= rest);
}

/// The bytes of the block read at the front of a buffer are its first eight.
proof fn lemma_block_bytes_of_front(data: Seq<u8>)
    requires
        data.len() >= 8,
    ensures
        spec_block_bytes(spec_block_at(data, 0)) + data.skip(8) == data,
{
    lemma_u32_le_bytes_of_read(data, 0);
    lemma_u32_le_bytes_of_read(data, 4);
    assert(data.subrange(0, 4) + data.subrange(4, 8) + data.skip(8) =~= data);
}

/// Decrypting what was encrypted under the same key material gives the
/// buffer back, for a buffer of any length.
pub proof fn lemma_decrypt_encrypt(st: CipherState, data: Seq<u8>)
    ensures
        spec_decrypt(st, spec_encrypt(st, data)) == data,
    decreases data.len(),
{
    if data.len() >= 8 {
        let b = spec_block_at(data, 0);
        let e = spec_encrypt_block(st, b);
        let rest = spec_encrypt(st, data.skip(8));
        lemma_block_at_front(e, rest);
        lemma_decrypt_encrypt_block(st, b);
        lemma_decrypt_encrypt(st, data.skip(8));
        lemma_block_bytes_of_front(data);
    }
}

/// `st` with its subkeys in reverse order.
pub open spec fn spec_reversed(st: CipherState) -> CipherState {
    CipherState { p: Seq::new(18, |j: int| st.p[17 - j]), s: st.s }
}

/// Decryption is encryption under the reversed subkeys, round by round, and
/// the other way about.
proof fn lemma_reversed_rounds(st: CipherState, lr: Block, n: nat)
    requires
        st.wf(),
        n <= 8,
    ensures
        spec_enc_rounds(spec_reversed(st), lr, n) == spec_dec_rounds(st, lr, n),
        spec_dec_rounds(spec_reversed(st), lr, n) == spec_enc_rounds(st, lr, n),
    decreases n,
{
    if n > 0 {
        lemma_reversed_rounds(st, lr, (n - 1) as nat);
    }
}

/// Encrypting a decrypted block gives the block back.
pub proof fn lemma_encrypt_decrypt_block(st: CipherState, lr: Block)
    requires
        st.wf(),
    ensures
        spec_encrypt_block(st, spec_decrypt_block(st, lr)) == lr,
{
    let rev = spec_reversed(st);
    lemma_reversed_rounds(st, lr, 8);
    assert(spec_encrypt_block(rev, lr) == spec_decrypt_block(st, lr));
    let mid = spec_decrypt_block(st, lr);
    lemma_reversed_rounds(st, mid, 8);
    assert(spec_decrypt_block(rev, mid) == spec_encrypt_block(st, mid));
    lemma_decrypt_encrypt_block(rev, lr);
}

/// Encrypting what was decrypted under the same key material gives the
/// buffer back, for a buffer of any length.
pub proof fn lemma_encrypt_decrypt(st: CipherState, data: Seq<u8>)
    requires
        st.wf(),
    ensures
        spec_encrypt(st, spec_decrypt(st, data)) == data,
    decreases data.len(),
{
    if data.len() >= 8 {
        let b = spec_block_at(data, 0);
        let d = spec_decrypt_block(st, b);
        let rest = spec_decrypt(st, data.skip(8));
        lemma_block_at_front(d, rest);
        lemma_encrypt_decrypt_block(st, b);
        lemma_encrypt_decrypt(st, data.skip(8));
        lemma_block_bytes_of_front(data);
    }
}

/// Two ciphers made from the same key bytes hold the same subkeys and the
/// same substitution tables.
pub proof fn lemma_same_key_same_state(a: Brokefish, b: Brokefish, key: Seq<u8>)
    requires
        a@ == spec_new(key),
        b@ == spec_new(key),
    ensures
        a@ == b@,
        a == b,
{
    assert(a.p@ == b.p@);
    assert(a.s@ == b.s@);
    vstd::array::axiom_array_ext_equal(a.p, b.p);
    vstd::array::axiom_array_ext_equal(a.s, b.s);
    assert(a.p =~= b.p);
    assert(a.s =~= b.s);
}

} // verus!
