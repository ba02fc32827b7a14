//! The 16-byte block transform: byte substitution, row rotation, column
//! mixing and round-key xor, and the round-driven block encryption and
//! decryption built from them.
use vstd::prelude::*;

use crate::AESError;
use crate::gf;
use crate::gf::gf_mul;
use crate::gf::mix_entry;
use crate::sbox;
use crate::sbox::INV_S_BOX;
use crate::sbox::S_BOX;
use crate::sbox::inv_s_box_at;
use crate::sbox::s_box_at;
use vstd::slice::slice_subrange;

verus! {

/// Marker type for plaintext-phase values.
#[derive(Debug)]
pub struct DecryptedState;

/// Marker type for ciphertext-phase values.
#[derive(Debug)]
pub struct EncryptedState;

/// One 16-byte block, read as a 4x4 matrix in row-major order (byte index
/// `4 * row + col`). The `State` marker records whether the contents are
/// plaintext or ciphertext, so a block cannot be encrypted or decrypted
/// twice: `encrypt` exists only on plaintext blocks and `decrypt` only on
/// ciphertext blocks.
#[derive(Debug)]
pub struct AESBlock<State = DecryptedState> {
    grid: Vec<u8>,
    state: core::marker::PhantomData<State>,
}

impl<State> View for AESBlock<State> {
    type V = Seq<u8>;

    closed spec fn view(&self) -> Seq<u8> {
        self.grid@
    }
}

impl<State> AESBlock<State> {
    /// A block always holds exactly 16 bytes.
    #[verifier::type_invariant]
    closed spec fn well_formed(self) -> bool {
        self.grid@.len() == 16
    }
}

/// The byte sequences of a schedule's round keys, in order.
pub open spec fn keys_view(roundkeys: Seq<Vec<u8>>) -> Seq<Seq<u8>> {
    Seq::new(roundkeys.len(), |i: int| roundkeys[i]@)
}

/// A schedule a block transform accepts: at least two round keys, each of
/// exactly 16 bytes.
pub open spec fn wf_schedule(keys: Seq<Seq<u8>>) -> bool {
    &&& keys.len() >= 2
    &&& forall|i: int| 0 <= i < keys.len() ==> (#[trigger] keys[i]).len() == 16
}

/// Every byte pushed through the forward substitution table.
pub open spec fn sub_bytes_spec(s: Seq<u8>) -> Seq<u8> {
    Seq::new(s.len(), |i: int| s_box_at(s[i]))
}

/// Every byte pushed through the inverse substitution table.
pub open spec fn inv_sub_bytes_spec(s: Seq<u8>) -> Seq<u8> {
    Seq::new(s.len(), |i: int| inv_s_box_at(s[i]))
}

/// A row rotated left by `shift` positions: the byte at index `i` of the
/// result is the byte `shift` further along the row, wrapping around.
pub open spec fn shift_row_spec(row: Seq<u8>, shift: int) -> Seq<u8> {
    Seq::new(row.len(), |i: int| row[(i + shift) % (row.len() as int)])
}

/// The forward row rotation of a 16-byte grid: row `r` rotated left by `r`.
pub open spec fn shift_grid_spec(s: Seq<u8>) -> Seq<u8>
    recommends
        s.len() == 16,
{
    shift_row_spec(s.subrange(0, 4), 0) + shift_row_spec(s.subrange(4, 8), 1) + shift_row_spec(
        s.subrange(8, 12),
        2,
    ) + shift_row_spec(s.subrange(12, 16), 3)
}

/// The inverse row rotation: row `r` rotated left by `4 - r`, which undoes
/// the forward rotation.
pub open spec fn inv_shift_grid_spec(s: Seq<u8>) -> Seq<u8>
    recommends
        s.len() == 16,
{
    shift_row_spec(s.subrange(0, 4), 4) + shift_row_spec(s.subrange(4, 8), 3) + shift_row_spec(
        s.subrange(8, 12),
        2,
    ) + shift_row_spec(s.subrange(12, 16), 1)
}

/// Row `r` of the forward mixing matrix applied to a column.
pub open spec fn mix_fwd_row(r: int, a0: u8, a1: u8, a2: u8, a3: u8) -> u8 {
    if r == 0 {
        mix_entry(2, 3, 1, 1, a0, a1, a2, a3)
    } else if r == 1 {
        mix_entry(1, 2, 3, 1, a0, a1, a2, a3)
    } else if r == 2 {
        mix_entry(1, 1, 2, 3, a0, a1, a2, a3)
    } else {
        mix_entry(3, 1, 1, 2, a0, a1, a2, a3)
    }
}

/// Row `r` of the inverse mixing matrix applied to a column.
pub open spec fn mix_inv_row(r: int, a0: u8, a1: u8, a2: u8, a3: u8) -> u8 {
    if r == 0 {
        mix_entry(14, 11, 13, 9, a0, a1, a2, a3)
    } else if r == 1 {
        mix_entry(9, 14, 11, 13, a0, a1, a2, a3)
    } else if r == 2 {
        mix_entry(13, 9, 14, 11, a0, a1, a2, a3)
    } else {
        mix_entry(11, 13, 9, 14, a0, a1, a2, a3)
    }
}

/// Forward column mixing of a 16-byte grid: each of the four columns is
/// multiplied by the circulant matrix with rows `(2, 3, 1, 1)`.
pub open spec fn mix_columns_spec(s: Seq<u8>) -> Seq<u8>
    recommends
        s.len() == 16,
{
    Seq::new(16, |i: int| mix_fwd_row(i / 4, s[i % 4], s[4 + i % 4], s[8 + i % 4], s[12 + i % 4]))
}

/// Inverse column mixing: each column multiplied by the circulant matrix
/// with rows `(14, 11, 13, 9)`.
pub open spec fn inv_mix_columns_spec(s: Seq<u8>) -> Seq<u8>
    recommends
        s.len() == 16,
{
    Seq::new(16, |i: int| mix_inv_row(i / 4, s[i % 4], s[4 + i % 4], s[8 + i % 4], s[12 + i % 4]))
}

/// The byte-wise xor of a grid with a round key.
pub open spec fn add_roundkey_spec(s: Seq<u8>, k: Seq<u8>) -> Seq<u8>
    recommends
        s.len() <= k.len(),
{
    Seq::new(s.len(), |i: int| s[i] ^ k[i])
}

/// One encryption round: substitute, rotate rows, mix columns, add the key.
pub open spec fn encrypt_round_spec(s: Seq<u8>, k: Seq<u8>) -> Seq<u8> {
    add_roundkey_spec(mix_columns_spec(shift_grid_spec(sub_bytes_spec(s))), k)
}

/// The encryption rounds with keys `i .. keys.len()`, applied in order.
pub open spec fn encrypt_rounds_spec(s: Seq<u8>, keys: Seq<Seq<u8>>, i: int) -> Seq<u8>
    decreases keys.len() - i,
{
    if i < 0 || i >= keys.len() {
        s
    } else {
        encrypt_rounds_spec(encrypt_round_spec(s, keys[i]), keys, i + 1)
    }
}

/// Block encryption: add the first round key, then run one round for each
/// remaining key. Column mixing runs on every round, the last one included.
pub open spec fn encrypt_block_spec(s: Seq<u8>, keys: Seq<Seq<u8>>) -> Seq<u8>
    recommends
        s.len() == 16,
        wf_schedule(keys),
{
    encrypt_rounds_spec(add_roundkey_spec(s, keys[0]), keys, 1)
}

/// One decryption round: unmix columns, rotate rows back, substitute back,
/// add the key.
pub open spec fn decrypt_round_spec(s: Seq<u8>, k: Seq<u8>) -> Seq<u8> {
    add_roundkey_spec(inv_sub_bytes_spec(inv_shift_grid_spec(inv_mix_columns_spec(s))), k)
}

/// The decryption rounds with keys `j, j - 1, .., 0`, applied in order.
pub open spec fn decrypt_rounds_spec(s: Seq<u8>, keys: Seq<Seq<u8>>, j: int) -> Seq<u8>
    decreases j + 1,
{
    if j < 0 || j >= keys.len() {
        s
    } else {
        decrypt_rounds_spec(decrypt_round_spec(s, keys[j]), keys, j - 1)
    }
}

/// Block decryption: add the last round key, then run one round for each
/// remaining key, walking the schedule backwards.
pub open spec fn decrypt_block_spec(s: Seq<u8>, keys: Seq<Seq<u8>>) -> Seq<u8>
    recommends
        s.len() == 16,
        wf_schedule(keys),
{
    decrypt_rounds_spec(add_roundkey_spec(s, keys[keys.len() - 1]), keys, keys.len() - 2)
}

/// Checks that a schedule has at least two round keys of 16 bytes each.
fn schedule_ok(roundkeys: &Vec<Vec<u8>>) -> (ok: bool)
    ensures
        ok == wf_schedule(keys_view(roundkeys@)),
{
    if roundkeys.len() < 2 {
        return false;
    }
    let mut i: usize = 0;
    while i < roundkeys.len()
        invariant
            i <= roundkeys@.len(),
            forall|j: int| 0 <= j < i ==> (#[trigger] keys_view(roundkeys@)[j]).len() == 16,
        decreases roundkeys@.len() - i,
    {
        if roundkeys[i].len() != 16 {
            assert(keys_view(roundkeys@)[i as int].len() != 16);
            return false;
        }
        i = i + 1;
    }
    true
}

impl<State> AESBlock<State> {
    /// The 16 bytes the block holds.
    pub fn bytes(&self) -> (r: &Vec<u8>)
        ensures
            r@ == self@,
            r@.len() == 16,
    {
        proof {
            use_type_invariant(self);
        }
        &self.grid
    }

    /// Multiplies two bytes in GF(2^8) by the shift-and-xor method: eight
    /// times over, xor `a` into the result when the low bit of `b` is set,
    /// then double `a` in the field and shift `b` down one bit.
    pub fn multiply(&self, a: u8, b: u8) -> (r: u8)
        ensures
            r == gf_mul(a, b),
    {
        let ghost a0 = a;
        let ghost b0 = b;
        let mut a = a;
        let mut b = b;
        let mut result: u8 = 0;
        let mut temp: u8;
        proof {
            gf::lemma_xor_zero(gf_mul(a, b));
        }
        while b > 0
            invariant
                gf_mul(a0, b0) == result ^ gf_mul(a, b),
            decreases b,
        {
            proof {
                gf::lemma_gf_mul_unfold(a, b);
                gf::lemma_shr_decreases(b);
                if b & 1 == 1 {
                    gf::lemma_xor_assoc(result, a, gf_mul(gf::xtime(a), b >> 1));
                } else {
                    gf::lemma_xor_zero(gf_mul(gf::xtime(a), b >> 1));
                }
            }
            if (b & 1) > 0 {
                result ^= a;
            }
            temp = a & 0x80;
            a <<= 1;
            if temp > 0 {
                a ^= 0x1b;  // reduce by the Rijndael polynomial
            } else {
                proof {
                    gf::lemma_xor_zero(a);
                }
            }
            b >>= 1;
        }
        proof {
            gf::lemma_gf_mul_identity(a);
            gf::lemma_xor_zero(result);
        }
        result
    }

    /// Rotates a 4-byte row left by `shift` positions.
    pub fn shift_row(&self, row: &[u8], shift: &usize) -> (r: Vec<u8>)
        requires
            row@.len() == 4,
            *shift <= 4,
        ensures
            r@ == shift_row_spec(row@, *shift as int),
    {
        let mut result: Vec<u8> = Vec::new();
        let mut i: usize = 0;
        while i < 4
            invariant
                i <= 4,
                row@.len() == 4,
                *shift <= 4,
                result@.len() == i,
                forall|j: int| 0 <= j < i ==> result@[j] == row@[(j + *shift as int) % 4],
            decreases 4 - i,
        {
            result.push(row[(i + *shift) % 4]);
            i = i + 1;
        }
        assert(result@ =~= shift_row_spec(row@, *shift as int));
        result
    }

    /// Xors the grid byte-wise with a round key.
    pub fn add_roundkey(&self, data: &[u8], roundkey: &[u8]) -> (r: Vec<u8>)
        requires
            data@.len() <= roundkey@.len(),
        ensures
            r@ == add_roundkey_spec(data@, roundkey@),
    {
        let mut result: Vec<u8> = Vec::new();
        let mut i: usize = 0;
        while i < data.len()
            invariant
                i <= data@.len(),
                data@.len() <= roundkey@.len(),
                result@.len() == i,
                forall|j: int| 0 <= j < i ==> result@[j] == (data@[j] ^ roundkey@[j]),
            decreases data@.len() - i,
        {
            result.push(data[i] ^ roundkey[i]);
            i = i + 1;
        }
        assert(result@ =~= add_roundkey_spec(data@, roundkey@));
        result
    }
}

impl AESBlock<DecryptedState> {
    /// Wraps 16 plaintext bytes as a block; any other length is rejected.
    pub fn new(data: Vec<u8>) -> (r: Result<AESBlock<DecryptedState>, AESError>)
        ensures
            data@.len() == 16 ==> (r matches Ok(b) && b@ == data@),
            data@.len() != 16 ==> (r matches Err(e) && e == AESError::InvalidBlockLength),
    {
        if data.len() == 16 {
            Ok(AESBlock { grid: data, state: core::marker::PhantomData })
        } else {
            Err(AESError::InvalidBlockLength)
        }
    }

    /// Wraps 16 plaintext bytes whose length the caller has already checked.
    pub(crate) fn from_bytes(data: Vec<u8>) -> (r: AESBlock<DecryptedState>)
        requires
            data@.len() == 16,
        ensures
            r@ == data@,
    {
        AESBlock { grid: data, state: core::marker::PhantomData }
    }

    /// Replaces each byte through the forward substitution table.
    pub fn sub_bytes(&self, data: &[u8]) -> (r: Vec<u8>)
        ensures
            r@ == sub_bytes_spec(data@),
    {
        let mut result: Vec<u8> = Vec::new();
        let mut i: usize = 0;
        while i < data.len()
            invariant
                i <= data@.len(),
                result@.len() == i,
                forall|j: int| 0 <= j < i ==> result@[j] == s_box_at(data@[j]),
            decreases data@.len() - i,
        {
            result.push(S_BOX[data[i] as usize]);
            i = i + 1;
        }
        assert(result@ =~= sub_bytes_spec(data@));
        result
    }

    /// Rotates row `r` of the grid left by `r` positions; row 0 is unchanged.
    pub fn shift_grid(&self, data: &[u8]) -> (r: Vec<u8>)
        requires
            data@.len() == 16,
        ensures
            r@ == shift_grid_spec(data@),
    {
        let mut result = self.shift_row(slice_subrange(data, 0, 4), &0);
        let mut row1 = self.shift_row(slice_subrange(data, 4, 8), &1);
        let mut row2 = self.shift_row(slice_subrange(data, 8, 12), &2);
        let mut row3 = self.shift_row(slice_subrange(data, 12, 16), &3);
        result.append(&mut row1);
        result.append(&mut row2);
        result.append(&mut row3);
        result
    }

    /// Multiplies one 4-byte column by the forward mixing matrix.
    pub fn mix_column(&self, data: &[u8]) -> (r: Vec<u8>)
        requires
            data@.len() >= 4,
        ensures
            r@.len() == 4,
            forall|j: int|
                0 <= j < 4 ==> r@[j] == mix_fwd_row(j, data@[0], data@[1], data@[2], data@[3]),
    {
        let mut result: Vec<u8> = Vec::new();
        result.push(
            self.multiply(0x02, data[0]) ^ self.multiply(0x03, data[1]) ^ self.multiply(
                0x01,
                data[2],
            ) ^ self.multiply(0x01, data[3]),
        );
        result.push(
            self.multiply(0x01, data[0]) ^ self.multiply(0x02, data[1]) ^ self.multiply(
                0x03,
                data[2],
            ) ^ self.multiply(0x01, data[3]),
        );
        result.push(
            self.multiply(0x01, data[0]) ^ self.multiply(0x01, data[1]) ^ self.multiply(
                0x02,
                data[2],
            ) ^ self.multiply(0x03, data[3]),
        );
        result.push(
            self.multiply(0x03, data[0]) ^ self.multiply(0x01, data[1]) ^ self.multiply(
                0x01,
                data[2],
            ) ^ self.multiply(0x02, data[3]),
        );
        result
    }

    /// Applies the forward column mixing to each of the grid's four columns.
    pub fn mix_columns(&self, data: &[u8]) -> (r: Vec<u8>)
        requires
            data@.len() == 16,
        ensures
            r@ == mix_columns_spec(data@),
    {
        let mut c0: Vec<u8> = Vec::new();
        c0.push(data[0]);
        c0.push(data[4]);
        c0.push(data[8]);
        c0.push(data[12]);
        let mut c1: Vec<u8> = Vec::new();
        c1.push(data[1]);
        c1.push(data[5]);
        c1.push(data[9]);
        c1.push(data[13]);
        let mut c2: Vec<u8> = Vec::new();
        c2.push(data[2]);
        c2.push(data[6]);
        c2.push(data[10]);
        c2.push(data[14]);
        let mut c3: Vec<u8> = Vec::new();
        c3.push(data[3]);
        c3.push(data[7]);
        c3.push(data[11]);
        c3.push(data[15]);
        let col1 = self.mix_column(c0.as_slice());
        let col2 = self.mix_column(c1.as_slice());
        let col3 = self.mix_column(c2.as_slice());
        let col4 = self.mix_column(c3.as_slice());
        let mut result: Vec<u8> = Vec::new();
        result.push(col1[0]);
        result.push(col2[0]);
        result.push(col3[0]);
        result.push(col4[0]);
        result.push(col1[1]);
        result.push(col2[1]);
        result.push(col3[1]);
        result.push(col4[1]);
        result.push(col1[2]);
        result.push(col2[2]);
        result.push(col3[2]);
        result.push(col4[2]);
        result.push(col1[3]);
        result.push(col2[3]);
        result.push(col3[3]);
        result.push(col4[3]);
        assert(result@ =~= mix_columns_spec(data@));
        result
    }
}

impl AESBlock<DecryptedState> {
    /// Encrypts the block under the given schedule: the first round key is
    /// added, then every remaining key drives one round of substitution, row
    /// rotation, column mixing and key addition. Succeeds exactly when the
    /// schedule has at least two round keys of 16 bytes each.
    pub fn encrypt(&self, roundkeys: &Vec<Vec<u8>>) -> (r: Result<
        AESBlock<EncryptedState>,
        AESError,
    >)
        ensures
            wf_schedule(keys_view(roundkeys@)) ==> (r matches Ok(b) && b@ == encrypt_block_spec(
                self@,
                keys_view(roundkeys@),
            )),
            !wf_schedule(keys_view(roundkeys@)) ==> (r matches Err(e) && e
                == AESError::ShortSchedule),
    {
        proof {
            use_type_invariant(self);
        }
        if !schedule_ok(roundkeys) {
            return Err(AESError::ShortSchedule);
        }
        let ghost kv = keys_view(roundkeys@);
        let ghost orig = self.grid@;
        proof {
            assert(roundkeys@[0]@ == kv[0]);
        }
        let mut state = self.add_roundkey(self.grid.as_slice(), roundkeys[0].as_slice());
        let mut round: usize = 1;
        while round < roundkeys.len()
            invariant
                1 <= round <= roundkeys@.len(),
                kv == keys_view(roundkeys@),
                wf_schedule(kv),
                state@.len() == 16,
                encrypt_rounds_spec(state@, kv, round as int) == encrypt_block_spec(orig, kv),
            decreases roundkeys@.len() - round,
        {
            let ghost prev = state@;
            state = self.sub_bytes(state.as_slice());
            state = self.shift_grid(state.as_slice());
            state = self.mix_columns(state.as_slice());
            state = self.add_roundkey(state.as_slice(), roundkeys[round].as_slice());
            proof {
                assert(state@ == encrypt_round_spec(prev, kv[round as int]));
            }
            round = round + 1;
        }
        Ok(AESBlock { grid: state, state: core::marker::PhantomData })
    }
}

impl AESBlock<EncryptedState> {
    /// Decrypts the block under the given schedule, walking the round keys
    /// backwards and running the inverse of each encryption step. Succeeds
    /// exactly when the schedule has at least two round keys of 16 bytes
    /// each.
    pub fn decrypt(&self, roundkeys: &Vec<Vec<u8>>) -> (r: Result<
        AESBlock<DecryptedState>,
        AESError,
    >)
        ensures
            wf_schedule(keys_view(roundkeys@)) ==> (r matches Ok(b) && b@ == decrypt_block_spec(
                self@,
                keys_view(roundkeys@),
            )),
            !wf_schedule(keys_view(roundkeys@)) ==> (r matches Err(e) && e
                == AESError::ShortSchedule),
    {
        proof {
            use_type_invariant(self);
        }
        if !schedule_ok(roundkeys) {
            return Err(AESError::ShortSchedule);
        }
        let ghost kv = keys_view(roundkeys@);
        let ghost orig = self.grid@;
        proof {
            assert(roundkeys@[roundkeys@.len() - 1]@ == kv[kv.len() - 1]);
        }
        let mut state = self.add_roundkey(
            self.grid.as_slice(),
            roundkeys[roundkeys.len() - 1].as_slice(),
        );
        let mut round: usize = roundkeys.len() - 1;
        while round > 0
            invariant
                round <= roundkeys@.len() - 1,
                kv == keys_view(roundkeys@),
                wf_schedule(kv),
                state@.len() == 16,
                decrypt_rounds_spec(state@, kv, round as int - 1) == decrypt_block_spec(orig, kv),
            decreases round,
        {
            let ghost prev = state@;
            state = self.mix_columns(state.as_slice());
            state = self.shift_grid(state.as_slice());
            state = self.sub_bytes(state.as_slice());
            state = self.add_roundkey(state.as_slice(), roundkeys[round - 1].as_slice());
            proof {
                assert(state@ == decrypt_round_spec(prev, kv[round as int - 1]));
            }
            round = round - 1;
        }
        Ok(AESBlock { grid: state, state: core::marker::PhantomData })
    }
}

impl AESBlock<EncryptedState> {
    /// Wraps 16 ciphertext bytes as a block; any other length is rejected.
    pub fn new(data: Vec<u8>) -> (r: Result<AESBlock<EncryptedState>, AESError>)
        ensures
            data@.len() == 16 ==> (r matches Ok(b) && b@ == data@),
            data@.len() != 16 ==> (r matches Err(e) && e == AESError::InvalidBlockLength),
    {
        if data.len() == 16 {
            Ok(AESBlock { grid: data, state: core::marker::PhantomData })
        } else {
            Err(AESError::InvalidBlockLength)
        }
    }

    /// Wraps 16 ciphertext bytes whose length the caller has already checked.
    pub(crate) fn from_bytes(data: Vec<u8>) -> (r: AESBlock<EncryptedState>)
        requires
            data@.len() == 16,
        ensures
            r@ == data@,
    {
        AESBlock { grid: data, state: core::marker::PhantomData }
    }

    /// Replaces each byte through the inverse substitution table.
    pub fn sub_bytes(&self, data: &[u8]) -> (r: Vec<u8>)
        ensures
            r@ == inv_sub_bytes_spec(data@),
    {
        let mut result: Vec<u8> = Vec::new();
        let mut i: usize = 0;
        while i < data.len()
            invariant
                i <= data@.len(),
                result@.len() == i,
                forall|j: int| 0 <= j < i ==> result@[j] == inv_s_box_at(data@[j]),
            decreases data@.len() - i,
        {
            result.push(INV_S_BOX[data[i] as usize]);
            i = i + 1;
        }
        assert(result@ =~= inv_sub_bytes_spec(data@));
        result
    }

    /// Rotates row `r` of the grid left by `4 - r` positions, undoing the
    /// forward rotation.
    pub fn shift_grid(&self, data: &[u8]) -> (r: Vec<u8>)
        requires
            data@.len() == 16,
        ensures
            r@ == inv_shift_grid_spec(data@),
    {
        let mut result = self.shift_row(slice_subrange(data, 0, 4), &4);
        let mut row1 = self.shift_row(slice_subrange(data, 4, 8), &3);
        let mut row2 = self.shift_row(slice_subrange(data, 8, 12), &2);
        let mut row3 = self.shift_row(slice_subrange(data, 12, 16), &1);
        result.append(&mut row1);
        result.append(&mut row2);
        result.append(&mut row3);
        result
    }

    /// Multiplies one 4-byte column by the inverse mixing matrix.
    pub fn mix_column(&self, data: &[u8]) -> (r: Vec<u8>)
        requires
            data@.len() >= 4,
        ensures
            r@.len() == 4,
            forall|j: int|
                0 <= j < 4 ==> r@[j] == mix_inv_row(j, data@[0], data@[1], data@[2], data@[3]),
    {
        let mut result: Vec<u8> = Vec::new();
        result.push(
            self.multiply(0x0e, data[0]) ^ self.multiply(0x0b, data[1]) ^ self.multiply(
                0x0d,
                data[2],
            ) ^ self.multiply(0x09, data[3]),
        );
        result.push(
            self.multiply(0x09, data[0]) ^ self.multiply(0x0e, data[1]) ^ self.multiply(
                0x0b,
                data[2],
            ) ^ self.multiply(0x0d, data[3]),
        );
        result.push(
            self.multiply(0x0d, data[0]) ^ self.multiply(0x09, data[1]) ^ self.multiply(
                0x0e,
                data[2],
            ) ^ self.multiply(0x0b, data[3]),
        );
        result.push(
            self.multiply(0x0b, data[0]) ^ self.multiply(0x0d, data[1]) ^ self.multiply(
                0x09,
                data[2],
            ) ^ self.multiply(0x0e, data[3]),
        );
        result
    }

    /// Applies the inverse column mixing to each of the grid's four columns.
    pub fn mix_columns(&self, data: &[u8]) -> (r: Vec<u8>)
        requires
            data@.len() == 16,
        ensures
            r@ == inv_mix_columns_spec(data@),
    {
        let mut c0: Vec<u8> = Vec::new();
        c0.push(data[0]);
        c0.push(data[4]);
        c0.push(data[8]);
        c0.push(data[12]);
        let mut c1: Vec<u8> = Vec::new();
        c1.push(data[1]);
        c1.push(data[5]);
        c1.push(data[9]);
        c1.push(data[13]);
        let mut c2: Vec<u8> = Vec::new();
        c2.push(data[2]);
        c2.push(data[6]);
        c2.push(data[10]);
        c2.push(data[14]);
        let mut c3: Vec<u8> = Vec::new();
        c3.push(data[3]);
        c3.push(data[7]);
        c3.push(data[11]);
        c3.push(data[15]);
        let col1 = self.mix_column(c0.as_slice());
        let col2 = self.mix_column(c1.as_slice());
        let col3 = self.mix_column(c2.as_slice());
        let col4 = self.mix_column(c3.as_slice());
        let mut result: Vec<u8> = Vec::new();
        result.push(col1[0]);
        result.push(col2[0]);
        result.push(col3[0]);
        result.push(col4[0]);
        result.push(col1[1]);
        result.push(col2[1]);
        result.push(col3[1]);
        result.push(col4[1]);
        result.push(col1[2]);
        result.push(col2[2]);
        result.push(col3[2]);
        result.push(col4[2]);
        result.push(col1[3]);
        result.push(col2[3]);
        result.push(col3[3]);
        result.push(col4[3]);
        assert(result@ =~= inv_mix_columns_spec(data@));
        result
    }
}

/// Adding the same round key twice gives the grid back.
proof fn lemma_add_roundkey_involutes(s: Seq<u8>, k: Seq<u8>)
    requires
        s.len() <= k.len(),
    ensures
        add_roundkey_spec(add_roundkey_spec(s, k), k) == s,
{
    let t = add_roundkey_spec(add_roundkey_spec(s, k), k);
    assert forall|i: int| 0 <= i < s.len() implies t[i] == s[i] by {
        gf::lemma_xor_cancel(s[i], k[i]);
    }
    assert(t =~= s);
}

/// The inverse substitution undoes the forward substitution on every grid.
proof fn lemma_sub_bytes_inverse(s: Seq<u8>)
    ensures
        inv_sub_bytes_spec(sub_bytes_spec(s)) == s,
{
    sbox::lemma_s_box_inverse();
    assert(inv_sub_bytes_spec(sub_bytes_spec(s)) =~= s);
}

/// The inverse row rotation undoes the forward rotation on a 16-byte grid.
proof fn lemma_shift_grid_inverse(s: Seq<u8>)
    requires
        s.len() == 16,
    ensures
        inv_shift_grid_spec(shift_grid_spec(s)) == s,
{
    let f = shift_grid_spec(s);
    assert(f.len() == 16);
    let g = inv_shift_grid_spec(f);
    assert forall|i: int| 0 <= i < 16 implies g[i] == s[i] by {
        if i < 4 {
            assert(g[i] == f[(i + 4) % 4]);
            assert(f[(i + 4) % 4] == s[((i + 4) % 4 + 0) % 4]);
        } else if i < 8 {
            assert(g[i] == f[4 + ((i - 4) + 3) % 4]);
            assert(f[4 + ((i - 4) + 3) % 4] == s[4 + (((i - 4) + 3) % 4 + 1) % 4]);
        } else if i < 12 {
            assert(g[i] == f[8 + ((i - 8) + 2) % 4]);
            assert(f[8 + ((i - 8) + 2) % 4] == s[8 + (((i - 8) + 2) % 4 + 2) % 4]);
        } else {
            assert(g[i] == f[12 + ((i - 12) + 1) % 4]);
            assert(f[12 + ((i - 12) + 1) % 4] == s[12 + (((i - 12) + 1) % 4 + 3) % 4]);
        }
    }
    assert(g =~= s);
}

/// The inverse column mixing undoes the forward mixing on a 16-byte grid.
#[verifier::rlimit(100)]
proof fn lemma_mix_columns_inverse(s: Seq<u8>)
    requires
        s.len() == 16,
    ensures
        inv_mix_columns_spec(mix_columns_spec(s)) == s,
{
    let f = mix_columns_spec(s);
    let g = inv_mix_columns_spec(f);
    gf::lemma_mix_column_inverse(s[0], s[4], s[8], s[12]);
    gf::lemma_mix_column_inverse(s[1], s[5], s[9], s[13]);
    gf::lemma_mix_column_inverse(s[2], s[6], s[10], s[14]);
    gf::lemma_mix_column_inverse(s[3], s[7], s[11], s[15]);
    assert(g[0] == s[0]);
    assert(g[1] == s[1]);
    assert(g[2] == s[2]);
    assert(g[3] == s[3]);
    assert(g[4] == s[4]);
    assert(g[5] == s[5]);
    assert(g[6] == s[6]);
    assert(g[7] == s[7]);
    assert(g[8] == s[8]);
    assert(g[9] == s[9]);
    assert(g[10] == s[10]);
    assert(g[11] == s[11]);
    assert(g[12] == s[12]);
    assert(g[13] == s[13]);
    assert(g[14] == s[14]);
    assert(g[15] == s[15]);
    assert(g =~= s);
}

/// Every encryption round chain on a 16-byte grid yields a 16-byte grid.
pub(crate) proof fn lemma_encrypt_rounds_len(x: Seq<u8>, keys: Seq<Seq<u8>>, i: int)
    requires
        x.len() == 16,
    ensures
        encrypt_rounds_spec(x, keys, i).len() == 16,
    decreases keys.len() - i,
{
    if 0 <= i < keys.len() {
        lemma_encrypt_rounds_len(encrypt_round_spec(x, keys[i]), keys, i + 1);
    }
}

/// Encrypting a 16-byte block yields a 16-byte block.
pub(crate) proof fn lemma_encrypt_block_len(s: Seq<u8>, keys: Seq<Seq<u8>>)
    requires
        s.len() == 16,
        keys.len() >= 1,
    ensures
        encrypt_block_spec(s, keys).len() == 16,
{
    lemma_encrypt_rounds_len(add_roundkey_spec(s, keys[0]), keys, 1);
}

/// Decrypting through the schedule's tail undoes encrypting through it: after
/// the rounds with keys `i .. keys.len()` are undone, what is left to undo is
/// the key addition at index `i - 1` and the rounds below it.
proof fn lemma_rounds_cancel(x: Seq<u8>, keys: Seq<Seq<u8>>, i: int)
    requires
        x.len() == 16,
        wf_schedule(keys),
        1 <= i <= keys.len(),
    ensures
        decrypt_rounds_spec(
            add_roundkey_spec(encrypt_rounds_spec(x, keys, i), keys[keys.len() - 1]),
            keys,
            keys.len() - 2,
        ) == decrypt_rounds_spec(add_roundkey_spec(x, keys[i - 1]), keys, i - 2),
    decreases keys.len() - i,
{
    let n = keys.len() as int;
    if i < n {
        let x1 = encrypt_round_spec(x, keys[i]);
        lemma_rounds_cancel(x1, keys, i + 1);
        let m = mix_columns_spec(shift_grid_spec(sub_bytes_spec(x)));
        lemma_add_roundkey_involutes(m, keys[i]);
        lemma_mix_columns_inverse(shift_grid_spec(sub_bytes_spec(x)));
        lemma_shift_grid_inverse(sub_bytes_spec(x));
        lemma_sub_bytes_inverse(x);
        assert(decrypt_round_spec(m, keys[i - 1]) == add_roundkey_spec(x, keys[i - 1]));
        assert(decrypt_rounds_spec(add_roundkey_spec(x1, keys[i]), keys, i - 1)
            == decrypt_rounds_spec(add_roundkey_spec(x, keys[i - 1]), keys, i - 2));
    }
}

/// Decrypting an encrypted block under the same schedule returns the
/// original block, for every 16-byte block and well-formed schedule.
pub proof fn lemma_block_round_trip(s: Seq<u8>, keys: Seq<Seq<u8>>)
    requires
        s.len() == 16,
        wf_schedule(keys),
    ensures
        decrypt_block_spec(encrypt_block_spec(s, keys), keys) == s,
{
    lemma_rounds_cancel(add_roundkey_spec(s, keys[0]), keys, 1);
    lemma_add_roundkey_involutes(s, keys[0]);
}

/// Block encryption and decryption are functions of the block and schedule
/// alone: the contracts of `encrypt` and `decrypt` pin each result to one
/// spec-level value, so repeated calls on the same inputs return
/// byte-identical blocks.
pub proof fn lemma_block_deterministic(s: Seq<u8>, keys: Seq<Seq<u8>>, r1: Seq<u8>, r2: Seq<u8>)
    requires
        r1 == encrypt_block_spec(s, keys),
        r2 == encrypt_block_spec(s, keys),
    ensures
        r1 == r2,
{
}

} // verus!
