//! Messages of arbitrary length: the key schedule that feeds the block
//! cipher, and the codec that pads a byte stream, drives the cipher block by
//! block, and strips the padding again.
use vstd::prelude::*;

use crate::AESError;
use crate::block::AESBlock;
use crate::block::DecryptedState;
use crate::block::EncryptedState;
use crate::block::decrypt_block_spec;
use crate::block::encrypt_block_spec;
use crate::block::keys_view;
use crate::block::lemma_block_round_trip;
use crate::block::sub_bytes_spec;
use crate::block::wf_schedule;
use crate::gf;
use crate::sbox::S_BOX;
use vstd::slice::slice_subrange;
use vstd::slice::slice_to_vec;

verus! {

/// The round constants xored into the first byte of each derived key word.
pub const R_CON: [u8; 10] = [0x01, 0x02, 0x04, 0x08, 0x10, 0x20, 0x40, 0x80, 0x1b, 0x36];

/// A byte stream tagged with its phase. `AESData<DecryptedState>` holds
/// plaintext and only offers `encrypt`; `AESData<EncryptedState>` holds
/// ciphertext and only offers `decrypt`, so a stream cannot go through the
/// same transform twice.
#[derive(Debug)]
pub struct AESData<State = DecryptedState> {
    data: Vec<u8>,
    state: core::marker::PhantomData<State>,
}

impl<State> View for AESData<State> {
    type V = Seq<u8>;

    closed spec fn view(&self) -> Seq<u8> {
        self.data@
    }
}

/// A 4-byte word rotated left by one position.
pub open spec fn rot_word_spec(w: Seq<u8>) -> Seq<u8>
    recommends
        w.len() == 4,
{
    seq![w[1], w[2], w[3], w[0]]
}

/// Byte `i` of the round key derived from `rk` at expansion step `it`: the
/// first word is the rotated, substituted last word of `rk` with the round
/// constant folded into its first byte, xored with the first word of `rk`;
/// each later byte is the byte one word back xored with the byte of `rk` at
/// the same position.
pub open spec fn next_roundkey_byte(rk: Seq<u8>, it: int, i: int) -> u8
    recommends
        rk.len() == 16,
        0 <= it < 10,
        0 <= i < 16,
    decreases i,
{
    if i < 4 {
        let t = sub_bytes_spec(rot_word_spec(rk.subrange(12, 16)));
        (if i == 0 {
            t[0] ^ R_CON@[it]
        } else {
            t[i]
        }) ^ rk[i]
    } else {
        next_roundkey_byte(rk, it, i - 4) ^ rk[i]
    }
}

/// The round key derived from `rk` at expansion step `it`.
pub open spec fn next_roundkey_spec(rk: Seq<u8>, it: int) -> Seq<u8>
    recommends
        rk.len() == 16,
        0 <= it < 10,
{
    Seq::new(16, |i: int| next_roundkey_byte(rk, it, i))
}

/// The first `n + 1` round keys: the key itself, then `n` derivation steps.
pub open spec fn key_schedule_rec(key: Seq<u8>, n: int) -> Seq<Seq<u8>>
    decreases n,
{
    if n <= 0 {
        seq![key]
    } else {
        let prev = key_schedule_rec(key, n - 1);
        prev.push(next_roundkey_spec(prev.last(), n - 1))
    }
}

/// The full schedule of a 16-byte key: eleven round keys, the key itself
/// followed by ten derivation steps.
pub open spec fn expand_key_spec(key: Seq<u8>) -> Seq<Seq<u8>> {
    key_schedule_rec(key, 10)
}

/// A partial schedule holds `n + 1` round keys of 16 bytes each and starts
/// with the key itself.
proof fn lemma_key_schedule_rec_wf(key: Seq<u8>, n: int)
    requires
        key.len() == 16,
        0 <= n,
    ensures
        key_schedule_rec(key, n).len() == n + 1,
        key_schedule_rec(key, n)[0] == key,
        forall|i: int|
            0 <= i <= n ==> (#[trigger] key_schedule_rec(key, n)[i]).len() == 16,
    decreases n,
{
    if n > 0 {
        lemma_key_schedule_rec_wf(key, n - 1);
    }
}

/// Key expansion always yields exactly eleven round keys of 16 bytes each,
/// beginning with the key itself: a well-formed schedule.
pub proof fn lemma_expand_key_wf(key: Seq<u8>)
    requires
        key.len() == 16,
    ensures
        expand_key_spec(key).len() == 11,
        expand_key_spec(key)[0] == key,
        wf_schedule(expand_key_spec(key)),
{
    lemma_key_schedule_rec_wf(key, 10);
}

/// The sentinel byte appended as padding: the message's last byte xored with
/// one, which therefore never equals the message's last byte.
pub open spec fn pad_byte_spec(m: Seq<u8>) -> u8
    recommends
        m.len() > 0,
{
    m.last() ^ 1
}

/// How many sentinel bytes the encoder appends: enough to reach the next
/// block boundary and then one more whole block, so always 17 to 32.
pub open spec fn pad_len_spec(m: Seq<u8>) -> int {
    32 - (m.len() as int % 16)
}

/// The message with its sentinel padding appended; the result's length is a
/// multiple of 16.
pub open spec fn pad_spec(m: Seq<u8>) -> Seq<u8>
    recommends
        m.len() > 0,
{
    m + Seq::new(pad_len_spec(m) as nat, |i: int| pad_byte_spec(m))
}

/// A block-aligned byte stream encrypted 16 bytes at a time, each block
/// independently under the same schedule, outputs concatenated in order.
pub open spec fn encode_blocks_spec(s: Seq<u8>, keys: Seq<Seq<u8>>) -> Seq<u8>
    recommends
        s.len() % 16 == 0,
    decreases s.len(),
{
    if s.len() < 16 {
        Seq::empty()
    } else {
        encrypt_block_spec(s.subrange(0, 16), keys) + encode_blocks_spec(s.skip(16), keys)
    }
}

/// A block-aligned byte stream decrypted 16 bytes at a time.
pub open spec fn decode_blocks_spec(s: Seq<u8>, keys: Seq<Seq<u8>>) -> Seq<u8>
    recommends
        s.len() % 16 == 0,
    decreases s.len(),
{
    if s.len() < 16 {
        Seq::empty()
    } else {
        decrypt_block_spec(s.subrange(0, 16), keys) + decode_blocks_spec(s.skip(16), keys)
    }
}

/// The length of the run of bytes equal to `p` at the end of `s`.
pub open spec fn trailing_run_spec(s: Seq<u8>, p: u8) -> int
    decreases s.len(),
{
    if s.len() == 0 {
        0
    } else if s.last() == p {
        1 + trailing_run_spec(s.drop_last(), p)
    } else {
        0
    }
}

/// What the decoder keeps: the trailing run of bytes equal to the last byte
/// is treated as padding and cut off, unless the whole stream is that run, in
/// which case nothing is cut.
pub open spec fn strip_padding_spec(s: Seq<u8>) -> Seq<u8>
    recommends
        s.len() > 0,
{
    let run = trailing_run_spec(s, s.last());
    if run == s.len() {
        s
    } else {
        s.subrange(0, s.len() - run)
    }
}

/// The whole encoder: pad the message, then encrypt it block by block.
pub open spec fn encode_spec(m: Seq<u8>, keys: Seq<Seq<u8>>) -> Seq<u8>
    recommends
        m.len() > 0,
        wf_schedule(keys),
{
    encode_blocks_spec(pad_spec(m), keys)
}

/// The whole decoder: decrypt block by block, then strip the padding.
pub open spec fn decode_spec(c: Seq<u8>, keys: Seq<Seq<u8>>) -> Seq<u8>
    recommends
        c.len() > 0,
        c.len() % 16 == 0,
        wf_schedule(keys),
{
    strip_padding_spec(decode_blocks_spec(c, keys))
}

/// Appends every byte of `src` to `dst`.
fn push_all(dst: &mut Vec<u8>, src: &[u8])
    ensures
        final(dst)@ == old(dst)@ + src@,
{
    let mut i: usize = 0;
    while i < src.len()
        invariant
            i <= src@.len(),
            dst@.len() == old(dst)@.len() + i,
            dst@.subrange(0, old(dst)@.len() as int) == old(dst)@,
            forall|j: int| 0 <= j < i ==> dst@[old(dst)@.len() + j] == src@[j],
        decreases src@.len() - i,
    {
        dst.push(src[i]);
        i = i + 1;
    }
    assert(dst@ =~= old(dst)@ + src@);
}

impl<State> AESData<State> {
    /// The bytes the stream holds.
    pub fn bytes(&self) -> (r: &Vec<u8>)
        ensures
            r@ == self@,
    {
        &self.data
    }

    /// Rotates a 4-byte word left by one position.
    fn rotate(word: &[u8]) -> (r: Vec<u8>)
        requires
            word@.len() == 4,
        ensures
            r@ == rot_word_spec(word@),
    {
        let mut result: Vec<u8> = Vec::new();
        result.push(word[1]);
        result.push(word[2]);
        result.push(word[3]);
        result.push(word[0]);
        assert(result@ =~= rot_word_spec(word@));
        result
    }

    /// Substitutes each byte of a 4-byte word through the forward table.
    fn sub_word(word: &[u8]) -> (r: Vec<u8>)
        requires
            word@.len() == 4,
        ensures
            r@ == sub_bytes_spec(word@),
    {
        let mut result: Vec<u8> = Vec::new();
        result.push(S_BOX[word[0] as usize]);
        result.push(S_BOX[word[1] as usize]);
        result.push(S_BOX[word[2] as usize]);
        result.push(S_BOX[word[3] as usize]);
        assert(result@ =~= sub_bytes_spec(word@));
        result
    }

    /// Derives the next round key from the previous one.
    fn generate_roundkey(roundkey: &Vec<u8>, iteration: usize) -> (r: Vec<u8>)
        requires
            roundkey@.len() == 16,
            iteration < 10,
        ensures
            r@ == next_roundkey_spec(roundkey@, iteration as int),
    {
        let rotated = Self::rotate(slice_subrange(roundkey.as_slice(), 12, 16));
        let temp = Self::sub_word(rotated.as_slice());
        let mut result: Vec<u8> = Vec::new();
        result.push((temp[0] ^ R_CON[iteration]) ^ roundkey[0]);
        result.push(temp[1] ^ roundkey[1]);
        result.push(temp[2] ^ roundkey[2]);
        result.push(temp[3] ^ roundkey[3]);
        let mut i: usize = 4;
        while i < 16
            invariant
                4 <= i <= 16,
                roundkey@.len() == 16,
                iteration < 10,
                result@.len() == i,
                forall|j: int|
                    0 <= j < i ==> result@[j] == next_roundkey_byte(
                        roundkey@,
                        iteration as int,
                        j,
                    ),
            decreases 16 - i,
        {
            let b = result[i - 4] ^ roundkey[i];
            result.push(b);
            i = i + 1;
        }
        assert(result@ =~= next_roundkey_spec(roundkey@, iteration as int));
        result
    }

    /// Expands a 16-byte key into the full schedule: the key itself, then
    /// ten derived round keys, eleven in all.
    pub fn generate_roundkeys(key: &[u8]) -> (r: Vec<Vec<u8>>)
        requires
            key@.len() == 16,
        ensures
            keys_view(r@) == expand_key_spec(key@),
            r@.len() == 11,
            wf_schedule(keys_view(r@)),
    {
        let mut roundkeys: Vec<Vec<u8>> = Vec::new();
        roundkeys.push(slice_to_vec(key));
        assert(keys_view(roundkeys@) =~= key_schedule_rec(key@, 0));
        let mut idx: usize = 0;
        while idx < 10
            invariant
                idx <= 10,
                key@.len() == 16,
                roundkeys@.len() == idx + 1,
                keys_view(roundkeys@) == key_schedule_rec(key@, idx as int),
            decreases 10 - idx,
        {
            let last = roundkeys.len() - 1;
            proof {
                lemma_key_schedule_rec_wf(key@, idx as int);
                assert(roundkeys@[last as int]@ == keys_view(roundkeys@)[last as int]);
            }
            let next = Self::generate_roundkey(&roundkeys[last], idx);
            roundkeys.push(next);
            proof {
                assert(keys_view(roundkeys@) =~= key_schedule_rec(key@, idx + 1));
            }
            idx = idx + 1;
        }
        proof {
            lemma_expand_key_wf(key@);
        }
        roundkeys
    }
}

impl AESData<DecryptedState> {
    /// Wraps plaintext bytes for encryption.
    pub fn new(data: Vec<u8>) -> (r: AESData<DecryptedState>)
        ensures
            r@ == data@,
    {
        AESData { data, state: core::marker::PhantomData }
    }

    /// Encrypts the stream: appends 17 to 32 sentinel bytes to reach a block
    /// boundary plus one whole block, then encrypts each 16-byte block
    /// independently under the schedule. An empty stream is rejected, since
    /// the sentinel is derived from the last byte; so is a schedule without
    /// at least two 16-byte round keys.
    pub fn encrypt(&self, roundkeys: &Vec<Vec<u8>>) -> (r: Result<
        AESData<EncryptedState>,
        AESError,
    >)
        requires
            self@.len() + 32 <= usize::MAX,
        ensures
            self@.len() == 0 ==> (r matches Err(e) && e == AESError::EmptyMessage),
            self@.len() > 0 && !wf_schedule(keys_view(roundkeys@)) ==> (r matches Err(e) && e
                == AESError::ShortSchedule),
            self@.len() > 0 && wf_schedule(keys_view(roundkeys@)) ==> (r matches Ok(c) && c@
                == encode_spec(self@, keys_view(roundkeys@)) && c@.len() == self@.len()
                + pad_len_spec(self@)),
    {
        if self.data.len() == 0 {
            return Err(AESError::EmptyMessage);
        }
        let ghost kv = keys_view(roundkeys@);
        let padding_char = self.data[self.data.len() - 1] ^ 0x01;
        let pad_count = 32 - (self.data.len() % 16);
        let mut padded: Vec<u8> = Vec::new();
        push_all(&mut padded, self.data.as_slice());
        let mut i: usize = 0;
        while i < pad_count
            invariant
                i <= pad_count,
                pad_count == pad_len_spec(self@),
                padding_char == pad_byte_spec(self@),
                padded@.len() == self@.len() + i,
                padded@.subrange(0, self@.len() as int) == self@,
                forall|j: int|
                    self@.len() <= j < self@.len() + i ==> padded@[j] == pad_byte_spec(self@),
            decreases pad_count - i,
        {
            padded.push(padding_char);
            i = i + 1;
        }
        assert(padded@ =~= pad_spec(self@));
        let mut out: Vec<u8> = Vec::new();
        let mut pos: usize = 0;
        proof {
            assert(padded@.skip(0) =~= padded@);
            assert(Seq::<u8>::empty() + encode_blocks_spec(padded@, kv) =~= encode_blocks_spec(
                padded@,
                kv,
            ));
        }
        while pos < padded.len()
            invariant
                pos <= padded@.len(),
                pos % 16 == 0,
                padded@.len() % 16 == 0,
                self@.len() > 0,
                kv == keys_view(roundkeys@),
                pos > 0 ==> wf_schedule(kv),
                out@.len() == pos,
                padded@.len() == self@.len() + pad_len_spec(self@),
                out@ + encode_blocks_spec(padded@.skip(pos as int), kv) == encode_blocks_spec(
                    padded@,
                    kv,
                ),
            decreases padded@.len() - pos,
        {
            let chunk = slice_to_vec(slice_subrange(padded.as_slice(), pos, pos + 16));
            let block = AESBlock::<DecryptedState>::from_bytes(chunk);
            let ghost tail = padded@.skip(pos as int);
            proof {
                assert(tail.subrange(0, 16) =~= padded@.subrange(pos as int, pos as int + 16));
                assert(tail.skip(16) =~= padded@.skip(pos as int + 16));
            }
            let encrypted = match block.encrypt(roundkeys) {
                Ok(b) => b,
                Err(e) => {
                    return Err(e);
                },
            };
            let ghost out_before = out@;
            push_all(&mut out, encrypted.bytes().as_slice());
            proof {
                assert(out@ + encode_blocks_spec(padded@.skip(pos as int + 16), kv)
                    =~= out_before + encode_blocks_spec(tail, kv));
            }
            pos = pos + 16;
        }
        proof {
            assert(encode_blocks_spec(padded@.skip(padded@.len() as int), kv)
                =~= Seq::<u8>::empty());
            assert(out@ + Seq::<u8>::empty() =~= out@);
        }
        Ok(AESData { data: out, state: core::marker::PhantomData })
    }
}

impl AESData<EncryptedState> {
    /// Wraps ciphertext bytes for decryption.
    pub fn new(data: Vec<u8>) -> (r: AESData<EncryptedState>)
        ensures
            r@ == data@,
    {
        AESData { data, state: core::marker::PhantomData }
    }

    /// Decrypts the stream: decrypts each 16-byte block independently under
    /// the schedule, then strips the trailing run of sentinel bytes. A stream
    /// that is empty or not a whole number of blocks is rejected; so is a
    /// schedule without at least two 16-byte round keys.
    pub fn decrypt(&self, roundkeys: &Vec<Vec<u8>>) -> (r: Result<
        AESData<DecryptedState>,
        AESError,
    >)
        ensures
            (self@.len() == 0 || self@.len() % 16 != 0) ==> (r matches Err(e) && e
                == AESError::InvalidBlockLength),
            self@.len() > 0 && self@.len() % 16 == 0 && !wf_schedule(keys_view(roundkeys@)) ==> (
            r matches Err(e) && e == AESError::ShortSchedule),
            self@.len() > 0 && self@.len() % 16 == 0 && wf_schedule(keys_view(roundkeys@)) ==> (
            r matches Ok(m) && m@ == decode_spec(self@, keys_view(roundkeys@))),
    {
        if self.data.len() == 0 || self.data.len() % 16 != 0 {
            return Err(AESError::InvalidBlockLength);
        }
        let ghost kv = keys_view(roundkeys@);
        let mut decrypted: Vec<u8> = Vec::new();
        let mut pos: usize = 0;
        proof {
            assert(self@.skip(0) =~= self@);
            assert(Seq::<u8>::empty() + decode_blocks_spec(self@, kv) =~= decode_blocks_spec(
                self@,
                kv,
            ));
        }
        while pos < self.data.len()
            invariant
                pos <= self@.len(),
                pos % 16 == 0,
                self@.len() % 16 == 0,
                self@.len() > 0,
                kv == keys_view(roundkeys@),
                pos > 0 ==> wf_schedule(kv),
                decrypted@.len() == pos,
                decrypted@ + decode_blocks_spec(self@.skip(pos as int), kv) == decode_blocks_spec(
                    self@,
                    kv,
                ),
            decreases self@.len() - pos,
        {
            let chunk = slice_to_vec(slice_subrange(self.data.as_slice(), pos, pos + 16));
            let block = AESBlock::<EncryptedState>::from_bytes(chunk);
            let ghost tail = self@.skip(pos as int);
            proof {
                assert(tail.subrange(0, 16) =~= self@.subrange(pos as int, pos as int + 16));
                assert(tail.skip(16) =~= self@.skip(pos as int + 16));
            }
            let plain = match block.decrypt(roundkeys) {
                Ok(b) => b,
                Err(e) => {
                    return Err(e);
                },
            };
            let ghost out_before = decrypted@;
            push_all(&mut decrypted, plain.bytes().as_slice());
            proof {
                assert(decrypted@ + decode_blocks_spec(self@.skip(pos as int + 16), kv)
                    =~= out_before + decode_blocks_spec(tail, kv));
            }
            pos = pos + 16;
        }
        proof {
            assert(decode_blocks_spec(self@.skip(self@.len() as int), kv) =~= Seq::<u8>::empty());
            assert(decrypted@ + Seq::<u8>::empty() =~= decrypted@);
        }
        let padded_char = decrypted[decrypted.len() - 1];
        let mut run: usize = 0;
        while run < decrypted.len() && decrypted[decrypted.len() - 1 - run] == padded_char
            invariant
                run <= decrypted@.len(),
                decrypted@.len() > 0,
                forall|j: int|
                    decrypted@.len() - run <= j < decrypted@.len() ==> decrypted@[j]
                        == padded_char,
            decreases decrypted@.len() - run,
        {
            run = run + 1;
        }
        proof {
            lemma_trailing_run_characterize(decrypted@, padded_char, run as int);
        }
        let strip = if run == decrypted.len() {
            0
        } else {
            run
        };
        let keep = decrypted.len() - strip;
        decrypted.truncate(keep);
        proof {
            assert(decode_blocks_spec(self@, kv).subrange(
                0,
                decode_blocks_spec(self@, kv).len() as int,
            ) =~= decode_blocks_spec(self@, kv));
        }
        Ok(AESData { data: decrypted, state: core::marker::PhantomData })
    }
}

/// Decrypting what was encrypted block by block, under the same well-formed
/// schedule, gives the original block-aligned stream back.
proof fn lemma_decode_encode_blocks(s: Seq<u8>, keys: Seq<Seq<u8>>)
    requires
        s.len() % 16 == 0,
        wf_schedule(keys),
    ensures
        decode_blocks_spec(encode_blocks_spec(s, keys), keys) == s,
    decreases s.len(),
{
    if s.len() < 16 {
        assert(s =~= Seq::<u8>::empty());
        assert(decode_blocks_spec(encode_blocks_spec(s, keys), keys) =~= s);
    } else {
        let s0 = s.subrange(0, 16);
        let rest = s.skip(16);
        let e0 = encrypt_block_spec(s0, keys);
        let etail = encode_blocks_spec(rest, keys);
        crate::block::lemma_encrypt_block_len(s0, keys);
        assert((e0 + etail).subrange(0, 16) =~= e0);
        assert((e0 + etail).skip(16) =~= etail);
        lemma_block_round_trip(s0, keys);
        lemma_decode_encode_blocks(rest, keys);
        assert(decode_blocks_spec(encode_blocks_spec(s, keys), keys) =~= s);
    }
}

/// A stream that ends in exactly `k` copies of `p`, preceded by a byte that
/// is not `p`, has a trailing run of exactly `k`.
proof fn lemma_trailing_run_of_append(m: Seq<u8>, p: u8, k: int)
    requires
        m.len() > 0,
        m.last() != p,
        k >= 0,
    ensures
        trailing_run_spec(m + Seq::new(k as nat, |i: int| p), p) == k,
    decreases k,
{
    let padded = m + Seq::new(k as nat, |i: int| p);
    if k == 0 {
        assert(padded =~= m);
    } else {
        assert(padded.last() == p);
        assert(padded.drop_last() =~= m + Seq::new((k - 1) as nat, |i: int| p));
        lemma_trailing_run_of_append(m, p, k - 1);
    }
}

/// Decoding an encoded message under the same well-formed schedule returns
/// the message, for every non-empty message: the sentinel differs from the
/// message's last byte, so the decoder strips exactly the appended padding.
pub proof fn lemma_message_round_trip(m: Seq<u8>, keys: Seq<Seq<u8>>)
    requires
        m.len() > 0,
        wf_schedule(keys),
    ensures
        decode_spec(encode_spec(m, keys), keys) == m,
{
    let p = pad_byte_spec(m);
    let padded = pad_spec(m);
    let padlen = pad_len_spec(m);
    assert(17 <= padlen <= 32);
    assert(padded.len() == m.len() + padlen);
    assert(padded.len() as int % 16 == 0);
    lemma_decode_encode_blocks(padded, keys);
    gf::lemma_xor_one_changes(m.last());
    lemma_trailing_run_of_append(m, p, padlen);
    assert(padded.last() == p);
    assert(strip_padding_spec(padded) =~= m);
}

/// Decoding what a key's full schedule encoded returns the message, for
/// every non-empty message and 16-byte key.
pub proof fn lemma_round_trip(m: Seq<u8>, key: Seq<u8>)
    requires
        m.len() > 0,
        key.len() == 16,
    ensures
        decode_spec(encode_spec(m, expand_key_spec(key)), expand_key_spec(key)) == m,
{
    lemma_expand_key_wf(key);
    lemma_message_round_trip(m, expand_key_spec(key));
}

/// Encoding and decoding are functions of the message and schedule alone:
/// the contracts of `encrypt` and `decrypt` pin each result to one spec-level
/// value, so repeated calls on the same inputs return byte-identical streams.
pub proof fn lemma_codec_deterministic(m: Seq<u8>, keys: Seq<Seq<u8>>, r1: Seq<u8>, r2: Seq<u8>)
    requires
        r1 == encode_spec(m, keys),
        r2 == encode_spec(m, keys),
    ensures
        r1 == r2,
{
}

/// A scan backwards from the end that stopped after `k` matches has counted
/// exactly the trailing run.
proof fn lemma_trailing_run_characterize(s: Seq<u8>, p: u8, k: int)
    requires
        0 <= k <= s.len(),
        forall|j: int| s.len() - k <= j < s.len() ==> s[j] == p,
        k < s.len() ==> s[s.len() - k - 1] != p,
    ensures
        trailing_run_spec(s, p) == k,
    decreases k,
{
    if k == 0 {
        if s.len() > 0 {
            assert(s.last() != p);
        }
    } else {
        assert(s.last() == p);
        lemma_trailing_run_characterize(s.drop_last(), p, k - 1);
    }
}

} // verus!
