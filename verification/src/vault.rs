//! The vault record and its fixed 49-byte layout.
//!
//! | bytes  | field            | encoding                         |
//! |--------|------------------|----------------------------------|
//! | 0..32  | `owner`          | raw                              |
//! | 32..40 | `unlock_time`    | little-endian, two's complement  |
//! | 40..48 | `balance`        | little-endian, unsigned          |
//! | 48     | `is_initialized` | one byte, nonzero means `true`   |

use crate::error::VaultError;
use crate::le::{
    le_bytes, le_value, lemma_le_bytes_len, lemma_le_bytes_of_value, lemma_le_value_bound,
    lemma_le_value_of_bytes, lemma_radix_8, lemma_signed_round_trip, lemma_unsigned_round_trip,
    read_u64, signed_of, to_signed, to_unsigned, unsigned_of, write_u64,
};
use vstd::prelude::*;

verus! {

/// Number of bytes in an account identity.
pub const IDENTITY_LEN: usize = 32;

/// Number of bytes a persisted vault record occupies.
pub const RECORD_LEN: usize = 49;

/// Offset of the unlock time within the record.
pub const UNLOCK_TIME_OFFSET: usize = 32;

/// Offset of the balance within the record.
pub const BALANCE_OFFSET: usize = 40;

/// Offset of the initialization flag within the record.
pub const FLAG_OFFSET: usize = 48;

/// The state a vault account persists.
#[derive(Clone, Copy, Debug)]
pub struct Vault {
    /// Identity that may withdraw. Set by Initialize, never changed after.
    pub owner: [u8; 32],
    /// Unix timestamp from which withdrawals are allowed.
    pub unlock_time: i64,
    /// Lamports deposited and not yet withdrawn.
    pub balance: u64,
    /// False until Initialize has succeeded, true ever after.
    pub is_initialized: bool,
}

/// A vault record as a mathematical value.
pub struct VaultView {
    pub owner: Seq<u8>,
    pub unlock_time: int,
    pub balance: nat,
    pub is_initialized: bool,
}

impl VaultView {
    /// The records that a [`Vault`] can hold: a 32-byte owner, a signed
    /// 64-bit time and an unsigned 64-bit balance.
    pub open spec fn valid(self) -> bool {
        &&& self.owner.len() == IDENTITY_LEN
        &&& i64::MIN <= self.unlock_time <= i64::MAX
        &&& self.balance <= u64::MAX
    }

    /// The record of a freshly allocated account: all fields zero.
    pub open spec fn zero() -> VaultView {
        VaultView {
            owner: Seq::new(IDENTITY_LEN as nat, |i: int| 0u8),
            unlock_time: 0,
            balance: 0,
            is_initialized: false,
        }
    }
}

impl View for Vault {
    type V = VaultView;

    open spec fn view(&self) -> VaultView {
        VaultView {
            owner: self.owner@,
            unlock_time: self.unlock_time as int,
            balance: self.balance as nat,
            is_initialized: self.is_initialized,
        }
    }
}

/// The byte that stores the initialization flag.
pub open spec fn flag_byte(flag: bool) -> u8 {
    if flag {
        1
    } else {
        0
    }
}

/// The 49 bytes that persist a record.
pub open spec fn encode(v: VaultView) -> Seq<u8> {
    v.owner + le_bytes(to_unsigned(v.unlock_time), 8) + le_bytes(v.balance, 8) + seq![
        flag_byte(v.is_initialized),
    ]
}

/// The record that the first 49 bytes of a buffer persist. Meaningful for
/// buffers of at least 49 bytes.
pub open spec fn decode(bytes: Seq<u8>) -> VaultView
    recommends
        bytes.len() >= RECORD_LEN,
{
    VaultView {
        owner: bytes.subrange(0, UNLOCK_TIME_OFFSET as int),
        unlock_time: to_signed(
            le_value(bytes.subrange(UNLOCK_TIME_OFFSET as int, BALANCE_OFFSET as int)),
        ),
        balance: le_value(bytes.subrange(BALANCE_OFFSET as int, FLAG_OFFSET as int)),
        is_initialized: bytes[FLAG_OFFSET as int] != 0,
    }
}

/// The buffer that results from persisting `v` at the start of `buffer`:
/// the record's 49 bytes, then whatever the buffer held beyond them.
pub open spec fn stored(v: VaultView, buffer: Seq<u8>) -> Seq<u8>
    recommends
        buffer.len() >= RECORD_LEN,
{
    encode(v) + buffer.subrange(RECORD_LEN as int, buffer.len() as int)
}

/// Decoding the encoding of a valid record gives the record back, and the
/// encoding is 49 bytes long.
pub proof fn lemma_decode_encode(v: VaultView)
    requires
        v.valid(),
    ensures
        encode(v).len() == RECORD_LEN,
        decode(encode(v)) == v,
{
    let time = le_bytes(to_unsigned(v.unlock_time), 8);
    let balance = le_bytes(v.balance, 8);
    let bytes = encode(v);
    lemma_le_bytes_len(to_unsigned(v.unlock_time), 8);
    lemma_le_bytes_len(v.balance, 8);
    lemma_radix_8();
    lemma_signed_round_trip(v.unlock_time);
    lemma_le_value_of_bytes(to_unsigned(v.unlock_time), 8);
    lemma_le_value_of_bytes(v.balance, 8);
    assert(bytes.subrange(0, 32) =~= v.owner);
    assert(bytes.subrange(32, 40) =~= time);
    assert(bytes.subrange(40, 48) =~= balance);
    assert(bytes[48] == flag_byte(v.is_initialized));
}

/// Decoding a buffer of at least 49 bytes always gives a valid record.
pub proof fn lemma_decode_valid(bytes: Seq<u8>)
    requires
        bytes.len() >= RECORD_LEN,
    ensures
        decode(bytes).valid(),
{
    lemma_le_value_bound(bytes.subrange(32, 40));
    lemma_le_value_bound(bytes.subrange(40, 48));
    lemma_radix_8();
    lemma_unsigned_round_trip(le_value(bytes.subrange(32, 40)));
}

/// The encoding is canonical up to the flag byte: re-encoding what a
/// 49-byte buffer decodes to gives the buffer back whenever its flag byte
/// is 0 or 1.
pub proof fn lemma_encode_decode(bytes: Seq<u8>)
    requires
        bytes.len() == RECORD_LEN,
        bytes[FLAG_OFFSET as int] <= 1,
    ensures
        encode(decode(bytes)) == bytes,
{
    let time = bytes.subrange(32, 40);
    let balance = bytes.subrange(40, 48);
    lemma_le_value_bound(time);
    lemma_radix_8();
    lemma_unsigned_round_trip(le_value(time));
    lemma_le_bytes_of_value(time);
    lemma_le_bytes_of_value(balance);
    assert(encode(decode(bytes)) =~= bytes);
}

/// Bytes beyond the 49th play no part in decoding.
pub proof fn lemma_decode_ignores_tail(bytes: Seq<u8>)
    requires
        bytes.len() >= RECORD_LEN,
    ensures
        decode(bytes) == decode(bytes.subrange(0, RECORD_LEN as int)),
{
    let head = bytes.subrange(0, RECORD_LEN as int);
    assert(head.subrange(0, 32) =~= bytes.subrange(0, 32));
    assert(head.subrange(32, 40) =~= bytes.subrange(32, 40));
    assert(head.subrange(40, 48) =~= bytes.subrange(40, 48));
}

/// Persisting a valid record keeps the buffer's length and its bytes beyond
/// the record, and the buffer then decodes to that record.
pub proof fn lemma_stored(v: VaultView, buffer: Seq<u8>)
    requires
        v.valid(),
        buffer.len() >= RECORD_LEN,
    ensures
        stored(v, buffer).len() == buffer.len(),
        decode(stored(v, buffer)) == v,
        forall|j: int| RECORD_LEN <= j < buffer.len() ==> stored(v, buffer)[j] == buffer[j],
{
    lemma_decode_encode(v);
    let s = stored(v, buffer);
    lemma_decode_ignores_tail(s);
    assert(s.subrange(0, RECORD_LEN as int) =~= encode(v));
}

/// A buffer of zero bytes, as a freshly allocated account holds, decodes to
/// the zero record, which is not initialized.
pub proof fn lemma_decode_zeroed(bytes: Seq<u8>)
    requires
        bytes.len() >= RECORD_LEN,
        forall|j: int| 0 <= j < RECORD_LEN ==> bytes[j] == 0,
    ensures
        decode(bytes) == VaultView::zero(),
{
    let zeros = Seq::new(8, |i: int| 0u8);
    assert(le_value(zeros) == 0) by {
        lemma_le_value_zeros(zeros);
    }
    assert(bytes.subrange(32, 40) =~= zeros);
    assert(bytes.subrange(40, 48) =~= zeros);
    assert(bytes.subrange(0, 32) =~= VaultView::zero().owner);
}

/// A string of zero bytes denotes zero.
pub proof fn lemma_le_value_zeros(bytes: Seq<u8>)
    requires
        forall|j: int| 0 <= j < bytes.len() ==> bytes[j] == 0,
    ensures
        le_value(bytes) == 0,
    decreases bytes.len(),
{
    if bytes.len() > 0 {
        lemma_le_value_zeros(bytes.drop_first());
    }
}

/// Two vaults with the same view are the same vault.
pub proof fn lemma_view_injective(a: Vault, b: Vault)
    requires
        a@ == b@,
    ensures
        a == b,
{
    assert(a.owner =~= b.owner);
}

impl Vault {
    /// Tells whether Initialize has succeeded on this record.
    pub fn is_initialized(&self) -> (flag: bool)
        ensures
            flag == self@.is_initialized,
    {
        self.is_initialized
    }

    /// Every vault holds a valid record.
    pub proof fn lemma_valid(self)
        ensures
            self@.valid(),
    {
    }

    /// Writes the record into the first 49 bytes of `dst` and leaves the
    /// rest of `dst` untouched.
    pub fn pack_into_slice(&self, dst: &mut [u8])
        requires
            old(dst)@.len() >= RECORD_LEN,
        ensures
            final(dst)@ == stored(self@, old(dst)@),
    {
        let mut i: usize = 0;
        while i < 32
            invariant
                i <= 32,
                dst@.len() == old(dst)@.len(),
                dst@.len() >= RECORD_LEN,
                forall|j: int| 0 <= j < i ==> dst@[j] == self.owner@[j],
                forall|j: int| i <= j < dst@.len() ==> dst@[j] == old(dst)@[j],
            decreases 32 - i,
        {
            dst[i] = self.owner[i];
            i = i + 1;
        }
        write_u64(dst, UNLOCK_TIME_OFFSET, unsigned_of(self.unlock_time));
        write_u64(dst, BALANCE_OFFSET, self.balance);
        dst[FLAG_OFFSET] = if self.is_initialized {
            1
        } else {
            0
        };
        proof {
            let want = stored(self@, old(dst)@);
            let time = le_bytes(to_unsigned(self@.unlock_time), 8);
            let balance = le_bytes(self@.balance, 8);
            lemma_le_bytes_len(to_unsigned(self@.unlock_time), 8);
            lemma_le_bytes_len(self@.balance, 8);
            assert(dst@.subrange(32, 40) == time);
            assert(dst@.subrange(40, 48) == balance);
            assert forall|j: int| 0 <= j < dst@.len() implies dst@[j] == want[j] by {
                if 32 <= j < 40 {
                    assert(dst@[j] == dst@.subrange(32, 40)[j - 32]);
                } else if 40 <= j < 48 {
                    assert(dst@[j] == dst@.subrange(40, 48)[j - 40]);
                }
            }
            assert(dst@ =~= want);
        }
    }

    /// Reads a record from the first 49 bytes of `src`.
    ///
    /// Fails with [`VaultError::MalformedRecord`] exactly when `src` holds
    /// fewer than 49 bytes. A record that is not initialized decodes like any
    /// other.
    pub fn unpack_from_slice(src: &[u8]) -> (res: Result<Vault, VaultError>)
        ensures
            src@.len() < RECORD_LEN <==> res == Err::<Vault, VaultError>(
                VaultError::MalformedRecord,
            ),
            src@.len() >= RECORD_LEN <==> res is Ok,
            res matches Ok(v) ==> v@ == decode(src@),
    {
        if src.len() < RECORD_LEN {
            return Err(VaultError::MalformedRecord);
        }
        let mut owner: [u8; 32] = [0u8;32];
        let mut i: usize = 0;
        while i < 32
            invariant
                i <= 32,
                src@.len() >= RECORD_LEN,
                forall|j: int| 0 <= j < i ==> owner@[j] == src@[j],
            decreases 32 - i,
        {
            owner[i] = src[i];
            i = i + 1;
        }
        let unlock_time = signed_of(read_u64(src, UNLOCK_TIME_OFFSET));
        let balance = read_u64(src, BALANCE_OFFSET);
        let is_initialized = src[FLAG_OFFSET] != 0;
        assert(owner@ =~= src@.subrange(0, 32));
        Ok(Vault { owner, unlock_time, balance, is_initialized })
    }

    /// Persists the record at the start of `dst`.
    ///
    /// Fails with [`VaultError::BufferTooSmall`] exactly when `dst` holds
    /// fewer than 49 bytes, and then leaves `dst` as it was. The buffer is
    /// never resized.
    pub fn pack(&self, dst: &mut [u8]) -> (res: Result<(), VaultError>)
        ensures
            old(dst)@.len() < RECORD_LEN ==> res == Err::<(), VaultError>(
                VaultError::BufferTooSmall,
            ) && final(dst)@ == old(dst)@,
            old(dst)@.len() >= RECORD_LEN ==> res is Ok && final(dst)@ == stored(
                self@,
                old(dst)@,
            ),
    {
        if dst.len() < RECORD_LEN {
            return Err(VaultError::BufferTooSmall);
        }
        self.pack_into_slice(dst);
        Ok(())
    }
}

impl Default for Vault {
    /// The zero record.
    fn default() -> (v: Vault)
        ensures
            v@ == VaultView::zero(),
    {
        let v = Vault { owner: [0u8;32], unlock_time: 0, balance: 0, is_initialized: false };
        assert(v@.owner =~= VaultView::zero().owner);
        v
    }
}

} // verus!
