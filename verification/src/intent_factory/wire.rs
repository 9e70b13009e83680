//! Wire encoding of the route: a count byte, then per call the program's
//! virtual index, the account indices, a flags bitmap (bit `2i` = writable,
//! bit `2i+1` = signer, LSB-first), and length-prefixed instruction data.

use vstd::prelude::*;
use vstd::bytes::*;
use vstd::slice::slice_subrange;
use crate::intent_factory::errors::WireError;
use crate::keys::push_all;

verus! {

pub const MAX_CALLS: usize = 8;

pub const MAX_ACCOUNTS_PER_CALL: usize = 64;

pub const MAX_DATA_LEN: usize = 1024;

/// Virtual indices below this are the named slots (intent PDA, source ATA, ...).
pub const NAMED_PREFIX: usize = 4;

/// Bit `k` of a bitmap, LSB-first within each byte; absent bytes read as zero.
pub open spec fn bitmap_bit(bitmap: Seq<u8>, k: int) -> bool {
    0 <= k && k / 8 < bitmap.len() && (bitmap[k / 8] >> ((k % 8) as u8)) & 1u8 == 1u8
}

/// The (is_writable, is_signer) flags of account `i`.
pub open spec fn spec_flag_for(bitmap: Seq<u8>, i: int) -> (bool, bool) {
    (bitmap_bit(bitmap, 2 * i), bitmap_bit(bitmap, 2 * i + 1))
}

/// Read the (is_writable, is_signer) flags for account `i` from a bitmap
/// (bits `2i` and `2i + 1`: byte `i / 4`, offset `2 * (i % 4)`).
pub fn flag_for(bitmap: &[u8], i: usize) -> (r: (bool, bool))
    ensures
        r == spec_flag_for(bitmap@, i as int),
{
    let byte_ix = i / 4;
    let bit_ix = (i % 4) * 2;
    assert((2 * i) / 8 == byte_ix && (2 * i) % 8 == bit_ix && (2 * i + 1) / 8 == byte_ix && (2 * i
        + 1) % 8 == bit_ix + 1) by (nonlinear_arith)
        requires
            byte_ix == i / 4,
            bit_ix == (i % 4) * 2,
    ;
    if byte_ix >= bitmap.len() {
        return (false, false);
    }
    let byte = bitmap[byte_ix];
    let b = bit_ix as u8;
    let is_writable = (byte >> b) & 1 == 1;
    let is_signer = (byte >> (b + 1)) & 1 == 1;
    (is_writable, is_signer)
}

/// Bitmap length for `n` accounts.
pub open spec fn bitmap_len(n: nat) -> nat {
    (n * 2 + 7) / 8
}

/// No flag bit past the `2 * n` used ones is set in the last byte.
pub open spec fn bitmap_tail_clear(bitmap: Seq<u8>, n: nat) -> bool {
    n * 2 >= bitmap.len() * 8 || (n * 2) % 8 == 0 || bitmap[bitmap.len() - 1] >> (((n * 2)
        % 8) as u8) == 0u8
}

fn validate_trailing_bitmap_bits(bitmap: &[u8], acc_count: usize) -> (r: Result<(), WireError>)
    requires
        acc_count <= MAX_ACCOUNTS_PER_CALL,
    ensures
        r is Ok <==> bitmap_tail_clear(bitmap@, acc_count as nat),
        r is Err ==> r->Err_0 == WireError::NonCanonicalBitmap,
{
    let used_bits = acc_count * 2;
    let len = bitmap.len();
    assert(used_bits < len * 8 <==> len > used_bits / 8) by (nonlinear_arith)
        requires
            used_bits <= 128,
    ;
    if len > used_bits / 8 {
        let last_byte = bitmap[bitmap.len() - 1];
        let used_in_last = used_bits % 8;
        if used_in_last == 0 {
            return Ok(());
        }
        let u = used_in_last as u8;
        let shifted: u8 = 1u8 << u;
        assert(shifted >= 1) by (bit_vector)
            requires
                u < 8,
                shifted == 1u8 << u,
        ;
        let mask: u8 = !(shifted - 1);
        assert((last_byte & mask) == 0 <==> (last_byte >> u) == 0u8) by (bit_vector)
            requires
                1 <= u < 8,
                shifted == 1u8 << u,
                mask == !((shifted - 1) as u8),
        ;
        if last_byte & mask != 0 {
            return Err(WireError::NonCanonicalBitmap);
        }
    }
    Ok(())
}


/// A decoded call, as bytes-level values.
#[verifier::ext_equal]
pub struct CallModel {
    pub program_ix: u8,
    pub accounts: Seq<u8>,
    pub flags_bitmap: Seq<u8>,
    pub data: Seq<u8>,
}

/// Every byte of `s` is below `bound`.
pub open spec fn all_below(s: Seq<u8>, bound: int) -> bool {
    forall|j: int| 0 <= j < s.len() ==> (s[j] as int) < bound
}

/// Reading one call at `c` of `buf` against a virtual account list of length
/// `vlen`: the call or the first error found, and the cursor after the read
/// (on an error, where the failing field started or ended as the reader left it).
pub open spec fn spec_read_one(buf: Seq<u8>, c: int, vlen: int) -> (Result<CallModel, WireError>, int) {
    if c >= buf.len() {
        (Err(WireError::MalformedWireBytes), c)
    } else {
        let program_ix = buf[c];
        let c1 = c + 1;
        if (program_ix as int) < NAMED_PREFIX {
            (Err(WireError::ProgramInNamedPrefix), c1)
        } else if (program_ix as int) >= vlen {
            (Err(WireError::AccountIndexOutOfBounds), c1)
        } else if c1 >= buf.len() {
            (Err(WireError::MalformedWireBytes), c1)
        } else {
            let n = buf[c1] as int;
            let c2 = c1 + 1;
            if n > MAX_ACCOUNTS_PER_CALL {
                (Err(WireError::TooManyAccountsPerCall), c2)
            } else if c2 + n > buf.len() {
                (Err(WireError::MalformedWireBytes), c2)
            } else {
                let accounts = buf.subrange(c2, c2 + n);
                let c3 = c2 + n;
                if !all_below(accounts, vlen) {
                    (Err(WireError::AccountIndexOutOfBounds), c3)
                } else {
                    let bl = bitmap_len(n as nat) as int;
                    if c3 + bl > buf.len() {
                        (Err(WireError::MalformedWireBytes), c3)
                    } else {
                        let bitmap = buf.subrange(c3, c3 + bl);
                        let c4 = c3 + bl;
                        if n > 0 && !bitmap_tail_clear(bitmap, n as nat) {
                            (Err(WireError::NonCanonicalBitmap), c4)
                        } else if c4 + 2 > buf.len() {
                            (Err(WireError::MalformedWireBytes), c4)
                        } else {
                            let dl = spec_u16_from_le_bytes(buf.subrange(c4, c4 + 2)) as int;
                            let c5 = c4 + 2;
                            if dl > MAX_DATA_LEN {
                                (Err(WireError::DataTooLarge), c5)
                            } else if c5 + dl > buf.len() {
                                (Err(WireError::MalformedWireBytes), c5)
                            } else {
                                (
                                    Ok(
                                        CallModel {
                                            program_ix,
                                            accounts,
                                            flags_bitmap: bitmap,
                                            data: buf.subrange(c5, c5 + dl),
                                        },
                                    ),
                                    c5 + dl,
                                )
                            }
                        }
                    }
                }
            }
        }
    }
}

/// Zero-copy reference into a single call's wire bytes.
pub struct CallSpecRef<'a> {
    pub program_ix: u8,
    pub accounts: &'a [u8],
    pub flags_bitmap: &'a [u8],
    pub data: &'a [u8],
}

impl<'a> View for CallSpecRef<'a> {
    type V = CallModel;

    open spec fn view(&self) -> CallModel {
        CallModel {
            program_ix: self.program_ix,
            accounts: self.accounts@,
            flags_bitmap: self.flags_bitmap@,
            data: self.data@,
        }
    }
}

impl<'a> CallSpecRef<'a> {
    /// The per-account (is_writable, is_signer) flags from the bitmap.
    pub fn flag_for(&self, i: usize) -> (r: (bool, bool))
        ensures
            r == spec_flag_for(self.flags_bitmap@, i as int),
    {
        flag_for(self.flags_bitmap, i)
    }
}

/// The iterator's state: the wire bytes, the read position, the calls still to
/// read, and the length of the virtual account list indices are checked against.
pub struct CallsIterView {
    pub buf: Seq<u8>,
    pub cursor: int,
    pub remaining: nat,
    pub virtual_list_len: int,
}

/// Zero-copy cursor-based iterator over wire-encoded calls.
pub struct CallsIter<'a> {
    buf: &'a [u8],
    cursor: usize,
    remaining: u8,
    virtual_list_len: usize,
}

impl<'a> View for CallsIter<'a> {
    type V = CallsIterView;

    closed spec fn view(&self) -> CallsIterView {
        CallsIterView {
            buf: self.buf@,
            cursor: self.cursor as int,
            remaining: self.remaining as nat,
            virtual_list_len: self.virtual_list_len as int,
        }
    }
}

impl<'a> CallsIter<'a> {
    #[verifier::type_invariant]
    spec fn inv(self) -> bool {
        &&& self.cursor <= self.buf@.len()
        &&& self.remaining <= MAX_CALLS
    }

    /// Start reading `buf`; `remaining_len` is the number of remaining accounts,
    /// so virtual indices must stay below `NAMED_PREFIX + remaining_len`.
    pub fn new(buf: &'a [u8], remaining_len: usize) -> (r: Result<Self, WireError>)
        requires
            remaining_len <= usize::MAX - NAMED_PREFIX,
        ensures
            buf@.len() == 0 ==> r == Err::<Self, WireError>(WireError::MalformedWireBytes),
            buf@.len() > 0 && buf@[0] > MAX_CALLS ==> r == Err::<Self, WireError>(
                WireError::TooManyCalls,
            ),
            buf@.len() > 0 && buf@[0] <= MAX_CALLS ==> (r matches Ok(it) && it@ == (CallsIterView {
                buf: buf@,
                cursor: 1,
                remaining: buf@[0] as nat,
                virtual_list_len: NAMED_PREFIX + remaining_len,
            })),
    {
        if buf.len() == 0 {
            return Err(WireError::MalformedWireBytes);
        }
        let num_calls = buf[0] as usize;
        if num_calls > MAX_CALLS {
            return Err(WireError::TooManyCalls);
        }
        Ok(CallsIter {
            buf,
            cursor: 1,
            remaining: num_calls as u8,
            virtual_list_len: NAMED_PREFIX + remaining_len,
        })
    }

    /// The next call, or `None` once the declared number of calls has been read.
    pub fn next_call(&mut self) -> (r: Option<Result<CallSpecRef<'a>, WireError>>)
        ensures
            old(self)@.remaining == 0 ==> r is None && final(self)@ == old(self)@,
            old(self)@.remaining > 0 ==> {
                let (res, c) = spec_read_one(
                    old(self)@.buf,
                    old(self)@.cursor,
                    old(self)@.virtual_list_len,
                );
                &&& r is Some
                &&& final(self)@ == CallsIterView {
                    cursor: c,
                    remaining: (old(self)@.remaining - 1) as nat,
                    ..old(self)@
                }
                &&& match res {
                    Ok(m) => r->0 matches Ok(call) && call@ == m,
                    Err(e) => r->0 == Err::<CallSpecRef<'a>, WireError>(e),
                }
            },
    {
        proof { use_type_invariant(&*self); }
        if self.remaining == 0 {
            return None;
        }
        self.remaining = self.remaining - 1;
        Some(self.read_one())
    }

    fn read_one(&mut self) -> (r: Result<CallSpecRef<'a>, WireError>)
        ensures
            ({
                let (res, c) = spec_read_one(
                    old(self)@.buf,
                    old(self)@.cursor,
                    old(self)@.virtual_list_len,
                );
                &&& final(self)@ == CallsIterView { cursor: c, ..old(self)@ }
                &&& match res {
                    Ok(m) => r matches Ok(call) && call@ == m,
                    Err(e) => r == Err::<CallSpecRef<'a>, WireError>(e),
                }
            }),
    {
        proof { use_type_invariant(&*self); }
        let program_ix = self.read_u8()?;
        if (program_ix as usize) < NAMED_PREFIX {
            return Err(WireError::ProgramInNamedPrefix);
        }
        if (program_ix as usize) >= self.virtual_list_len {
            return Err(WireError::AccountIndexOutOfBounds);
        }
        let acc_count = self.read_u8()? as usize;
        if acc_count > MAX_ACCOUNTS_PER_CALL {
            return Err(WireError::TooManyAccountsPerCall);
        }
        let accounts = self.read_slice(acc_count)?;
        let mut j: usize = 0;
        #[verifier::loop_isolation(false)]
        while j < accounts.len()
            invariant
                0 <= j <= accounts@.len(),
                forall|k: int| 0 <= k < j ==> (accounts@[k] as int) < self.virtual_list_len,
            decreases accounts@.len() - j,
        {
            if (accounts[j] as usize) >= self.virtual_list_len {
                return Err(WireError::AccountIndexOutOfBounds);
            }
            j += 1;
        }
        let bitmap_len = (acc_count * 2 + 7) / 8;
        let flags_bitmap = self.read_slice(bitmap_len)?;
        if acc_count > 0 {
            validate_trailing_bitmap_bits(flags_bitmap, acc_count)?;
        }
        let data_len = self.read_u16_le()? as usize;
        if data_len > MAX_DATA_LEN {
            return Err(WireError::DataTooLarge);
        }
        let data = self.read_slice(data_len)?;
        Ok(CallSpecRef { program_ix, accounts, flags_bitmap, data })
    }

    fn read_u8(&mut self) -> (r: Result<u8, WireError>)
        ensures
            final(self)@.buf == old(self)@.buf,
            final(self)@.remaining == old(self)@.remaining,
            final(self)@.virtual_list_len == old(self)@.virtual_list_len,
            old(self)@.cursor < old(self)@.buf.len() ==> r == Ok::<u8, WireError>(
                old(self)@.buf[old(self)@.cursor],
            ) && final(self)@.cursor == old(self)@.cursor + 1,
            old(self)@.cursor >= old(self)@.buf.len() ==> r == Err::<u8, WireError>(
                WireError::MalformedWireBytes,
            ) && final(self)@.cursor == old(self)@.cursor,
    {
        proof { use_type_invariant(&*self); }
        if self.cursor >= self.buf.len() {
            return Err(WireError::MalformedWireBytes);
        }
        let val = self.buf[self.cursor];
        self.cursor = self.cursor + 1;
        Ok(val)
    }

    fn read_u16_le(&mut self) -> (r: Result<u16, WireError>)
        ensures
            final(self)@.buf == old(self)@.buf,
            final(self)@.remaining == old(self)@.remaining,
            final(self)@.virtual_list_len == old(self)@.virtual_list_len,
            old(self)@.cursor + 2 <= old(self)@.buf.len() ==> r == Ok::<u16, WireError>(
                spec_u16_from_le_bytes(
                    old(self)@.buf.subrange(old(self)@.cursor, old(self)@.cursor + 2),
                ),
            ) && final(self)@.cursor == old(self)@.cursor + 2,
            old(self)@.cursor + 2 > old(self)@.buf.len() ==> r == Err::<u16, WireError>(
                WireError::MalformedWireBytes,
            ) && final(self)@.cursor == old(self)@.cursor,
    {
        proof { use_type_invariant(&*self); }
        if 2 > self.buf.len() - self.cursor {
            return Err(WireError::MalformedWireBytes);
        }
        let end = self.cursor + 2;
        let val = u16_from_le_bytes(slice_subrange(self.buf, self.cursor, end));
        self.cursor = end;
        Ok(val)
    }

    fn read_slice(&mut self, len: usize) -> (r: Result<&'a [u8], WireError>)
        ensures
            final(self)@.buf == old(self)@.buf,
            final(self)@.remaining == old(self)@.remaining,
            final(self)@.virtual_list_len == old(self)@.virtual_list_len,
            old(self)@.cursor + len <= old(self)@.buf.len() ==> (r matches Ok(sl) && sl@
                == old(self)@.buf.subrange(old(self)@.cursor, old(self)@.cursor + len)
                && final(self)@.cursor == old(self)@.cursor + len),
            old(self)@.cursor + len > old(self)@.buf.len() ==> r == Err::<&'a [u8], WireError>(
                WireError::MalformedWireBytes,
            ) && final(self)@.cursor == old(self)@.cursor,
    {
        proof { use_type_invariant(&*self); }
        if len > self.buf.len() - self.cursor {
            return Err(WireError::MalformedWireBytes);
        }
        let end = self.cursor + len;
        let slice = slice_subrange(self.buf, self.cursor, end);
        self.cursor = end;
        Ok(slice)
    }

    /// After iterating all calls, verify no trailing bytes remain.
    pub fn assert_exhausted(&self) -> (r: Result<(), WireError>)
        ensures
            r is Ok <==> self@.cursor == self@.buf.len(),
            r is Err ==> r->Err_0 == WireError::MalformedWireBytes,
    {
        proof { use_type_invariant(self); }
        if self.cursor != self.buf.len() {
            return Err(WireError::MalformedWireBytes);
        }
        Ok(())
    }
}


/// Owned version of a call, for encoding.
#[derive(Debug, Clone)]
pub struct CallSpecOwned {
    pub program_ix: u8,
    pub accounts: Vec<u8>,
    pub flags_bitmap: Vec<u8>,
    pub data: Vec<u8>,
}

impl View for CallSpecOwned {
    type V = CallModel;

    open spec fn view(&self) -> CallModel {
        CallModel {
            program_ix: self.program_ix,
            accounts: self.accounts@,
            flags_bitmap: self.flags_bitmap@,
            data: self.data@,
        }
    }
}

/// One call on the wire: program index, account count (one byte), account
/// indices, flags bitmap, data length (LE `u16`), data.
pub open spec fn call_bytes(c: CallModel) -> Seq<u8> {
    seq![c.program_ix, (c.accounts.len() % 256) as u8] + c.accounts + c.flags_bitmap
        + spec_u16_to_le_bytes((c.data.len() % 65536) as u16) + c.data
}

/// The calls on the wire, in order, without the count byte.
pub open spec fn calls_body(cs: Seq<CallModel>) -> Seq<u8>
    decreases cs.len(),
{
    if cs.len() == 0 {
        Seq::empty()
    } else {
        call_bytes(cs[0]) + calls_body(cs.drop_first())
    }
}

/// The full wire encoding: the number of calls (one byte), then the calls.
pub open spec fn calls_bytes(cs: Seq<CallModel>) -> Seq<u8> {
    seq![(cs.len() % 256) as u8] + calls_body(cs)
}

proof fn lemma_calls_body_push(cs: Seq<CallModel>, c: CallModel)
    ensures
        calls_body(cs.push(c)) == calls_body(cs) + call_bytes(c),
    decreases cs.len(),
{
    if cs.len() == 0 {
        let e = Seq::<CallModel>::empty();
        assert(cs.push(c).drop_first() =~= e);
        assert(cs.push(c)[0] == c);
        assert(calls_body(e) == Seq::<u8>::empty());
        assert(calls_body(cs.push(c)) =~= call_bytes(c) + Seq::<u8>::empty());
        assert(calls_body(cs.push(c)) =~= calls_body(cs) + call_bytes(c));
    } else {
        lemma_calls_body_push(cs.drop_first(), c);
        assert(cs.push(c).drop_first() =~= cs.drop_first().push(c));
        assert(calls_body(cs.push(c)) =~= calls_body(cs) + call_bytes(c));
    }
}

/// Encode a list of calls into wire bytes.
pub fn encode_calls(calls: &[CallSpecOwned]) -> (r: Vec<u8>)
    ensures
        r@ == calls_bytes(calls@.map_values(|c: CallSpecOwned| c@)),
{
    let ghost cs = calls@.map_values(|c: CallSpecOwned| c@);
    let mut buf: Vec<u8> = Vec::new();
    buf.push((calls.len() % 256) as u8);
    let mut i: usize = 0;
    while i < calls.len()
        invariant
            0 <= i <= calls@.len(),
            cs == calls@.map_values(|c: CallSpecOwned| c@),
            buf@ == seq![(calls@.len() % 256) as u8] + calls_body(cs.subrange(0, i as int)),
        decreases calls@.len() - i,
    {
        let call = &calls[i];
        let ghost before = buf@;
        buf.push(call.program_ix);
        buf.push((call.accounts.len() % 256) as u8);
        push_all(&mut buf, call.accounts.as_slice());
        push_all(&mut buf, call.flags_bitmap.as_slice());
        let len_bytes = u16_to_le_bytes((call.data.len() % 65536) as u16);
        push_all(&mut buf, len_bytes.as_slice());
        push_all(&mut buf, call.data.as_slice());
        proof {
            assert(cs[i as int] == call@);
            lemma_calls_body_push(cs.subrange(0, i as int), call@);
            assert(cs.subrange(0, i as int).push(call@) =~= cs.subrange(0, i + 1));
            assert(buf@ =~= before + call_bytes(call@));
        }
        i += 1;
    }
    assert(cs.subrange(0, calls@.len() as int) =~= cs);
    buf
}

/// A call the reader accepts against a virtual list of length `vlen`.
pub open spec fn call_valid(c: CallModel, vlen: int) -> bool {
    &&& NAMED_PREFIX <= c.program_ix < vlen
    &&& c.accounts.len() <= MAX_ACCOUNTS_PER_CALL
    &&& all_below(c.accounts, vlen)
    &&& c.flags_bitmap.len() == bitmap_len(c.accounts.len())
    &&& (c.accounts.len() > 0 ==> bitmap_tail_clear(c.flags_bitmap, c.accounts.len()))
    &&& c.data.len() <= MAX_DATA_LEN
}

/// Reading `k` calls one after the other from `c`: the calls or the first error,
/// and the cursor after the last read.
pub open spec fn spec_read_calls(buf: Seq<u8>, c: int, k: nat, vlen: int) -> (
    Result<Seq<CallModel>, WireError>,
    int,
)
    decreases k,
{
    if k == 0 {
        (Ok(Seq::empty()), c)
    } else {
        let (r, c1) = spec_read_one(buf, c, vlen);
        match r {
            Err(e) => (Err(e), c1),
            Ok(m) => {
                let (rest, c2) = spec_read_calls(buf, c1, (k - 1) as nat, vlen);
                match rest {
                    Ok(ms) => (Ok(seq![m] + ms), c2),
                    Err(e) => (Err(e), c2),
                }
            },
        }
    }
}

/// Reading `k` calls successfully yields exactly `k` calls.
pub proof fn lemma_read_calls_len(buf: Seq<u8>, c: int, k: nat, vlen: int)
    requires
        spec_read_calls(buf, c, k, vlen).0 is Ok,
    ensures
        spec_read_calls(buf, c, k, vlen).0->Ok_0.len() == k,
    decreases k,
{
    if k > 0 {
        let (r, c1) = spec_read_one(buf, c, vlen);
        lemma_read_calls_len(buf, c1, (k - 1) as nat, vlen);
    }
}

proof fn lemma_read_one_enc(p: Seq<u8>, c: CallModel, s: Seq<u8>, vlen: int)
    requires
        call_valid(c, vlen),
    ensures
        spec_read_one(p + call_bytes(c) + s, p.len() as int, vlen) == (
            Ok::<CallModel, WireError>(c),
            (p.len() + call_bytes(c).len()) as int,
        ),
{
    lemma_auto_spec_u16_to_from_le_bytes();
    let buf = p + call_bytes(c) + s;
    let n = c.accounts.len() as int;
    let bl = c.flags_bitmap.len() as int;
    let dl = c.data.len() as int;
    let c0 = p.len() as int;
    let lb = spec_u16_to_le_bytes((c.data.len() % 65536) as u16);
    assert(buf =~= p + (seq![c.program_ix, (n % 256) as u8] + (c.accounts + (c.flags_bitmap + (lb
        + (c.data + s))))));
    assert(buf[c0] == c.program_ix);
    assert(buf[c0 + 1] == n as u8);
    assert(buf.subrange(c0 + 2, c0 + 2 + n) =~= c.accounts);
    assert(buf.subrange(c0 + 2 + n, c0 + 2 + n + bl) =~= c.flags_bitmap);
    assert(buf.subrange(c0 + 2 + n + bl, c0 + 4 + n + bl) =~= lb);
    assert(buf.subrange(c0 + 4 + n + bl, c0 + 4 + n + bl + dl) =~= c.data);
}

proof fn lemma_read_calls_enc(p: Seq<u8>, cs: Seq<CallModel>, s: Seq<u8>, vlen: int)
    requires
        forall|i: int| 0 <= i < cs.len() ==> call_valid(#[trigger] cs[i], vlen),
    ensures
        spec_read_calls(p + calls_body(cs) + s, p.len() as int, cs.len(), vlen) == (
            Ok::<Seq<CallModel>, WireError>(cs),
            (p.len() + calls_body(cs).len()) as int,
        ),
    decreases cs.len(),
{
    if cs.len() == 0 {
        assert(cs =~= Seq::<CallModel>::empty());
    } else {
        let c = cs[0];
        let rest = cs.drop_first();
        assert(call_valid(c, vlen));
        assert forall|i: int| 0 <= i < rest.len() implies call_valid(#[trigger] rest[i], vlen) by {
            assert(rest[i] == cs[i + 1]);
        }
        let buf = p + calls_body(cs) + s;
        assert(buf =~= p + call_bytes(c) + (calls_body(rest) + s));
        lemma_read_one_enc(p, c, calls_body(rest) + s, vlen);
        let p2 = p + call_bytes(c);
        assert(buf =~= p2 + calls_body(rest) + s);
        lemma_read_calls_enc(p2, rest, s, vlen);
        assert(seq![c] + rest =~= cs);
    }
}

/// Reading back the encoding of accepted calls gives the same calls, in the same
/// order, and ends exactly at the end of the bytes.
pub proof fn law_calls_roundtrip(cs: Seq<CallModel>, vlen: int)
    requires
        cs.len() <= MAX_CALLS,
        forall|i: int| 0 <= i < cs.len() ==> call_valid(#[trigger] cs[i], vlen),
    ensures
        calls_bytes(cs).len() > 0,
        calls_bytes(cs)[0] == cs.len(),
        spec_read_calls(calls_bytes(cs), 1, cs.len(), vlen) == (
            Ok::<Seq<CallModel>, WireError>(cs),
            calls_bytes(cs).len() as int,
        ),
{
    let p = seq![(cs.len() % 256) as u8];
    lemma_read_calls_enc(p, cs, Seq::empty(), vlen);
    assert(p + calls_body(cs) + Seq::<u8>::empty() =~= calls_bytes(cs));
}


/// Flag `i` of a per-account flag list; absent entries read as `false`.
pub open spec fn wanted(flags: Seq<bool>, i: int) -> bool {
    0 <= i < flags.len() && flags[i]
}

/// The bit a `CallSpecOwned::new` bitmap should hold at position `k`.
pub open spec fn wanted_bit(is_writable: Seq<bool>, is_signer: Seq<bool>, k: int) -> bool {
    if k % 2 == 0 {
        wanted(is_writable, k / 2)
    } else {
        wanted(is_signer, k / 2)
    }
}

proof fn lemma_or_bit(x: u8, b: u8, j: u8)
    requires
        b < 8,
        j < 8,
    ensures
        ((x | (1u8 << b)) >> j) & 1u8 == 1u8 <==> (j == b || (x >> j) & 1u8 == 1u8),
{
    assert(((x | (1u8 << b)) >> j) & 1u8 == 1u8 <==> (j == b || (x >> j) & 1u8 == 1u8))
        by (bit_vector)
        requires
            b < 8,
            j < 8,
    ;
}

proof fn lemma_high_bits_clear(x: u8, u: u8)
    requires
        1 <= u < 8,
        forall|j: u8| u <= j < 8 ==> #[trigger] ((x >> j) & 1u8) == 0u8,
    ensures
        x >> u == 0u8,
{
    let b1 = (x >> 1u8) & 1u8;
    let b2 = (x >> 2u8) & 1u8;
    let b3 = (x >> 3u8) & 1u8;
    let b4 = (x >> 4u8) & 1u8;
    let b5 = (x >> 5u8) & 1u8;
    let b6 = (x >> 6u8) & 1u8;
    let b7 = (x >> 7u8) & 1u8;
    assert(x >> u == 0u8) by (bit_vector)
        requires
            1 <= u < 8,
            b1 == (x >> 1u8) & 1u8,
            b2 == (x >> 2u8) & 1u8,
            b3 == (x >> 3u8) & 1u8,
            b4 == (x >> 4u8) & 1u8,
            b5 == (x >> 5u8) & 1u8,
            b6 == (x >> 6u8) & 1u8,
            b7 == (x >> 7u8) & 1u8,
            u <= 1 ==> b1 == 0u8,
            u <= 2 ==> b2 == 0u8,
            u <= 3 ==> b3 == 0u8,
            u <= 4 ==> b4 == 0u8,
            u <= 5 ==> b5 == 0u8,
            u <= 6 ==> b6 == 0u8,
            u <= 7 ==> b7 == 0u8,
    ;
}

/// A bitmap of the right length with no bit set past `2 * n` is canonical.
proof fn lemma_tail_clear(bitmap: Seq<u8>, n: nat)
    requires
        bitmap.len() == bitmap_len(n),
        forall|k: int| 2 * n <= k ==> !bitmap_bit(bitmap, k),
    ensures
        bitmap_tail_clear(bitmap, n),
{
    let u = (n * 2) % 8;
    if n * 2 < bitmap.len() * 8 && u != 0 {
        let len = bitmap.len() as int;
        assert(8 * (len - 1) + u == 2 * n) by (nonlinear_arith)
            requires
                len == (n * 2 + 7) / 8,
                u == (n * 2) % 8,
                u != 0,
        ;
        let x = bitmap[len - 1];
        assert forall|j: u8| (u as u8) <= j < 8 implies #[trigger] ((x >> j) & 1u8) == 0u8 by {
            let k = 8 * (len - 1) + j;
            assert(!bitmap_bit(bitmap, k));
            assert(k / 8 == len - 1 && k % 8 == j) by (nonlinear_arith)
                requires
                    k == 8 * (len - 1) + j,
                    0 <= j < 8,
            ;
            assert(((x >> j) & 1u8) != 1u8);
            assert(((x >> j) & 1u8) <= 1u8) by (bit_vector);
        }
        lemma_high_bits_clear(x, u as u8);
    }
}

impl CallSpecOwned {
    /// Builds a call, packing the per-account flags into the bitmap
    /// (bit `2i` = writable, bit `2i+1` = signer; absent flags are `false`).
    pub fn new(
        program_ix: u8,
        accounts: Vec<u8>,
        is_writable: Vec<bool>,
        is_signer: Vec<bool>,
        data: Vec<u8>,
    ) -> (r: Self)
        requires
            accounts@.len() <= (usize::MAX - 7) / 2,
        ensures
            r.program_ix == program_ix,
            r.accounts@ == accounts@,
            r.data@ == data@,
            r.flags_bitmap@.len() == bitmap_len(accounts@.len()),
            forall|i: int|
                0 <= i < accounts@.len() ==> #[trigger] spec_flag_for(r.flags_bitmap@, i) == (
                    wanted(is_writable@, i),
                    wanted(is_signer@, i),
                ),
            forall|k: int| 2 * accounts@.len() <= k ==> !bitmap_bit(r.flags_bitmap@, k),
            bitmap_tail_clear(r.flags_bitmap@, accounts@.len()),
    {
        let acc_count = accounts.len();
        let bitmap_len = (acc_count * 2 + 7) / 8;
        let mut bitmap: Vec<u8> = Vec::new();
        let mut z: usize = 0;
        while z < bitmap_len
            invariant
                0 <= z <= bitmap_len,
                bitmap@.len() == z,
                forall|t: int| 0 <= t < z ==> bitmap@[t] == 0u8,
            decreases bitmap_len - z,
        {
            bitmap.push(0u8);
            z += 1;
        }
        assert forall|k: int| 0 <= k implies !bitmap_bit(bitmap@, k) by {
            if k / 8 < bitmap@.len() {
                let sh = (k % 8) as u8;
                assert((0u8 >> sh) & 1u8 == 0u8) by (bit_vector);
            }
        }
        let ghost w = is_writable@;
        let ghost s = is_signer@;
        let mut i: usize = 0;
        while i < acc_count
            invariant
                0 <= i <= acc_count,
                acc_count == accounts@.len(),
                acc_count <= (usize::MAX - 7) / 2,
                bitmap_len == (acc_count * 2 + 7) / 8,
                bitmap@.len() == bitmap_len,
                w == is_writable@,
                s == is_signer@,
                forall|k: int| 0 <= k < 2 * i ==> bitmap_bit(bitmap@, k) == wanted_bit(w, s, k),
                forall|k: int| 2 * i <= k ==> !bitmap_bit(bitmap@, k),
            decreases acc_count - i,
        {
            let bit_offset = i * 2;
            let byte_ix = bit_offset / 8;
            let bit_ix = bit_offset % 8;
            assert(byte_ix < bitmap_len) by (nonlinear_arith)
                requires
                    i < acc_count,
                    bit_offset == i * 2,
                    byte_ix == bit_offset / 8,
                    bitmap_len == (acc_count * 2 + 7) / 8,
            ;
            let want_w = if i < is_writable.len() {
                is_writable[i]
            } else {
                false
            };
            let want_s = if i < is_signer.len() {
                is_signer[i]
            } else {
                false
            };
            let x = bitmap[byte_ix];
            let b = bit_ix as u8;
            let y1: u8 = if want_w {
                x | (1u8 << b)
            } else {
                x
            };
            let y: u8 = if want_s {
                y1 | (1u8 << (b + 1))
            } else {
                y1
            };
            let ghost old_map = bitmap@;
            bitmap.set(byte_ix, y);
            proof {
                assert(bit_ix % 2 == 0 && bit_ix + 1 < 8) by (nonlinear_arith)
                    requires
                        bit_offset == i * 2,
                        bit_ix == bit_offset % 8,
                ;
                assert forall|k: int| 0 <= k < 2 * (i + 1) implies bitmap_bit(bitmap@, k)
                    == wanted_bit(w, s, k) by {
                    if k / 8 != byte_ix as int {
                        if k / 8 < bitmap@.len() {
                            assert(bitmap@[k / 8] == old_map[k / 8]);
                        }
                    } else {
                        let j = (k % 8) as u8;
                        lemma_or_bit(x, b, j);
                        lemma_or_bit(y1, (b + 1) as u8, j);
                        if k < 2 * i {
                            assert(j != b && j != b + 1) by (nonlinear_arith)
                                requires
                                    k / 8 == byte_ix,
                                    k < 2 * i,
                                    j == k % 8,
                                    b == bit_offset % 8,
                                    bit_offset == i * 2,
                                    byte_ix == bit_offset / 8,
                            ;
                        } else {
                            assert(k == 2 * i ==> j == b && k % 2 == 0 && k / 2 == i);
                            assert(k == 2 * i + 1 ==> j == b + 1 && k % 2 == 1 && k / 2 == i)
                                by (nonlinear_arith)
                                requires
                                    k / 8 == byte_ix,
                                    j == k % 8,
                                    b == bit_offset % 8,
                                    bit_offset == i * 2,
                                    byte_ix == bit_offset / 8,
                            ;
                            assert(!bitmap_bit(old_map, k));
                        }
                    }
                }
                assert forall|k: int| 2 * (i + 1) <= k implies !bitmap_bit(bitmap@, k) by {
                    assert(!bitmap_bit(old_map, k));
                    if k / 8 == byte_ix as int {
                        let j = (k % 8) as u8;
                        lemma_or_bit(x, b, j);
                        lemma_or_bit(y1, (b + 1) as u8, j);
                        assert(j != b && j != b + 1) by (nonlinear_arith)
                            requires
                                k / 8 == byte_ix,
                                k >= 2 * i + 2,
                                j == k % 8,
                                b == bit_offset % 8,
                                bit_offset == i * 2,
                                byte_ix == bit_offset / 8,
                        ;
                    } else if k / 8 < bitmap@.len() {
                        assert(bitmap@[k / 8] == old_map[k / 8]);
                    }
                }
            }
            i += 1;
        }
        proof {
            assert forall|i: int| 0 <= i < accounts@.len() implies #[trigger] spec_flag_for(
                bitmap@,
                i,
            ) == (wanted(w, i), wanted(s, i)) by {
                assert(wanted_bit(w, s, 2 * i) == wanted(w, i));
                assert(wanted_bit(w, s, 2 * i + 1) == wanted(s, i));
            }
            lemma_tail_clear(bitmap@, accounts@.len());
        }
        CallSpecOwned { program_ix, accounts, flags_bitmap: bitmap, data }
    }
}

} // verus!
