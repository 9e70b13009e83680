//! The canonical intent header: its byte encoding (the hash preimage) and the
//! strict decoder that accepts exactly the canonical encodings.

use vstd::prelude::*;
use vstd::bytes::*;
use vstd::slice::slice_subrange;
use crate::keys::{Pubkey, push_all, lemma_key_view_injective};
use crate::intent_factory::errors::IntentError;

verus! {

/// Max declared outcomes per intent.
pub const MAX_OUTCOMES: usize = 4;

/// One declared outcome: a minimum balance increase of `account`, in `mint`
/// tokens, or in lamports when `mint` is `None`.
#[derive(Debug, Clone, Copy, PartialEq, Eq)]
pub struct IntentOutcome {
    pub mint: Option<Pubkey>,
    pub account: Pubkey,
    pub amount: u64,
}

/// The intent as the user signs it off.
#[derive(Debug, Clone, PartialEq, Eq)]
pub struct IntentHeader {
    pub user: Pubkey,
    pub src_mint: Option<Pubkey>,
    pub amount_in: u64,
    pub outcomes: Vec<IntentOutcome>,
    pub deadline: i64,
    pub salt: [u8; 32],
    pub executor: Pubkey,
}

/// The header as a mathematical value.
#[verifier::ext_equal]
pub struct IntentHeaderView {
    pub user: Pubkey,
    pub src_mint: Option<Pubkey>,
    pub amount_in: u64,
    pub outcomes: Seq<IntentOutcome>,
    pub deadline: i64,
    pub salt: [u8; 32],
    pub executor: Pubkey,
}

impl View for IntentHeader {
    type V = IntentHeaderView;

    open spec fn view(&self) -> IntentHeaderView {
        IntentHeaderView {
            user: self.user,
            src_mint: self.src_mint,
            amount_in: self.amount_in,
            outcomes: self.outcomes@,
            deadline: self.deadline,
            salt: self.salt,
            executor: self.executor,
        }
    }
}

/// A header the decoder accepts: at most `MAX_OUTCOMES` outcomes.
pub open spec fn header_wf(h: IntentHeaderView) -> bool {
    h.outcomes.len() <= MAX_OUTCOMES
}

/// `None` as the tag `0`; `Some(key)` as the tag `1` followed by the key.
pub open spec fn option_key_bytes(o: Option<Pubkey>) -> Seq<u8> {
    match o {
        Some(k) => seq![1u8] + k@,
        None => seq![0u8],
    }
}

/// One outcome row: optional mint, account, amount (LE).
pub open spec fn outcome_bytes(o: IntentOutcome) -> Seq<u8> {
    option_key_bytes(o.mint) + o.account@ + spec_u64_to_le_bytes(o.amount)
}

/// The outcome rows in declared order.
pub open spec fn outcomes_bytes(s: Seq<IntentOutcome>) -> Seq<u8>
    decreases s.len(),
{
    if s.len() == 0 {
        Seq::empty()
    } else {
        outcome_bytes(s[0]) + outcomes_bytes(s.drop_first())
    }
}

/// Two's-complement bits of an `i64`.
pub open spec fn i64_bits(v: i64) -> u64 {
    if v >= 0 {
        v as u64
    } else {
        (v + 0x1_0000_0000_0000_0000) as u64
    }
}

/// The `i64` whose two's-complement bits are `u`.
pub open spec fn i64_of_bits(u: u64) -> i64 {
    if u <= 0x7fff_ffff_ffff_ffff {
        u as i64
    } else {
        (u - 0x1_0000_0000_0000_0000) as i64
    }
}

/// The canonical encoding: user, optional source mint, `amount_in`, outcome count
/// (one byte), outcome rows, deadline, salt, executor; integers little-endian.
pub open spec fn header_bytes(h: IntentHeaderView) -> Seq<u8> {
    h.user@ + option_key_bytes(h.src_mint) + spec_u64_to_le_bytes(h.amount_in) + seq![
        (h.outcomes.len() % 256) as u8,
    ] + outcomes_bytes(h.outcomes) + spec_u64_to_le_bytes(i64_bits(h.deadline)) + h.salt@
        + h.executor@
}

/// What `IntentHeader::decode` gives back for `b`: the header whose canonical
/// encoding `b` is, if there is one.
pub open spec fn spec_decode(b: Seq<u8>) -> Option<IntentHeaderView> {
    if exists|h: IntentHeaderView| header_wf(h) && header_bytes(h) == b {
        Some(choose|h: IntentHeaderView| header_wf(h) && header_bytes(h) == b)
    } else {
        None
    }
}

proof fn lemma_outcomes_bytes_push(s: Seq<IntentOutcome>, o: IntentOutcome)
    ensures
        outcomes_bytes(s.push(o)) == outcomes_bytes(s) + outcome_bytes(o),
    decreases s.len(),
{
    if s.len() == 0 {
        let e = Seq::<IntentOutcome>::empty();
        assert(s.push(o).drop_first() =~= e);
        assert(outcomes_bytes(e) == Seq::<u8>::empty());
        assert(s.push(o)[0] == o);
        assert(outcomes_bytes(s.push(o)) =~= outcome_bytes(o) + Seq::<u8>::empty());
        assert(outcomes_bytes(s.push(o)) =~= outcomes_bytes(s) + outcome_bytes(o));
    } else {
        lemma_outcomes_bytes_push(s.drop_first(), o);
        assert(s.push(o).drop_first() =~= s.drop_first().push(o));
        assert(outcomes_bytes(s.push(o)) =~= outcomes_bytes(s) + outcome_bytes(o));
    }
}

fn encode_option_pubkey(buf: &mut Vec<u8>, opt: &Option<Pubkey>)
    ensures
        final(buf)@ == old(buf)@ + option_key_bytes(*opt),
{
    match opt {
        Some(pk) => {
            buf.push(1);
            push_all(buf, pk.as_slice());
            assert(final(buf)@ =~= old(buf)@ + option_key_bytes(*opt));
        },
        None => {
            buf.push(0);
            assert(final(buf)@ =~= old(buf)@ + option_key_bytes(*opt));
        },
    }
}

fn push_u64_le(buf: &mut Vec<u8>, v: u64)
    ensures
        final(buf)@ == old(buf)@ + spec_u64_to_le_bytes(v),
{
    let bytes = u64_to_le_bytes(v);
    push_all(buf, bytes.as_slice());
}

fn i64_to_bits(v: i64) -> (r: u64)
    ensures
        r == i64_bits(v),
{
    if v >= 0 {
        v as u64
    } else {
        ((v - i64::MIN) as u64) + 0x8000_0000_0000_0000
    }
}

fn i64_from_bits(u: u64) -> (r: i64)
    ensures
        r == i64_of_bits(u),
{
    if u <= 0x7fff_ffff_ffff_ffff {
        u as i64
    } else {
        ((u - 0x8000_0000_0000_0000) as i64) + i64::MIN
    }
}


// ---- byte-level model and the parser the decoder follows ----

/// An outcome row as bytes-level values: optional mint bytes, account bytes, amount.
pub type OutcomeFields = (Option<Seq<u8>>, Seq<u8>, u64);

/// A header as bytes-level values.
#[verifier::ext_equal]
pub struct HeaderFields {
    pub user: Seq<u8>,
    pub src_mint: Option<Seq<u8>>,
    pub amount_in: u64,
    pub outcomes: Seq<OutcomeFields>,
    pub deadline: i64,
    pub salt: Seq<u8>,
    pub executor: Seq<u8>,
}

pub open spec fn opt_key_view(o: Option<Pubkey>) -> Option<Seq<u8>> {
    match o {
        Some(k) => Some(k@),
        None => None,
    }
}

pub open spec fn outcome_fields(o: IntentOutcome) -> OutcomeFields {
    (opt_key_view(o.mint), o.account@, o.amount)
}

pub open spec fn fields_of(h: IntentHeaderView) -> HeaderFields {
    HeaderFields {
        user: h.user@,
        src_mint: opt_key_view(h.src_mint),
        amount_in: h.amount_in,
        outcomes: h.outcomes.map_values(|o: IntentOutcome| outcome_fields(o)),
        deadline: h.deadline,
        salt: h.salt@,
        executor: h.executor@,
    }
}

pub open spec fn opt_seq_bytes(o: Option<Seq<u8>>) -> Seq<u8> {
    match o {
        Some(k) => seq![1u8] + k,
        None => seq![0u8],
    }
}

pub open spec fn outcome_fields_bytes(o: OutcomeFields) -> Seq<u8> {
    opt_seq_bytes(o.0) + o.1 + spec_u64_to_le_bytes(o.2)
}

pub open spec fn outcomes_fields_bytes(s: Seq<OutcomeFields>) -> Seq<u8>
    decreases s.len(),
{
    if s.len() == 0 {
        Seq::empty()
    } else {
        outcome_fields_bytes(s[0]) + outcomes_fields_bytes(s.drop_first())
    }
}

pub open spec fn fields_bytes(f: HeaderFields) -> Seq<u8> {
    f.user + opt_seq_bytes(f.src_mint) + spec_u64_to_le_bytes(f.amount_in) + seq![
        (f.outcomes.len() % 256) as u8,
    ] + outcomes_fields_bytes(f.outcomes) + spec_u64_to_le_bytes(i64_bits(f.deadline)) + f.salt
        + f.executor
}

pub open spec fn p_u8(s: Seq<u8>) -> Option<(u8, Seq<u8>)> {
    if s.len() >= 1 {
        Some((s[0], s.drop_first()))
    } else {
        None
    }
}

pub open spec fn p_key(s: Seq<u8>) -> Option<(Seq<u8>, Seq<u8>)> {
    if s.len() >= 32 {
        Some((s.take(32), s.skip(32)))
    } else {
        None
    }
}

pub open spec fn p_u64(s: Seq<u8>) -> Option<(u64, Seq<u8>)> {
    if s.len() >= 8 {
        Some((spec_u64_from_le_bytes(s.take(8)), s.skip(8)))
    } else {
        None
    }
}

pub open spec fn p_opt_key(s: Seq<u8>) -> Option<(Option<Seq<u8>>, Seq<u8>)> {
    match p_u8(s) {
        Some((tag, r)) => if tag == 0 {
            Some((None, r))
        } else if tag == 1 {
            match p_key(r) {
                Some((k, r2)) => Some((Some(k), r2)),
                None => None,
            }
        } else {
            None
        },
        None => None,
    }
}

pub open spec fn p_outcome(s: Seq<u8>) -> Option<(OutcomeFields, Seq<u8>)> {
    match p_opt_key(s) {
        Some((mint, r1)) => match p_key(r1) {
            Some((account, r2)) => match p_u64(r2) {
                Some((amount, r3)) => Some(((mint, account, amount), r3)),
                None => None,
            },
            None => None,
        },
        None => None,
    }
}

pub open spec fn p_outcomes(n: nat, s: Seq<u8>) -> Option<(Seq<OutcomeFields>, Seq<u8>)>
    decreases n,
{
    if n == 0 {
        Some((Seq::empty(), s))
    } else {
        match p_outcome(s) {
            Some((o, r1)) => match p_outcomes((n - 1) as nat, r1) {
                Some((os, r2)) => Some((seq![o] + os, r2)),
                None => None,
            },
            None => None,
        }
    }
}

/// The trailing deadline, salt and executor, with nothing after them.
pub open spec fn p_tail(s: Seq<u8>) -> Option<(i64, Seq<u8>, Seq<u8>)> {
    match p_u64(s) {
        None => None,
        Some((dl, r6)) => match p_key(r6) {
            None => None,
            Some((salt, r7)) => match p_key(r7) {
                None => None,
                Some((executor, r8)) => if r8.len() == 0 {
                    Some((i64_of_bits(dl), salt, executor))
                } else {
                    None
                },
            },
        },
    }
}

/// The outcome count byte, the rows and the tail.
pub open spec fn p_body(s: Seq<u8>) -> Option<(Seq<OutcomeFields>, (i64, Seq<u8>, Seq<u8>))> {
    match p_u8(s) {
        None => None,
        Some((count, r4)) => if count > MAX_OUTCOMES {
            None
        } else {
            match p_outcomes(count as nat, r4) {
                None => None,
                Some((outcomes, r5)) => match p_tail(r5) {
                    None => None,
                    Some(t) => Some((outcomes, t)),
                },
            }
        },
    }
}

/// The strict parse the decoder performs.
pub open spec fn parse_header(b: Seq<u8>) -> Option<HeaderFields> {
    match p_key(b) {
        None => None,
        Some((user, r1)) => match p_opt_key(r1) {
            None => None,
            Some((src_mint, r2)) => match p_u64(r2) {
                None => None,
                Some((amount_in, r3)) => match p_body(r3) {
                    None => None,
                    Some((outcomes, (deadline, salt, executor))) => Some(
                        HeaderFields { user, src_mint, amount_in, outcomes, deadline, salt, executor },
                    ),
                },
            },
        },
    }
}

// ---- parse of an encoding gives back its fields ----

proof fn lemma_p_key_enc(k: Seq<u8>, r: Seq<u8>)
    requires
        k.len() == 32,
    ensures
        p_key(k + r) == Some((k, r)),
{
    assert((k + r).take(32) =~= k);
    assert((k + r).skip(32) =~= r);
}

proof fn lemma_p_u64_enc(v: u64, r: Seq<u8>)
    ensures
        p_u64(spec_u64_to_le_bytes(v) + r) == Some((v, r)),
{
    lemma_auto_spec_u64_to_from_le_bytes();
    let e = spec_u64_to_le_bytes(v);
    assert((e + r).take(8) =~= e);
    assert((e + r).skip(8) =~= r);
}

proof fn lemma_p_opt_key_enc(o: Option<Seq<u8>>, r: Seq<u8>)
    requires
        o matches Some(k) ==> k.len() == 32,
    ensures
        p_opt_key(opt_seq_bytes(o) + r) == Some((o, r)),
{
    match o {
        Some(k) => {
            let s = opt_seq_bytes(o) + r;
            assert(s.drop_first() =~= k + r);
            lemma_p_key_enc(k, r);
        },
        None => {
            let s = opt_seq_bytes(o) + r;
            assert(s.drop_first() =~= r);
        },
    }
}

proof fn lemma_p_outcome_enc(o: OutcomeFields, r: Seq<u8>)
    requires
        o.0 matches Some(k) ==> k.len() == 32,
        o.1.len() == 32,
    ensures
        p_outcome(outcome_fields_bytes(o) + r) == Some((o, r)),
{
    let a = opt_seq_bytes(o.0);
    let e = spec_u64_to_le_bytes(o.2);
    assert(outcome_fields_bytes(o) + r =~= a + (o.1 + (e + r)));
    lemma_p_opt_key_enc(o.0, o.1 + (e + r));
    lemma_p_key_enc(o.1, e + r);
    lemma_p_u64_enc(o.2, r);
}

pub open spec fn outcome_fields_wf(o: OutcomeFields) -> bool {
    &&& o.0 matches Some(k) ==> k.len() == 32
    &&& o.1.len() == 32
}

proof fn lemma_p_outcomes_enc(s: Seq<OutcomeFields>, r: Seq<u8>)
    requires
        forall|i: int| 0 <= i < s.len() ==> outcome_fields_wf(#[trigger] s[i]),
    ensures
        p_outcomes(s.len(), outcomes_fields_bytes(s) + r) == Some((s, r)),
    decreases s.len(),
{
    if s.len() > 0 {
        let rest = s.drop_first();
        assert forall|i: int| 0 <= i < rest.len() implies outcome_fields_wf(#[trigger] rest[i]) by {
            assert(rest[i] == s[i + 1]);
        }
        lemma_p_outcomes_enc(rest, r);
        assert(outcome_fields_wf(s[0]));
        assert(outcomes_fields_bytes(s) + r =~= outcome_fields_bytes(s[0]) + (outcomes_fields_bytes(
            rest,
        ) + r));
        lemma_p_outcome_enc(s[0], outcomes_fields_bytes(rest) + r);
        assert(seq![s[0]] + rest =~= s);
    } else {
        assert(outcomes_fields_bytes(s) + r =~= r);
        assert(s =~= Seq::<OutcomeFields>::empty());
    }
}

pub open spec fn fields_wf(f: HeaderFields) -> bool {
    &&& f.user.len() == 32
    &&& f.src_mint matches Some(k) ==> k.len() == 32
    &&& f.outcomes.len() <= MAX_OUTCOMES
    &&& forall|i: int| 0 <= i < f.outcomes.len() ==> outcome_fields_wf(#[trigger] f.outcomes[i])
    &&& f.salt.len() == 32
    &&& f.executor.len() == 32
}

proof fn lemma_i64_bits_roundtrip(v: i64)
    ensures
        i64_of_bits(i64_bits(v)) == v,
{
}

proof fn lemma_i64_of_bits_roundtrip(u: u64)
    ensures
        i64_bits(i64_of_bits(u)) == u,
{
}

proof fn lemma_p_tail_enc(dl: i64, salt: Seq<u8>, executor: Seq<u8>)
    requires
        salt.len() == 32,
        executor.len() == 32,
    ensures
        p_tail(spec_u64_to_le_bytes(i64_bits(dl)) + (salt + executor)) == Some((dl, salt, executor)),
{
    lemma_p_u64_enc(i64_bits(dl), salt + executor);
    lemma_p_key_enc(salt, executor);
    lemma_p_key_enc(executor, Seq::empty());
    assert(executor + Seq::<u8>::empty() =~= executor);
    lemma_i64_bits_roundtrip(dl);
}

proof fn lemma_p_body_enc(outcomes: Seq<OutcomeFields>, dl: i64, salt: Seq<u8>, executor: Seq<u8>)
    requires
        outcomes.len() <= MAX_OUTCOMES,
        forall|i: int| 0 <= i < outcomes.len() ==> outcome_fields_wf(#[trigger] outcomes[i]),
        salt.len() == 32,
        executor.len() == 32,
    ensures
        p_body(
            seq![(outcomes.len() % 256) as u8] + (outcomes_fields_bytes(outcomes) + (
            spec_u64_to_le_bytes(i64_bits(dl)) + (salt + executor))),
        ) == Some((outcomes, (dl, salt, executor))),
{
    let tail = spec_u64_to_le_bytes(i64_bits(dl)) + (salt + executor);
    let r4 = outcomes_fields_bytes(outcomes) + tail;
    let r3 = seq![(outcomes.len() % 256) as u8] + r4;
    assert(r3.drop_first() =~= r4);
    lemma_p_outcomes_enc(outcomes, tail);
    lemma_p_tail_enc(dl, salt, executor);
}

/// Parsing a well-formed encoding gives back its fields.
proof fn lemma_parse_fields_bytes(f: HeaderFields)
    requires
        fields_wf(f),
    ensures
        parse_header(fields_bytes(f)) == Some(f),
{
    let tail = spec_u64_to_le_bytes(i64_bits(f.deadline)) + (f.salt + f.executor);
    let r3 = seq![(f.outcomes.len() % 256) as u8] + (outcomes_fields_bytes(f.outcomes) + tail);
    let r2 = spec_u64_to_le_bytes(f.amount_in) + r3;
    let r1 = opt_seq_bytes(f.src_mint) + r2;
    assert(fields_bytes(f) =~= f.user + r1);
    lemma_p_key_enc(f.user, r1);
    lemma_p_opt_key_enc(f.src_mint, r2);
    lemma_p_u64_enc(f.amount_in, r3);
    lemma_p_body_enc(f.outcomes, f.deadline, f.salt, f.executor);
}

// ---- an accepted parse re-encodes to the input ----

proof fn lemma_p_key_split(s: Seq<u8>, k: Seq<u8>, r: Seq<u8>)
    requires
        p_key(s) == Some((k, r)),
    ensures
        k + r == s,
        k.len() == 32,
{
    assert(s.take(32) + s.skip(32) =~= s);
}

proof fn lemma_p_u64_split(s: Seq<u8>, v: u64, r: Seq<u8>)
    requires
        p_u64(s) == Some((v, r)),
    ensures
        spec_u64_to_le_bytes(v) + r == s,
{
    lemma_auto_spec_u64_to_from_le_bytes();
    assert(s.take(8).len() == 8);
    assert(spec_u64_to_le_bytes(spec_u64_from_le_bytes(s.take(8))) == s.take(8));
    assert(s.take(8) + s.skip(8) =~= s);
}

proof fn lemma_p_opt_key_split(s: Seq<u8>, o: Option<Seq<u8>>, r: Seq<u8>)
    requires
        p_opt_key(s) == Some((o, r)),
    ensures
        opt_seq_bytes(o) + r == s,
        o matches Some(k) ==> k.len() == 32,
{
    let r0 = s.drop_first();
    if s[0] == 0 {
        assert(seq![0u8] + r0 =~= s);
    } else {
        let (k, r2) = p_key(r0)->0;
        lemma_p_key_split(r0, k, r2);
        assert(seq![1u8] + k + r2 =~= s);
    }
}

proof fn lemma_p_outcome_split(s: Seq<u8>, o: OutcomeFields, r: Seq<u8>)
    requires
        p_outcome(s) == Some((o, r)),
    ensures
        outcome_fields_bytes(o) + r == s,
        outcome_fields_wf(o),
{
    let (mint, r1) = p_opt_key(s)->0;
    let (account, r2) = p_key(r1)->0;
    let (amount, r3) = p_u64(r2)->0;
    assert(o == (mint, account, amount));
    assert(r == r3);
    lemma_p_opt_key_split(s, mint, r1);
    lemma_p_key_split(r1, account, r2);
    lemma_p_u64_split(r2, amount, r3);
    let a = opt_seq_bytes(mint);
    let c = spec_u64_to_le_bytes(amount);
    assert(s == a + (account + (c + r3)));
    assert(a + account + c + r3 =~= a + (account + (c + r3)));
}

proof fn lemma_p_outcomes_split(n: nat, s: Seq<u8>, os: Seq<OutcomeFields>, r: Seq<u8>)
    requires
        p_outcomes(n, s) == Some((os, r)),
    ensures
        outcomes_fields_bytes(os) + r == s,
        os.len() == n,
        forall|i: int| 0 <= i < n ==> outcome_fields_wf(#[trigger] os[i]),
    decreases n,
{
    if n == 0 {
        assert(os =~= Seq::<OutcomeFields>::empty());
        assert(outcomes_fields_bytes(os) + s =~= s);
    } else {
        let (o, r1) = p_outcome(s)->0;
        let (os2, r2) = p_outcomes((n - 1) as nat, r1)->0;
        lemma_p_outcome_split(s, o, r1);
        lemma_p_outcomes_split((n - 1) as nat, r1, os2, r2);
        assert(os == seq![o] + os2);
        assert(os.drop_first() =~= os2);
        assert(os[0] == o);
        assert(outcomes_fields_bytes(os) + r2 =~= outcome_fields_bytes(o) + (outcomes_fields_bytes(
            os2,
        ) + r2));
        assert forall|i: int| 0 <= i < n implies outcome_fields_wf(#[trigger] os[i]) by {
            if i > 0 {
                assert(os[i] == os2[i - 1]);
            }
        }
    }
}

proof fn lemma_p_tail_split(s: Seq<u8>, dl: i64, salt: Seq<u8>, executor: Seq<u8>)
    requires
        p_tail(s) == Some((dl, salt, executor)),
    ensures
        spec_u64_to_le_bytes(i64_bits(dl)) + (salt + executor) == s,
        salt.len() == 32,
        executor.len() == 32,
{
    let (bits, r6) = p_u64(s)->0;
    let (salt2, r7) = p_key(r6)->0;
    let (executor2, r8) = p_key(r7)->0;
    lemma_p_u64_split(s, bits, r6);
    lemma_p_key_split(r6, salt2, r7);
    lemma_p_key_split(r7, executor2, r8);
    lemma_i64_of_bits_roundtrip(bits);
    assert(r8 =~= Seq::<u8>::empty());
    assert(executor2 + r8 =~= executor2);
}

proof fn lemma_p_body_split(
    s: Seq<u8>,
    outcomes: Seq<OutcomeFields>,
    dl: i64,
    salt: Seq<u8>,
    executor: Seq<u8>,
)
    requires
        p_body(s) == Some((outcomes, (dl, salt, executor))),
    ensures
        seq![(outcomes.len() % 256) as u8] + (outcomes_fields_bytes(outcomes) + (
        spec_u64_to_le_bytes(i64_bits(dl)) + (salt + executor))) == s,
        outcomes.len() <= MAX_OUTCOMES,
        forall|i: int| 0 <= i < outcomes.len() ==> outcome_fields_wf(#[trigger] outcomes[i]),
        salt.len() == 32,
        executor.len() == 32,
{
    let (count, r4) = p_u8(s)->0;
    let (outcomes2, r5) = p_outcomes(count as nat, r4)->0;
    lemma_p_outcomes_split(count as nat, r4, outcomes2, r5);
    lemma_p_tail_split(r5, dl, salt, executor);
    assert((outcomes.len() % 256) as u8 == count);
    assert(seq![count] + r4 =~= s);
}

/// An accepted parse re-encodes to exactly the parsed bytes.
proof fn lemma_parse_then_encode(b: Seq<u8>, f: HeaderFields)
    requires
        parse_header(b) == Some(f),
    ensures
        fields_bytes(f) == b,
        fields_wf(f),
{
    let (user, r1) = p_key(b)->0;
    let (src_mint, r2) = p_opt_key(r1)->0;
    let (amount_in, r3) = p_u64(r2)->0;
    lemma_p_key_split(b, user, r1);
    lemma_p_opt_key_split(r1, src_mint, r2);
    lemma_p_u64_split(r2, amount_in, r3);
    lemma_p_body_split(r3, f.outcomes, f.deadline, f.salt, f.executor);
    let a = opt_seq_bytes(src_mint);
    let c = spec_u64_to_le_bytes(amount_in);
    let d = seq![(f.outcomes.len() % 256) as u8];
    let e = outcomes_fields_bytes(f.outcomes);
    let g = spec_u64_to_le_bytes(i64_bits(f.deadline));
    assert(b == user + (a + (c + (d + (e + (g + (f.salt + f.executor)))))));
    assert(fields_bytes(f) =~= user + (a + (c + (d + (e + (g + (f.salt + f.executor)))))));
}

// ---- headers and their byte-level fields ----

proof fn lemma_outcomes_bytes_fields(s: Seq<IntentOutcome>)
    ensures
        outcomes_bytes(s) == outcomes_fields_bytes(s.map_values(|o: IntentOutcome| outcome_fields(o))),
    decreases s.len(),
{
    let m = s.map_values(|o: IntentOutcome| outcome_fields(o));
    if s.len() > 0 {
        lemma_outcomes_bytes_fields(s.drop_first());
        assert(m.drop_first() =~= s.drop_first().map_values(|o: IntentOutcome| outcome_fields(o)));
        match s[0].mint {
            Some(k) => {},
            None => {},
        }
        assert(outcome_bytes(s[0]) =~= outcome_fields_bytes(m[0]));
    }
}

proof fn lemma_header_fields(h: IntentHeaderView)
    ensures
        header_bytes(h) == fields_bytes(fields_of(h)),
        header_wf(h) ==> fields_wf(fields_of(h)),
{
    lemma_outcomes_bytes_fields(h.outcomes);
    let f = fields_of(h);
    match h.src_mint {
        Some(k) => {},
        None => {},
    }
    assert(option_key_bytes(h.src_mint) == opt_seq_bytes(f.src_mint));
    assert(header_bytes(h) =~= fields_bytes(f));
    assert forall|i: int| 0 <= i < f.outcomes.len() implies outcome_fields_wf(
        #[trigger] f.outcomes[i],
    ) by {
        match h.outcomes[i].mint {
            Some(k) => {},
            None => {},
        }
    }
}

proof fn lemma_opt_key_view_injective(a: Option<Pubkey>, b: Option<Pubkey>)
    requires
        opt_key_view(a) == opt_key_view(b),
    ensures
        a == b,
{
    match (a, b) {
        (Some(x), Some(y)) => lemma_key_view_injective(x, y),
        _ => {},
    }
}

proof fn lemma_fields_of_injective(h1: IntentHeaderView, h2: IntentHeaderView)
    requires
        fields_of(h1) == fields_of(h2),
    ensures
        h1 == h2,
{
    lemma_key_view_injective(h1.user, h2.user);
    lemma_key_view_injective(h1.salt, h2.salt);
    lemma_key_view_injective(h1.executor, h2.executor);
    lemma_opt_key_view_injective(h1.src_mint, h2.src_mint);
    let m1 = h1.outcomes.map_values(|o: IntentOutcome| outcome_fields(o));
    let m2 = h2.outcomes.map_values(|o: IntentOutcome| outcome_fields(o));
    assert(m1.len() == m2.len());
    assert forall|i: int| 0 <= i < h1.outcomes.len() implies h1.outcomes[i] == h2.outcomes[i] by {
        assert(m1[i] == m2[i]);
        let (o1, o2) = (h1.outcomes[i], h2.outcomes[i]);
        lemma_opt_key_view_injective(o1.mint, o2.mint);
        lemma_key_view_injective(o1.account, o2.account);
    }
    assert(h1.outcomes =~= h2.outcomes);
    assert(h1 =~= h2);
}

/// The canonical encoding is injective on the headers the decoder accepts.
pub proof fn lemma_header_bytes_injective(h1: IntentHeaderView, h2: IntentHeaderView)
    requires
        header_wf(h1),
        header_wf(h2),
        header_bytes(h1) == header_bytes(h2),
    ensures
        h1 == h2,
{
    lemma_header_fields(h1);
    lemma_header_fields(h2);
    lemma_parse_fields_bytes(fields_of(h1));
    lemma_parse_fields_bytes(fields_of(h2));
    lemma_fields_of_injective(h1, h2);
}

/// Decoding fails exactly when the strict parse does.
proof fn lemma_no_parse(b: Seq<u8>)
    requires
        parse_header(b) is None,
    ensures
        spec_decode(b) is None,
{
    if exists|h: IntentHeaderView| header_wf(h) && header_bytes(h) == b {
        let h = choose|h: IntentHeaderView| header_wf(h) && header_bytes(h) == b;
        lemma_header_fields(h);
        lemma_parse_fields_bytes(fields_of(h));
    }
}

/// A header whose fields the strict parse returns is the decoded header.
proof fn lemma_parse_ok(b: Seq<u8>, h: IntentHeaderView)
    requires
        parse_header(b) == Some(fields_of(h)),
        header_wf(h),
    ensures
        spec_decode(b) == Some(h),
{
    lemma_parse_then_encode(b, fields_of(h));
    lemma_header_fields(h);
    assert(header_wf(h) && header_bytes(h) == b);
    let h2 = choose|h2: IntentHeaderView| header_wf(h2) && header_bytes(h2) == b;
    lemma_header_bytes_injective(h, h2);
}

/// Decoding the canonical encoding of an accepted header gives that header back.
pub proof fn law_decode_of_encoding(h: IntentHeaderView)
    requires
        header_wf(h),
    ensures
        spec_decode(header_bytes(h)) == Some(h),
{
    lemma_header_fields(h);
    lemma_parse_fields_bytes(fields_of(h));
    lemma_parse_ok(header_bytes(h), h);
}

/// Bytes that decode re-encode to themselves: the decoder accepts canonical
/// encodings only.
pub proof fn law_encoding_of_decoded(b: Seq<u8>)
    requires
        spec_decode(b) is Some,
    ensures
        header_bytes(spec_decode(b)->0) == b,
        header_wf(spec_decode(b)->0),
{
}

fn read_u8(bytes: &[u8], cursor: &mut usize) -> (r: Result<u8, IntentError>)
    requires
        *old(cursor) <= bytes@.len(),
    ensures
        *final(cursor) <= bytes@.len(),
        match p_u8(bytes@.skip(*old(cursor) as int)) {
            Some((v, rest)) => r == Ok::<u8, IntentError>(v) && bytes@.skip(*final(cursor) as int) == rest,
            None => r == Err::<u8, IntentError>(IntentError::MalformedHeader),
        },
{
    if *cursor >= bytes.len() {
        return Err(IntentError::MalformedHeader);
    }
    let val = bytes[*cursor];
    let ghost c = *cursor;
    *cursor += 1;
    assert(bytes@.skip(c as int).drop_first() =~= bytes@.skip(c + 1));
    Ok(val)
}

fn read_u64(bytes: &[u8], cursor: &mut usize) -> (r: Result<u64, IntentError>)
    requires
        *old(cursor) <= bytes@.len(),
    ensures
        *final(cursor) <= bytes@.len(),
        match p_u64(bytes@.skip(*old(cursor) as int)) {
            Some((v, rest)) => r == Ok::<u64, IntentError>(v) && bytes@.skip(*final(cursor) as int)
                == rest,
            None => r == Err::<u64, IntentError>(IntentError::MalformedHeader),
        },
{
    let n = bytes.len();
    let end = match cursor.checked_add(8) {
        Some(e) => e,
        None => return Err(IntentError::MalformedHeader),
    };
    if end > bytes.len() {
        return Err(IntentError::MalformedHeader);
    }
    let ghost c = *cursor;
    let val = u64_from_le_bytes(slice_subrange(bytes, *cursor, end));
    *cursor = end;
    assert(bytes@.skip(c as int).take(8) =~= bytes@.subrange(c as int, end as int));
    assert(bytes@.skip(c as int).skip(8) =~= bytes@.skip(end as int));
    Ok(val)
}

fn read_i64(bytes: &[u8], cursor: &mut usize) -> (r: Result<i64, IntentError>)
    requires
        *old(cursor) <= bytes@.len(),
    ensures
        *final(cursor) <= bytes@.len(),
        match p_u64(bytes@.skip(*old(cursor) as int)) {
            Some((v, rest)) => r == Ok::<i64, IntentError>(i64_of_bits(v)) && bytes@.skip(
                *final(cursor) as int,
            ) == rest,
            None => r == Err::<i64, IntentError>(IntentError::MalformedHeader),
        },
{
    let bits = read_u64(bytes, cursor)?;
    Ok(i64_from_bits(bits))
}

fn read_pubkey(bytes: &[u8], cursor: &mut usize) -> (r: Result<Pubkey, IntentError>)
    requires
        *old(cursor) <= bytes@.len(),
    ensures
        *final(cursor) <= bytes@.len(),
        match p_key(bytes@.skip(*old(cursor) as int)) {
            Some((k, rest)) => r matches Ok(x) && x@ == k && bytes@.skip(*final(cursor) as int)
                == rest,
            None => r == Err::<Pubkey, IntentError>(IntentError::MalformedHeader),
        },
{
    let n = bytes.len();
    let end = match cursor.checked_add(32) {
        Some(e) => e,
        None => return Err(IntentError::MalformedHeader),
    };
    if end > bytes.len() {
        return Err(IntentError::MalformedHeader);
    }
    let start = *cursor;
    let mut key = [0u8; 32];
    let mut i: usize = 0;
    while i < 32
        invariant
            0 <= i <= 32,
            end == start + 32,
            end <= bytes@.len(),
            key@.len() == 32,
            forall|j: int| 0 <= j < i ==> key@[j] == bytes@[start + j],
        decreases 32 - i,
    {
        key[i] = bytes[start + i];
        i += 1;
    }
    *cursor = end;
    assert(key@ =~= bytes@.skip(start as int).take(32));
    assert(bytes@.skip(start as int).skip(32) =~= bytes@.skip(end as int));
    Ok(key)
}

fn read_bytes32(bytes: &[u8], cursor: &mut usize) -> (r: Result<[u8; 32], IntentError>)
    requires
        *old(cursor) <= bytes@.len(),
    ensures
        *final(cursor) <= bytes@.len(),
        match p_key(bytes@.skip(*old(cursor) as int)) {
            Some((k, rest)) => r matches Ok(x) && x@ == k && bytes@.skip(*final(cursor) as int)
                == rest,
            None => r == Err::<[u8; 32], IntentError>(IntentError::MalformedHeader),
        },
{
    read_pubkey(bytes, cursor)
}

fn read_option_pubkey(bytes: &[u8], cursor: &mut usize) -> (r: Result<Option<Pubkey>, IntentError>)
    requires
        *old(cursor) <= bytes@.len(),
    ensures
        *final(cursor) <= bytes@.len(),
        match p_opt_key(bytes@.skip(*old(cursor) as int)) {
            Some((o, rest)) => r matches Ok(x) && opt_key_view(x) == o && bytes@.skip(
                *final(cursor) as int,
            ) == rest,
            None => r == Err::<Option<Pubkey>, IntentError>(IntentError::MalformedHeader),
        },
{
    let tag = read_u8(bytes, cursor)?;
    if tag == 0 {
        Ok(None)
    } else if tag == 1 {
        let k = read_pubkey(bytes, cursor)?;
        Ok(Some(k))
    } else {
        Err(IntentError::MalformedHeader)
    }
}

impl IntentHeader {
    /// Canonical byte encoding used as hash input. Outcomes are encoded in
    /// declared order.
    pub fn canonical_encode(&self) -> (r: Vec<u8>)
        ensures
            r@ == header_bytes(self@),
    {
        let mut buf: Vec<u8> = Vec::new();
        push_all(&mut buf, self.user.as_slice());
        encode_option_pubkey(&mut buf, &self.src_mint);
        push_u64_le(&mut buf, self.amount_in);
        let count: u8 = (self.outcomes.len() % 256) as u8;
        buf.push(count);
        let ghost prefix = buf@;
        let mut i: usize = 0;
        while i < self.outcomes.len()
            invariant
                0 <= i <= self.outcomes@.len(),
                buf@ == prefix + outcomes_bytes(self.outcomes@.subrange(0, i as int)),
            decreases self.outcomes@.len() - i,
        {
            let outcome = self.outcomes[i];
            let ghost before = buf@;
            encode_option_pubkey(&mut buf, &outcome.mint);
            push_all(&mut buf, outcome.account.as_slice());
            push_u64_le(&mut buf, outcome.amount);
            proof {
                lemma_outcomes_bytes_push(self.outcomes@.subrange(0, i as int), outcome);
                assert(self.outcomes@.subrange(0, i as int).push(outcome) =~= self.outcomes@.subrange(
                    0,
                    i + 1,
                ));
                assert(buf@ =~= before + outcome_bytes(outcome));
            }
            i += 1;
        }
        assert(self.outcomes@.subrange(0, self.outcomes@.len() as int) =~= self.outcomes@);
        push_u64_le(&mut buf, i64_to_bits(self.deadline));
        push_all(&mut buf, self.salt.as_slice());
        push_all(&mut buf, self.executor.as_slice());
        assert(buf@ =~= header_bytes(self@));
        buf
    }

    /// Strict decoder: accepts exactly the canonical encodings of headers with at
    /// most `MAX_OUTCOMES` outcomes (option tags outside {0, 1}, more outcomes,
    /// truncation and trailing bytes are all rejected).
    pub fn decode(bytes: &[u8]) -> (r: Result<Self, IntentError>)
        ensures
            match spec_decode(bytes@) {
                Some(h) => r matches Ok(x) && x@ == h,
                None => r is Err && r->Err_0 == IntentError::MalformedHeader,
            },
    {
        let ghost b = bytes@;
        let mut cursor = 0usize;
        assert(b.skip(0) =~= b);
        let user = match read_pubkey(bytes, &mut cursor) {
            Ok(k) => k,
            Err(e) => {
                proof { lemma_no_parse(b); }
                return Err(e);
            },
        };
        let ghost r1 = b.skip(cursor as int);
        let src_mint = match read_option_pubkey(bytes, &mut cursor) {
            Ok(m) => m,
            Err(e) => {
                proof { lemma_no_parse(b); }
                return Err(e);
            },
        };
        let ghost r2 = b.skip(cursor as int);
        let amount_in = match read_u64(bytes, &mut cursor) {
            Ok(v) => v,
            Err(e) => {
                proof { lemma_no_parse(b); }
                return Err(e);
            },
        };
        let ghost r3 = b.skip(cursor as int);
        let count_byte = match read_u8(bytes, &mut cursor) {
            Ok(v) => v,
            Err(e) => {
                proof { lemma_no_parse(b); }
                return Err(e);
            },
        };
        let outcome_count = count_byte as usize;
        if outcome_count > MAX_OUTCOMES {
            proof { lemma_no_parse(b); }
            return Err(IntentError::MalformedHeader);
        }
        let ghost r4 = b.skip(cursor as int);
        let mut outcomes: Vec<IntentOutcome> = Vec::new();
        let mut i: usize = 0;
        while i < outcome_count
            invariant
                0 <= i <= outcome_count <= MAX_OUTCOMES,
                outcome_count == count_byte,
                cursor <= b.len(),
                b == bytes@,
                outcomes@.len() == i,
                p_key(b) == Some((user@, r1)),
                p_opt_key(r1) == Some((opt_key_view(src_mint), r2)),
                p_u64(r2) == Some((amount_in, r3)),
                p_u8(r3) == Some((count_byte, r4)),
                p_outcomes(count_byte as nat, r4) == match p_outcomes(
                    (outcome_count - i) as nat,
                    b.skip(cursor as int),
                ) {
                    Some((os, rest)) => Some(
                        (outcomes@.map_values(|o: IntentOutcome| outcome_fields(o)) + os, rest),
                    ),
                    None => None,
                },
            decreases outcome_count - i,
        {
            let ghost s_i = b.skip(cursor as int);
            let ghost m = (outcome_count - i) as nat;
            let mint = match read_option_pubkey(bytes, &mut cursor) {
                Ok(v) => v,
                Err(e) => {
                    proof {
                        assert(p_outcomes(m, s_i) is None);
                        lemma_no_parse(b);
                    }
                    return Err(e);
                },
            };
            let ghost s_a = b.skip(cursor as int);
            let account = match read_pubkey(bytes, &mut cursor) {
                Ok(v) => v,
                Err(e) => {
                    proof {
                        assert(p_outcome(s_i) is None);
                        assert(p_outcomes(m, s_i) is None);
                        lemma_no_parse(b);
                    }
                    return Err(e);
                },
            };
            let ghost s_b = b.skip(cursor as int);
            let amount = match read_u64(bytes, &mut cursor) {
                Ok(v) => v,
                Err(e) => {
                    proof {
                        assert(p_outcome(s_i) is None);
                        assert(p_outcomes(m, s_i) is None);
                        lemma_no_parse(b);
                    }
                    return Err(e);
                },
            };
            let outcome = IntentOutcome { mint, account, amount };
            let ghost before = outcomes@;
            outcomes.push(outcome);
            proof {
                let of = outcome_fields(outcome);
                assert(p_outcome(s_i) == Some((of, b.skip(cursor as int))));
                let fs_old = before.map_values(|o: IntentOutcome| outcome_fields(o));
                let fs_new = outcomes@.map_values(|o: IntentOutcome| outcome_fields(o));
                assert(fs_new =~= fs_old.push(of));
                match p_outcomes((m - 1) as nat, b.skip(cursor as int)) {
                    Some((os, rest)) => {
                        assert(fs_old + (seq![of] + os) =~= fs_new + os);
                    },
                    None => {},
                }
            }
            i += 1;
        }
        let ghost r5 = b.skip(cursor as int);
        let deadline = match read_i64(bytes, &mut cursor) {
            Ok(v) => v,
            Err(e) => {
                proof { lemma_no_parse(b); }
                return Err(e);
            },
        };
        let salt = match read_bytes32(bytes, &mut cursor) {
            Ok(v) => v,
            Err(e) => {
                proof { lemma_no_parse(b); }
                return Err(e);
            },
        };
        let executor = match read_pubkey(bytes, &mut cursor) {
            Ok(v) => v,
            Err(e) => {
                proof { lemma_no_parse(b); }
                return Err(e);
            },
        };
        if cursor != bytes.len() {
            proof { lemma_no_parse(b); }
            return Err(IntentError::MalformedHeader);
        }
        let header = IntentHeader { user, src_mint, amount_in, outcomes, deadline, salt, executor };
        proof {
            assert(b.skip(cursor as int).len() == 0);
            assert(p_outcomes(count_byte as nat, r4) == Some(
                (header.outcomes@.map_values(|o: IntentOutcome| outcome_fields(o)), r5),
            ));
            assert(parse_header(b) == Some(fields_of(header@)));
            lemma_parse_ok(b, header@);
        }
        Ok(header)
    }
}

} // verus!
