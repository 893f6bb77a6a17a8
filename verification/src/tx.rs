//! Transaction adapter: structured form of a ledger-native transaction and
//! its binary codec.
//!
//! The counterparty's transaction arrives as an opaque byte blob. The core
//! never edits raw bytes: it parses them into the structured form below,
//! computes against that structure, and re-serializes. Parsing and
//! serialization are exact inverses on well-formed transactions, which is
//! proved here as `lemma_tx_roundtrip`.
//!
//! The encoding is the legacy ledger format: a 32-bit little-endian
//! version, a compact-size input count, the inputs (36-byte previous
//! outpoint, length-prefixed signature script, 32-bit sequence), a
//! compact-size output count, the outputs (64-bit value, length-prefixed
//! script), and a 32-bit little-endian lock time.

use vstd::prelude::*;

use crate::bytes::{
    lemma_parse_ser_u32, lemma_parse_ser_u64, lemma_parse_ser_varint, parse_raw,
    parse_u32, parse_u64, parse_varint, push_raw, push_u32_le, push_u64_le, push_varint, read_raw,
    read_u32_le, read_u64_le, read_varint, ser_u32, ser_u64, ser_varint,
};
use crate::errors::SwapError;

verus! {

/// Mathematical form of a transaction input.
#[verifier::ext_equal]
pub ghost struct TxInModel {
    /// Identifier of the transaction whose output is being spent.
    pub prev_txid: Seq<u8>,
    /// Index of the spent output within that transaction.
    pub prev_vout: u32,
    /// Signature-script placeholder carried through unchanged.
    pub script_sig: Seq<u8>,
    /// Sequence number.
    pub sequence: u32,
}

/// Mathematical form of a transaction output.
#[verifier::ext_equal]
pub ghost struct TxOutModel {
    /// Amount carried by the output.
    pub value: u64,
    /// Locking script of the output.
    pub script_pubkey: Seq<u8>,
}

/// Mathematical form of a transaction.
#[verifier::ext_equal]
pub ghost struct TransactionModel {
    /// Format version.
    pub version: u32,
    /// Earliest time the transaction may be included.
    pub lock_time: u32,
    /// Ordered inputs.
    pub inputs: Seq<TxInModel>,
    /// Ordered outputs.
    pub outputs: Seq<TxOutModel>,
}

/// A transaction input of the structured transaction.
#[derive(Clone, Debug, PartialEq, Eq)]
pub struct TxIn {
    /// Identifier of the transaction whose output is being spent.
    pub prev_txid: Vec<u8>,
    /// Index of the spent output within that transaction.
    pub prev_vout: u32,
    /// Signature-script placeholder carried through unchanged.
    pub script_sig: Vec<u8>,
    /// Sequence number.
    pub sequence: u32,
}

/// A transaction output of the structured transaction.
#[derive(Clone, Debug, PartialEq, Eq)]
pub struct TxOut {
    /// Amount carried by the output.
    pub value: u64,
    /// Locking script of the output.
    pub script_pubkey: Vec<u8>,
}

/// The structured, field-accessible form of a ledger transaction.
#[derive(Clone, Debug, PartialEq, Eq)]
pub struct Transaction {
    /// Format version.
    pub version: u32,
    /// Earliest time the transaction may be included.
    pub lock_time: u32,
    /// Ordered inputs.
    pub inputs: Vec<TxIn>,
    /// Ordered outputs.
    pub outputs: Vec<TxOut>,
}

impl View for TxIn {
    type V = TxInModel;

    open spec fn view(&self) -> TxInModel {
        TxInModel {
            prev_txid: self.prev_txid@,
            prev_vout: self.prev_vout,
            script_sig: self.script_sig@,
            sequence: self.sequence,
        }
    }
}

impl View for TxOut {
    type V = TxOutModel;

    open spec fn view(&self) -> TxOutModel {
        TxOutModel { value: self.value, script_pubkey: self.script_pubkey@ }
    }
}

/// The models of a sequence of inputs.
pub open spec fn input_views(s: Seq<TxIn>) -> Seq<TxInModel> {
    s.map_values(|x: TxIn| x@)
}

/// The models of a sequence of outputs.
pub open spec fn output_views(s: Seq<TxOut>) -> Seq<TxOutModel> {
    s.map_values(|x: TxOut| x@)
}

impl View for Transaction {
    type V = TransactionModel;

    open spec fn view(&self) -> TransactionModel {
        TransactionModel {
            version: self.version,
            lock_time: self.lock_time,
            inputs: input_views(self.inputs@),
            outputs: output_views(self.outputs@),
        }
    }
}

/// Well-formedness of an input: a full-size outpoint identifier and a
/// script whose length the count encoding can carry.
pub open spec fn txin_wf(t: TxInModel) -> bool {
    t.prev_txid.len() == 32 && t.script_sig.len() < 0x10000000000000000
}

/// Well-formedness of an output.
pub open spec fn txout_wf(t: TxOutModel) -> bool {
    t.script_pubkey.len() < 0x10000000000000000
}

/// Well-formedness of every input in a sequence.
pub open spec fn txins_wf(s: Seq<TxInModel>) -> bool {
    forall|k: int| 0 <= k < s.len() ==> txin_wf(#[trigger] s[k])
}

/// Well-formedness of every output in a sequence.
pub open spec fn txouts_wf(s: Seq<TxOutModel>) -> bool {
    forall|k: int| 0 <= k < s.len() ==> txout_wf(#[trigger] s[k])
}

/// Well-formedness of a transaction model: every component is
/// well-formed and the counts fit the count encoding.
pub open spec fn tx_wf(t: TransactionModel) -> bool {
    &&& txins_wf(t.inputs)
    &&& txouts_wf(t.outputs)
    &&& t.inputs.len() < 0x10000000000000000
    &&& t.outputs.len() < 0x10000000000000000
}

/// Serialization of one input.
pub open spec fn ser_txin(t: TxInModel) -> Seq<u8> {
    t.prev_txid + ser_u32(t.prev_vout) + ser_varint(t.script_sig.len() as u64) + t.script_sig
        + ser_u32(t.sequence)
}

/// Serialization of one output.
pub open spec fn ser_txout(t: TxOutModel) -> Seq<u8> {
    ser_u64(t.value) + ser_varint(t.script_pubkey.len() as u64) + t.script_pubkey
}

/// Serialization of a sequence of inputs, in order.
pub open spec fn ser_inputs(s: Seq<TxInModel>) -> Seq<u8>
    decreases s.len(),
{
    if s.len() == 0 {
        Seq::empty()
    } else {
        ser_txin(s[0]) + ser_inputs(s.drop_first())
    }
}

/// Serialization of a sequence of outputs, in order.
pub open spec fn ser_outputs(s: Seq<TxOutModel>) -> Seq<u8>
    decreases s.len(),
{
    if s.len() == 0 {
        Seq::empty()
    } else {
        ser_txout(s[0]) + ser_outputs(s.drop_first())
    }
}

/// Serialization of a whole transaction.
pub open spec fn ser_tx(t: TransactionModel) -> Seq<u8> {
    ser_u32(t.version) + ser_varint(t.inputs.len() as u64) + ser_inputs(t.inputs) + ser_varint(
        t.outputs.len() as u64) + ser_outputs(t.outputs) + ser_u32(t.lock_time)
}

/// Parse one input at cursor `i`.
pub open spec fn parse_txin(b: Seq<u8>, i: int) -> Option<(TxInModel, int)> {
    match parse_raw(b, i, 32) {
        None => None,
        Some((txid, i1)) => match parse_u32(b, i1) {
            None => None,
            Some((vout, i2)) => match parse_varint(b, i2) {
                None => None,
                Some((slen, i3)) => match parse_raw(b, i3, slen as int) {
                    None => None,
                    Some((script, i4)) => match parse_u32(b, i4) {
                        None => None,
                        Some((seqn, i5)) => Some(
                            (TxInModel {
                                prev_txid: txid,
                                prev_vout: vout,
                                script_sig: script,
                                sequence: seqn,
                            }, i5),
                        ),
                    },
                },
            },
        },
    }
}

/// Parse one output at cursor `i`.
pub open spec fn parse_txout(b: Seq<u8>, i: int) -> Option<(TxOutModel, int)> {
    match parse_u64(b, i) {
        None => None,
        Some((value, i1)) => match parse_varint(b, i1) {
            None => None,
            Some((slen, i2)) => match parse_raw(b, i2, slen as int) {
                None => None,
                Some((script, i3)) => Some(
                    (TxOutModel { value: value, script_pubkey: script }, i3),
                ),
            },
        },
    }
}

/// Parse `n` inputs starting at cursor `i`.
pub open spec fn parse_txins(b: Seq<u8>, i: int, n: nat) -> Option<(Seq<TxInModel>, int)>
    decreases n,
{
    if n == 0 {
        Some((Seq::empty(), i))
    } else {
        match parse_txin(b, i) {
            None => None,
            Some((t, j)) => match parse_txins(b, j, (n - 1) as nat) {
                None => None,
                Some((s, k)) => Some((seq![t] + s, k)),
            },
        }
    }
}

/// Parse `n` outputs starting at cursor `i`.
pub open spec fn parse_txouts(b: Seq<u8>, i: int, n: nat) -> Option<(Seq<TxOutModel>, int)>
    decreases n,
{
    if n == 0 {
        Some((Seq::empty(), i))
    } else {
        match parse_txout(b, i) {
            None => None,
            Some((t, j)) => match parse_txouts(b, j, (n - 1) as nat) {
                None => None,
                Some((s, k)) => Some((seq![t] + s, k)),
            },
        }
    }
}

/// Parse a whole transaction; the buffer must be consumed exactly.
pub open spec fn parse_tx(b: Seq<u8>) -> Option<TransactionModel> {
    match parse_u32(b, 0) {
        None => None,
        Some((version, i1)) => match parse_varint(b, i1) {
            None => None,
            Some((nin, i2)) => match parse_txins(b, i2, nin as nat) {
                None => None,
                Some((inputs, i3)) => match parse_varint(b, i3) {
                    None => None,
                    Some((nout, i4)) => match parse_txouts(b, i4, nout as nat) {
                        None => None,
                        Some((outputs, i5)) => match parse_u32(b, i5) {
                            None => None,
                            Some((lock_time, i6)) => if i6 == b.len() {
                                Some(
                                    TransactionModel {
                                        version: version,
                                        lock_time: lock_time,
                                        inputs: inputs,
                                        outputs: outputs,
                                    },
                                )
                            } else {
                                None
                            },
                        },
                    },
                },
            },
        },
    }
}

/// A window of `b` equal to `s` has, at offset `o`, a window equal to the
/// same slice of `s`.
proof fn lemma_nested_window(b: Seq<u8>, i: int, s: Seq<u8>, o: int, l: int)
    requires
        0 <= i,
        i + s.len() <= b.len(),
        b.subrange(i, i + s.len() as int) == s,
        0 <= o,
        0 <= l,
        o + l <= s.len(),
    ensures
        b.subrange(i + o, i + o + l) == s.subrange(o, o + l),
{
    assert forall|k: int| 0 <= k < l implies #[trigger] b.subrange(i + o, i + o + l)[k]
        == s.subrange(o, o + l)[k] by {
        assert(b.subrange(i, i + s.len() as int)[o + k] == b[i + o + k]);
    }
    assert(b.subrange(i + o, i + o + l) =~= s.subrange(o, o + l));
}

/// Parsing at the position where `ser_txin(t)` sits yields `t`.
proof fn lemma_parse_ser_txin(b: Seq<u8>, i: int, t: TxInModel)
    requires
        txin_wf(t),
        0 <= i,
        i + ser_txin(t).len() <= b.len(),
        b.subrange(i, i + ser_txin(t).len() as int) == ser_txin(t),
    ensures
        parse_txin(b, i) == Some((t, i + ser_txin(t).len())),
{
    let s = ser_txin(t);
    let slen64 = t.script_sig.len() as u64;
    let q2 = ser_varint(slen64);
    let l2 = q2.len() as int;
    let l3 = t.script_sig.len() as int;
    assert(s.len() == 40 + l2 + l3);

    assert(s.subrange(0, 32) =~= t.prev_txid);
    lemma_nested_window(b, i, s, 0, 32);
    assert(b.subrange(i, i + 32) == t.prev_txid);
    assert(parse_raw(b, i, 32) == Some((t.prev_txid, i + 32)));

    assert(s.subrange(32, 36) =~= ser_u32(t.prev_vout));
    lemma_nested_window(b, i, s, 32, 4);
    lemma_parse_ser_u32(b, i + 32, t.prev_vout);

    assert(s.subrange(36, 36 + l2) =~= q2);
    lemma_nested_window(b, i, s, 36, l2);
    lemma_parse_ser_varint(b, i + 36, slen64);

    assert(s.subrange(36 + l2, 36 + l2 + l3) =~= t.script_sig);
    lemma_nested_window(b, i, s, 36 + l2, l3);
    assert(parse_raw(b, i + 36 + l2, slen64 as int) == Some(
        (t.script_sig, i + 36 + l2 + l3),
    ));

    assert(s.subrange(36 + l2 + l3, 40 + l2 + l3) =~= ser_u32(t.sequence));
    lemma_nested_window(b, i, s, 36 + l2 + l3, 4);
    lemma_parse_ser_u32(b, i + 36 + l2 + l3, t.sequence);

    assert(parse_txin(b, i) == Some((t, i + s.len())));
}

/// Parsing at the position where `ser_txout(t)` sits yields `t`.
proof fn lemma_parse_ser_txout(b: Seq<u8>, i: int, t: TxOutModel)
    requires
        txout_wf(t),
        0 <= i,
        i + ser_txout(t).len() <= b.len(),
        b.subrange(i, i + ser_txout(t).len() as int) == ser_txout(t),
    ensures
        parse_txout(b, i) == Some((t, i + ser_txout(t).len())),
{
    let s = ser_txout(t);
    let slen64 = t.script_pubkey.len() as u64;
    let q1 = ser_varint(slen64);
    let l1 = q1.len() as int;
    let l2 = t.script_pubkey.len() as int;
    assert(s.len() == 8 + l1 + l2);

    assert(s.subrange(0, 8) =~= ser_u64(t.value));
    lemma_nested_window(b, i, s, 0, 8);
    lemma_parse_ser_u64(b, i, t.value);

    assert(s.subrange(8, 8 + l1) =~= q1);
    lemma_nested_window(b, i, s, 8, l1);
    lemma_parse_ser_varint(b, i + 8, slen64);

    assert(s.subrange(8 + l1, 8 + l1 + l2) =~= t.script_pubkey);
    lemma_nested_window(b, i, s, 8 + l1, l2);
    assert(parse_raw(b, i + 8 + l1, slen64 as int) == Some(
        (t.script_pubkey, i + 8 + l1 + l2),
    ));

    assert(parse_txout(b, i) == Some((t, i + s.len())));
}

/// Parsing at the position where `ser_inputs(s)` sits yields `s`.
proof fn lemma_parse_ser_txins(b: Seq<u8>, i: int, s: Seq<TxInModel>)
    requires
        txins_wf(s),
        0 <= i,
        i + ser_inputs(s).len() <= b.len(),
        b.subrange(i, i + ser_inputs(s).len() as int) == ser_inputs(s),
    ensures
        parse_txins(b, i, s.len()) == Some((s, i + ser_inputs(s).len())),
    decreases s.len(),
{
    if s.len() == 0 {
        assert(s =~= Seq::<TxInModel>::empty());
    } else {
        let h = ser_txin(s[0]);
        let r = ser_inputs(s.drop_first());
        assert(ser_inputs(s) == h + r);
        lemma_nested_window(b, i, ser_inputs(s), 0, h.len() as int);
        assert(ser_inputs(s).subrange(0, h.len() as int) =~= h);
        assert(txin_wf(s[0]));
        lemma_parse_ser_txin(b, i, s[0]);

        lemma_nested_window(b, i, ser_inputs(s), h.len() as int, r.len() as int);
        assert(ser_inputs(s).subrange(h.len() as int, h.len() + r.len() as int) =~= r);
        assert(txins_wf(s.drop_first())) by {
            assert forall|k: int| 0 <= k < s.drop_first().len() implies txin_wf(
                #[trigger] s.drop_first()[k],
            ) by {
                assert(s.drop_first()[k] == s[k + 1]);
            }
        }
        lemma_parse_ser_txins(b, i + h.len(), s.drop_first());

        assert(seq![s[0]] + s.drop_first() =~= s);
        assert(parse_txins(b, i, s.len()) == Some((s, i + ser_inputs(s).len())));
    }
}

/// Parsing at the position where `ser_outputs(s)` sits yields `s`.
proof fn lemma_parse_ser_txouts(b: Seq<u8>, i: int, s: Seq<TxOutModel>)
    requires
        txouts_wf(s),
        0 <= i,
        i + ser_outputs(s).len() <= b.len(),
        b.subrange(i, i + ser_outputs(s).len() as int) == ser_outputs(s),
    ensures
        parse_txouts(b, i, s.len()) == Some((s, i + ser_outputs(s).len())),
    decreases s.len(),
{
    if s.len() == 0 {
        assert(s =~= Seq::<TxOutModel>::empty());
    } else {
        let h = ser_txout(s[0]);
        let r = ser_outputs(s.drop_first());
        assert(ser_outputs(s) == h + r);
        lemma_nested_window(b, i, ser_outputs(s), 0, h.len() as int);
        assert(ser_outputs(s).subrange(0, h.len() as int) =~= h);
        assert(txout_wf(s[0]));
        lemma_parse_ser_txout(b, i, s[0]);

        lemma_nested_window(b, i, ser_outputs(s), h.len() as int, r.len() as int);
        assert(ser_outputs(s).subrange(h.len() as int, h.len() + r.len() as int) =~= r);
        assert(txouts_wf(s.drop_first())) by {
            assert forall|k: int| 0 <= k < s.drop_first().len() implies txout_wf(
                #[trigger] s.drop_first()[k],
            ) by {
                assert(s.drop_first()[k] == s[k + 1]);
            }
        }
        lemma_parse_ser_txouts(b, i + h.len(), s.drop_first());

        assert(seq![s[0]] + s.drop_first() =~= s);
        assert(parse_txouts(b, i, s.len()) == Some((s, i + ser_outputs(s).len())));
    }
}

/// A window of `b` equal to `x + y` splits into a window equal to `x`
/// and a window equal to `y`.
proof fn lemma_split_window(b: Seq<u8>, o: int, x: Seq<u8>, y: Seq<u8>)
    requires
        0 <= o,
        o + x.len() + y.len() <= b.len(),
        b.subrange(o, o + x.len() + y.len()) == x + y,
    ensures
        b.subrange(o, o + x.len() as int) == x,
        b.subrange(o + x.len() as int, o + x.len() + y.len()) == y,
{
    assert forall|k: int| 0 <= k < x.len() implies #[trigger] b.subrange(o, o + x.len() as int)[k]
        == x[k] by {
        assert(b.subrange(o, o + x.len() + y.len())[k] == b[o + k]);
    }
    assert(b.subrange(o, o + x.len() as int) =~= x);
    assert forall|k: int| 0 <= k < y.len() implies #[trigger] b.subrange(o + x.len() as int, o
        + x.len() + y.len())[k] == y[k] by {
        assert(b.subrange(o, o + x.len() + y.len())[x.len() + k] == b[o + x.len() + k]);
        assert((x + y)[x.len() + k] == y[k]);
    }
    assert(b.subrange(o + x.len() as int, o + x.len() + y.len()) =~= y);
}

/// Round-trip law of the transaction adapter: parsing the serialization
/// of any well-formed structured transaction gives back that transaction,
/// field for field.
#[verifier::rlimit(100)]
pub proof fn lemma_tx_roundtrip(t: TransactionModel)
    requires
        tx_wf(t),
    ensures
        parse_tx(ser_tx(t)) == Some(t),
{
    let b = ser_tx(t);
    let nin64 = t.inputs.len() as u64;
    let nout64 = t.outputs.len() as u64;
    let c0 = ser_u32(t.version);
    let c1 = ser_varint(nin64);
    let c2 = ser_inputs(t.inputs);
    let c3 = ser_varint(nout64);
    let c4 = ser_outputs(t.outputs);
    let c5 = ser_u32(t.lock_time);
    let l1 = c1.len() as int;
    let l2 = c2.len() as int;
    let l3 = c3.len() as int;
    let l4 = c4.len() as int;
    let a1 = c0 + c1;
    let a2 = a1 + c2;
    let a3 = a2 + c3;
    let a4 = a3 + c4;
    assert(b == a4 + c5);
    assert(b.len() == 8 + l1 + l2 + l3 + l4);

    assert(b.subrange(0, b.len() as int) =~= a4 + c5);
    lemma_split_window(b, 0, a4, c5);
    lemma_split_window(b, 0, a3, c4);
    lemma_split_window(b, 0, a2, c3);
    lemma_split_window(b, 0, a1, c2);
    lemma_split_window(b, 0, c0, c1);

    lemma_parse_ser_u32(b, 0, t.version);
    lemma_parse_ser_varint(b, 4, nin64);
    lemma_parse_ser_txins(b, 4 + l1, t.inputs);
    lemma_parse_ser_varint(b, 4 + l1 + l2, nout64);
    lemma_parse_ser_txouts(b, 4 + l1 + l2 + l3, t.outputs);
    lemma_parse_ser_u32(b, 4 + l1 + l2 + l3 + l4, t.lock_time);

    assert(parse_tx(b) == Some(t));
}

/// Appending one more input serializes as the serialization so far
/// followed by that input's serialization.
proof fn lemma_ser_inputs_snoc(s: Seq<TxInModel>, x: TxInModel)
    ensures
        ser_inputs(s.push(x)) == ser_inputs(s) + ser_txin(x),
    decreases s.len(),
{
    if s.len() == 0 {
        let e = Seq::<TxInModel>::empty();
        assert(s.push(x)[0] == x);
        assert(s.push(x).drop_first() =~= e);
        assert(ser_inputs(e) == Seq::<u8>::empty());
        assert(ser_inputs(s.push(x)) == ser_txin(x) + ser_inputs(e));
        assert(ser_txin(x) + Seq::<u8>::empty() =~= ser_txin(x));
        assert(ser_inputs(s) == Seq::<u8>::empty());
        assert(Seq::<u8>::empty() + ser_txin(x) =~= ser_txin(x));
    } else {
        assert(s.push(x)[0] == s[0]);
        assert(s.push(x).drop_first() =~= s.drop_first().push(x));
        lemma_ser_inputs_snoc(s.drop_first(), x);
        assert(ser_inputs(s.push(x)) == ser_txin(s[0]) + ser_inputs(s.drop_first().push(x)));
        assert(ser_inputs(s) == ser_txin(s[0]) + ser_inputs(s.drop_first()));
        assert(ser_txin(s[0]) + (ser_inputs(s.drop_first()) + ser_txin(x)) =~= (ser_txin(s[0])
            + ser_inputs(s.drop_first())) + ser_txin(x));
    }
}

/// Appending one more output serializes as the serialization so far
/// followed by that output's serialization.
proof fn lemma_ser_outputs_snoc(s: Seq<TxOutModel>, x: TxOutModel)
    ensures
        ser_outputs(s.push(x)) == ser_outputs(s) + ser_txout(x),
    decreases s.len(),
{
    if s.len() == 0 {
        let e = Seq::<TxOutModel>::empty();
        assert(s.push(x)[0] == x);
        assert(s.push(x).drop_first() =~= e);
        assert(ser_outputs(e) == Seq::<u8>::empty());
        assert(ser_outputs(s.push(x)) == ser_txout(x) + ser_outputs(e));
        assert(ser_txout(x) + Seq::<u8>::empty() =~= ser_txout(x));
        assert(ser_outputs(s) == Seq::<u8>::empty());
        assert(Seq::<u8>::empty() + ser_txout(x) =~= ser_txout(x));
    } else {
        assert(s.push(x)[0] == s[0]);
        assert(s.push(x).drop_first() =~= s.drop_first().push(x));
        lemma_ser_outputs_snoc(s.drop_first(), x);
        assert(ser_outputs(s.push(x)) == ser_txout(s[0]) + ser_outputs(s.drop_first().push(x)));
        assert(ser_outputs(s) == ser_txout(s[0]) + ser_outputs(s.drop_first()));
        assert(ser_txout(s[0]) + (ser_outputs(s.drop_first()) + ser_txout(x)) =~= (ser_txout(s[0])
            + ser_outputs(s.drop_first())) + ser_txout(x));
    }
}

/// Relation maintained while parsing a run of inputs: the outcome for the
/// whole run is the already-parsed prefix joined with whatever the
/// remaining `rem` inputs parse to at cursor `cur`.
pub open spec fn txins_run_ok(
    b: Seq<u8>,
    whole: Option<(Seq<TxInModel>, int)>,
    done: Seq<TxInModel>,
    cur: int,
    rem: nat,
) -> bool {
    match parse_txins(b, cur, rem) {
        None => whole is None,
        Some(sj) => whole == Some((done + sj.0, sj.1)),
    }
}

/// Relation maintained while parsing a run of outputs.
pub open spec fn txouts_run_ok(
    b: Seq<u8>,
    whole: Option<(Seq<TxOutModel>, int)>,
    done: Seq<TxOutModel>,
    cur: int,
    rem: nat,
) -> bool {
    match parse_txouts(b, cur, rem) {
        None => whole is None,
        Some(sj) => whole == Some((done + sj.0, sj.1)),
    }
}

/// Parse one input at byte offset `pos`.
fn parse_input(data: &[u8], pos: usize) -> (r: Option<(TxIn, usize)>)
    requires
        pos <= data@.len(),
    ensures
        match r {
            Some(v) => parse_txin(data@, pos as int) == Some((v.0@, v.1 as int)) && pos <= v.1
                && v.1 <= data@.len() && txin_wf(v.0@),
            None => parse_txin(data@, pos as int) is None,
        },
{
    let (txid, i1) = match read_raw(data, pos, 32) {
        Some(x) => x,
        None => {
            return None;
        },
    };
    if data.len() - i1 < 4 {
        return None;
    }
    let vout = read_u32_le(data, i1);
    let i2 = i1 + 4;
    let (slen, i3) = match read_varint(data, i2) {
        Some(x) => x,
        None => {
            return None;
        },
    };
    if slen > (data.len() - i3) as u64 {
        return None;
    }
    let (script, i4) = match read_raw(data, i3, slen as usize) {
        Some(x) => x,
        None => {
            return None;
        },
    };
    if data.len() - i4 < 4 {
        return None;
    }
    let seqn = read_u32_le(data, i4);
    Some((TxIn { prev_txid: txid, prev_vout: vout, script_sig: script, sequence: seqn }, i4 + 4))
}

/// Parse one output at byte offset `pos`.
fn parse_output(data: &[u8], pos: usize) -> (r: Option<(TxOut, usize)>)
    requires
        pos <= data@.len(),
    ensures
        match r {
            Some(v) => parse_txout(data@, pos as int) == Some((v.0@, v.1 as int)) && pos <= v.1
                && v.1 <= data@.len() && txout_wf(v.0@),
            None => parse_txout(data@, pos as int) is None,
        },
{
    if data.len() - pos < 8 {
        return None;
    }
    let value = read_u64_le(data, pos);
    let i1 = pos + 8;
    let (slen, i2) = match read_varint(data, i1) {
        Some(x) => x,
        None => {
            return None;
        },
    };
    if slen > (data.len() - i2) as u64 {
        return None;
    }
    let (script, i3) = match read_raw(data, i2, slen as usize) {
        Some(x) => x,
        None => {
            return None;
        },
    };
    Some((TxOut { value: value, script_pubkey: script }, i3))
}

/// Parse a run of `n` inputs starting at byte offset `pos`.
fn parse_input_run(data: &[u8], pos: usize, n: u64) -> (r: Option<(Vec<TxIn>, usize)>)
    requires
        pos <= data@.len(),
    ensures
        match r {
            Some(v) => parse_txins(data@, pos as int, n as nat) == Some(
                (input_views(v.0@), v.1 as int),
            ) && v.1 <= data@.len() && txins_wf(input_views(v.0@)) && v.0@.len() == n,
            None => parse_txins(data@, pos as int, n as nat) is None,
        },
{
    let ghost whole = parse_txins(data@, pos as int, n as nat);
    let mut acc: Vec<TxIn> = Vec::new();
    let mut cur: usize = pos;
    let mut k: u64 = 0;
    while k < n
        invariant
            pos <= cur <= data@.len(),
            k <= n,
            acc@.len() == k,
            txins_wf(input_views(acc@)),
            whole == parse_txins(data@, pos as int, n as nat),
            txins_run_ok(data@, whole, input_views(acc@), cur as int, (n - k) as nat),
        decreases n - k,
    {
        match parse_input(data, cur) {
            None => {
                proof {
                    assert(parse_txins(data@, cur as int, (n - k) as nat) is None);
                }
                return None;
            },
            Some((t, j)) => {
                proof {
                    let b = data@;
                    let rem = (n - k) as nat;
                    let done = input_views(acc@);
                    assert(parse_txins(b, cur as int, rem) == match parse_txins(
                        b,
                        j as int,
                        (rem - 1) as nat,
                    ) {
                        None => None::<(Seq<TxInModel>, int)>,
                        Some((s2, j2)) => Some((seq![t@] + s2, j2)),
                    });
                    assert(input_views(acc@.push(t)) =~= done.push(t@));
                    if parse_txins(b, j as int, (rem - 1) as nat) is Some {
                        let (s2, j2) = parse_txins(b, j as int, (rem - 1) as nat)->Some_0;
                        assert(done + (seq![t@] + s2) =~= done.push(t@) + s2);
                    }
                    assert forall|q: int| 0 <= q < done.push(t@).len() implies txin_wf(
                        #[trigger] done.push(t@)[q],
                    ) by {
                        if q < done.len() {
                            assert(txin_wf(done[q]));
                        }
                    }
                }
                acc.push(t);
                cur = j;
                k = k + 1;
            },
        }
    }
    proof {
        assert(parse_txins(data@, cur as int, 0) == Some((Seq::<TxInModel>::empty(), cur as int)));
        assert(input_views(acc@) + Seq::<TxInModel>::empty() =~= input_views(acc@));
    }
    Some((acc, cur))
}

/// Parse a run of `n` outputs starting at byte offset `pos`.
fn parse_output_run(data: &[u8], pos: usize, n: u64) -> (r: Option<(Vec<TxOut>, usize)>)
    requires
        pos <= data@.len(),
    ensures
        match r {
            Some(v) => parse_txouts(data@, pos as int, n as nat) == Some(
                (output_views(v.0@), v.1 as int),
            ) && v.1 <= data@.len() && txouts_wf(output_views(v.0@)) && v.0@.len() == n,
            None => parse_txouts(data@, pos as int, n as nat) is None,
        },
{
    let ghost whole = parse_txouts(data@, pos as int, n as nat);
    let mut acc: Vec<TxOut> = Vec::new();
    let mut cur: usize = pos;
    let mut k: u64 = 0;
    while k < n
        invariant
            pos <= cur <= data@.len(),
            k <= n,
            acc@.len() == k,
            txouts_wf(output_views(acc@)),
            whole == parse_txouts(data@, pos as int, n as nat),
            txouts_run_ok(data@, whole, output_views(acc@), cur as int, (n - k) as nat),
        decreases n - k,
    {
        match parse_output(data, cur) {
            None => {
                proof {
                    assert(parse_txouts(data@, cur as int, (n - k) as nat) is None);
                }
                return None;
            },
            Some((t, j)) => {
                proof {
                    let b = data@;
                    let rem = (n - k) as nat;
                    let done = output_views(acc@);
                    assert(parse_txouts(b, cur as int, rem) == match parse_txouts(
                        b,
                        j as int,
                        (rem - 1) as nat,
                    ) {
                        None => None::<(Seq<TxOutModel>, int)>,
                        Some((s2, j2)) => Some((seq![t@] + s2, j2)),
                    });
                    assert(output_views(acc@.push(t)) =~= done.push(t@));
                    if parse_txouts(b, j as int, (rem - 1) as nat) is Some {
                        let (s2, j2) = parse_txouts(b, j as int, (rem - 1) as nat)->Some_0;
                        assert(done + (seq![t@] + s2) =~= done.push(t@) + s2);
                    }
                    assert forall|q: int| 0 <= q < done.push(t@).len() implies txout_wf(
                        #[trigger] done.push(t@)[q],
                    ) by {
                        if q < done.len() {
                            assert(txout_wf(done[q]));
                        }
                    }
                }
                acc.push(t);
                cur = j;
                k = k + 1;
            },
        }
    }
    proof {
        assert(parse_txouts(data@, cur as int, 0) == Some((Seq::<TxOutModel>::empty(), cur as int)));
        assert(output_views(acc@) + Seq::<TxOutModel>::empty() =~= output_views(acc@));
    }
    Some((acc, cur))
}

/// Deserialize a ledger-native transaction, consuming the buffer exactly.
///
/// Succeeds if and only if the bytes are a well-formed encoding; any
/// decode failure is reported as `MalformedTransaction` rather than a
/// panic.
pub fn parse_transaction(data: &[u8]) -> (r: Result<Transaction, SwapError>)
    ensures
        match r {
            Ok(t) => parse_tx(data@) == Some(t@) && tx_wf(t@),
            Err(e) => parse_tx(data@) is None && e == SwapError::MalformedTransaction,
        },
{
    if data.len() < 4 {
        return Err(SwapError::MalformedTransaction);
    }
    let version = read_u32_le(data, 0);
    let (nin, i2) = match read_varint(data, 4) {
        Some(x) => x,
        None => {
            return Err(SwapError::MalformedTransaction);
        },
    };
    let (inputs, i3) = match parse_input_run(data, i2, nin) {
        Some(x) => x,
        None => {
            return Err(SwapError::MalformedTransaction);
        },
    };
    let (nout, i4) = match read_varint(data, i3) {
        Some(x) => x,
        None => {
            return Err(SwapError::MalformedTransaction);
        },
    };
    let (outputs, i5) = match parse_output_run(data, i4, nout) {
        Some(x) => x,
        None => {
            return Err(SwapError::MalformedTransaction);
        },
    };
    if data.len() - i5 < 4 {
        return Err(SwapError::MalformedTransaction);
    }
    let lock_time = read_u32_le(data, i5);
    if i5 + 4 != data.len() {
        return Err(SwapError::MalformedTransaction);
    }
    Ok(Transaction { version: version, lock_time: lock_time, inputs: inputs, outputs: outputs })
}

/// Append the serialization of one input.
fn append_input(out: &mut Vec<u8>, t: &TxIn)
    ensures
        final(out)@ == old(out)@ + ser_txin(t@),
{
    push_raw(out, t.prev_txid.as_slice());
    push_u32_le(out, t.prev_vout);
    push_varint(out, t.script_sig.len() as u64);
    push_raw(out, t.script_sig.as_slice());
    push_u32_le(out, t.sequence);
    assert(out@ =~= old(out)@ + ser_txin(t@));
}

/// Append the serialization of one output.
fn append_output(out: &mut Vec<u8>, t: &TxOut)
    ensures
        final(out)@ == old(out)@ + ser_txout(t@),
{
    push_u64_le(out, t.value);
    push_varint(out, t.script_pubkey.len() as u64);
    push_raw(out, t.script_pubkey.as_slice());
    assert(out@ =~= old(out)@ + ser_txout(t@));
}

/// Serialize a structured transaction back to ledger-native bytes, the
/// exact inverse of `parse_transaction` on well-formed transactions.
pub fn serialize_transaction(t: &Transaction) -> (r: Vec<u8>)
    ensures
        r@ == ser_tx(t@),
{
    let mut out: Vec<u8> = Vec::new();
    push_u32_le(&mut out, t.version);
    push_varint(&mut out, t.inputs.len() as u64);
    let ghost head_in: Seq<u8> = out@;
    let mut k: usize = 0;
    while k < t.inputs.len()
        invariant
            k <= t.inputs@.len(),
            out@ == head_in + ser_inputs(input_views(t.inputs@.subrange(0, k as int))),
            head_in == ser_u32(t.version) + ser_varint(t.inputs@.len() as u64),
        decreases t.inputs@.len() - k,
    {
        append_input(&mut out, &t.inputs[k]);
        proof {
            let pre = t.inputs@.subrange(0, k as int);
            assert(t.inputs@.subrange(0, k as int + 1) =~= pre.push(t.inputs@[k as int]));
            assert(input_views(pre.push(t.inputs@[k as int])) =~= input_views(pre).push(
                t.inputs@[k as int]@,
            ));
            lemma_ser_inputs_snoc(input_views(pre), t.inputs@[k as int]@);
            assert(out@ =~= head_in + ser_inputs(
                input_views(t.inputs@.subrange(0, k as int + 1)),
            ));
        }
        k = k + 1;
    }
    proof {
        assert(t.inputs@.subrange(0, t.inputs@.len() as int) =~= t.inputs@);
    }
    push_varint(&mut out, t.outputs.len() as u64);
    let ghost head_out: Seq<u8> = out@;
    let mut m: usize = 0;
    while m < t.outputs.len()
        invariant
            m <= t.outputs@.len(),
            out@ == head_out + ser_outputs(output_views(t.outputs@.subrange(0, m as int))),
            head_out == ser_u32(t.version) + ser_varint(t.inputs@.len() as u64) + ser_inputs(
                input_views(t.inputs@),
            ) + ser_varint(t.outputs@.len() as u64),
        decreases t.outputs@.len() - m,
    {
        append_output(&mut out, &t.outputs[m]);
        proof {
            let pre = t.outputs@.subrange(0, m as int);
            assert(t.outputs@.subrange(0, m as int + 1) =~= pre.push(t.outputs@[m as int]));
            assert(output_views(pre.push(t.outputs@[m as int])) =~= output_views(pre).push(
                t.outputs@[m as int]@,
            ));
            lemma_ser_outputs_snoc(output_views(pre), t.outputs@[m as int]@);
            assert(out@ =~= head_out + ser_outputs(
                output_views(t.outputs@.subrange(0, m as int + 1)),
            ));
        }
        m = m + 1;
    }
    proof {
        assert(t.outputs@.subrange(0, t.outputs@.len() as int) =~= t.outputs@);
    }
    push_u32_le(&mut out, t.lock_time);
    assert(out@ =~= ser_tx(t@));
    out
}

} // verus!
