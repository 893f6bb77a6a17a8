//! End-to-end tests of the swap instruction core, including differential
//! checks of the transaction codec against the ledger library the
//! counterparty would use, and of the parameter codec against the binary
//! serialization library that produces instruction payloads.

use rune_swap::errors::SwapError;
use rune_swap::process_instruction;
use rune_swap::signing::{build_signing_request, InputToSign, Pubkey};
use rune_swap::swap_inscription_rune::{
    decode_swap_inscription_rune_params, swap_inscription_rune,
};
use rune_swap::swap_rune_inscription::{
    decode_swap_rune_inscription_params, swap_rune_inscription,
};
use rune_swap::tx::{parse_transaction, serialize_transaction, Transaction, TxIn, TxOut};

fn key(b: u8) -> Pubkey {
    Pubkey { bytes: [b; 32] }
}

fn sample_input(seed: u8) -> TxIn {
    TxIn {
        prev_txid: vec![seed; 32],
        prev_vout: seed as u32,
        script_sig: vec![seed, seed.wrapping_add(1)],
        sequence: 0xffffffff,
    }
}

fn sample_output(value: u64) -> TxOut {
    TxOut {
        value,
        script_pubkey: vec![0x51],
    }
}

fn sample_tx(n_inputs: usize, n_outputs: usize) -> Transaction {
    let inputs = (0..n_inputs).map(|k| sample_input(k as u8 + 1)).collect();
    let outputs = (0..n_outputs).map(|k| sample_output(1000 + k as u64)).collect();
    Transaction {
        version: 2,
        lock_time: 0,
        inputs,
        outputs,
    }
}

fn inscription_instruction(txid: &str, vout: u8, psbt: Vec<u8>) -> Vec<u8> {
    let params = (txid.to_string(), vout, psbt);
    let mut data = vec![0u8];
    data.extend_from_slice(&borsh::to_vec(&params).unwrap());
    data
}

fn rune_instruction(txids: Vec<String>, vouts: Vec<u8>, psbt: Vec<u8>) -> Vec<u8> {
    let params = (txids, vouts, psbt);
    let mut data = vec![1u8];
    data.extend_from_slice(&borsh::to_vec(&params).unwrap());
    data
}

fn to_bitcoin_tx(t: &Transaction) -> bitcoin::Transaction {
    bitcoin::Transaction {
        version: bitcoin::transaction::Version(t.version as i32),
        lock_time: bitcoin::absolute::LockTime::from_consensus(t.lock_time),
        input: t
            .inputs
            .iter()
            .map(|i| bitcoin::TxIn {
                previous_output: bitcoin::OutPoint {
                    txid: <bitcoin::Txid as bitcoin::hashes::Hash>::from_byte_array(
                        <[u8; 32]>::try_from(i.prev_txid.as_slice()).unwrap(),
                    ),
                    vout: i.prev_vout,
                },
                script_sig: bitcoin::ScriptBuf::from_bytes(i.script_sig.clone()),
                sequence: bitcoin::Sequence(i.sequence),
                witness: bitcoin::Witness::default(),
            })
            .collect(),
        output: t
            .outputs
            .iter()
            .map(|o| bitcoin::TxOut {
                value: bitcoin::Amount::from_sat(o.value),
                script_pubkey: bitcoin::ScriptBuf::from_bytes(o.script_pubkey.clone()),
            })
            .collect(),
    }
}

#[test]
fn exact_serialization_bytes() {
    let t = Transaction {
        version: 2,
        lock_time: 0,
        inputs: vec![TxIn {
            prev_txid: vec![0xab; 32],
            prev_vout: 0,
            script_sig: Vec::new(),
            sequence: 0xffffffff,
        }],
        outputs: vec![TxOut {
            value: 10_000,
            script_pubkey: vec![0x51],
        }],
    };
    let mut expected = vec![2u8, 0, 0, 0, 1];
    expected.extend_from_slice(&[0xab; 32]);
    expected.extend_from_slice(&[0, 0, 0, 0]);
    expected.push(0);
    expected.extend_from_slice(&[0xff, 0xff, 0xff, 0xff]);
    expected.push(1);
    expected.extend_from_slice(&[0x10, 0x27, 0, 0, 0, 0, 0, 0]);
    expected.extend_from_slice(&[1, 0x51]);
    expected.extend_from_slice(&[0, 0, 0, 0]);
    assert_eq!(serialize_transaction(&t), expected);
}

#[test]
fn serialization_matches_ledger_library() {
    let t = sample_tx(3, 2);
    let ours = serialize_transaction(&t);
    let theirs = bitcoin::consensus::serialize(&to_bitcoin_tx(&t));
    assert_eq!(ours, theirs);
}

#[test]
fn parse_accepts_ledger_library_bytes() {
    let t = sample_tx(2, 1);
    let bytes = bitcoin::consensus::serialize(&to_bitcoin_tx(&t));
    let parsed = parse_transaction(&bytes).unwrap();
    assert_eq!(parsed, t);
}

#[test]
fn parse_serialize_roundtrip() {
    let t = sample_tx(2, 3);
    let bytes = serialize_transaction(&t);
    let back = parse_transaction(&bytes).unwrap();
    assert_eq!(back, t);
}

#[test]
fn parse_rejects_truncated_bytes() {
    let t = sample_tx(1, 1);
    let mut bytes = serialize_transaction(&t);
    bytes.pop();
    assert_eq!(
        parse_transaction(&bytes),
        Err(SwapError::MalformedTransaction)
    );
}

#[test]
fn parse_rejects_trailing_bytes() {
    let t = sample_tx(1, 1);
    let mut bytes = serialize_transaction(&t);
    bytes.push(0);
    assert_eq!(
        parse_transaction(&bytes),
        Err(SwapError::MalformedTransaction)
    );
}

#[test]
fn parse_rejects_non_minimal_count() {
    // Input count 1 written as the three-byte form: non-minimal, refused
    // by the ledger library and by this codec alike.
    let t = sample_tx(1, 1);
    let bytes = serialize_transaction(&t);
    let mut padded = Vec::new();
    padded.extend_from_slice(&bytes[..4]);
    padded.extend_from_slice(&[0xfd, 0x01, 0x00]);
    padded.extend_from_slice(&bytes[5..]);
    assert_eq!(
        parse_transaction(&padded),
        Err(SwapError::MalformedTransaction)
    );
    assert!(bitcoin::consensus::deserialize::<bitcoin::Transaction>(&padded).is_err());
}

#[test]
fn parse_rejects_witness_bearing_encoding() {
    // The core's own transactions never carry witness data; the extended
    // encoding with the marker and flag bytes is treated as malformed.
    let mut bt = to_bitcoin_tx(&sample_tx(1, 1));
    bt.input[0].witness = bitcoin::Witness::from_slice(&[vec![1u8, 2, 3]]);
    let bytes = bitcoin::consensus::serialize(&bt);
    assert_eq!(
        parse_transaction(&bytes),
        Err(SwapError::MalformedTransaction)
    );
}

#[test]
fn long_script_roundtrip_uses_wide_count() {
    // A 300-byte script forces the three-byte length form.
    let mut t = sample_tx(1, 1);
    t.inputs[0].script_sig = vec![7u8; 300];
    let ours = serialize_transaction(&t);
    let theirs = bitcoin::consensus::serialize(&to_bitcoin_tx(&t));
    assert_eq!(ours, theirs);
    assert_eq!(parse_transaction(&ours).unwrap(), t);
}

#[test]
fn inscription_params_decode_matches_payload() {
    let psbt = vec![9u8, 8, 7];
    let data = inscription_instruction(&"aa".repeat(32), 3, psbt.clone());
    let p = decode_swap_inscription_rune_params(&data, 1).unwrap();
    assert_eq!(p.inscription_txid, "aa".repeat(32));
    assert_eq!(p.inscription_vout, 3);
    assert_eq!(p.user_swap_psbt, psbt);
}

#[test]
fn inscription_params_reject_invalid_utf8() {
    // A length-prefixed first field holding invalid UTF-8 must be refused.
    let mut data = vec![0u8];
    data.extend_from_slice(&2u32.to_le_bytes());
    data.extend_from_slice(&[0xff, 0xfe]);
    data.push(0);
    data.extend_from_slice(&0u32.to_le_bytes());
    assert_eq!(
        decode_swap_inscription_rune_params(&data, 1),
        Err(SwapError::MalformedParameters)
    );
}

#[test]
fn inscription_params_reject_truncation() {
    let data = inscription_instruction(&"aa".repeat(32), 0, vec![1, 2, 3]);
    let cut = &data[..data.len() - 1];
    assert_eq!(
        decode_swap_inscription_rune_params(cut, 1),
        Err(SwapError::MalformedParameters)
    );
}

#[test]
fn rune_params_decode_matches_payload() {
    let txids = vec!["bb".repeat(32), "cc".repeat(32)];
    let data = rune_instruction(txids.clone(), vec![1, 0], vec![5, 6]);
    let p = decode_swap_rune_inscription_params(&data, 1).unwrap();
    assert_eq!(p.rune_txids, txids);
    assert_eq!(p.rune_vouts, vec![1, 0]);
    assert_eq!(p.user_swap_psbt, vec![5, 6]);
}

#[test]
fn swap_inscription_rune_happy_path() {
    let caller = key(0x11);
    let psbt = serialize_transaction(&sample_tx(1, 1));
    let data = inscription_instruction(&"aa".repeat(32), 0, psbt.clone());
    let req = swap_inscription_rune(&vec![caller], &key(0), &data).unwrap();
    assert_eq!(req.tx_bytes, psbt);
    assert_eq!(req.inputs_to_sign.len(), 1);
    assert_eq!(req.inputs_to_sign[0], InputToSign { index: 0, signer: caller });
}

#[test]
fn swap_rune_inscription_happy_path() {
    let caller = key(0x22);
    // Three inputs: one counterparty input, then the caller's two rune
    // inputs, so the computed signer offset is 1.
    let psbt = serialize_transaction(&sample_tx(3, 1));
    let data = rune_instruction(vec!["bb".repeat(32), "cc".repeat(32)], vec![1, 0], psbt.clone());
    let req = swap_rune_inscription(&vec![caller], &key(0), &data).unwrap();
    assert_eq!(req.tx_bytes, psbt);
    assert_eq!(req.inputs_to_sign.len(), 2);
    assert_eq!(req.inputs_to_sign[0], InputToSign { index: 1, signer: caller });
    assert_eq!(req.inputs_to_sign[1], InputToSign { index: 2, signer: caller });
}

#[test]
fn rune_handler_accepts_empty_rune_list() {
    let caller = key(0x22);
    let psbt = serialize_transaction(&sample_tx(1, 1));
    let data = rune_instruction(vec![], vec![], psbt);
    let req = swap_rune_inscription(&vec![caller], &key(0), &data).unwrap();
    assert_eq!(req.inputs_to_sign.len(), 0);
}

#[test]
fn rune_handler_rejects_more_runes_than_inputs() {
    let caller = key(0x22);
    let psbt = serialize_transaction(&sample_tx(1, 1));
    let data = rune_instruction(vec!["bb".repeat(32), "cc".repeat(32)], vec![0, 1], psbt);
    assert_eq!(
        swap_rune_inscription(&vec![caller], &key(0), &data),
        Err(SwapError::SignerIndexOutOfRange)
    );
}

#[test]
fn inscription_handler_rejects_transaction_without_inputs() {
    let caller = key(0x11);
    let psbt = serialize_transaction(&sample_tx(0, 1));
    let data = inscription_instruction(&"aa".repeat(32), 0, psbt);
    assert_eq!(
        swap_inscription_rune(&vec![caller], &key(0), &data),
        Err(SwapError::SignerIndexOutOfRange)
    );
}

#[test]
fn router_dispatches_opcode_zero() {
    let caller = key(0x11);
    let psbt = serialize_transaction(&sample_tx(1, 1));
    let data = inscription_instruction(&"aa".repeat(32), 0, psbt);
    let req = process_instruction(&key(0), &vec![caller], &data).unwrap();
    assert_eq!(req.inputs_to_sign.len(), 1);
    assert_eq!(req.inputs_to_sign[0].index, 0);
}

#[test]
fn router_dispatches_opcode_one() {
    let caller = key(0x22);
    let psbt = serialize_transaction(&sample_tx(2, 1));
    let data = rune_instruction(vec!["bb".repeat(32)], vec![0], psbt);
    let req = process_instruction(&key(0), &vec![caller], &data).unwrap();
    assert_eq!(req.inputs_to_sign.len(), 1);
    assert_eq!(req.inputs_to_sign[0].index, 1);
}

#[test]
fn router_rejects_unknown_opcode() {
    let data = vec![2u8, 0, 0];
    assert_eq!(
        process_instruction(&key(0), &vec![key(1)], &data),
        Err(SwapError::InvalidOpcode)
    );
}

#[test]
fn handlers_reject_wrong_account_count() {
    let psbt = serialize_transaction(&sample_tx(1, 1));
    let two = vec![key(1), key(2)];
    let none: Vec<Pubkey> = vec![];
    let data0 = inscription_instruction(&"aa".repeat(32), 0, psbt.clone());
    let data1 = rune_instruction(vec!["bb".repeat(32)], vec![0], psbt);
    assert_eq!(
        process_instruction(&key(0), &two, &data0),
        Err(SwapError::WrongAccountCount)
    );
    assert_eq!(
        process_instruction(&key(0), &two, &data1),
        Err(SwapError::WrongAccountCount)
    );
    assert_eq!(
        process_instruction(&key(0), &none, &data0),
        Err(SwapError::WrongAccountCount)
    );
    assert_eq!(SwapError::WrongAccountCount.code(), 501);
    assert_eq!(SwapError::InvalidOpcode.code(), 2u64 << 32);
}

#[test]
fn handlers_reject_truncated_transaction_bytes() {
    let caller = key(0x11);
    let psbt = serialize_transaction(&sample_tx(1, 1));
    let cut = psbt[..2].to_vec();
    let data0 = inscription_instruction(&"aa".repeat(32), 0, cut.clone());
    let data1 = rune_instruction(vec!["bb".repeat(32)], vec![0], cut);
    assert_eq!(
        swap_inscription_rune(&vec![caller], &key(0), &data0),
        Err(SwapError::MalformedTransaction)
    );
    assert_eq!(
        swap_rune_inscription(&vec![caller], &key(0), &data1),
        Err(SwapError::MalformedTransaction)
    );
}

#[test]
fn builder_rejects_out_of_range_index() {
    let t = sample_tx(2, 1);
    let pairs = vec![
        InputToSign { index: 0, signer: key(1) },
        InputToSign { index: 2, signer: key(1) },
    ];
    assert_eq!(
        build_signing_request(&t, pairs),
        Err(SwapError::SignerIndexOutOfRange)
    );
}

#[test]
fn builder_keeps_pair_order() {
    let t = sample_tx(3, 1);
    let pairs = vec![
        InputToSign { index: 2, signer: key(1) },
        InputToSign { index: 0, signer: key(2) },
        InputToSign { index: 2, signer: key(3) },
    ];
    let req = build_signing_request(&t, pairs.clone()).unwrap();
    assert_eq!(req.inputs_to_sign, pairs);
    assert_eq!(req.tx_bytes, serialize_transaction(&t));
}
