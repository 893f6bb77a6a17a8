//! Rune-for-inscription handler: the caller gives up rune-denominated
//! inputs and receives an inscription.
//!
//! The counterparty's transaction is expected to already carry the
//! inscription-side output destined for the caller plus one placeholder
//! input per rune contribution, placed after the counterparty's own
//! inputs. The signer offset is therefore computed from the parsed
//! transaction's input count: the caller's contributions are the last
//! `rune_txids.len()` inputs.

use vstd::prelude::*;

use crate::errors::SwapError;
use crate::params::{
    parse_borsh_bytes, parse_borsh_string_vec, read_borsh_bytes, read_borsh_string_vec,
    string_views,
};
use crate::signing::{
    build_signing_request, spec_build, InputToSign, Pubkey, SigningRequest, SigningRequestModel,
};
use crate::tx::{parse_transaction, parse_tx};

verus! {

/// Parameters of the rune-for-inscription swap.
#[derive(Clone, Debug, PartialEq, Eq)]
pub struct SwapRuneInscriptionParams {
    /// Hex-textual identifiers, one per rune-denominated input being
    /// contributed by the caller.
    pub rune_txids: Vec<String>,
    /// Output indices, positionally paired with `rune_txids`.
    pub rune_vouts: Vec<u8>,
    /// The counterparty-supplied raw transaction bytes.
    pub user_swap_psbt: Vec<u8>,
}

/// Mathematical form of the rune-for-inscription parameters.
#[verifier::ext_equal]
pub ghost struct SwapRuneInscriptionParamsModel {
    /// The textual rune transaction identifiers.
    pub rune_txids: Seq<Seq<char>>,
    /// The paired output indices.
    pub rune_vouts: Seq<u8>,
    /// The counterparty-supplied raw transaction bytes.
    pub user_swap_psbt: Seq<u8>,
}

impl View for SwapRuneInscriptionParams {
    type V = SwapRuneInscriptionParamsModel;

    open spec fn view(&self) -> SwapRuneInscriptionParamsModel {
        SwapRuneInscriptionParamsModel {
            rune_txids: string_views(self.rune_txids@),
            rune_vouts: self.rune_vouts@,
            user_swap_psbt: self.user_swap_psbt@,
        }
    }
}

/// Parse the rune-for-inscription parameter record at cursor `i`,
/// consuming the buffer exactly: a vector of string fields and two byte
/// fields.
pub open spec fn parse_rune_params(b: Seq<u8>, i: int) -> Option<SwapRuneInscriptionParamsModel> {
    match parse_borsh_string_vec(b, i) {
        None => None,
        Some((txids, i1)) => match parse_borsh_bytes(b, i1) {
            None => None,
            Some((vouts, i2)) => match parse_borsh_bytes(b, i2) {
                None => None,
                Some((psbt, i3)) => if i3 == b.len() {
                    Some(
                        SwapRuneInscriptionParamsModel {
                            rune_txids: txids,
                            rune_vouts: vouts,
                            user_swap_psbt: psbt,
                        },
                    )
                } else {
                    None
                },
            },
        },
    }
}

/// Decode the rune-for-inscription parameters from the instruction bytes
/// after the opcode.
pub fn decode_swap_rune_inscription_params(data: &[u8], pos: usize) -> (r: Result<
    SwapRuneInscriptionParams,
    SwapError,
>)
    requires
        pos <= data@.len(),
    ensures
        match r {
            Ok(p) => parse_rune_params(data@, pos as int) == Some(p@),
            Err(e) => parse_rune_params(data@, pos as int) is None && e
                == SwapError::MalformedParameters,
        },
{
    let (txids, i1) = match read_borsh_string_vec(data, pos) {
        Some(x) => x,
        None => {
            return Err(SwapError::MalformedParameters);
        },
    };
    let (vouts, i2) = match read_borsh_bytes(data, i1) {
        Some(x) => x,
        None => {
            return Err(SwapError::MalformedParameters);
        },
    };
    let (psbt, i3) = match read_borsh_bytes(data, i2) {
        Some(x) => x,
        None => {
            return Err(SwapError::MalformedParameters);
        },
    };
    if i3 != data.len() {
        return Err(SwapError::MalformedParameters);
    }
    Ok(SwapRuneInscriptionParams { rune_txids: txids, rune_vouts: vouts, user_swap_psbt: psbt })
}

/// The signing pairs of the rune handler: one per rune input, in order,
/// at contiguous ascending indices starting at `sign_index`.
pub open spec fn rune_pairs(signer: Pubkey, sign_index: int, n: nat) -> Seq<InputToSign> {
    Seq::new(n, |k: int| InputToSign { index: (sign_index + k) as u32, signer: signer })
}

/// What the rune-for-inscription handler returns: the request over the
/// re-serialized counterparty transaction with one pair per rune input
/// at the last `rune_txids.len()` input indices, or the first error on
/// the way there. The signer offset is out of range when the caller
/// declares more rune inputs than the transaction has, or when an index
/// would not fit the index width.
pub open spec fn spec_swap_rune_inscription(accounts: Seq<Pubkey>, data: Seq<u8>) -> Result<
    SigningRequestModel,
    SwapError,
> {
    if accounts.len() != 1 {
        Err(SwapError::WrongAccountCount)
    } else {
        match parse_rune_params(data, 1) {
            None => Err(SwapError::MalformedParameters),
            Some(p) => match parse_tx(p.user_swap_psbt) {
                None => Err(SwapError::MalformedTransaction),
                Some(txm) => {
                    let n = p.rune_txids.len();
                    if n > txm.inputs.len() || (n > 0 && txm.inputs.len() > 0x100000000) {
                        Err(SwapError::SignerIndexOutOfRange)
                    } else {
                        spec_build(
                            txm,
                            rune_pairs(accounts[0], txm.inputs.len() - n, n),
                        )
                    }
                },
            },
        }
    }
}

/// Handle a rune-for-inscription swap instruction.
///
/// Requires exactly one account (the caller and sole signer), decodes the
/// parameters after the opcode byte, parses the counterparty transaction,
/// computes the signer offset from its input count, and requests the
/// caller's signature on one input per rune contribution.
pub fn swap_rune_inscription(accounts: &Vec<Pubkey>, _program_id: &Pubkey, instruction_data: &[u8])
    -> (r: Result<SigningRequest, SwapError>)
    requires
        instruction_data@.len() >= 1,
    ensures
        (match r {
            Ok(s) => spec_swap_rune_inscription(accounts@, instruction_data@) == Ok::<
                SigningRequestModel,
                SwapError,
            >(s@),
            Err(e) => spec_swap_rune_inscription(accounts@, instruction_data@) == Err::<
                SigningRequestModel,
                SwapError,
            >(e),
        }),
        accounts@.len() != 1 ==> r == Err::<SigningRequest, SwapError>(
            SwapError::WrongAccountCount,
        ),
{
    if accounts.len() != 1 {
        return Err(SwapError::WrongAccountCount);
    }
    let params = match decode_swap_rune_inscription_params(instruction_data, 1) {
        Ok(p) => p,
        Err(e) => {
            return Err(e);
        },
    };
    let tx = match parse_transaction(params.user_swap_psbt.as_slice()) {
        Ok(t) => t,
        Err(e) => {
            return Err(e);
        },
    };
    let n = params.rune_txids.len();
    let count = tx.inputs.len();
    if n > count {
        return Err(SwapError::SignerIndexOutOfRange);
    }
    if n > 0 && count - 1 > (u32::MAX as usize) {
        return Err(SwapError::SignerIndexOutOfRange);
    }
    let sign_index = count - n;
    let signer = accounts[0];
    let mut pairs: Vec<InputToSign> = Vec::new();
    let mut k: usize = 0;
    while k < n
        invariant
            k <= n,
            n <= count,
            sign_index == count - n,
            n > 0 ==> count - 1 <= u32::MAX,
            pairs@ == rune_pairs(signer, sign_index as int, k as nat),
        decreases n - k,
    {
        let idx = (sign_index + k) as u32;
        pairs.push(InputToSign { index: idx, signer: signer });
        proof {
            assert(pairs@ =~= rune_pairs(signer, sign_index as int, (k + 1) as nat));
        }
        k = k + 1;
    }
    proof {
        assert(signer == accounts@[0 as int]);
        assert(pairs@ == rune_pairs(accounts@[0 as int], sign_index as int, n as nat));
    }
    build_signing_request(&tx, pairs)
}

/// Shape of a successful rune-for-inscription request: one signing pair
/// per declared rune input, in the order of `rune_txids`; the indices
/// form a contiguous ascending run starting at the computed signer
/// offset (the transaction's input count less the rune input count); and
/// when the parameter record satisfies its equal-length invariant, the
/// pair count also equals the vout count.
pub proof fn lemma_rune_request_shape(accounts: Seq<Pubkey>, data: Seq<u8>, s: SigningRequestModel)
    requires
        spec_swap_rune_inscription(accounts, data) == Ok::<SigningRequestModel, SwapError>(s),
    ensures
        parse_rune_params(data, 1) is Some,
        parse_tx(parse_rune_params(data, 1)->Some_0.user_swap_psbt) is Some,
        s.inputs_to_sign.len() == parse_rune_params(data, 1)->Some_0.rune_txids.len(),
        parse_rune_params(data, 1)->Some_0.rune_vouts.len() == parse_rune_params(
            data,
            1,
        )->Some_0.rune_txids.len() ==> s.inputs_to_sign.len() == parse_rune_params(
            data,
            1,
        )->Some_0.rune_vouts.len(),
        forall|k: int|
            0 <= k < s.inputs_to_sign.len() ==> (#[trigger] s.inputs_to_sign[k]).index as int
                == parse_tx(parse_rune_params(data, 1)->Some_0.user_swap_psbt)->Some_0.inputs.len()
                - s.inputs_to_sign.len() + k,
{
    let p = parse_rune_params(data, 1)->Some_0;
    let txm = parse_tx(p.user_swap_psbt)->Some_0;
    let n = p.rune_txids.len();
    let count = txm.inputs.len();
    assert(s.inputs_to_sign == rune_pairs(accounts[0], count - n, n));
    assert forall|k: int| 0 <= k < s.inputs_to_sign.len() implies (
    #[trigger] s.inputs_to_sign[k]).index as int == count - n + k by {
        assert(s.inputs_to_sign[k] == InputToSign {
            index: (count - n + k) as u32,
            signer: accounts[0],
        });
        assert(count - n + k < 0x100000000);
    }
}

} // verus!
