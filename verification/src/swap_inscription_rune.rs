//! Inscription-for-rune handler: the caller gives up an inscription and
//! receives a rune payment.
//!
//! The counterparty's transaction is expected to already carry the
//! rune-side outputs destined for the caller and, by convention, the
//! inscription-release input at index 0; that single input is designated
//! for the caller's signature.

use vstd::prelude::*;

use crate::errors::SwapError;
use crate::params::{parse_borsh_bytes, parse_borsh_string, read_borsh_bytes, read_borsh_string};
use crate::signing::{
    build_signing_request, spec_build, InputToSign, Pubkey, SigningRequest, SigningRequestModel,
};
use crate::tx::{parse_transaction, parse_tx};

verus! {

/// Parameters of the inscription-for-rune swap.
#[derive(Clone, Debug, PartialEq, Eq)]
pub struct SwapInscriptionRuneParams {
    /// Hex-textual identifier of the transaction holding the inscription.
    pub inscription_txid: String,
    /// Output index of the inscription within that transaction.
    pub inscription_vout: u8,
    /// The counterparty-supplied raw transaction bytes.
    pub user_swap_psbt: Vec<u8>,
}

/// Mathematical form of the inscription-for-rune parameters.
#[verifier::ext_equal]
pub ghost struct SwapInscriptionRuneParamsModel {
    /// The textual inscription transaction identifier.
    pub inscription_txid: Seq<char>,
    /// The inscription's output index.
    pub inscription_vout: u8,
    /// The counterparty-supplied raw transaction bytes.
    pub user_swap_psbt: Seq<u8>,
}

impl View for SwapInscriptionRuneParams {
    type V = SwapInscriptionRuneParamsModel;

    open spec fn view(&self) -> SwapInscriptionRuneParamsModel {
        SwapInscriptionRuneParamsModel {
            inscription_txid: self.inscription_txid@,
            inscription_vout: self.inscription_vout,
            user_swap_psbt: self.user_swap_psbt@,
        }
    }
}

/// Parse the inscription-for-rune parameter record at cursor `i`,
/// consuming the buffer exactly: a string field, one byte, and a byte
/// field.
pub open spec fn parse_inscription_params(b: Seq<u8>, i: int) -> Option<
    SwapInscriptionRuneParamsModel,
> {
    match parse_borsh_string(b, i) {
        None => None,
        Some((txid, i1)) => if i1 + 1 <= b.len() {
            match parse_borsh_bytes(b, i1 + 1) {
                None => None,
                Some((psbt, i3)) => if i3 == b.len() {
                    Some(
                        SwapInscriptionRuneParamsModel {
                            inscription_txid: txid,
                            inscription_vout: b[i1],
                            user_swap_psbt: psbt,
                        },
                    )
                } else {
                    None
                },
            }
        } else {
            None
        },
    }
}

/// Decode the inscription-for-rune parameters from the instruction bytes
/// after the opcode.
pub fn decode_swap_inscription_rune_params(data: &[u8], pos: usize) -> (r: Result<
    SwapInscriptionRuneParams,
    SwapError,
>)
    requires
        pos <= data@.len(),
    ensures
        match r {
            Ok(p) => parse_inscription_params(data@, pos as int) == Some(p@),
            Err(e) => parse_inscription_params(data@, pos as int) is None && e
                == SwapError::MalformedParameters,
        },
{
    let (txid, i1) = match read_borsh_string(data, pos) {
        Some(x) => x,
        None => {
            return Err(SwapError::MalformedParameters);
        },
    };
    if data.len() - i1 < 1 {
        return Err(SwapError::MalformedParameters);
    }
    let vout = data[i1];
    let (psbt, i3) = match read_borsh_bytes(data, i1 + 1) {
        Some(x) => x,
        None => {
            return Err(SwapError::MalformedParameters);
        },
    };
    if i3 != data.len() {
        return Err(SwapError::MalformedParameters);
    }
    Ok(
        SwapInscriptionRuneParams {
            inscription_txid: txid,
            inscription_vout: vout,
            user_swap_psbt: psbt,
        },
    )
}

/// What the inscription-for-rune handler returns: the request over the
/// re-serialized counterparty transaction with the single pair
/// `(0, caller key)`, or the first error on the way there.
pub open spec fn spec_swap_inscription_rune(accounts: Seq<Pubkey>, data: Seq<u8>) -> Result<
    SigningRequestModel,
    SwapError,
> {
    if accounts.len() != 1 {
        Err(SwapError::WrongAccountCount)
    } else {
        match parse_inscription_params(data, 1) {
            None => Err(SwapError::MalformedParameters),
            Some(p) => match parse_tx(p.user_swap_psbt) {
                None => Err(SwapError::MalformedTransaction),
                Some(txm) => spec_build(txm, seq![InputToSign { index: 0, signer: accounts[0] }]),
            },
        }
    }
}

/// Handle an inscription-for-rune swap instruction.
///
/// Requires exactly one account (the caller and sole signer), decodes the
/// parameters after the opcode byte, parses the counterparty transaction,
/// and requests the caller's signature on input index 0.
pub fn swap_inscription_rune(accounts: &Vec<Pubkey>, _program_id: &Pubkey, instruction_data: &[u8])
    -> (r: Result<SigningRequest, SwapError>)
    requires
        instruction_data@.len() >= 1,
    ensures
        (match r {
            Ok(s) => spec_swap_inscription_rune(accounts@, instruction_data@) == Ok::<
                SigningRequestModel,
                SwapError,
            >(s@),
            Err(e) => spec_swap_inscription_rune(accounts@, instruction_data@) == Err::<
                SigningRequestModel,
                SwapError,
            >(e),
        }),
        accounts@.len() != 1 ==> r == Err::<SigningRequest, SwapError>(
            SwapError::WrongAccountCount,
        ),
        r is Ok ==> r->Ok_0.inputs_to_sign@.len() == 1 && r->Ok_0.inputs_to_sign@[0].index == 0
            && r->Ok_0.inputs_to_sign@[0].signer == accounts@[0],
{
    if accounts.len() != 1 {
        return Err(SwapError::WrongAccountCount);
    }
    let params = match decode_swap_inscription_rune_params(instruction_data, 1) {
        Ok(p) => p,
        Err(e) => {
            return Err(e);
        },
    };
    let tx = match parse_transaction(params.user_swap_psbt.as_slice()) {
        Ok(t) => t,
        Err(e) => {
            return Err(e);
        },
    };
    let pairs: Vec<InputToSign> = vec![InputToSign { index: 0, signer: accounts[0] }];
    proof {
        assert(pairs@ =~= seq![InputToSign { index: 0, signer: accounts@[0 as int] }]);
    }
    build_signing_request(&tx, pairs)
}

} // verus!
