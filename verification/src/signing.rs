//! Signing request builder.
//!
//! The sole externally observable artifact of a successful swap
//! instruction: the assembled transaction bytes plus the ordered list of
//! `(input index, signer)` pairs the host must sign. The builder confirms
//! every index refers to an input of the transaction; an index outside
//! the assembled transaction indicates a construction bug upstream and is
//! rejected rather than clamped.

use vstd::prelude::*;

use crate::errors::SwapError;
use crate::tx::{ser_tx, serialize_transaction, Transaction, TransactionModel};

verus! {

/// An account key of the host ledger.
#[derive(Clone, Copy, Debug, PartialEq, Eq)]
pub struct Pubkey {
    /// The raw key bytes.
    pub bytes: [u8; 32],
}

/// One input of the assembled transaction that the host must sign with
/// the given account's key.
#[derive(Clone, Copy, Debug, PartialEq, Eq)]
pub struct InputToSign {
    /// Index of the input within the assembled transaction.
    pub index: u32,
    /// The account whose key must sign that input.
    pub signer: Pubkey,
}

/// The artifact handed to the host environment for countersigning.
#[derive(Clone, Debug, PartialEq, Eq)]
pub struct SigningRequest {
    /// The fully assembled, still unsigned transaction.
    pub tx_bytes: Vec<u8>,
    /// Which inputs to sign, in caller-supplied order.
    pub inputs_to_sign: Vec<InputToSign>,
}

/// Mathematical form of a signing request.
#[verifier::ext_equal]
pub ghost struct SigningRequestModel {
    /// The assembled transaction bytes.
    pub tx_bytes: Seq<u8>,
    /// Which inputs to sign, in order.
    pub inputs_to_sign: Seq<InputToSign>,
}

impl View for SigningRequest {
    type V = SigningRequestModel;

    open spec fn view(&self) -> SigningRequestModel {
        SigningRequestModel { tx_bytes: self.tx_bytes@, inputs_to_sign: self.inputs_to_sign@ }
    }
}

/// Every pair names an input index that exists among `n_inputs` inputs.
pub open spec fn indices_in_range(pairs: Seq<InputToSign>, n_inputs: nat) -> bool {
    forall|k: int| 0 <= k < pairs.len() ==> (#[trigger] pairs[k]).index < n_inputs
}

/// What the builder returns: the serialized transaction with the pairs
/// kept in order when every index is in range, and
/// `SignerIndexOutOfRange` otherwise.
pub open spec fn spec_build(txm: TransactionModel, pairs: Seq<InputToSign>) -> Result<
    SigningRequestModel,
    SwapError,
> {
    if indices_in_range(pairs, txm.inputs.len()) {
        Ok(SigningRequestModel { tx_bytes: ser_tx(txm), inputs_to_sign: pairs })
    } else {
        Err(SwapError::SignerIndexOutOfRange)
    }
}

/// Any pair whose index falls outside `[0, inputs.len())` makes the
/// builder fail with `SignerIndexOutOfRange`, and no request is emitted.
pub proof fn lemma_out_of_range_index_rejected(
    txm: TransactionModel,
    pairs: Seq<InputToSign>,
    k: int,
)
    requires
        0 <= k < pairs.len(),
        pairs[k].index >= txm.inputs.len(),
    ensures
        spec_build(txm, pairs) == Err::<SigningRequestModel, SwapError>(
            SwapError::SignerIndexOutOfRange,
        ),
{
    assert(!indices_in_range(pairs, txm.inputs.len()));
}

/// Build the signing request over the serialized transaction.
///
/// Succeeds if and only if every supplied index lies within
/// `[0, inputs.len())`; the pairs are neither reordered nor deduplicated,
/// since the host processes them positionally. No request is emitted on
/// failure.
pub fn build_signing_request(tx: &Transaction, pairs: Vec<InputToSign>) -> (r: Result<
    SigningRequest,
    SwapError,
>)
    ensures
        (match r {
            Ok(s) => spec_build(tx@, pairs@) == Ok::<SigningRequestModel, SwapError>(s@),
            Err(e) => spec_build(tx@, pairs@) == Err::<SigningRequestModel, SwapError>(e),
        }),
{
    let n = tx.inputs.len();
    let mut k: usize = 0;
    while k < pairs.len()
        invariant
            k <= pairs@.len(),
            n == tx@.inputs.len(),
            forall|q: int| 0 <= q < k ==> (#[trigger] pairs@[q]).index < n,
        decreases pairs@.len() - k,
    {
        if pairs[k].index as usize >= n {
            proof {
                assert(!indices_in_range(pairs@, tx@.inputs.len())) by {
                    assert(pairs@[k as int].index >= n);
                }
            }
            return Err(SwapError::SignerIndexOutOfRange);
        }
        k = k + 1;
    }
    let bytes = serialize_transaction(tx);
    Ok(SigningRequest { tx_bytes: bytes, inputs_to_sign: pairs })
}

} // verus!
