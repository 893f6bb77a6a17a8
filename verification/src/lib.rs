//! Atomic-swap instruction core: a two-party exchange of an inscription
//! (a non-fungible asset bound to a ledger output) against runes (fungible
//! token balances bound to ledger outputs).
//!
//! The library decodes swap parameters from an opaque instruction payload,
//! validates the account list, parses the counterparty-supplied raw
//! transaction into a structured form, and produces a signing request that
//! names exactly which inputs of the assembled transaction the host
//! environment must sign with the caller's key.

pub mod bytes;
pub mod errors;
pub mod params;
pub mod signing;
pub mod swap_inscription_rune;
pub mod swap_rune_inscription;
pub mod tx;

use vstd::prelude::*;

use crate::errors::SwapError;
use crate::signing::{Pubkey, SigningRequest, SigningRequestModel};
use crate::swap_inscription_rune::{spec_swap_inscription_rune, swap_inscription_rune};
use crate::swap_rune_inscription::{spec_swap_rune_inscription, swap_rune_inscription};

verus! {

/// What the router returns: the matching handler's result for opcode 0
/// or 1, and `InvalidOpcode` for every other opcode byte, with no
/// request produced.
pub open spec fn spec_process_instruction(accounts: Seq<Pubkey>, data: Seq<u8>) -> Result<
    SigningRequestModel,
    SwapError,
>
    recommends
        data.len() >= 1,
{
    if data[0] == 0 {
        spec_swap_inscription_rune(accounts, data)
    } else if data[0] == 1 {
        spec_swap_rune_inscription(accounts, data)
    } else {
        Err(SwapError::InvalidOpcode)
    }
}

/// Route a swap instruction by its opcode byte.
///
/// Byte 0 selects the handler: 0 is inscription-for-rune, 1 is
/// rune-for-inscription, anything else fails with `InvalidOpcode`. No
/// other validation happens at this layer.
pub fn process_instruction(_program_id: &Pubkey, accounts: &Vec<Pubkey>, instruction_data: &[u8])
    -> (r: Result<SigningRequest, SwapError>)
    requires
        instruction_data@.len() >= 1,
    ensures
        (match r {
            Ok(s) => spec_process_instruction(accounts@, instruction_data@) == Ok::<
                SigningRequestModel,
                SwapError,
            >(s@),
            Err(e) => spec_process_instruction(accounts@, instruction_data@) == Err::<
                SigningRequestModel,
                SwapError,
            >(e),
        }),
        instruction_data@[0] != 0 && instruction_data@[0] != 1 ==> r == Err::<
            SigningRequest,
            SwapError,
        >(SwapError::InvalidOpcode),
{
    match instruction_data[0] {
        0 => swap_inscription_rune(accounts, _program_id, instruction_data),
        1 => swap_rune_inscription(accounts, _program_id, instruction_data),
        _ => Err(SwapError::InvalidOpcode),
    }
}

} // verus!
