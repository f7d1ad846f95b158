//! How a raw fuzz input is read as a multi-signature proposal: which flow it
//! drives, which operation it proposes, where its payload lies and which
//! address goes with it.

use vstd::prelude::*;

verus! {

/// The operations a multi-signature proposal can carry.
#[derive(Clone, Copy, Debug, PartialEq, Eq)]
pub enum MultisigOperationKind {
    Withdraw,
    UpdateBeneficiary,
    CancelVault,
    UpdateCheckInInterval,
    TransferOwnership,
}

/// The address that goes with a proposal.
#[derive(Clone, Copy, Debug, PartialEq, Eq)]
pub enum AddressChoice {
    NoAddress,
    Beneficiary,
    Signer,
}

/// A proposal read from raw input: the payload is `input[payload_start..payload_end]`.
#[derive(Clone, Copy, Debug, PartialEq, Eq)]
pub struct MultisigCase {
    pub operation: MultisigOperationKind,
    pub payload_start: usize,
    pub payload_end: usize,
    pub address: AddressChoice,
}

/// The operation numbered `index`, if any.
pub open spec fn operation_of(index: u8) -> Option<MultisigOperationKind> {
    if index == 0 {
        Some(MultisigOperationKind::Withdraw)
    } else if index == 1 {
        Some(MultisigOperationKind::UpdateBeneficiary)
    } else if index == 2 {
        Some(MultisigOperationKind::CancelVault)
    } else if index == 3 {
        Some(MultisigOperationKind::UpdateCheckInInterval)
    } else if index == 4 {
        Some(MultisigOperationKind::TransferOwnership)
    } else {
        None
    }
}

/// The address chosen by a flag byte.
pub open spec fn address_of(flag: u8) -> AddressChoice {
    if flag % 3 == 0 {
        AddressChoice::NoAddress
    } else if flag % 3 == 1 {
        AddressChoice::Beneficiary
    } else {
        AddressChoice::Signer
    }
}

/// How an input is read: byte 0 numbers the operation, bytes 1 and 2 give
/// the payload length (little-endian), the payload follows, cut short at the
/// end of the input, and the byte after it, or 0 when there is none, chooses
/// the address. Inputs under three bytes, or numbering no operation, are
/// not read.
pub open spec fn spec_multisig_case(input: Seq<u8>) -> Option<MultisigCase> {
    if input.len() < 3 || operation_of(input[0]) is None {
        None
    } else {
        let wanted = 3 + input[1] + 256 * input[2];
        let end = if wanted <= input.len() {
            wanted
        } else {
            input.len() as int
        };
        let flag = if end < input.len() {
            input[end]
        } else {
            0u8
        };
        Some(
            MultisigCase {
                operation: operation_of(input[0])->0,
                payload_start: 3,
                payload_end: end as usize,
                address: address_of(flag),
            },
        )
    }
}

/// Reads a raw input as a multi-signature proposal.
pub fn multisig_case(input: &[u8]) -> (case: Option<MultisigCase>)
    ensures
        case == spec_multisig_case(input@),
        case is Some <==> (input@.len() >= 3 && input@[0] <= 4),
        case matches Some(c) ==> c.payload_start == 3 && c.payload_end == (if 3 + input@[1] + 256
            * input@[2] <= input@.len() {
            3 + input@[1] + 256 * input@[2]
        } else {
            input@.len() as int
        }),
        case matches Some(c) ==> (c.payload_end < input@.len() ==> (input@[c.payload_end as int] % 3
            == 0 <==> c.address == AddressChoice::NoAddress) && (input@[c.payload_end as int] % 3 == 1
            <==> c.address == AddressChoice::Beneficiary) && (input@[c.payload_end as int] % 3 == 2
            <==> c.address == AddressChoice::Signer)),
        case matches Some(c) ==> (c.payload_end == input@.len() ==> c.address
            == AddressChoice::NoAddress),
{
    proof {
        law_multisig_reading(input@);
    }
    if input.len() < 3 {
        return None;
    }
    let operation = match input[0] {
        0 => MultisigOperationKind::Withdraw,
        1 => MultisigOperationKind::UpdateBeneficiary,
        2 => MultisigOperationKind::CancelVault,
        3 => MultisigOperationKind::UpdateCheckInInterval,
        4 => MultisigOperationKind::TransferOwnership,
        _ => return None,
    };
    let payload_len: usize = input[1] as usize + 256 * (input[2] as usize);
    let wanted: usize = 3 + payload_len;
    let end: usize = if wanted <= input.len() {
        wanted
    } else {
        input.len()
    };
    let flag: u8 = if end < input.len() {
        input[end]
    } else {
        0
    };
    let address = if flag % 3 == 0 {
        AddressChoice::NoAddress
    } else if flag % 3 == 1 {
        AddressChoice::Beneficiary
    } else {
        AddressChoice::Signer
    };
    Some(MultisigCase { operation, payload_start: 3, payload_end: end, address })
}

/// Which of the three flows an input drives: its first byte modulo 3, the
/// bytes after it being the flow's own input. An empty input drives none.
pub fn fuzz_mode(input: &[u8]) -> (mode: Option<u8>)
    ensures
        input@.len() == 0 ==> mode is None,
        input@.len() > 0 ==> mode == Some((input@[0] % 3) as u8),
{
    if input.len() == 0 {
        None
    } else {
        Some(input[0] % 3)
    }
}

/// A proposal's payload lies within its input, after the three header bytes.
pub proof fn law_payload_within_input(input: Seq<u8>)
    ensures
        spec_multisig_case(input) matches Some(c) ==> 3 == c.payload_start <= c.payload_end <= input.len(),
{
}

/// How any input is read, from its raw bytes: it is read exactly when it
/// has three bytes and its first numbers one of the five operations (0 to
/// 4, in the order of `MultisigOperationKind`); the payload starts after the
/// three header bytes and runs for the little-endian 16-bit length in bytes
/// 1 and 2, cut at the end of the input; the address is chosen by the byte
/// right after the payload, modulo 3 (none, beneficiary, signer), and is
/// none when the payload reaches the end of the input.
pub proof fn law_multisig_reading(input: Seq<u8>)
    ensures
        spec_multisig_case(input) is Some <==> (input.len() >= 3 && input[0] <= 4),
        spec_multisig_case(input) matches Some(c) ==> (input[0] == 0 <==> c.operation
            == MultisigOperationKind::Withdraw) && (input[0] == 1 <==> c.operation
            == MultisigOperationKind::UpdateBeneficiary) && (input[0] == 2 <==> c.operation
            == MultisigOperationKind::CancelVault) && (input[0] == 3 <==> c.operation
            == MultisigOperationKind::UpdateCheckInInterval) && (input[0] == 4 <==> c.operation
            == MultisigOperationKind::TransferOwnership),
        spec_multisig_case(input) matches Some(c) ==> c.payload_start == 3 && c.payload_end == (if 3
            + input[1] + 256 * input[2] <= input.len() {
            3 + input[1] + 256 * input[2]
        } else {
            input.len() as int
        }),
        spec_multisig_case(input) matches Some(c) ==> (c.payload_end < input.len() ==> (input[c.payload_end as int]
            % 3 == 0 <==> c.address == AddressChoice::NoAddress) && (input[c.payload_end as int] % 3 == 1
            <==> c.address == AddressChoice::Beneficiary) && (input[c.payload_end as int] % 3 == 2
            <==> c.address == AddressChoice::Signer)),
        spec_multisig_case(input) matches Some(c) ==> (c.payload_end == input.len() ==> c.address
            == AddressChoice::NoAddress),
{
}

/// The payload length is the little-endian 16-bit number in bytes 1 and 2:
/// raising byte 2 by one lengthens the payload by 256 bytes whenever the
/// input is long enough to hold it.
pub proof fn law_payload_length_is_u16_le(input: Seq<u8>, more: Seq<u8>)
    requires
        input.len() >= 3,
        input[0] <= 4,
        input[2] < 255,
        more.len() == input.len(),
        more[0] == input[0],
        more[1] == input[1],
        more[2] == input[2] + 1,
        3 + input[1] + 256 * (input[2] + 1) <= input.len(),
    ensures
        spec_multisig_case(more)->0.payload_end == spec_multisig_case(input)->0.payload_end + 256,
{
    law_multisig_reading(input);
    law_multisig_reading(more);
}

} // verus!
