use ttl_backend::multisig_input::{fuzz_mode, multisig_case, AddressChoice, MultisigCase, MultisigOperationKind};

#[test]
fn short_or_unknown_inputs_are_not_read() {
    assert_eq!(multisig_case(&[]), None);
    assert_eq!(multisig_case(&[0, 1]), None);
    assert_eq!(multisig_case(&[5, 0, 0]), None);
    assert_eq!(multisig_case(&[255, 0, 0, 1]), None);
}

#[test]
fn payload_and_address_are_read() {
    let input = [0u8, 2, 0, 0xaa, 0xbb, 4];
    assert_eq!(
        multisig_case(&input),
        Some(MultisigCase {
            operation: MultisigOperationKind::Withdraw,
            payload_start: 3,
            payload_end: 5,
            address: AddressChoice::Beneficiary,
        })
    );
    let input = [4u8, 0, 0, 2];
    assert_eq!(
        multisig_case(&input),
        Some(MultisigCase {
            operation: MultisigOperationKind::TransferOwnership,
            payload_start: 3,
            payload_end: 3,
            address: AddressChoice::Signer,
        })
    );
}

#[test]
fn payload_is_cut_at_the_end_of_the_input() {
    let input = [3u8, 0xff, 0xff, 1, 2, 3];
    assert_eq!(
        multisig_case(&input),
        Some(MultisigCase {
            operation: MultisigOperationKind::UpdateCheckInInterval,
            payload_start: 3,
            payload_end: 6,
            address: AddressChoice::NoAddress,
        })
    );
    let input = [1u8, 0, 1, 9];
    assert_eq!(multisig_case(&input).map(|c| (c.operation, c.payload_end)), Some((MultisigOperationKind::UpdateBeneficiary, 4)));
    let input = [2u8, 1, 0, 7, 3];
    assert_eq!(multisig_case(&input).map(|c| (c.operation, c.address)), Some((MultisigOperationKind::CancelVault, AddressChoice::NoAddress)));
}

#[test]
fn modes() {
    assert_eq!(fuzz_mode(&[]), None);
    assert_eq!(fuzz_mode(&[0]), Some(0));
    assert_eq!(fuzz_mode(&[4, 9]), Some(1));
    assert_eq!(fuzz_mode(&[255]), Some(0));
}
