use std::mem::MaybeUninit;
use up_transport_iceoryx2_rust::frame::{
    aligned_payload_offset, initialize_uninit_range, lease_from_sample, map_loan_error,
    validate_payload_address_alignment, worst_case_aligned_sample_len, write_uninit_bytes,
    Iceoryx2TxLoan, Iceoryx2UninitTxLoan, LoanError, PayloadAlignment, ReceivedSample, UWireError,
};
use up_transport_iceoryx2_rust::uprotocolheader::{FrameContractError, UProtocolHeader};
use up_transport_iceoryx2_rust::uuri::UUri;
use up_transport_iceoryx2_rust::UCode;

fn alignment(bytes: usize) -> PayloadAlignment {
    PayloadAlignment::new(bytes).unwrap()
}

fn received(header: UProtocolHeader, len: usize, address: usize) -> ReceivedSample {
    ReceivedSample {
        id: 11,
        header,
        len,
        address,
    }
}

#[test]
fn alignment_is_a_power_of_two() {
    assert_eq!(alignment(8).as_usize(), 8);
    for bytes in [0usize, 3, 24] {
        assert_eq!(
            PayloadAlignment::new(bytes).unwrap_err(),
            FrameContractError::InvalidAlignment(bytes)
        );
    }
}

#[test]
fn worst_case_length_has_room_for_every_padding() {
    assert_eq!(worst_case_aligned_sample_len(10, 20, alignment(1)).unwrap(), 30);
    assert_eq!(worst_case_aligned_sample_len(10, 20, alignment(64)).unwrap(), 93);
    for (metadata, payload) in [(usize::MAX, 0), (usize::MAX - 7, 1)] {
        let status = worst_case_aligned_sample_len(metadata, payload, alignment(8)).unwrap_err();
        assert_eq!(status.get_code(), UCode::InvalidArgument);
        assert_eq!(status.message(), "sample length overflow");
    }
}

#[test]
fn payload_offset_is_the_first_aligned_one() {
    assert_eq!(aligned_payload_offset(0, 0, alignment(8)).unwrap(), 0);
    assert_eq!(aligned_payload_offset(0, 3, alignment(8)).unwrap(), 8);
    assert_eq!(aligned_payload_offset(5, 3, alignment(8)).unwrap(), 3);
    assert_eq!(aligned_payload_offset(6, 3, alignment(8)).unwrap(), 10);
    assert_eq!(aligned_payload_offset(1000, 17, alignment(1)).unwrap(), 17);
    for base in 0..130usize {
        let offset = aligned_payload_offset(base, 21, alignment(64)).unwrap();
        assert_eq!((base + offset) % 64, 0);
        assert!((21..21 + 64).contains(&offset));
    }
}

#[test]
fn payload_offset_overflow_is_refused() {
    assert_eq!(
        aligned_payload_offset(usize::MAX, 1, alignment(8)).unwrap_err().message(),
        "payload address overflow"
    );
    assert_eq!(
        aligned_payload_offset(0, usize::MAX, alignment(8)).unwrap_err().message(),
        "payload offset overflow"
    );
}

#[test]
fn payload_address_must_be_aligned() {
    assert!(validate_payload_address_alignment(4, 12, 16).is_ok());
    let status = validate_payload_address_alignment(4, 13, 16).unwrap_err();
    assert_eq!(status.get_code(), UCode::InvalidArgument);
    assert_eq!(
        status.message(),
        "payload offset does not satisfy requested alignment"
    );
    assert_eq!(
        validate_payload_address_alignment(usize::MAX, 1, 1).unwrap_err().message(),
        "payload address overflow"
    );
}

#[test]
fn loan_errors_are_exhausted_resources_or_internal() {
    for (error, code, text) in [
        (LoanError::OutOfMemory, UCode::ResourceExhausted, "LoanError::OutOfMemory"),
        (
            LoanError::ExceedsMaxLoans,
            UCode::ResourceExhausted,
            "LoanError::ExceedsMaxLoans",
        ),
        (
            LoanError::ExceedsMaxLoanSize,
            UCode::ResourceExhausted,
            "LoanError::ExceedsMaxLoanSize",
        ),
        (LoanError::InternalFailure, UCode::Internal, "LoanError::InternalFailure"),
    ] {
        let status = map_loan_error(error, "loan sample");
        assert_eq!(status.get_code(), code);
        assert_eq!(status.message(), format!("failed to loan sample: {text}"));
    }
}

#[test]
fn sent_frame_is_what_is_received() {
    let metadata = [9u8, 8, 7];
    let payload = *b"payload";
    let base = 0x1005usize;
    let len = worst_case_aligned_sample_len(metadata.len(), payload.len(), alignment(16)).unwrap();
    let mut sample = vec![0xEEu8; len];
    let loan =
        Iceoryx2TxLoan::prepare(&mut sample, base, &metadata, payload.len(), alignment(16)).unwrap();
    assert_eq!(loan.header().payload_offset, 11);
    assert_eq!(loan.encoded_metadata(&sample), &metadata);
    loan.payload_mut(&mut sample).copy_from_slice(&payload);
    assert_eq!(loan.payload(&sample), &payload);

    let lease = lease_from_sample(
        received(loan.header(), sample.len(), 0x7F05),
        UUri::any(),
        None,
    )
    .unwrap();
    assert_eq!(lease.sample(), 11);
    assert_eq!(lease.encoded_metadata(&sample), &metadata);
    assert_eq!(lease.payload_len(), 7);
    assert_eq!(lease.try_contiguous_payload(&sample).unwrap(), &payload);
    assert_eq!(lease.payload_or_empty(&sample), &payload);
    assert_eq!(lease.loaned_contiguous_payload(&sample).unwrap(), &payload);
    assert_eq!(*lease.source_filter_hint(), UUri::any());
    assert!(lease.sink_filter_hint().is_none());
}

#[test]
fn filled_payload_leaves_the_rest_of_the_sample() {
    let mut sample = [0xEEu8; 12];
    let loan = Iceoryx2TxLoan::prepare(&mut sample, 0, &[1, 2, 3], 4, alignment(4)).unwrap();
    loan.fill_payload(&mut sample, &[5, 6, 7, 8]);
    assert_eq!(
        sample,
        [1, 2, 3, 0xEE, 5, 6, 7, 8, 0xEE, 0xEE, 0xEE, 0xEE]
    );
}

#[test]
fn frame_that_does_not_fit_leaves_the_sample() {
    let mut sample = [0xEEu8; 6];
    let status = Iceoryx2TxLoan::prepare(&mut sample, 0, &[1, 2, 3], 4, alignment(4)).err().unwrap();
    assert_eq!(status.get_code(), UCode::InvalidArgument);
    assert_eq!(
        status.message(),
        "sample payload length 6 is smaller than required frame length 8"
    );
    assert_eq!(sample, [0xEE; 6]);
}

#[test]
fn uninitialized_loan_keeps_its_layout_to_the_end() {
    let mut sample = vec![MaybeUninit::<u8>::uninit(); 12];
    let loan = Iceoryx2UninitTxLoan::prepare(&mut sample, 0, &[1, 2, 3], 4, alignment(4)).unwrap();
    assert_eq!(loan.payload_len(), 4);
    assert_eq!(loan.header().payload_offset, 4);
    let payload = loan.payload_uninit_mut(&mut sample);
    assert_eq!(payload.len(), 4);
    for (slot, byte) in payload.iter_mut().zip([5u8, 6, 7, 8]) {
        *slot = MaybeUninit::new(byte);
    }
    let header = loan.header();
    let finished = loan.assume_payload_init(&mut sample);
    assert_eq!(finished.header(), header);
    let bytes = [1u8, 2, 3, 0, 5, 6, 7, 8, 0, 0, 0, 0];
    assert_eq!(finished.encoded_metadata(&bytes), &[1, 2, 3]);
    assert_eq!(finished.payload(&bytes), &[5, 6, 7, 8]);
}

#[test]
fn frame_that_does_not_fit_an_unwritten_sample_is_refused() {
    let mut sample = vec![MaybeUninit::<u8>::uninit(); 6];
    let status = Iceoryx2UninitTxLoan::prepare(&mut sample, 0, &[1, 2, 3], 4, alignment(4))
        .err()
        .unwrap();
    assert_eq!(
        status.message(),
        "sample payload length 6 is smaller than required frame length 8"
    );
}

#[test]
fn unwritten_ranges_outside_the_sample_are_refused() {
    let mut sample = vec![MaybeUninit::new(0xEEu8); 4];
    let status = write_uninit_bytes(&mut sample, 3, &[1, 2]).unwrap_err();
    assert_eq!(status.get_code(), UCode::Internal);
    assert_eq!(status.message(), "failed to access uninitialized sample range");
    let status = write_uninit_bytes(&mut sample, usize::MAX, &[1, 2]).unwrap_err();
    assert_eq!(status.get_code(), UCode::InvalidArgument);
    assert_eq!(status.message(), "sample initialization overflow");
    assert_eq!(
        initialize_uninit_range(&mut sample, 2, 5).unwrap_err().get_code(),
        UCode::Internal
    );
    assert_eq!(
        initialize_uninit_range(&mut sample, 3, 2).unwrap_err().get_code(),
        UCode::Internal
    );
    assert!(write_uninit_bytes(&mut sample, 2, &[1, 2]).is_ok());
    assert!(initialize_uninit_range(&mut sample, 3, 4).is_ok());
    assert!(initialize_uninit_range(&mut sample, 4, 4).is_ok());
}

#[test]
fn misplaced_frame_is_not_leased() {
    let header = UProtocolHeader {
        uprotocol_major_version: 0,
        metadata_len: 3,
        payload_offset: 8,
        payload_len: 4,
        payload_alignment: 8,
    };
    let refused = |header: UProtocolHeader, len: usize, address: usize| {
        let status = lease_from_sample(received(header, len, address), UUri::any(), None)
            .err()
            .unwrap();
        assert_eq!(status.get_code(), UCode::InvalidArgument);
        status.message
    };
    assert!(lease_from_sample(received(header, 12, 16), UUri::any(), None).is_ok());
    assert_eq!(
        refused(header, 11, 16),
        "sample payload length 11 is smaller than required frame length 12"
    );
    assert_eq!(
        refused(header, 12, 17),
        "payload offset does not satisfy requested alignment"
    );
    assert_eq!(refused(header, 12, usize::MAX), "payload address overflow");
    assert_eq!(
        refused(
            UProtocolHeader {
                uprotocol_major_version: 1,
                ..header
            },
            12,
            16
        ),
        "unsupported uProtocol major version 1"
    );
}

#[test]
fn empty_payload_is_present_but_not_lent() {
    let header = UProtocolHeader {
        uprotocol_major_version: 0,
        metadata_len: 2,
        payload_offset: 2,
        payload_len: 0,
        payload_alignment: 1,
    };
    let lease = lease_from_sample(received(header, 2, 0), UUri::any(), Some(UUri::any())).unwrap();
    let sample = [1u8, 2];
    assert_eq!(lease.try_contiguous_payload(&sample), Some(&[][..]));
    assert_eq!(
        lease.loaned_contiguous_payload(&sample),
        Err(UWireError::MissingPayload)
    );
    assert_eq!(lease.try_contiguous_payload(&[1]), None);
    assert_eq!(lease.payload_or_empty(&[1]), &[0u8; 0]);
    assert_eq!(
        lease.loaned_contiguous_payload(&[1]),
        Err(UWireError::InvalidPayload("payload is not contiguous"))
    );
    assert_eq!(lease.sink_filter_hint(), Some(&UUri::any()));
}
