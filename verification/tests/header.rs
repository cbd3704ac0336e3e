use up_transport_iceoryx2_rust::uprotocolheader::{
    frame_contract_error_to_status, FrameContractError, Iceoryx2PayloadLayout, UProtocolHeader,
};
use up_transport_iceoryx2_rust::UCode;

#[test]
fn payload_offset_length_and_alignment_are_explicit() {
    let layout = Iceoryx2PayloadLayout::from_validated_parts(3, 8, 7, 8, 15).unwrap();
    let mut header = UProtocolHeader::default();
    header.write_payload_layout(layout).unwrap();

    assert_eq!(header.metadata_len, 3);
    assert_eq!(header.payload_offset, 8);
    assert_eq!(header.payload_len, 7);
    assert_eq!(header.payload_alignment, 8);
    assert_eq!(header.payload_layout(15).unwrap().payload_range(), 8..15);
}

#[test]
fn header_gives_back_the_written_layout() {
    let layout = Iceoryx2PayloadLayout::from_validated_parts(5, 64, 100, 64, 164).unwrap();
    let mut header = UProtocolHeader::default();
    header.write_payload_layout(layout).unwrap();

    let read = header.payload_layout(164).unwrap();
    assert_eq!(read, layout);
    assert_eq!(read.metadata_len(), 5);
    assert_eq!(read.payload_len(), 100);
    assert_eq!(read.payload_alignment(), 64);
    assert_eq!(read.payload_range(), 64..164);
}

#[test]
fn sample_parts_are_cut_at_the_layout() {
    let layout = Iceoryx2PayloadLayout::from_validated_parts(2, 4, 3, 4, 8).unwrap();
    let sample = [1u8, 2, 0, 0, 5, 6, 7, 0];

    assert_eq!(layout.metadata_prefix(&sample).unwrap(), &[1, 2]);
    assert_eq!(layout.payload(&sample).unwrap(), &[5, 6, 7]);
}

#[test]
fn short_sample_is_refused() {
    let layout = Iceoryx2PayloadLayout::from_validated_parts(2, 4, 3, 4, 8).unwrap();
    let error = FrameContractError::SampleTooSmall {
        sample_payload_len: 6,
        required_len: 7,
    };

    assert_eq!(layout.metadata_prefix(&[0u8; 6]), Err(error.clone()));
    assert_eq!(layout.payload(&[0u8; 6]), Err(error.clone()));
    assert_eq!(
        error.message(),
        "sample payload length 6 is smaller than required frame length 7"
    );
}

#[test]
fn alignment_must_be_a_power_of_two() {
    for alignment in [0usize, 3, 6, 12, 100] {
        assert_eq!(
            Iceoryx2PayloadLayout::from_validated_parts(0, 0, 0, alignment, 10),
            Err(FrameContractError::InvalidAlignment(alignment))
        );
    }
    for alignment in [1usize, 2, 4, 4096, 1 << 40] {
        assert!(Iceoryx2PayloadLayout::from_validated_parts(0, 0, 0, alignment, 10).is_ok());
    }
    assert_eq!(
        FrameContractError::InvalidAlignment(12).message(),
        "payload alignment 12 must be a non-zero power of two"
    );
}

#[test]
fn payload_must_not_overlap_metadata() {
    let error = FrameContractError::PayloadOffsetBeforeMetadata {
        metadata_len: 9,
        payload_offset: 8,
    };
    assert_eq!(
        Iceoryx2PayloadLayout::from_validated_parts(9, 8, 1, 8, 100),
        Err(error.clone())
    );
    assert_eq!(
        error.message(),
        "payload offset 8 precedes metadata length 9"
    );
}

#[test]
fn layout_end_must_not_overflow() {
    assert_eq!(
        Iceoryx2PayloadLayout::from_validated_parts(0, usize::MAX, 1, 1, usize::MAX),
        Err(FrameContractError::LayoutOverflow)
    );
    assert_eq!(
        FrameContractError::LayoutOverflow.message(),
        "iceoryx2 frame layout overflows usize"
    );
}

#[test]
fn unknown_major_version_is_refused() {
    let header = UProtocolHeader {
        uprotocol_major_version: 7,
        metadata_len: 0,
        payload_offset: 0,
        payload_len: 0,
        payload_alignment: 1,
    };
    let error = header.payload_layout(0).unwrap_err();
    assert_eq!(error, FrameContractError::UnsupportedMajorVersion(7));
    assert_eq!(error.message(), "unsupported uProtocol major version 7");
}

#[test]
fn contract_errors_are_reported_as_invalid_arguments() {
    let status =
        frame_contract_error_to_status(FrameContractError::FieldTooLarge("metadata_len"));
    assert_eq!(status.get_code(), UCode::InvalidArgument);
    assert_eq!(
        status.message(),
        "frame contract field metadata_len exceeds usize"
    );
}
