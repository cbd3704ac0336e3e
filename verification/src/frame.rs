//! Frames in samples: laying a frame out in a loaned sample, and reading it from a received one.

use crate::status::{fails_with, UCode, UStatus};
use crate::text::decimal;
use crate::uprotocolheader::{
    checked_layout, error_text, frame_contract_error_to_status,
    is_power_of_two, recorded_layout, written_layout_reads_back, FrameContractError,
    Iceoryx2PayloadLayout, LayoutView, UProtocolHeader,
};
use crate::uuri::{borrowed_parts, borrowed_uri, optional_parts, UUri, UriParts};
use std::mem::MaybeUninit;
use vstd::arithmetic::div_mod::*;
use vstd::arithmetic::power2::is_pow2;
use vstd::prelude::*;
use vstd::std_specs::maybe_uninit::*;
use vstd::string::*;

verus! {

/// An alignment that a payload can have: a power of two.
#[derive(Clone, Copy, Debug, PartialEq, Eq, Structural)]
pub struct PayloadAlignment {
    bytes: usize,
}

/// Why iceoryx2 did not lend a sample.
#[derive(Clone, Copy, Debug, PartialEq, Eq, Structural)]
pub enum LoanError {
    OutOfMemory,
    ExceedsMaxLoans,
    ExceedsMaxLoanSize,
    InternalFailure,
}

impl View for PayloadAlignment {
    type V = nat;

    closed spec fn view(&self) -> nat {
        self.bytes as nat
    }
}

impl PayloadAlignment {
    #[verifier::type_invariant]
    closed spec fn power_of_two(self) -> bool {
        is_pow2(self.bytes as int)
    }

    /// `bytes` as an alignment, if it is a power of two.
    pub fn new(bytes: usize) -> (result: Result<PayloadAlignment, FrameContractError>)
        ensures
            match result {
                Ok(alignment) => is_pow2(bytes as int) && alignment@ == bytes,
                Err(error) => !is_pow2(bytes as int) && error
                    == FrameContractError::InvalidAlignment(bytes),
            },
    {
        if is_power_of_two(bytes) {
            Ok(PayloadAlignment { bytes })
        } else {
            Err(FrameContractError::InvalidAlignment(bytes))
        }
    }

    /// The alignment in bytes.
    pub fn as_usize(&self) -> (bytes: usize)
        ensures
            bytes == self@,
            is_pow2(bytes as int),
    {
        proof {
            use_type_invariant(self);
        }
        self.bytes
    }
}

/// A power of two is positive.
proof fn lemma_pow2_is_positive(n: int)
    requires
        is_pow2(n),
    ensures
        n > 0,
{
    reveal(is_pow2);
}

/// The number of bytes from `address` to the next multiple of `alignment`.
pub open spec fn padding(address: nat, alignment: nat) -> nat {
    if address % alignment == 0 {
        0
    } else {
        (alignment - address % alignment) as nat
    }
}

/// The layout of a frame in a sample that begins at address `base`: the payload begins at the
/// first aligned address behind the metadata.
pub open spec fn loan_layout(
    base: nat,
    metadata_len: nat,
    payload_len: nat,
    alignment: nat,
) -> LayoutView {
    LayoutView {
        metadata_len,
        payload_offset: metadata_len + padding(base + metadata_len, alignment),
        payload_len,
        payload_alignment: alignment,
    }
}

/// What keeps a frame from being laid out in a sample of `sample_len` bytes at address `base`, if
/// anything.
pub open spec fn loan_fault(
    base: nat,
    metadata_len: nat,
    payload_len: nat,
    alignment: nat,
    sample_len: nat,
) -> Option<Seq<char>> {
    let layout = loan_layout(base, metadata_len, payload_len, alignment);
    if base + metadata_len > usize::MAX {
        Some("payload address overflow"@)
    } else if layout.payload_offset > usize::MAX {
        Some("payload offset overflow"@)
    } else {
        match checked_layout(layout, sample_len) {
            Ok(_) => None,
            Err(error) => Some(error_text(error)),
        }
    }
}

/// The length of a sample that has room for a frame whatever its address.
pub open spec fn worst_case_len(metadata_len: nat, payload_len: nat, alignment: nat) -> int {
    metadata_len + (alignment - 1) + payload_len
}

/// The length of a sample that has room for a frame whatever its address.
pub fn worst_case_aligned_sample_len(
    metadata_len: usize,
    payload_len: usize,
    alignment: PayloadAlignment,
) -> (result: Result<usize, UStatus>)
    ensures
        match result {
            Ok(len) => len == worst_case_len(metadata_len as nat, payload_len as nat, alignment@),
            Err(_) => worst_case_len(metadata_len as nat, payload_len as nat, alignment@)
                > usize::MAX && fails_with(
                result,
                UCode::InvalidArgument,
                "sample length overflow"@,
            ),
        },
{
    let alignment: usize = alignment.as_usize();
    proof {
        lemma_pow2_is_positive(alignment as int);
    }
    match metadata_len.checked_add(alignment - 1) {
        Some(len) => match len.checked_add(payload_len) {
            Some(len) => Ok(len),
            None => Err(
                UStatus::fail_with_code(UCode::InvalidArgument, "sample length overflow"),
            ),
        },
        None => Err(UStatus::fail_with_code(UCode::InvalidArgument, "sample length overflow")),
    }
}

/// The offset of the payload in a sample that begins at address `payload_base`.
pub fn aligned_payload_offset(
    payload_base: usize,
    metadata_len: usize,
    alignment: PayloadAlignment,
) -> (result: Result<usize, UStatus>)
    ensures
        ({
            let address = payload_base as nat + metadata_len as nat;
            let offset = metadata_len as nat + padding(address, alignment@);
            match result {
                Ok(found) => address <= usize::MAX && found == offset,
                Err(status) => if address > usize::MAX {
                    status.says(UCode::InvalidArgument, "payload address overflow"@)
                } else {
                    offset > usize::MAX && status.says(
                        UCode::InvalidArgument,
                        "payload offset overflow"@,
                    )
                },
            }
        }),
{
    let alignment: usize = alignment.as_usize();
    proof {
        lemma_pow2_is_positive(alignment as int);
    }
    let payload_start: usize = match payload_base.checked_add(metadata_len) {
        Some(start) => start,
        None => {
            return Err(
                UStatus::fail_with_code(UCode::InvalidArgument, "payload address overflow"),
            );
        },
    };
    let beyond: usize = payload_start % alignment;
    let padding: usize = if beyond == 0 {
        0
    } else {
        alignment - beyond
    };
    match metadata_len.checked_add(padding) {
        Some(offset) => Ok(offset),
        None => Err(UStatus::fail_with_code(UCode::InvalidArgument, "payload offset overflow")),
    }
}

/// Whether the payload of a received sample begins at a multiple of `alignment`.
pub fn validate_payload_address_alignment(
    sample_address: usize,
    payload_offset: usize,
    alignment: usize,
) -> (result: Result<(), UStatus>)
    requires
        alignment > 0,
    ensures
        ({
            let address = sample_address as nat + payload_offset as nat;
            match result {
                Ok(()) => address <= usize::MAX && address % (alignment as nat) == 0,
                Err(status) => if address > usize::MAX {
                    status.says(UCode::InvalidArgument, "payload address overflow"@)
                } else {
                    address % (alignment as nat) != 0 && status.says(
                        UCode::InvalidArgument,
                        "payload offset does not satisfy requested alignment"@,
                    )
                },
            }
        }),
{
    let payload_address: usize = match sample_address.checked_add(payload_offset) {
        Some(address) => address,
        None => {
            return Err(
                UStatus::fail_with_code(UCode::InvalidArgument, "payload address overflow"),
            );
        },
    };
    if payload_address % alignment != 0 {
        return Err(
            UStatus::fail_with_code(
                UCode::InvalidArgument,
                "payload offset does not satisfy requested alignment",
            ),
        );
    }
    Ok(())
}

/// The text that describes a loan error.
pub open spec fn loan_error_text(error: LoanError) -> Seq<char> {
    match error {
        LoanError::OutOfMemory => "LoanError::OutOfMemory"@,
        LoanError::ExceedsMaxLoans => "LoanError::ExceedsMaxLoans"@,
        LoanError::ExceedsMaxLoanSize => "LoanError::ExceedsMaxLoanSize"@,
        LoanError::InternalFailure => "LoanError::InternalFailure"@,
    }
}

/// The status that reports that iceoryx2 did not lend a sample for `operation`.
pub fn map_loan_error(error: LoanError, operation: &str) -> (status: UStatus)
    ensures
        status.says(
            if error == LoanError::InternalFailure {
                UCode::Internal
            } else {
                UCode::ResourceExhausted
            },
            "failed to "@ + operation@ + ": "@ + loan_error_text(error),
        ),
{
    let (code, text): (UCode, &'static str) = match error {
        LoanError::OutOfMemory => (UCode::ResourceExhausted, "LoanError::OutOfMemory"),
        LoanError::ExceedsMaxLoans => (UCode::ResourceExhausted, "LoanError::ExceedsMaxLoans"),
        LoanError::ExceedsMaxLoanSize => (
            UCode::ResourceExhausted,
            "LoanError::ExceedsMaxLoanSize",
        ),
        LoanError::InternalFailure => (UCode::Internal, "LoanError::InternalFailure"),
    };
    let message: String = String::from_str("failed to ").concat(operation).concat(": ").concat(
        text,
    );
    UStatus { code, message }
}

/// The layout of a frame in a loaned sample of `sample_len` bytes at address `base`.
fn place_frame(
    base: usize,
    metadata_len: usize,
    payload_len: usize,
    alignment: PayloadAlignment,
    sample_len: usize,
) -> (result: Result<Iceoryx2PayloadLayout, UStatus>)
    ensures
        ({
            let fault = loan_fault(
                base as nat,
                metadata_len as nat,
                payload_len as nat,
                alignment@,
                sample_len as nat,
            );
            match result {
                Ok(layout) => fault is None && layout@ == loan_layout(
                    base as nat,
                    metadata_len as nat,
                    payload_len as nat,
                    alignment@,
                ) && layout@.fits(sample_len as nat),
                Err(status) => match fault {
                    Some(message) => status.says(UCode::InvalidArgument, message),
                    None => false,
                },
            }
        }),
{
    let payload_offset: usize = aligned_payload_offset(base, metadata_len, alignment)?;
    match Iceoryx2PayloadLayout::from_validated_parts(
        metadata_len,
        payload_offset,
        payload_len,
        alignment.as_usize(),
        sample_len,
    ) {
        Ok(layout) => Ok(layout),
        Err(error) => Err(frame_contract_error_to_status(error)),
    }
}

/// A loaned sample that a frame was laid out in: the metadata is written, and the payload is for
/// the sender to fill.
pub struct Iceoryx2TxLoan {
    layout: Iceoryx2PayloadLayout,
    header: UProtocolHeader,
}

impl View for Iceoryx2TxLoan {
    type V = LayoutView;

    closed spec fn view(&self) -> LayoutView {
        self.layout@
    }
}

impl Iceoryx2TxLoan {
    #[verifier::type_invariant]
    closed spec fn recorded(self) -> bool {
        self.header == self.layout@.header()
    }

    /// Lays a frame out in a sample that begins at address `base` and writes its metadata.
    pub fn prepare(
        sample: &mut [u8],
        base: usize,
        encoded_metadata: &[u8],
        payload_len: usize,
        alignment: PayloadAlignment,
    ) -> (result: Result<Iceoryx2TxLoan, UStatus>)
        ensures
            final(sample)@.len() == old(sample)@.len(),
            ({
                let fault = loan_fault(
                    base as nat,
                    encoded_metadata@.len(),
                    payload_len as nat,
                    alignment@,
                    old(sample)@.len(),
                );
                match result {
                    Ok(loan) => {
                        &&& fault is None
                        &&& loan@ == loan_layout(
                            base as nat,
                            encoded_metadata@.len(),
                            payload_len as nat,
                            alignment@,
                        )
                        &&& loan@.fits(old(sample)@.len())
                        &&& final(sample)@ == encoded_metadata@ + old(sample)@.skip(
                            encoded_metadata@.len() as int,
                        )
                    },
                    Err(status) => final(sample)@ == old(sample)@ && match fault {
                        Some(message) => status.says(UCode::InvalidArgument, message),
                        None => false,
                    },
                }
            }),
    {
        let metadata_len: usize = encoded_metadata.len();
        let layout = place_frame(base, metadata_len, payload_len, alignment, sample.len())?;
        let mut i: usize = 0;
        while i < metadata_len
            invariant
                i <= metadata_len,
                metadata_len == encoded_metadata@.len(),
                metadata_len <= old(sample)@.len(),
                sample@.len() == old(sample)@.len(),
                sample@ =~= encoded_metadata@.take(i as int) + old(sample)@.skip(i as int),
            decreases metadata_len - i,
        {
            sample[i] = encoded_metadata[i];
            i = i + 1;
        }
        let mut header = UProtocolHeader::default();
        match header.write_payload_layout(layout) {
            Ok(()) => {},
            Err(error) => {
                return Err(frame_contract_error_to_status(error));
            },
        }
        proof {
            assert(encoded_metadata@.take(i as int) =~= encoded_metadata@);
        }
        Ok(Iceoryx2TxLoan { layout, header })
    }

    /// The header of the sample.
    pub fn header(&self) -> (header: UProtocolHeader)
        ensures
            header == self@.header(),
    {
        proof {
            use_type_invariant(self);
        }
        self.header
    }

    /// Whether the frame lies inside a sample of the given length.
    pub fn fits(&self, sample_len: usize) -> (fits: bool)
        ensures
            fits == (self@.end() <= sample_len),
    {
        self.layout.payload_range().end <= sample_len
    }

    /// The metadata bytes of the sample.
    pub fn encoded_metadata<'a>(&self, sample: &'a [u8]) -> (bytes: &'a [u8])
        requires
            self@.end() <= sample@.len(),
        ensures
            bytes@ == self@.metadata_of(sample@),
    {
        &sample[0..self.layout.metadata_len()]
    }

    /// The visible payload bytes of the sample.
    pub fn payload<'a>(&self, sample: &'a [u8]) -> (bytes: &'a [u8])
        requires
            self@.end() <= sample@.len(),
        ensures
            bytes@ == self@.payload_of(sample@),
    {
        let range = self.layout.payload_range();
        &sample[range.start..range.end]
    }

    /// The visible payload bytes of the sample, to be written.
    pub fn payload_mut<'a>(&self, sample: &'a mut [u8]) -> (bytes: &'a mut [u8])
        requires
            self@.end() <= old(sample)@.len(),
        ensures
            bytes@ == self@.payload_of(old(sample)@),
            final(sample)@ == old(sample)@.take(self@.payload_offset as int) + final(bytes)@ + old(
                sample,
            )@.skip(self@.end() as int),
    {
        let range = self.layout.payload_range();
        let (head, _tail) = sample.split_at_mut(range.end);
        let (_prefix, payload) = head.split_at_mut(range.start);
        payload
    }

    /// Copies `payload` into the visible payload of the sample.
    pub fn fill_payload(&self, sample: &mut [u8], payload: &[u8])
        requires
            self@.end() <= old(sample)@.len(),
            payload@.len() == self@.payload_len,
        ensures
            final(sample)@ == old(sample)@.take(self@.payload_offset as int) + payload@ + old(
                sample,
            )@.skip(self@.end() as int),
    {
        let range = self.layout.payload_range();
        let start: usize = range.start;
        let len: usize = payload.len();
        let mut i: usize = 0;
        while i < len
            invariant
                i <= len,
                len == payload@.len(),
                start + len <= old(sample)@.len(),
                start + len <= usize::MAX,
                sample@.len() == old(sample)@.len(),
                sample@ =~= old(sample)@.take(start as int) + payload@.take(i as int) + old(
                    sample,
                )@.skip(start + i),
            decreases len - i,
        {
            sample[start + i] = payload[i];
            i = i + 1;
        }
        proof {
            assert(payload@.take(i as int) =~= payload@);
        }
    }
}

/// The bytes of a sample, as far as they were written.
pub open spec fn written(sample: Seq<MaybeUninit<u8>>) -> Seq<Option<u8>> {
    sample.map_values(|byte: MaybeUninit<u8>| byte.as_option())
}

/// The bytes, each of them written.
pub open spec fn as_written(bytes: Seq<u8>) -> Seq<Option<u8>> {
    bytes.map_values(|byte: u8| Some(byte))
}

/// As many written zero bytes.
pub open spec fn written_zeros(len: nat) -> Seq<Option<u8>> {
    Seq::new(len, |i: int| Some(0u8))
}

/// Writes `bytes` into the sample, from `offset` on.
pub fn write_uninit_bytes(sample: &mut [MaybeUninit<u8>], offset: usize, bytes: &[u8]) -> (result:
    Result<(), UStatus>)
    ensures
        match result {
            Ok(()) => offset + bytes@.len() <= old(sample)@.len() && written(final(sample)@)
                == written(old(sample)@).take(offset as int) + as_written(bytes@) + written(
                old(sample)@,
            ).skip(offset + bytes@.len()),
            Err(status) => final(sample)@ == old(sample)@ && if offset + bytes@.len() > usize::MAX {
                status.says(UCode::InvalidArgument, "sample initialization overflow"@)
            } else {
                offset + bytes@.len() > old(sample)@.len() && status.says(
                    UCode::Internal,
                    "failed to access uninitialized sample range"@,
                )
            },
        },
{
    let end: usize = match offset.checked_add(bytes.len()) {
        Some(end) => end,
        None => {
            return Err(
                UStatus::fail_with_code(UCode::InvalidArgument, "sample initialization overflow"),
            );
        },
    };
    if end > sample.len() {
        return Err(
            UStatus::fail_with_code(
                UCode::Internal,
                "failed to access uninitialized sample range",
            ),
        );
    }
    let len: usize = bytes.len();
    let mut i: usize = 0;
    while i < len
        invariant
            i <= len,
            len == bytes@.len(),
            offset + len <= old(sample)@.len(),
            offset + len <= usize::MAX,
            sample@.len() == old(sample)@.len(),
            written(sample@) =~= written(old(sample)@).take(offset as int) + as_written(
                bytes@,
            ).take(i as int) + written(old(sample)@).skip(offset + i),
        decreases len - i,
    {
        let ghost before = written(sample@);
        sample[offset + i] = MaybeUninit::new(bytes[i]);
        proof {
            assert(written(sample@) =~= before.update(offset + i, Some(bytes@[i as int])));
        }
        i = i + 1;
    }
    proof {
        assert(as_written(bytes@).take(i as int) =~= as_written(bytes@));
    }
    Ok(())
}

/// Writes zeros into the sample, from `start` to `end`.
pub fn initialize_uninit_range(sample: &mut [MaybeUninit<u8>], start: usize, end: usize) -> (result:
    Result<(), UStatus>)
    ensures
        match result {
            Ok(()) => start <= end <= old(sample)@.len() && written(final(sample)@) == written(
                old(sample)@,
            ).take(start as int) + written_zeros((end - start) as nat) + written(
                old(sample)@,
            ).skip(end as int),
            Err(status) => final(sample)@ == old(sample)@ && !(start <= end <= old(sample)@.len())
                && status.says(UCode::Internal, "failed to access uninitialized sample range"@),
        },
{
    if start > end || end > sample.len() {
        return Err(
            UStatus::fail_with_code(
                UCode::Internal,
                "failed to access uninitialized sample range",
            ),
        );
    }
    let mut i: usize = start;
    while i < end
        invariant
            start <= i <= end,
            end <= old(sample)@.len(),
            sample@.len() == old(sample)@.len(),
            written(sample@) =~= written(old(sample)@).take(start as int) + written_zeros(
                (i - start) as nat,
            ) + written(old(sample)@).skip(i as int),
        decreases end - i,
    {
        let ghost before = written(sample@);
        sample[i] = MaybeUninit::new(0u8);
        proof {
            assert(written(sample@) =~= before.update(i as int, Some(0u8)));
        }
        i = i + 1;
    }
    Ok(())
}

/// A loaned sample of unwritten bytes that a frame was laid out in: the metadata and the padding
/// up to the payload are written.
pub struct Iceoryx2UninitTxLoan {
    layout: Iceoryx2PayloadLayout,
    header: UProtocolHeader,
}

impl View for Iceoryx2UninitTxLoan {
    type V = LayoutView;

    closed spec fn view(&self) -> LayoutView {
        self.layout@
    }
}

impl Iceoryx2UninitTxLoan {
    #[verifier::type_invariant]
    closed spec fn recorded(self) -> bool {
        self.header == self.layout@.header()
    }

    /// Lays a frame out in a sample that begins at address `base`, writes its metadata, and
    /// zeros up to the payload.
    pub fn prepare(
        sample: &mut [MaybeUninit<u8>],
        base: usize,
        encoded_metadata: &[u8],
        payload_len: usize,
        alignment: PayloadAlignment,
    ) -> (result: Result<Iceoryx2UninitTxLoan, UStatus>)
        ensures
            ({
                let fault = loan_fault(
                    base as nat,
                    encoded_metadata@.len(),
                    payload_len as nat,
                    alignment@,
                    old(sample)@.len(),
                );
                match result {
                    Ok(loan) => {
                        &&& fault is None
                        &&& loan@ == loan_layout(
                            base as nat,
                            encoded_metadata@.len(),
                            payload_len as nat,
                            alignment@,
                        )
                        &&& loan@.fits(old(sample)@.len())
                        &&& written(final(sample)@) == as_written(encoded_metadata@)
                            + written_zeros((loan@.payload_offset - loan@.metadata_len) as nat)
                            + written(old(sample)@).skip(loan@.payload_offset as int)
                    },
                    Err(status) => final(sample)@ == old(sample)@ && match fault {
                        Some(message) => status.says(UCode::InvalidArgument, message),
                        None => false,
                    },
                }
            }),
    {
        let metadata_len: usize = encoded_metadata.len();
        let layout = place_frame(base, metadata_len, payload_len, alignment, sample.len())?;
        write_uninit_bytes(sample, 0, encoded_metadata)?;
        initialize_uninit_range(sample, metadata_len, layout.payload_range().start)?;
        let mut header = UProtocolHeader::default();
        match header.write_payload_layout(layout) {
            Ok(()) => {},
            Err(error) => {
                return Err(frame_contract_error_to_status(error));
            },
        }
        Ok(Iceoryx2UninitTxLoan { layout, header })
    }

    /// The header of the sample.
    pub fn header(&self) -> (header: UProtocolHeader)
        ensures
            header == self@.header(),
    {
        proof {
            use_type_invariant(self);
        }
        self.header
    }

    /// Whether the frame lies inside a sample of the given length.
    pub fn fits(&self, sample_len: usize) -> (fits: bool)
        ensures
            fits == (self@.end() <= sample_len),
    {
        self.layout.payload_range().end <= sample_len
    }

    /// The length of the visible payload.
    pub fn payload_len(&self) -> (len: usize)
        ensures
            len == self@.payload_len,
    {
        self.layout.payload_len()
    }

    /// The visible payload bytes of the sample, to be written.
    pub fn payload_uninit_mut<'a>(&self, sample: &'a mut [MaybeUninit<u8>]) -> (bytes: &'a mut [
        MaybeUninit<u8>
    ])
        requires
            self@.end() <= old(sample)@.len(),
        ensures
            bytes@ == old(sample)@.subrange(self@.payload_offset as int, self@.end() as int),
            final(sample)@ == old(sample)@.take(self@.payload_offset as int) + final(bytes)@ + old(
                sample,
            )@.skip(self@.end() as int),
    {
        let range = self.layout.payload_range();
        let (head, _tail) = sample.split_at_mut(range.end);
        let (_prefix, payload) = head.split_at_mut(range.start);
        payload
    }

    /// Ends the writing of the sample: writes zeros behind the payload, so that every byte of the
    /// sample is written where those of the payload and before it are.
    pub fn assume_payload_init(self, sample: &mut [MaybeUninit<u8>]) -> (loan: Iceoryx2TxLoan)
        requires
            self@.end() <= old(sample)@.len(),
            forall|i: int| 0 <= i < self@.end() ==> #[trigger] written(old(sample)@)[i] is Some,
        ensures
            loan@ == self@,
            written(final(sample)@) == written(old(sample)@).take(self@.end() as int)
                + written_zeros((old(sample)@.len() - self@.end()) as nat),
            forall|i: int|
                0 <= i < final(sample)@.len() ==> #[trigger] written(final(sample)@)[i] is Some,
    {
        proof {
            use_type_invariant(&self);
        }
        let end: usize = self.layout.payload_range().end;
        let len: usize = sample.len();
        let _ = initialize_uninit_range(sample, end, len);
        proof {
            assert(written(old(sample)@).skip(len as int) =~= Seq::<Option<u8>>::empty());
        }
        Iceoryx2TxLoan { layout: self.layout, header: self.header }
    }
}

/// A received sample, as far as the transport reads it: a number by which the owner of the sample
/// finds it again, its header, and the length and address of its bytes.
#[derive(Clone, Copy, Debug, PartialEq, Eq, Structural)]
pub struct ReceivedSample {
    pub id: u64,
    pub header: UProtocolHeader,
    pub len: usize,
    pub address: usize,
}

/// Why the payload of a lease cannot be lent.
#[derive(Clone, Copy, Debug, PartialEq, Eq)]
pub enum UWireError {
    InvalidPayload(&'static str),
    MissingPayload,
}

/// A received sample that holds a frame, and the source and the sink of the service that it came
/// through.
#[derive(Debug)]
pub struct Iceoryx2RxLease {
    sample: u64,
    layout: Iceoryx2PayloadLayout,
    source: UUri,
    sink: Option<UUri>,
}

/// The parts of a lease.
pub struct LeaseView {
    pub sample: u64,
    pub layout: LayoutView,
    pub source: UriParts,
    pub sink: Option<UriParts>,
}

impl View for Iceoryx2RxLease {
    type V = LeaseView;

    closed spec fn view(&self) -> LeaseView {
        LeaseView {
            sample: self.sample,
            layout: self.layout@,
            source: self.source@,
            sink: optional_parts(self.sink),
        }
    }
}

/// What keeps a received sample from being leased, if anything.
pub open spec fn lease_fault(sample: ReceivedSample) -> Option<Seq<char>> {
    match recorded_layout(sample.header, sample.len as nat) {
        Err(error) => Some(error_text(error)),
        Ok(layout) => {
            let address = sample.address as nat + layout.payload_offset;
            if address > usize::MAX {
                Some("payload address overflow"@)
            } else if address % layout.payload_alignment != 0 {
                Some("payload offset does not satisfy requested alignment"@)
            } else {
                None
            }
        },
    }
}

/// The lease of a sample that came through a service with the given source and sink.
pub open spec fn lease_of(
    sample: ReceivedSample,
    source: UriParts,
    sink: Option<UriParts>,
) -> LeaseView {
    LeaseView {
        sample: sample.id,
        layout: recorded_layout(sample.header, sample.len as nat)->Ok_0,
        source,
        sink,
    }
}

/// Leases a sample that came through a service with the given source and sink: its header must
/// record a frame inside the sample, with a payload that is aligned in memory.
pub fn lease_from_sample(
    sample: ReceivedSample,
    source: UUri,
    sink: Option<UUri>,
) -> (result: Result<Iceoryx2RxLease, UStatus>)
    ensures
        match result {
            Ok(lease) => lease_fault(sample) is None && lease@ == lease_of(
                sample,
                source@,
                optional_parts(sink),
            ) && lease@.layout.fits(sample.len as nat),
            Err(status) => match lease_fault(sample) {
                Some(message) => status.says(UCode::InvalidArgument, message),
                None => false,
            },
        },
{
    let layout = match sample.header.payload_layout(sample.len) {
        Ok(layout) => layout,
        Err(error) => {
            return Err(frame_contract_error_to_status(error));
        },
    };
    let alignment: usize = layout.payload_alignment();
    proof {
        lemma_pow2_is_positive(alignment as int);
    }
    validate_payload_address_alignment(
        sample.address,
        layout.payload_range().start,
        alignment,
    )?;
    Ok(Iceoryx2RxLease { sample: sample.id, layout, source, sink })
}

impl Iceoryx2RxLease {
    /// The number by which the owner of the sample finds it.
    pub fn sample(&self) -> (id: u64)
        ensures
            id == self@.sample,
    {
        self.sample
    }

    /// The source that source filters are held against: that of the service.
    pub fn source_filter_hint(&self) -> (uri: &UUri)
        ensures
            uri@ == self@.source,
    {
        &self.source
    }

    /// The sink that sink filters are held against: that of the service.
    pub fn sink_filter_hint(&self) -> (uri: Option<&UUri>)
        ensures
            borrowed_parts(uri) == self@.sink,
    {
        borrowed_uri(&self.sink)
    }

    /// Whether the frame lies inside a sample of the given length.
    pub fn fits(&self, sample_len: usize) -> (fits: bool)
        ensures
            fits == (self@.layout.end() <= sample_len),
    {
        self.layout.payload_range().end <= sample_len
    }

    /// The metadata bytes of the sample.
    pub fn encoded_metadata<'a>(&self, sample: &'a [u8]) -> (bytes: &'a [u8])
        requires
            self@.layout.end() <= sample@.len(),
        ensures
            bytes@ == self@.layout.metadata_of(sample@),
    {
        &sample[0..self.layout.metadata_len()]
    }

    /// The length of the visible payload.
    pub fn payload_len(&self) -> (len: usize)
        ensures
            len == self@.layout.payload_len,
    {
        self.layout.payload_len()
    }

    /// The visible payload bytes of the sample, if they lie inside it.
    pub fn try_contiguous_payload<'a>(&self, sample: &'a [u8]) -> (payload: Option<&'a [u8]>)
        ensures
            match payload {
                Some(bytes) => self@.layout.end() <= sample@.len() && bytes@
                    == self@.layout.payload_of(sample@),
                None => self@.layout.end() > sample@.len(),
            },
    {
        proof {
            assert(sample.len() == sample@.len());
        }
        match self.layout.payload(sample) {
            Ok(bytes) => Some(bytes),
            Err(_) => None,
        }
    }

    /// The visible payload bytes of the sample, or no bytes where they do not lie inside it.
    pub fn payload_or_empty<'a>(&self, sample: &'a [u8]) -> (bytes: &'a [u8])
        ensures
            bytes@ == if self@.layout.end() <= sample@.len() {
                self@.layout.payload_of(sample@)
            } else {
                Seq::empty()
            },
    {
        match self.try_contiguous_payload(sample) {
            Some(bytes) => bytes,
            None => &sample[0..0],
        }
    }

    /// The visible payload bytes of the sample, which must not be empty.
    pub fn loaned_contiguous_payload<'a>(&self, sample: &'a [u8]) -> (result: Result<
        &'a [u8],
        UWireError,
    >)
        ensures
            match result {
                Ok(bytes) => self@.layout.end() <= sample@.len() && self@.layout.payload_len > 0
                    && bytes@ == self@.layout.payload_of(sample@),
                Err(error) => if self@.layout.end() > sample@.len() {
                    error == UWireError::InvalidPayload("payload is not contiguous")
                } else {
                    self@.layout.payload_len == 0 && error == UWireError::MissingPayload
                },
            },
    {
        match self.try_contiguous_payload(sample) {
            Some(bytes) => {
                if bytes.len() == 0 {
                    Err(UWireError::MissingPayload)
                } else {
                    Ok(bytes)
                }
            },
            None => Err(UWireError::InvalidPayload("payload is not contiguous")),
        }
    }
}

/// The payload of a laid-out frame begins at a multiple of its alignment, and no more than one
/// alignment behind the metadata.
pub proof fn loaned_payload_is_aligned(
    base: nat,
    metadata_len: nat,
    payload_len: nat,
    alignment: nat,
)
    requires
        alignment > 0,
    ensures
        ({
            let layout = loan_layout(base, metadata_len, payload_len, alignment);
            &&& (base + layout.payload_offset) % alignment == 0
            &&& metadata_len <= layout.payload_offset < metadata_len + alignment
        }),
{
    let address = (base + metadata_len) as int;
    let a = alignment as int;
    let beyond = address % a;
    assert(0 <= beyond < a) by {
        lemma_mod_bound(address, a);
    }
    if beyond != 0 {
        lemma_fundamental_div_mod(address, a);
        let quotient = address / a;
        assert(address + (a - beyond) == a * (quotient + 1)) by (nonlinear_arith)
            requires
                address == a * quotient + beyond,
        ;
        lemma_mod_multiples_basic(quotient + 1, a);
        assert((quotient + 1) * a == a * (quotient + 1)) by (nonlinear_arith);
    }
}

/// A sample of the worst-case length has room for the frame at every address.
pub proof fn worst_case_sample_has_room(
    base: nat,
    metadata_len: nat,
    payload_len: nat,
    alignment: nat,
    sample_len: nat,
)
    requires
        is_pow2(alignment as int),
        worst_case_len(metadata_len, payload_len, alignment) <= sample_len,
        base + sample_len <= usize::MAX,
    ensures
        loan_fault(base, metadata_len, payload_len, alignment, sample_len) is None,
        loan_layout(base, metadata_len, payload_len, alignment).fits(sample_len),
{
    lemma_pow2_is_positive(alignment as int);
    loaned_payload_is_aligned(base, metadata_len, payload_len, alignment);
}

/// What the sender laid out is what the receiver reads: wherever the sample lies in the memory of
/// the receiver, as long as it is aligned there as it was for the sender, the lease succeeds and
/// its metadata and payload are those that the sender wrote.
pub proof fn sent_frame_is_received(
    base: nat,
    metadata: Seq<u8>,
    payload: Seq<u8>,
    alignment: nat,
    bytes: Seq<u8>,
    received: ReceivedSample,
    source: UriParts,
    sink: Option<UriParts>,
)
    requires
        loan_fault(base, metadata.len(), payload.len(), alignment, bytes.len()) is None,
        ({
            let layout = loan_layout(base, metadata.len(), payload.len(), alignment);
            &&& layout.metadata_of(bytes) == metadata
            &&& layout.payload_of(bytes) == payload
            &&& received.header == layout.header()
        }),
        received.len == bytes.len(),
        alignment <= usize::MAX,
        received.address + bytes.len() <= usize::MAX,
        received.address as nat % alignment == base % alignment,
    ensures
        lease_fault(received) is None,
        ({
            let lease = lease_of(received, source, sink);
            &&& lease.layout.metadata_of(bytes) == metadata
            &&& lease.layout.payload_of(bytes) == payload
        }),
{
    let layout = loan_layout(base, metadata.len(), payload.len(), alignment);
    lemma_pow2_is_positive(alignment as int);
    written_layout_reads_back(layout, bytes.len());
    loaned_payload_is_aligned(base, metadata.len(), payload.len(), alignment);
    let a = alignment as int;
    let offset = layout.payload_offset as int;
    lemma_add_mod_noop(received.address as int, offset, a);
    lemma_add_mod_noop(base as int, offset, a);
}

/// A sample of unwritten bytes that went through the steps of a loan, with its payload written in
/// between, holds the metadata and the payload where the layout places them, and no unwritten
/// byte.
pub proof fn finished_sample_holds_the_frame(
    layout: LayoutView,
    metadata: Seq<u8>,
    payload: Seq<u8>,
    lent: Seq<Option<u8>>,
    prepared: Seq<Option<u8>>,
    filled: Seq<Option<u8>>,
    finished: Seq<Option<u8>>,
    bytes: Seq<u8>,
)
    requires
        layout.fits(lent.len()),
        layout.metadata_len == metadata.len(),
        layout.payload_len == payload.len(),
        prepared == as_written(metadata) + written_zeros(
            (layout.payload_offset - layout.metadata_len) as nat,
        ) + lent.skip(layout.payload_offset as int),
        filled == prepared.take(layout.payload_offset as int) + as_written(payload)
            + prepared.skip(layout.end() as int),
        finished == filled.take(layout.end() as int) + written_zeros(
            (lent.len() - layout.end()) as nat,
        ),
        bytes == finished.map_values(|byte: Option<u8>| byte->0),
    ensures
        finished.len() == lent.len(),
        forall|i: int| 0 <= i < finished.len() ==> #[trigger] finished[i] is Some,
        layout.metadata_of(bytes) == metadata,
        layout.payload_of(bytes) == payload,
{
    let offset = layout.payload_offset as int;
    let end = layout.end() as int;
    assert(prepared.len() == lent.len());
    assert(filled.len() == lent.len());
    assert forall|i: int| 0 <= i < finished.len() implies #[trigger] finished[i] is Some by {
        if i < offset {
            assert(finished[i] == prepared[i]);
        } else if i < end {
            assert(finished[i] == Some(payload[i - offset]));
        }
    }
    assert forall|i: int| 0 <= i < metadata.len() implies layout.metadata_of(bytes)[i]
        == metadata[i] by {
        assert(finished[i] == prepared[i]);
    }
    assert(layout.metadata_of(bytes) =~= metadata);
    assert(layout.payload_of(bytes) =~= payload);
}

/// The padding leads to the next multiple of the alignment: it ends at a multiple, and is shorter
/// than the alignment.
pub proof fn padding_ends_at_the_next_multiple(address: nat, alignment: nat)
    requires
        alignment > 0,
    ensures
        (address + padding(address, alignment)) % alignment == 0,
        padding(address, alignment) < alignment,
{
    let a = alignment as int;
    let rest = address as int % a;
    lemma_fundamental_div_mod(address as int, a);
    lemma_mod_bound(address as int, a);
    if rest != 0 {
        let q = address as int / a;
        assert(address + padding(address, alignment) == a * q + a);
        assert(a * q + a == (q + 1) * a) by (nonlinear_arith);
        lemma_mod_multiples_basic(q + 1, a);
    }
}

/// A frame is laid out with the lengths and the alignment that were asked for. Its payload begins
/// at an aligned address behind the metadata, and less than the alignment behind them.
pub proof fn frame_is_laid_out_as_asked_for(
    base: nat,
    metadata_len: nat,
    payload_len: nat,
    alignment: nat,
)
    requires
        alignment > 0,
    ensures
        ({
            let layout = loan_layout(base, metadata_len, payload_len, alignment);
            &&& layout.metadata_len == metadata_len
            &&& layout.payload_len == payload_len
            &&& layout.payload_alignment == alignment
            &&& metadata_len <= layout.payload_offset < metadata_len + alignment
            &&& (base + layout.payload_offset) % alignment == 0
        }),
{
    padding_ends_at_the_next_multiple(base + metadata_len, alignment);
}

/// A frame is laid out exactly if its alignment is a power of two, its payload begins at machine
/// addresses, and it ends inside the sample; else the complaint says which of these does not hold.
pub proof fn frame_is_laid_out_exactly_if(
    base: nat,
    metadata_len: nat,
    payload_len: nat,
    alignment: nat,
    sample_len: nat,
)
    requires
        sample_len <= usize::MAX,
        alignment > 0,
    ensures
        ({
            let offset = loan_layout(base, metadata_len, payload_len, alignment).payload_offset;
            let fault = loan_fault(base, metadata_len, payload_len, alignment, sample_len);
            &&& fault is None <==> is_pow2(alignment as int) && base + metadata_len <= usize::MAX
                && offset + payload_len <= sample_len
            &&& base + metadata_len > usize::MAX ==> fault == Some("payload address overflow"@)
            &&& base + metadata_len <= usize::MAX && offset > usize::MAX ==> fault == Some(
                "payload offset overflow"@,
            )
            &&& base + metadata_len <= usize::MAX && offset <= usize::MAX && is_pow2(
                alignment as int,
            ) && offset + payload_len > usize::MAX ==> fault == Some(
                "iceoryx2 frame layout overflows usize"@,
            )
            &&& base + metadata_len <= usize::MAX && is_pow2(alignment as int) && sample_len
                < offset + payload_len <= usize::MAX ==> fault == Some(
                "sample payload length "@ + decimal(sample_len)
                    + " is smaller than required frame length "@ + decimal(offset + payload_len),
            )
        }),
{
    frame_is_laid_out_as_asked_for(base, metadata_len, payload_len, alignment);
}

/// The sample that has room at every address is as long as the metadata, the payload and one byte
/// less than the alignment; at some address no shorter sample has room.
pub proof fn worst_case_is_the_shortest_that_always_has_room(
    metadata_len: nat,
    payload_len: nat,
    alignment: nat,
    base: nat,
)
    requires
        alignment > 0,
        (base + metadata_len) % alignment == 1 || alignment == 1,
    ensures
        worst_case_len(metadata_len, payload_len, alignment) == metadata_len + payload_len
            + alignment - 1,
        loan_layout(base, metadata_len, payload_len, alignment).payload_offset + payload_len
            == worst_case_len(metadata_len, payload_len, alignment),
{
    if alignment == 1 {
        padding_ends_at_the_next_multiple(base + metadata_len, alignment);
    }
}

/// A loan error is named, and reported as exhausted resources unless it is an internal failure.
pub proof fn loan_error_is_named()
    ensures
        loan_error_text(LoanError::OutOfMemory) == "LoanError::OutOfMemory"@,
        loan_error_text(LoanError::ExceedsMaxLoans) == "LoanError::ExceedsMaxLoans"@,
        loan_error_text(LoanError::ExceedsMaxLoanSize) == "LoanError::ExceedsMaxLoanSize"@,
        loan_error_text(LoanError::InternalFailure) == "LoanError::InternalFailure"@,
{
}

/// A received sample is leased exactly if its header has version zero and places, in machine sizes,
/// the metadata and behind them the payload inside the sample, with an alignment that is a power of
/// two and that the address of the payload, which must be a machine address, is a multiple of.
pub proof fn sample_is_leased_exactly_if(sample: ReceivedSample)
    ensures
        lease_fault(sample) is None <==> {
            &&& sample.header.uprotocol_major_version == 0
            &&& sample.header.payload_alignment <= usize::MAX
            &&& is_pow2(sample.header.payload_alignment as int)
            &&& sample.header.metadata_len <= sample.header.payload_offset
            &&& sample.header.payload_offset + sample.header.payload_len <= sample.len
            &&& sample.address + sample.header.payload_offset <= usize::MAX
            &&& (sample.address + sample.header.payload_offset)
                % sample.header.payload_alignment as int == 0
        },
{
    if is_pow2(sample.header.payload_alignment as int) {
        lemma_pow2_is_positive(sample.header.payload_alignment as int);
    }
}

/// Where a header places a frame, a payload at no machine address and a payload at an address that
/// is no multiple of its alignment have complaints of their own.
pub proof fn misplaced_payload_is_complained_of(sample: ReceivedSample)
    requires
        lease_fault(sample) is Some,
        recorded_layout(sample.header, sample.len as nat) is Ok,
    ensures
        lease_fault(sample)->0 == if sample.address + sample.header.payload_offset > usize::MAX {
            "payload address overflow"@
        } else {
            "payload offset does not satisfy requested alignment"@
        },
{
}

/// A sample whose header is not accepted is complained of as the header is.
pub proof fn header_fault_is_the_complaint(sample: ReceivedSample)
    requires
        recorded_layout(sample.header, sample.len as nat) is Err,
    ensures
        lease_fault(sample) == Some(
            error_text(recorded_layout(sample.header, sample.len as nat)->Err_0),
        ),
{
}

/// A lease names the sample, reads it as its header says, and has the source and the sink of the
/// service that the sample came through.
pub proof fn lease_is_of_sample_and_service(
    sample: ReceivedSample,
    source: UriParts,
    sink: Option<UriParts>,
)
    requires
        lease_fault(sample) is None,
    ensures
        ({
            let lease = lease_of(sample, source, sink);
            &&& lease.sample == sample.id
            &&& lease.layout.metadata_len == sample.header.metadata_len
            &&& lease.layout.payload_offset == sample.header.payload_offset
            &&& lease.layout.payload_len == sample.header.payload_len
            &&& lease.layout.payload_alignment == sample.header.payload_alignment
            &&& lease.source == source
            &&& lease.sink == sink
        }),
{
}

/// Which bytes are written, place by place.
pub proof fn written_bytes_place_by_place(
    sample: Seq<MaybeUninit<u8>>,
    bytes: Seq<u8>,
    len: nat,
    i: int,
)
    ensures
        written(sample).len() == sample.len(),
        0 <= i < sample.len() ==> written(sample)[i] == sample[i].as_option(),
        as_written(bytes).len() == bytes.len(),
        0 <= i < bytes.len() ==> as_written(bytes)[i] == Some(bytes[i]),
        written_zeros(len).len() == len,
        0 <= i < len ==> written_zeros(len)[i] == Some(0u8),
{
}

} // verus!
