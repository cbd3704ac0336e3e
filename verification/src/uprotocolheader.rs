//! The physical header of a sample, and the placement of a frame inside a sample.
//!
//! A sample holds the encoded frame metadata at its beginning and the visible payload at an
//! aligned offset behind it. The header records where each of them lies and nothing else.

use crate::status::{UCode, UStatus};
use crate::text::{decimal, encode_decimal};
use crate::UPROTOCOL_MAJOR_VERSION;
use std::ops::Range;
use vstd::arithmetic::power2::is_pow2;
use vstd::prelude::*;
use vstd::string::*;

verus! {

/// Physical iceoryx2 user header.
///
/// This header stores only placement facts for the encoded metadata and the visible payload.
/// Wire and payload identities remain in the metadata bytes.
#[derive(Clone, Copy, Debug, PartialEq, Eq, Structural)]
pub struct UProtocolHeader {
    pub uprotocol_major_version: u8,
    pub metadata_len: u64,
    pub payload_offset: u64,
    pub payload_len: u64,
    pub payload_alignment: u64,
}

/// Where the parts of a frame lie inside a sample.
///
/// The payload does not begin before the metadata ends, its end is a machine address offset, and
/// its alignment is a power of two.
#[derive(Clone, Copy, Debug, PartialEq, Eq, Structural)]
pub struct Iceoryx2PayloadLayout {
    metadata_len: usize,
    payload_offset: usize,
    payload_len: usize,
    payload_alignment: usize,
}

/// The numbers of a layout.
pub struct LayoutView {
    pub metadata_len: nat,
    pub payload_offset: nat,
    pub payload_len: nat,
    pub payload_alignment: nat,
}

/// Why a header or a sample does not hold a frame.
#[derive(Clone, Debug, PartialEq, Eq)]
pub enum FrameContractError {
    FieldTooLarge(&'static str),
    InvalidAlignment(usize),
    LayoutOverflow,
    PayloadOffsetBeforeMetadata { metadata_len: usize, payload_offset: usize },
    SampleTooSmall { sample_payload_len: usize, required_len: usize },
    UnsupportedMajorVersion(u8),
}

impl View for Iceoryx2PayloadLayout {
    type V = LayoutView;

    closed spec fn view(&self) -> LayoutView {
        LayoutView {
            metadata_len: self.metadata_len as nat,
            payload_offset: self.payload_offset as nat,
            payload_len: self.payload_len as nat,
            payload_alignment: self.payload_alignment as nat,
        }
    }
}

impl LayoutView {
    /// The end of the payload, which is the length that a sample needs for this layout.
    pub open spec fn end(self) -> nat {
        self.payload_offset + self.payload_len
    }

    /// Whether this layout places a frame inside a sample of `sample_payload_len` bytes.
    pub open spec fn fits(self, sample_payload_len: nat) -> bool {
        &&& is_pow2(self.payload_alignment as int)
        &&& self.metadata_len <= self.payload_offset
        &&& self.end() <= sample_payload_len
    }

    /// The metadata bytes of a sample.
    pub open spec fn metadata_of(self, sample: Seq<u8>) -> Seq<u8> {
        sample.subrange(0, self.metadata_len as int)
    }

    /// The visible payload bytes of a sample.
    pub open spec fn payload_of(self, sample: Seq<u8>) -> Seq<u8> {
        sample.subrange(self.payload_offset as int, self.end() as int)
    }

    /// The header that records this layout.
    pub open spec fn header(self) -> UProtocolHeader {
        UProtocolHeader {
            uprotocol_major_version: UPROTOCOL_MAJOR_VERSION,
            metadata_len: self.metadata_len as u64,
            payload_offset: self.payload_offset as u64,
            payload_len: self.payload_len as u64,
            payload_alignment: self.payload_alignment as u64,
        }
    }
}

/// The layout with the given numbers, or the first thing that is wrong with it.
pub open spec fn checked_layout(
    layout: LayoutView,
    sample_payload_len: nat,
) -> Result<LayoutView, FrameContractError> {
    if !is_pow2(layout.payload_alignment as int) {
        Err(FrameContractError::InvalidAlignment(layout.payload_alignment as usize))
    } else if layout.payload_offset < layout.metadata_len {
        Err(
            FrameContractError::PayloadOffsetBeforeMetadata {
                metadata_len: layout.metadata_len as usize,
                payload_offset: layout.payload_offset as usize,
            },
        )
    } else {
        match checked_sample_len(layout, sample_payload_len) {
            Ok(()) => Ok(layout),
            Err(error) => Err(error),
        }
    }
}

/// Whether the layout ends inside a sample of the given length, or why not.
pub open spec fn checked_sample_len(layout: LayoutView, sample_payload_len: nat) -> Result<
    (),
    FrameContractError,
> {
    if layout.end() > usize::MAX {
        Err(FrameContractError::LayoutOverflow)
    } else if layout.end() > sample_payload_len {
        Err(
            FrameContractError::SampleTooSmall {
                sample_payload_len: sample_payload_len as usize,
                required_len: layout.end() as usize,
            },
        )
    } else {
        Ok(())
    }
}

/// The layout that a header records for a sample of the given length, or the first thing that is
/// wrong with the header.
pub open spec fn recorded_layout(header: UProtocolHeader, sample_payload_len: nat) -> Result<
    LayoutView,
    FrameContractError,
> {
    if header.uprotocol_major_version != UPROTOCOL_MAJOR_VERSION {
        Err(FrameContractError::UnsupportedMajorVersion(header.uprotocol_major_version))
    } else if header.metadata_len > usize::MAX {
        Err(FrameContractError::FieldTooLarge("metadata_len"))
    } else if header.payload_offset > usize::MAX {
        Err(FrameContractError::FieldTooLarge("payload_offset"))
    } else if header.payload_len > usize::MAX {
        Err(FrameContractError::FieldTooLarge("payload_len"))
    } else if header.payload_alignment > usize::MAX {
        Err(FrameContractError::FieldTooLarge("payload_alignment"))
    } else {
        checked_layout(
            LayoutView {
                metadata_len: header.metadata_len as nat,
                payload_offset: header.payload_offset as nat,
                payload_len: header.payload_len as nat,
                payload_alignment: header.payload_alignment as nat,
            },
            sample_payload_len,
        )
    }
}

/// The text that describes an error.
pub open spec fn error_text(error: FrameContractError) -> Seq<char> {
    match error {
        FrameContractError::FieldTooLarge(field) => "frame contract field "@ + field@
            + " exceeds usize"@,
        FrameContractError::InvalidAlignment(alignment) => "payload alignment "@ + decimal(
            alignment as nat,
        ) + " must be a non-zero power of two"@,
        FrameContractError::LayoutOverflow => "iceoryx2 frame layout overflows usize"@,
        FrameContractError::PayloadOffsetBeforeMetadata { metadata_len, payload_offset } =>
        "payload offset "@ + decimal(payload_offset as nat) + " precedes metadata length "@
            + decimal(metadata_len as nat),
        FrameContractError::SampleTooSmall { sample_payload_len, required_len } =>
        "sample payload length "@ + decimal(sample_payload_len as nat)
            + " is smaller than required frame length "@ + decimal(required_len as nat),
        FrameContractError::UnsupportedMajorVersion(version) =>
        "unsupported uProtocol major version "@ + decimal(version as nat),
    }
}

impl Default for UProtocolHeader {
    fn default() -> (header: Self)
        ensures
            header == (UProtocolHeader {
                uprotocol_major_version: 0,
                metadata_len: 0,
                payload_offset: 0,
                payload_len: 0,
                payload_alignment: 0,
            }),
    {
        UProtocolHeader {
            uprotocol_major_version: 0,
            metadata_len: 0,
            payload_offset: 0,
            payload_len: 0,
            payload_alignment: 0,
        }
    }
}

/// `value` as a machine size, or the error that names the field.
fn size_field(value: u64, field: &'static str) -> (size: Result<usize, FrameContractError>)
    ensures
        size == if value > usize::MAX {
            Err::<usize, FrameContractError>(FrameContractError::FieldTooLarge(field))
        } else {
            Ok(value as usize)
        },
{
    match usize::try_from(value) {
        Ok(size) => Ok(size),
        Err(_) => Err(FrameContractError::FieldTooLarge(field)),
    }
}

/// Whether `n` is a power of two.
pub(crate) fn is_power_of_two(n: usize) -> (is: bool)
    ensures
        is == is_pow2(n as int),
{
    reveal(is_pow2);
    if n == 0 {
        return false;
    }
    let mut rest: usize = n;
    while rest % 2 == 0
        invariant
            rest > 0,
            is_pow2(rest as int) == is_pow2(n as int),
        decreases rest,
    {
        reveal(is_pow2);
        rest = rest / 2;
    }
    rest == 1
}

impl UProtocolHeader {
    /// Records `layout` in this header.
    pub fn write_payload_layout(&mut self, layout: Iceoryx2PayloadLayout) -> (result: Result<
        (),
        FrameContractError,
    >)
        ensures
            result is Ok,
            *final(self) == layout@.header(),
    {
        self.uprotocol_major_version = UPROTOCOL_MAJOR_VERSION;
        self.metadata_len = match u64::try_from(layout.metadata_len) {
            Ok(value) => value,
            Err(_) => {
                return Err(FrameContractError::FieldTooLarge("metadata_len"));
            },
        };
        self.payload_offset = match u64::try_from(layout.payload_offset) {
            Ok(value) => value,
            Err(_) => {
                return Err(FrameContractError::FieldTooLarge("payload_offset"));
            },
        };
        self.payload_len = match u64::try_from(layout.payload_len) {
            Ok(value) => value,
            Err(_) => {
                return Err(FrameContractError::FieldTooLarge("payload_len"));
            },
        };
        self.payload_alignment = match u64::try_from(layout.payload_alignment) {
            Ok(value) => value,
            Err(_) => {
                return Err(FrameContractError::FieldTooLarge("payload_alignment"));
            },
        };
        Ok(())
    }

    /// The layout that this header records for a sample of `sample_payload_len` bytes.
    pub fn payload_layout(&self, sample_payload_len: usize) -> (result: Result<
        Iceoryx2PayloadLayout,
        FrameContractError,
    >)
        ensures
            match result {
                Ok(layout) => recorded_layout(*self, sample_payload_len as nat) == Ok::<
                    LayoutView,
                    FrameContractError,
                >(layout@),
                Err(error) => recorded_layout(*self, sample_payload_len as nat) == Err::<
                    LayoutView,
                    FrameContractError,
                >(error),
            },
    {
        if self.uprotocol_major_version != UPROTOCOL_MAJOR_VERSION {
            return Err(
                FrameContractError::UnsupportedMajorVersion(self.uprotocol_major_version),
            );
        }
        let metadata_len: usize = size_field(self.metadata_len, "metadata_len")?;
        let payload_offset: usize = size_field(self.payload_offset, "payload_offset")?;
        let payload_len: usize = size_field(self.payload_len, "payload_len")?;
        let payload_alignment: usize = size_field(self.payload_alignment, "payload_alignment")?;
        Iceoryx2PayloadLayout::validate(
            metadata_len,
            payload_offset,
            payload_len,
            payload_alignment,
            sample_payload_len,
        )
    }
}

impl Iceoryx2PayloadLayout {
    #[verifier::type_invariant]
    closed spec fn placed(self) -> bool {
        self@.fits(usize::MAX as nat)
    }

    /// The layout with the given numbers, if it fits a sample of `sample_payload_len` bytes.
    pub fn from_validated_parts(
        metadata_len: usize,
        payload_offset: usize,
        payload_len: usize,
        payload_alignment: usize,
        sample_payload_len: usize,
    ) -> (result: Result<Self, FrameContractError>)
        ensures
            ({
                let expected = checked_layout(
                    LayoutView {
                        metadata_len: metadata_len as nat,
                        payload_offset: payload_offset as nat,
                        payload_len: payload_len as nat,
                        payload_alignment: payload_alignment as nat,
                    },
                    sample_payload_len as nat,
                );
                match result {
                    Ok(layout) => expected == Ok::<LayoutView, FrameContractError>(layout@),
                    Err(error) => expected == Err::<LayoutView, FrameContractError>(error),
                }
            }),
    {
        Self::validate(
            metadata_len,
            payload_offset,
            payload_len,
            payload_alignment,
            sample_payload_len,
        )
    }

    /// The length of the metadata prefix.
    pub fn metadata_len(&self) -> (len: usize)
        ensures
            len == self@.metadata_len,
            len <= self@.payload_offset,
    {
        proof {
            use_type_invariant(self);
        }
        self.metadata_len
    }

    /// The length of the visible payload.
    pub fn payload_len(&self) -> (len: usize)
        ensures
            len == self@.payload_len,
    {
        self.payload_len
    }

    /// The alignment of the visible payload, a power of two.
    pub fn payload_alignment(&self) -> (alignment: usize)
        ensures
            alignment == self@.payload_alignment,
            is_pow2(alignment as int),
    {
        proof {
            use_type_invariant(self);
        }
        self.payload_alignment
    }

    /// The range of the visible payload inside the sample.
    pub fn payload_range(&self) -> (range: Range<usize>)
        ensures
            range.start == self@.payload_offset,
            range.end == self@.end(),
            self@.metadata_len <= range.start,
    {
        proof {
            use_type_invariant(self);
        }
        self.payload_offset..self.payload_offset + self.payload_len
    }

    /// The metadata bytes of a sample that this layout describes.
    pub fn metadata_prefix<'a>(&self, sample_payload: &'a [u8]) -> (result: Result<
        &'a [u8],
        FrameContractError,
    >)
        ensures
            match result {
                Ok(bytes) => checked_sample_len(self@, sample_payload@.len()) is Ok && bytes@
                    == self@.metadata_of(sample_payload@),
                Err(error) => checked_sample_len(self@, sample_payload@.len()) == Err::<
                    (),
                    FrameContractError,
                >(error),
            },
    {
        proof {
            use_type_invariant(self);
        }
        self.ensure_sample_len(sample_payload.len())?;
        Ok(&sample_payload[0..self.metadata_len])
    }

    /// The visible payload bytes of a sample that this layout describes.
    pub fn payload<'a>(&self, sample_payload: &'a [u8]) -> (result: Result<
        &'a [u8],
        FrameContractError,
    >)
        ensures
            match result {
                Ok(bytes) => checked_sample_len(self@, sample_payload@.len()) is Ok && bytes@
                    == self@.payload_of(sample_payload@),
                Err(error) => checked_sample_len(self@, sample_payload@.len()) == Err::<
                    (),
                    FrameContractError,
                >(error),
            },
    {
        proof {
            use_type_invariant(self);
        }
        self.ensure_sample_len(sample_payload.len())?;
        Ok(&sample_payload[self.payload_offset..self.payload_offset + self.payload_len])
    }

    fn validate(
        metadata_len: usize,
        payload_offset: usize,
        payload_len: usize,
        payload_alignment: usize,
        sample_payload_len: usize,
    ) -> (result: Result<Self, FrameContractError>)
        ensures
            ({
                let expected = checked_layout(
                    LayoutView {
                        metadata_len: metadata_len as nat,
                        payload_offset: payload_offset as nat,
                        payload_len: payload_len as nat,
                        payload_alignment: payload_alignment as nat,
                    },
                    sample_payload_len as nat,
                );
                match result {
                    Ok(layout) => expected == Ok::<LayoutView, FrameContractError>(layout@),
                    Err(error) => expected == Err::<LayoutView, FrameContractError>(error),
                }
            }),
    {
        if !is_power_of_two(payload_alignment) {
            return Err(FrameContractError::InvalidAlignment(payload_alignment));
        }
        if payload_offset < metadata_len {
            return Err(
                FrameContractError::PayloadOffsetBeforeMetadata { metadata_len, payload_offset },
            );
        }
        let required_len: usize = match payload_offset.checked_add(payload_len) {
            Some(len) => len,
            None => {
                return Err(FrameContractError::LayoutOverflow);
            },
        };
        if required_len > sample_payload_len {
            return Err(FrameContractError::SampleTooSmall { sample_payload_len, required_len });
        }
        Ok(Iceoryx2PayloadLayout { metadata_len, payload_offset, payload_len, payload_alignment })
    }

    fn ensure_sample_len(&self, sample_payload_len: usize) -> (result: Result<
        (),
        FrameContractError,
    >)
        ensures
            result == checked_sample_len(self@, sample_payload_len as nat),
    {
        let required_len: usize = match self.payload_offset.checked_add(self.payload_len) {
            Some(len) => len,
            None => {
                return Err(FrameContractError::LayoutOverflow);
            },
        };
        if required_len > sample_payload_len {
            return Err(FrameContractError::SampleTooSmall { sample_payload_len, required_len });
        }
        Ok(())
    }
}

impl FrameContractError {
    /// The text that describes this error.
    pub fn message(&self) -> (text: String)
        ensures
            text@ == error_text(*self),
    {
        match self {
            FrameContractError::FieldTooLarge(field) => String::from_str(
                "frame contract field ",
            ).concat(field).concat(" exceeds usize"),
            FrameContractError::InvalidAlignment(alignment) => String::from_str(
                "payload alignment ",
            ).concat(encode_decimal(*alignment).as_str()).concat(
                " must be a non-zero power of two",
            ),
            FrameContractError::LayoutOverflow => String::from_str(
                "iceoryx2 frame layout overflows usize",
            ),
            FrameContractError::PayloadOffsetBeforeMetadata { metadata_len, payload_offset } =>
            String::from_str("payload offset ").concat(
                encode_decimal(*payload_offset).as_str(),
            ).concat(" precedes metadata length ").concat(encode_decimal(*metadata_len).as_str()),
            FrameContractError::SampleTooSmall { sample_payload_len, required_len } =>
            String::from_str("sample payload length ").concat(
                encode_decimal(*sample_payload_len).as_str(),
            ).concat(" is smaller than required frame length ").concat(
                encode_decimal(*required_len).as_str(),
            ),
            FrameContractError::UnsupportedMajorVersion(version) => String::from_str(
                "unsupported uProtocol major version ",
            ).concat(encode_decimal(*version as usize).as_str()),
        }
    }
}

/// The status that reports a frame contract error.
pub fn frame_contract_error_to_status(error: FrameContractError) -> (status: UStatus)
    ensures
        status.says(UCode::InvalidArgument, error_text(error)),
{
    UStatus { code: UCode::InvalidArgument, message: error.message() }
}

/// A header gives back the layout that was written to it, for every sample that the layout fits.
pub proof fn written_layout_reads_back(layout: LayoutView, sample_payload_len: nat)
    requires
        layout.fits(sample_payload_len),
        sample_payload_len <= usize::MAX,
        layout.payload_alignment <= usize::MAX,
    ensures
        recorded_layout(layout.header(), sample_payload_len) == Ok::<
            LayoutView,
            FrameContractError,
        >(layout),
{
}

/// A header is accepted only with a layout that lies inside the sample, and such a layout keeps
/// metadata and payload apart.
pub proof fn accepted_layout_is_placed(header: UProtocolHeader, sample_payload_len: nat)
    requires
        recorded_layout(header, sample_payload_len) is Ok,
    ensures
        ({
            let layout = recorded_layout(header, sample_payload_len)->Ok_0;
            &&& layout.fits(sample_payload_len)
            &&& layout.header() == header
        }),
{
}

/// The metadata of a sample are its first bytes, and the payload those from its offset on, as many
/// as the layout says.
pub proof fn parts_of_a_sample_lie_where_the_layout_says(
    layout: LayoutView,
    sample: Seq<u8>,
    i: int,
)
    requires
        layout.metadata_len <= sample.len(),
        layout.payload_offset + layout.payload_len <= sample.len(),
    ensures
        layout.end() == layout.payload_offset + layout.payload_len,
        layout.metadata_of(sample).len() == layout.metadata_len,
        0 <= i < layout.metadata_len ==> layout.metadata_of(sample)[i] == sample[i],
        layout.payload_of(sample).len() == layout.payload_len,
        0 <= i < layout.payload_len ==> layout.payload_of(sample)[i] == sample[layout.payload_offset
            + i],
{
}

/// A layout fits a sample exactly if its alignment is a power of two, its payload begins no earlier
/// than the metadata ends, and ends no later than the sample.
pub proof fn layout_fits_exactly_if(layout: LayoutView, sample_len: nat)
    ensures
        layout.fits(sample_len) <==> is_pow2(layout.payload_alignment as int)
            && layout.metadata_len <= layout.payload_offset && layout.payload_offset
            + layout.payload_len <= sample_len,
{
}

/// A header records the numbers of a layout, each in its own field, and version zero.
pub proof fn header_records_the_numbers(layout: LayoutView)
    requires
        layout.metadata_len <= u64::MAX,
        layout.payload_offset <= u64::MAX,
        layout.payload_len <= u64::MAX,
        layout.payload_alignment <= u64::MAX,
    ensures
        layout.header().uprotocol_major_version == 0,
        layout.header().metadata_len == layout.metadata_len,
        layout.header().payload_offset == layout.payload_offset,
        layout.header().payload_len == layout.payload_len,
        layout.header().payload_alignment == layout.payload_alignment,
{
}

/// A header is accepted for a sample exactly if it has version zero and its numbers, which must be
/// machine sizes, place the metadata and behind them the aligned payload inside the sample; and
/// then its layout has those numbers.
pub proof fn header_is_accepted_exactly_if(
    header: UProtocolHeader,
    sample_len: nat,
    layout: LayoutView,
)
    requires
        sample_len <= usize::MAX,
    ensures
        recorded_layout(header, sample_len) == Ok::<LayoutView, FrameContractError>(layout) <==> {
            &&& header.uprotocol_major_version == 0
            &&& header.metadata_len == layout.metadata_len
            &&& header.payload_offset == layout.payload_offset
            &&& header.payload_len == layout.payload_len
            &&& header.payload_alignment == layout.payload_alignment
            &&& header.payload_alignment <= usize::MAX
            &&& is_pow2(header.payload_alignment as int)
            &&& header.metadata_len <= header.payload_offset
            &&& header.payload_offset + header.payload_len <= sample_len
        },
{
}

/// Of several things that are wrong with a header the first is reported, in this order: the
/// version, a number that is no machine size, the alignment, a payload before the end of the
/// metadata, an end that is no machine size, and an end behind that of the sample.
pub proof fn first_fault_of_a_header_is_reported(header: UProtocolHeader, sample_len: nat)
    requires
        sample_len <= usize::MAX,
    ensures
        ({
            let sizes = header.metadata_len <= usize::MAX && header.payload_offset <= usize::MAX
                && header.payload_len <= usize::MAX && header.payload_alignment <= usize::MAX;
            let fault = recorded_layout(header, sample_len);
            &&& header.uprotocol_major_version != 0 ==> fault == Err::<
                LayoutView,
                FrameContractError,
            >(FrameContractError::UnsupportedMajorVersion(header.uprotocol_major_version))
            &&& header.uprotocol_major_version == 0 && !sizes ==> fault is Err
                && fault->Err_0 is FieldTooLarge
            &&& header.uprotocol_major_version == 0 && sizes && !is_pow2(
                header.payload_alignment as int,
            ) ==> fault == Err::<LayoutView, FrameContractError>(
                FrameContractError::InvalidAlignment(header.payload_alignment as usize),
            )
            &&& header.uprotocol_major_version == 0 && sizes && is_pow2(
                header.payload_alignment as int,
            ) && header.payload_offset < header.metadata_len ==> fault == Err::<
                LayoutView,
                FrameContractError,
            >(
                FrameContractError::PayloadOffsetBeforeMetadata {
                    metadata_len: header.metadata_len as usize,
                    payload_offset: header.payload_offset as usize,
                },
            )
            &&& header.uprotocol_major_version == 0 && sizes && is_pow2(
                header.payload_alignment as int,
            ) && header.payload_offset >= header.metadata_len && header.payload_offset
                + header.payload_len > usize::MAX ==> fault == Err::<
                LayoutView,
                FrameContractError,
            >(FrameContractError::LayoutOverflow)
            &&& header.uprotocol_major_version == 0 && sizes && is_pow2(
                header.payload_alignment as int,
            ) && header.payload_offset >= header.metadata_len && sample_len
                < header.payload_offset + header.payload_len <= usize::MAX ==> fault == Err::<
                LayoutView,
                FrameContractError,
            >(
                FrameContractError::SampleTooSmall {
                    sample_payload_len: sample_len as usize,
                    required_len: (header.payload_offset + header.payload_len) as usize,
                },
            )
        }),
{
}

/// The numbers of a layout are checked as those of a header are: a layout passes the check for a
/// sample exactly if it fits that sample, and comes out as it went in; a sample is long enough
/// exactly if the layout ends inside it.
pub proof fn layout_passes_exactly_if_it_fits(layout: LayoutView, sample_len: nat)
    requires
        sample_len <= usize::MAX,
    ensures
        checked_layout(layout, sample_len) is Ok <==> layout.fits(sample_len),
        checked_layout(layout, sample_len) is Ok ==> checked_layout(layout, sample_len)->Ok_0
            == layout,
        checked_sample_len(layout, sample_len) is Ok <==> layout.payload_offset + layout.payload_len
            <= sample_len,
        checked_sample_len(layout, sample_len) is Err ==> checked_sample_len(
            layout,
            sample_len,
        )->Err_0 == if layout.payload_offset + layout.payload_len > usize::MAX {
            FrameContractError::LayoutOverflow
        } else {
            FrameContractError::SampleTooSmall {
                sample_payload_len: sample_len as usize,
                required_len: (layout.payload_offset + layout.payload_len) as usize,
            }
        },
{
}

/// The text of an error says what is wrong, with the numbers in decimal.
pub proof fn error_is_described_with_its_numbers(
    field: &'static str,
    a: usize,
    b: usize,
    version: u8,
)
    ensures
        error_text(FrameContractError::FieldTooLarge(field)) == "frame contract field "@ + field@
            + " exceeds usize"@,
        error_text(FrameContractError::InvalidAlignment(a)) == "payload alignment "@ + decimal(
            a as nat,
        ) + " must be a non-zero power of two"@,
        error_text(FrameContractError::LayoutOverflow) == "iceoryx2 frame layout overflows usize"@,
        error_text(
            FrameContractError::PayloadOffsetBeforeMetadata { metadata_len: a, payload_offset: b },
        ) == "payload offset "@ + decimal(b as nat) + " precedes metadata length "@ + decimal(
            a as nat,
        ),
        error_text(
            FrameContractError::SampleTooSmall { sample_payload_len: a, required_len: b },
        ) == "sample payload length "@ + decimal(a as nat)
            + " is smaller than required frame length "@ + decimal(b as nat),
        error_text(FrameContractError::UnsupportedMajorVersion(version))
            == "unsupported uProtocol major version "@ + decimal(version as nat),
{
}

} // verus!
