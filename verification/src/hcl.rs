//! HCL (Hyper-V Compatibility Layer) error page definitions.
//!
//! These types describe the contract between OpenHCL and VMWP for reporting
//! VTL2 crashes. The IGVM file reserves a two-page "error range". On a triple
//! fault in VTL2, VMWP reads a [`HclErrorInformationPage`] from the second page
//! of the range and, if its signature matches [`HCL_TRIPLEFAULT_SIGNATURE`],
//! surfaces the embedded message.

use crate::wire;
use vstd::arithmetic::power;
use vstd::prelude::*;
use vstd::slice::slice_subrange;

verus! {

/// Number of 4K pages in an HCL error range. Page 0 is the doorbell page
/// (unused by OpenHCL today) and page 1 is the [`HclErrorInformationPage`].
pub const HCL_ERROR_RANGE_PAGE_COUNT: u64 = 2;

/// Maximum message length in bytes stored in [`HclErrorPageData::message`].
pub const HCL_ERROR_INFORMATION_STRING_SIZE: usize = 256;

/// Version stamp for [`HclErrorPageData::version`]. Major=1, minor=0.
pub const HCL_ERROR_PAGE_DATA_VERSION_1: u32 = 0x0100;

/// Signature written to [`HclErrorInformationPage::signature`] when the
/// contents describe a triple fault crash. Numeric value of the ASCII string
/// `"HCLFAULT"` interpreted as a big-endian `u64`.
pub const HCL_TRIPLEFAULT_SIGNATURE: u64 = 0x48434C4641554C54;

/// Bytes that a [`HclErrorPageData`] takes.
pub const HCL_ERROR_PAGE_DATA_SIZE: usize = 260;

/// Bytes that a [`HclErrorInformationPage`] takes.
pub const HCL_ERROR_INFORMATION_PAGE_SIZE: usize = 312;

/// Versioned data portion of [`HclErrorInformationPage`].
#[derive(Copy, Clone, Debug)]
pub struct HclErrorPageData {
    /// Data-format version. Use [`HCL_ERROR_PAGE_DATA_VERSION_1`].
    pub version: u32,
    /// Null-terminated ASCII crash message. Longer messages must be truncated.
    pub message: [u8; HCL_ERROR_INFORMATION_STRING_SIZE],
}

/// Layout of the error information page consumed by VMWP's triple-fault
/// handler.
#[derive(Copy, Clone, Debug)]
pub struct HclErrorInformationPage {
    /// Bug-check style stop code. Zero for OpenHCL boot-shim panics today.
    pub stop_code: u64,
    /// Stop-code parameter 1.
    pub parameter1: u64,
    /// Stop-code parameter 2.
    pub parameter2: u64,
    /// Stop-code parameter 3.
    pub parameter3: u64,
    /// Stop-code parameter 4.
    pub parameter4: u64,
    /// Set to [`HCL_TRIPLEFAULT_SIGNATURE`] to tell VMWP the data section is
    /// valid and describes a triple fault.
    pub signature: u64,
    /// Versioned crash-message payload.
    pub data: HclErrorPageData,
    /// Fills the page information up to its alignment.
    pub _reserved: [u8; 4],
}

/// What a [`HclErrorPageData`] says.
#[verifier::ext_equal]
pub struct HclErrorPageDataView {
    pub version: u32,
    pub message: Seq<u8>,
}

/// What a [`HclErrorInformationPage`] says.
#[verifier::ext_equal]
pub struct HclErrorInformationPageView {
    pub stop_code: u64,
    pub parameter1: u64,
    pub parameter2: u64,
    pub parameter3: u64,
    pub parameter4: u64,
    pub signature: u64,
    pub data: HclErrorPageDataView,
    pub reserved: Seq<u8>,
}

impl View for HclErrorPageData {
    type V = HclErrorPageDataView;

    open spec fn view(&self) -> HclErrorPageDataView {
        HclErrorPageDataView { version: self.version, message: self.message@ }
    }
}

impl View for HclErrorInformationPage {
    type V = HclErrorInformationPageView;

    open spec fn view(&self) -> HclErrorInformationPageView {
        HclErrorInformationPageView {
            stop_code: self.stop_code,
            parameter1: self.parameter1,
            parameter2: self.parameter2,
            parameter3: self.parameter3,
            parameter4: self.parameter4,
            signature: self.signature,
            data: self.data@,
            reserved: self._reserved@,
        }
    }
}

impl HclErrorPageDataView {
    /// The field sizes are those of the layout.
    pub open spec fn wf(self) -> bool {
        self.message.len() == HCL_ERROR_INFORMATION_STRING_SIZE
    }

    /// The bytes of the data portion: its fields in order.
    pub open spec fn bytes(self) -> Seq<u8> {
        wire::le_bytes(self.version as nat, 4) + self.message
    }

    /// The data portion that `bytes` spell.
    pub open spec fn from_bytes(bytes: Seq<u8>) -> Self {
        HclErrorPageDataView {
            version: wire::le_value(bytes.subrange(0, 4)) as u32,
            message: bytes.subrange(4, HCL_ERROR_PAGE_DATA_SIZE as int),
        }
    }
}

/// The eight-byte field at byte `offset`.
pub open spec fn u64_field(bytes: Seq<u8>, offset: int) -> u64 {
    wire::le_value(bytes.subrange(offset, offset + 8)) as u64
}

impl HclErrorInformationPageView {
    /// The field sizes are those of the layout.
    pub open spec fn wf(self) -> bool {
        &&& self.data.wf()
        &&& self.reserved.len() == 4
    }

    /// The bytes of the page information: its fields in order.
    pub open spec fn bytes(self) -> Seq<u8> {
        wire::le_bytes(self.stop_code as nat, 8)
            + wire::le_bytes(self.parameter1 as nat, 8)
            + wire::le_bytes(self.parameter2 as nat, 8)
            + wire::le_bytes(self.parameter3 as nat, 8)
            + wire::le_bytes(self.parameter4 as nat, 8)
            + wire::le_bytes(self.signature as nat, 8)
            + self.data.bytes()
            + self.reserved
    }

    /// The page information that `bytes` spell.
    pub open spec fn from_bytes(bytes: Seq<u8>) -> Self {
        HclErrorInformationPageView {
            stop_code: u64_field(bytes, 0),
            parameter1: u64_field(bytes, 8),
            parameter2: u64_field(bytes, 16),
            parameter3: u64_field(bytes, 24),
            parameter4: u64_field(bytes, 32),
            signature: u64_field(bytes, 40),
            data: HclErrorPageDataView::from_bytes(bytes.subrange(48, 308)),
            reserved: bytes.subrange(308, HCL_ERROR_INFORMATION_PAGE_SIZE as int),
        }
    }
}

/// Law: the data portion takes 260 bytes, and reading them gives back what was
/// written.
pub proof fn lemma_page_data_read_gives_back_write(data: HclErrorPageDataView)
    requires
        data.wf(),
    ensures
        data.bytes().len() == HCL_ERROR_PAGE_DATA_SIZE,
        HclErrorPageDataView::from_bytes(data.bytes()) == data,
{
    wire::lemma_integer_widths();
    wire::lemma_le_bytes_len(data.version as nat, 4);
    wire::lemma_le_value_of_le_bytes(data.version as nat, 4);
    assert(data.bytes().subrange(0, 4) =~= wire::le_bytes(data.version as nat, 4));
    assert(data.bytes().subrange(4, 260) =~= data.message);
}

/// Law: the page information takes 312 bytes, and reading them gives back what
/// was written.
pub proof fn lemma_page_read_gives_back_write(page: HclErrorInformationPageView)
    requires
        page.wf(),
    ensures
        page.bytes().len() == HCL_ERROR_INFORMATION_PAGE_SIZE,
        HclErrorInformationPageView::from_bytes(page.bytes()) == page,
{
    let bytes = page.bytes();
    wire::lemma_integer_widths();
    lemma_page_data_read_gives_back_write(page.data);
    wire::lemma_le_bytes_len(page.stop_code as nat, 8);
    wire::lemma_le_bytes_len(page.parameter1 as nat, 8);
    wire::lemma_le_bytes_len(page.parameter2 as nat, 8);
    wire::lemma_le_bytes_len(page.parameter3 as nat, 8);
    wire::lemma_le_bytes_len(page.parameter4 as nat, 8);
    wire::lemma_le_bytes_len(page.signature as nat, 8);
    wire::lemma_le_value_of_le_bytes(page.stop_code as nat, 8);
    wire::lemma_le_value_of_le_bytes(page.parameter1 as nat, 8);
    wire::lemma_le_value_of_le_bytes(page.parameter2 as nat, 8);
    wire::lemma_le_value_of_le_bytes(page.parameter3 as nat, 8);
    wire::lemma_le_value_of_le_bytes(page.parameter4 as nat, 8);
    wire::lemma_le_value_of_le_bytes(page.signature as nat, 8);
    assert(bytes.subrange(0, 8) =~= wire::le_bytes(page.stop_code as nat, 8));
    assert(bytes.subrange(8, 16) =~= wire::le_bytes(page.parameter1 as nat, 8));
    assert(bytes.subrange(16, 24) =~= wire::le_bytes(page.parameter2 as nat, 8));
    assert(bytes.subrange(24, 32) =~= wire::le_bytes(page.parameter3 as nat, 8));
    assert(bytes.subrange(32, 40) =~= wire::le_bytes(page.parameter4 as nat, 8));
    assert(bytes.subrange(40, 48) =~= wire::le_bytes(page.signature as nat, 8));
    assert(bytes.subrange(48, 308) =~= page.data.bytes());
    assert(bytes.subrange(308, 312) =~= page.reserved);
}

/// Law: writing what a read of 260 bytes gave spells the same bytes again.
pub proof fn lemma_page_data_write_gives_back_read(bytes: Seq<u8>)
    requires
        bytes.len() == HCL_ERROR_PAGE_DATA_SIZE,
    ensures
        HclErrorPageDataView::from_bytes(bytes).wf(),
        HclErrorPageDataView::from_bytes(bytes).bytes() == bytes,
{
    wire::lemma_integer_widths();
    wire::lemma_le_bytes_of_le_value(bytes.subrange(0, 4));
    assert(HclErrorPageDataView::from_bytes(bytes).bytes() =~= bytes);
}

/// Law: writing what a read of 312 bytes gave spells the same bytes again, so
/// no two byte sequences say the same.
pub proof fn lemma_page_write_gives_back_read(bytes: Seq<u8>)
    requires
        bytes.len() == HCL_ERROR_INFORMATION_PAGE_SIZE,
    ensures
        HclErrorInformationPageView::from_bytes(bytes).wf(),
        HclErrorInformationPageView::from_bytes(bytes).bytes() == bytes,
{
    wire::lemma_integer_widths();
    wire::lemma_le_bytes_of_le_value(bytes.subrange(0, 8));
    wire::lemma_le_bytes_of_le_value(bytes.subrange(8, 16));
    wire::lemma_le_bytes_of_le_value(bytes.subrange(16, 24));
    wire::lemma_le_bytes_of_le_value(bytes.subrange(24, 32));
    wire::lemma_le_bytes_of_le_value(bytes.subrange(32, 40));
    wire::lemma_le_bytes_of_le_value(bytes.subrange(40, 48));
    lemma_page_data_write_gives_back_read(bytes.subrange(48, 308));
    assert(HclErrorInformationPageView::from_bytes(bytes).bytes() =~= bytes);
}

/// Law: where each field of the page information lies. Integers are spelled by
/// their digits in base 256, the least significant one first; the message starts
/// at byte 52.
pub proof fn lemma_where_fields_lie(page: HclErrorInformationPageView)
    requires
        page.wf(),
    ensures
        page.bytes().len() == 312,
        forall|i: int|
            0 <= i < 8 ==> page.bytes()[i] as int == page.stop_code as int
                / power::pow(256, i as nat) % 256,
        forall|i: int|
            8 <= i < 16 ==> page.bytes()[i] as int == page.parameter1 as int
                / power::pow(256, (i - 8) as nat) % 256,
        forall|i: int|
            16 <= i < 24 ==> page.bytes()[i] as int == page.parameter2 as int
                / power::pow(256, (i - 16) as nat) % 256,
        forall|i: int|
            24 <= i < 32 ==> page.bytes()[i] as int == page.parameter3 as int
                / power::pow(256, (i - 24) as nat) % 256,
        forall|i: int|
            32 <= i < 40 ==> page.bytes()[i] as int == page.parameter4 as int
                / power::pow(256, (i - 32) as nat) % 256,
        forall|i: int|
            40 <= i < 48 ==> page.bytes()[i] as int == page.signature as int
                / power::pow(256, (i - 40) as nat) % 256,
        forall|i: int|
            48 <= i < 52 ==> page.bytes()[i] as int == page.data.version as int
                / power::pow(256, (i - 48) as nat) % 256,
        forall|i: int| 52 <= i < 308 ==> page.bytes()[i] == page.data.message[i - 52],
        forall|i: int| 308 <= i < 312 ==> page.bytes()[i] == page.reserved[i - 308],
{
    let bytes = page.bytes();
    lemma_page_read_gives_back_write(page);
    lemma_page_data_read_gives_back_write(page.data);
    lemma_fields_read_where_they_lie(bytes);
}

/// Law: where each field of the page information is read from.
pub proof fn lemma_fields_read_where_they_lie(bytes: Seq<u8>)
    requires
        bytes.len() == 312,
    ensures
        ({
            let page = HclErrorInformationPageView::from_bytes(bytes);
            &&& page.data.message.len() == 256
            &&& page.reserved.len() == 4
            &&& forall|i: int|
                0 <= i < 8 ==> bytes[i] as int == page.stop_code as int
                    / power::pow(256, i as nat) % 256
            &&& forall|i: int|
                8 <= i < 16 ==> bytes[i] as int == page.parameter1 as int
                    / power::pow(256, (i - 8) as nat) % 256
            &&& forall|i: int|
                16 <= i < 24 ==> bytes[i] as int == page.parameter2 as int
                    / power::pow(256, (i - 16) as nat) % 256
            &&& forall|i: int|
                24 <= i < 32 ==> bytes[i] as int == page.parameter3 as int
                    / power::pow(256, (i - 24) as nat) % 256
            &&& forall|i: int|
                32 <= i < 40 ==> bytes[i] as int == page.parameter4 as int
                    / power::pow(256, (i - 32) as nat) % 256
            &&& forall|i: int|
                40 <= i < 48 ==> bytes[i] as int == page.signature as int
                    / power::pow(256, (i - 40) as nat) % 256
            &&& forall|i: int|
                48 <= i < 52 ==> bytes[i] as int == page.data.version as int
                    / power::pow(256, (i - 48) as nat) % 256
            &&& forall|i: int| 52 <= i < 308 ==> bytes[i] == page.data.message[i - 52]
            &&& forall|i: int| 308 <= i < 312 ==> bytes[i] == page.reserved[i - 308]
        }),
{
    wire::lemma_integer_widths();
    wire::lemma_le_bytes_of_le_value(bytes.subrange(0, 8));
    wire::lemma_le_value_has_digits(bytes.subrange(0, 8));
    wire::lemma_le_bytes_of_le_value(bytes.subrange(8, 16));
    wire::lemma_le_value_has_digits(bytes.subrange(8, 16));
    wire::lemma_le_bytes_of_le_value(bytes.subrange(16, 24));
    wire::lemma_le_value_has_digits(bytes.subrange(16, 24));
    wire::lemma_le_bytes_of_le_value(bytes.subrange(24, 32));
    wire::lemma_le_value_has_digits(bytes.subrange(24, 32));
    wire::lemma_le_bytes_of_le_value(bytes.subrange(32, 40));
    wire::lemma_le_value_has_digits(bytes.subrange(32, 40));
    wire::lemma_le_bytes_of_le_value(bytes.subrange(40, 48));
    wire::lemma_le_value_has_digits(bytes.subrange(40, 48));
    let data = bytes.subrange(48, 308);
    wire::lemma_le_bytes_of_le_value(data.subrange(0, 4));
    wire::lemma_le_value_has_digits(data.subrange(0, 4));
    let page = HclErrorInformationPageView::from_bytes(bytes);
    assert forall|i: int| 0 <= i < 8 implies bytes[i] as int == page.stop_code as int
        / power::pow(256, i as nat) % 256 by {
        assert(bytes[i] == bytes.subrange(0, 8)[i - 0]);
    }
    assert forall|i: int| 8 <= i < 16 implies bytes[i] as int == page.parameter1 as int
        / power::pow(256, (i - 8) as nat) % 256 by {
        assert(bytes[i] == bytes.subrange(8, 16)[i - 8]);
    }
    assert forall|i: int| 16 <= i < 24 implies bytes[i] as int == page.parameter2 as int
        / power::pow(256, (i - 16) as nat) % 256 by {
        assert(bytes[i] == bytes.subrange(16, 24)[i - 16]);
    }
    assert forall|i: int| 24 <= i < 32 implies bytes[i] as int == page.parameter3 as int
        / power::pow(256, (i - 24) as nat) % 256 by {
        assert(bytes[i] == bytes.subrange(24, 32)[i - 24]);
    }
    assert forall|i: int| 32 <= i < 40 implies bytes[i] as int == page.parameter4 as int
        / power::pow(256, (i - 32) as nat) % 256 by {
        assert(bytes[i] == bytes.subrange(32, 40)[i - 32]);
    }
    assert forall|i: int| 40 <= i < 48 implies bytes[i] as int == page.signature as int
        / power::pow(256, (i - 40) as nat) % 256 by {
        assert(bytes[i] == bytes.subrange(40, 48)[i - 40]);
    }
    assert forall|i: int| 48 <= i < 52 implies bytes[i] as int == page.data.version as int
        / power::pow(256, (i - 48) as nat) % 256 by {
        assert(bytes[i] == data.subrange(0, 4)[i - 48]);
    }
}

/// Copies a slice into an array of the same length.
fn array_from_slice<const N: usize>(bytes: &[u8]) -> (array: [u8; N])
    requires
        bytes@.len() == N,
    ensures
        array@ == bytes@,
{
    let mut array = [0u8; N];
    let mut i: usize = 0;
    while i < N
        invariant
            i <= N,
            bytes@.len() == N,
            array@.len() == N,
            forall|k: int| 0 <= k < i ==> array@[k] == bytes@[k],
        decreases N - i,
    {
        array[i] = bytes[i];
        i += 1;
    }
    assert(array@ =~= bytes@);
    array
}

impl HclErrorPageData {
    /// The bytes of the data portion, as VMWP reads them.
    pub fn as_bytes(&self) -> (bytes: Vec<u8>)
        ensures
            bytes@ == self@.bytes(),
            bytes@.len() == HCL_ERROR_PAGE_DATA_SIZE,
            bytes@.len() == 260,
            forall|i: int|
                0 <= i < 4 ==> bytes@[i] as int == self.version as int
                    / power::pow(256, i as nat) % 256,
            forall|i: int| 4 <= i < 260 ==> bytes@[i] == self.message[i - 4],
    {
        proof {
            wire::lemma_le_bytes_are_digits(self.version as nat, 4);
            lemma_page_data_read_gives_back_write(self@);
        }
        let mut bytes = wire::u32_as_bytes(self.version);
        bytes.extend_from_slice(&self.message);
        assert(bytes@ =~= self@.bytes());
        bytes
    }

    /// Reads a data portion from exactly as many bytes as it takes.
    pub fn read_from_bytes(bytes: &[u8]) -> (data: Option<HclErrorPageData>)
        ensures
            data is Some <==> bytes@.len() == HCL_ERROR_PAGE_DATA_SIZE,
            data matches Some(data) ==> data@ == HclErrorPageDataView::from_bytes(bytes@),
            data is Some <==> bytes@.len() == 260,
            data matches Some(data) ==> forall|i: int|
                0 <= i < 4 ==> bytes@[i] as int == data.version as int
                    / power::pow(256, i as nat) % 256,
            data matches Some(data) ==> forall|i: int|
                4 <= i < 260 ==> bytes@[i] == data.message[i - 4],
    {
        if bytes.len() != HCL_ERROR_PAGE_DATA_SIZE {
            return None;
        }
        proof {
            wire::lemma_integer_widths();
            wire::lemma_le_bytes_of_le_value(bytes@.subrange(0, 4));
            wire::lemma_le_value_has_digits(bytes@.subrange(0, 4));
            assert forall|i: int| 0 <= i < 4 implies bytes@[i] == bytes@.subrange(0, 4)[i] by {}
        }
        let version = wire::u32_read_from_bytes(slice_subrange(bytes, 0, 4))?;
        let message = array_from_slice(slice_subrange(bytes, 4, HCL_ERROR_PAGE_DATA_SIZE));
        Some(HclErrorPageData { version, message })
    }
}

impl HclErrorInformationPage {
    /// The bytes of the page information, as VMWP reads them.
    pub fn as_bytes(&self) -> (bytes: Vec<u8>)
        ensures
            bytes@ == self@.bytes(),
            bytes@.len() == HCL_ERROR_INFORMATION_PAGE_SIZE,
            bytes@.len() == 312,
            forall|i: int|
                0 <= i < 8 ==> bytes@[i] as int == self.stop_code as int
                    / power::pow(256, i as nat) % 256,
            forall|i: int|
                8 <= i < 16 ==> bytes@[i] as int == self.parameter1 as int
                    / power::pow(256, (i - 8) as nat) % 256,
            forall|i: int|
                16 <= i < 24 ==> bytes@[i] as int == self.parameter2 as int
                    / power::pow(256, (i - 16) as nat) % 256,
            forall|i: int|
                24 <= i < 32 ==> bytes@[i] as int == self.parameter3 as int
                    / power::pow(256, (i - 24) as nat) % 256,
            forall|i: int|
                32 <= i < 40 ==> bytes@[i] as int == self.parameter4 as int
                    / power::pow(256, (i - 32) as nat) % 256,
            forall|i: int|
                40 <= i < 48 ==> bytes@[i] as int == self.signature as int
                    / power::pow(256, (i - 40) as nat) % 256,
            forall|i: int|
                48 <= i < 52 ==> bytes@[i] as int == self.data.version as int
                    / power::pow(256, (i - 48) as nat) % 256,
            forall|i: int| 52 <= i < 308 ==> bytes@[i] == self.data.message[i - 52],
            forall|i: int| 308 <= i < 312 ==> bytes@[i] == self._reserved[i - 308],
    {
        proof {
            lemma_where_fields_lie(self@);
            lemma_page_read_gives_back_write(self@);
        }
        let mut bytes = wire::u64_as_bytes(self.stop_code);
        bytes.append(&mut wire::u64_as_bytes(self.parameter1));
        bytes.append(&mut wire::u64_as_bytes(self.parameter2));
        bytes.append(&mut wire::u64_as_bytes(self.parameter3));
        bytes.append(&mut wire::u64_as_bytes(self.parameter4));
        bytes.append(&mut wire::u64_as_bytes(self.signature));
        bytes.append(&mut self.data.as_bytes());
        bytes.extend_from_slice(&self._reserved);
        assert(bytes@ =~= self@.bytes());
        bytes
    }

    /// Reads page information from exactly as many bytes as it takes.
    pub fn read_from_bytes(bytes: &[u8]) -> (page: Option<HclErrorInformationPage>)
        ensures
            page is Some <==> bytes@.len() == HCL_ERROR_INFORMATION_PAGE_SIZE,
            page matches Some(page) ==> page@ == HclErrorInformationPageView::from_bytes(bytes@),
            page is Some <==> bytes@.len() == 312,
            page matches Some(page) ==> forall|i: int|
                    0 <= i < 8 ==> bytes@[i] as int == page.stop_code as int
                        / power::pow(256, i as nat) % 256,
            page matches Some(page) ==> forall|i: int|
                    8 <= i < 16 ==> bytes@[i] as int == page.parameter1 as int
                        / power::pow(256, (i - 8) as nat) % 256,
            page matches Some(page) ==> forall|i: int|
                    16 <= i < 24 ==> bytes@[i] as int == page.parameter2 as int
                        / power::pow(256, (i - 16) as nat) % 256,
            page matches Some(page) ==> forall|i: int|
                    24 <= i < 32 ==> bytes@[i] as int == page.parameter3 as int
                        / power::pow(256, (i - 24) as nat) % 256,
            page matches Some(page) ==> forall|i: int|
                    32 <= i < 40 ==> bytes@[i] as int == page.parameter4 as int
                        / power::pow(256, (i - 32) as nat) % 256,
            page matches Some(page) ==> forall|i: int|
                    40 <= i < 48 ==> bytes@[i] as int == page.signature as int
                        / power::pow(256, (i - 40) as nat) % 256,
            page matches Some(page) ==> forall|i: int|
                    48 <= i < 52 ==> bytes@[i] as int == page.data.version as int
                        / power::pow(256, (i - 48) as nat) % 256,
            page matches Some(page) ==> forall|i: int|
                52 <= i < 308 ==> bytes@[i] == page.data.message[i - 52],
            page matches Some(page) ==> forall|i: int|
                308 <= i < 312 ==> bytes@[i] == page._reserved[i - 308],
    {
        if bytes.len() != HCL_ERROR_INFORMATION_PAGE_SIZE {
            return None;
        }
        proof {
            lemma_fields_read_where_they_lie(bytes@);
        }
        let stop_code = wire::u64_read_from_bytes(slice_subrange(bytes, 0, 8))?;
        let parameter1 = wire::u64_read_from_bytes(slice_subrange(bytes, 8, 16))?;
        let parameter2 = wire::u64_read_from_bytes(slice_subrange(bytes, 16, 24))?;
        let parameter3 = wire::u64_read_from_bytes(slice_subrange(bytes, 24, 32))?;
        let parameter4 = wire::u64_read_from_bytes(slice_subrange(bytes, 32, 40))?;
        let signature = wire::u64_read_from_bytes(slice_subrange(bytes, 40, 48))?;
        let data = HclErrorPageData::read_from_bytes(slice_subrange(bytes, 48, 308))?;
        let _reserved = array_from_slice(slice_subrange(bytes, 308, 312));
        Some(
            HclErrorInformationPage {
                stop_code,
                parameter1,
                parameter2,
                parameter3,
                parameter4,
                signature,
                data,
                _reserved,
            },
        )
    }
}

} // verus!
