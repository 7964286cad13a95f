//! x86_64 architecture-specific logic.

use crate::hcl::HclErrorInformationPage;
use crate::hcl::HclErrorInformationPageView;
use crate::hcl::HclErrorPageData;
use crate::hcl::HclErrorPageDataView;
use crate::hcl::HCL_ERROR_INFORMATION_PAGE_SIZE;
use crate::hcl::HCL_ERROR_PAGE_DATA_VERSION_1;
use crate::hcl::HCL_TRIPLEFAULT_SIGNATURE;
use crate::host_params::IsolationType;
use crate::host_params::ShimParams;
use crate::message_writer;
use crate::message_writer::MessageWriter;
use vstd::arithmetic::power;
use vstd::prelude::*;

verus! {

/// Bytes in a page of the hypervisor.
pub const HV_PAGE_SIZE: usize = 4096;

/// The CPUID function that gives the largest extended function.
pub const CPUID_EXTENDED_MAX_FUNCTION: u32 = 0x80000000;

/// The CPUID function that gives the address space sizes.
pub const CPUID_EXTENDED_ADDRESS_SPACE_SIZES: u32 = 0x80000008;

/// The width of physical addresses where CPUID does not give it.
pub const DEFAULT_PHYSICAL_ADDRESS_SIZE: u8 = 32;

/// The registers that CPUID fills.
#[derive(Copy, Clone, Debug, PartialEq, Eq, Structural)]
pub struct CpuidResult {
    pub eax: u32,
    pub ebx: u32,
    pub ecx: u32,
    pub edx: u32,
}

/// The width of physical addresses, where `max_extended` is what CPUID gave for
/// its largest extended function and `sizes` what it gives for the address
/// space sizes, if it has that function.
pub open spec fn address_bits(max_extended: CpuidResult, sizes: CpuidResult) -> int {
    if max_extended.eax >= CPUID_EXTENDED_ADDRESS_SPACE_SIZES {
        sizes.eax as int % 256
    } else {
        DEFAULT_PHYSICAL_ADDRESS_SIZE as int
    }
}

/// Law: where CPUID has the function for the address space sizes, the width is
/// the low byte of the `eax` that it gives, for every `eax`; elsewhere it is 32.
/// Nothing else that CPUID gives has a say in it.
pub proof fn lemma_width_is_the_low_byte(max_extended: CpuidResult, sizes: CpuidResult)
    ensures
        max_extended.eax >= 0x80000008 ==> address_bits(max_extended, sizes) == (sizes.eax
            & 0xFF) as u8,
        max_extended.eax < 0x80000008 ==> address_bits(max_extended, sizes) == 32,
{
    let eax = sizes.eax;
    assert((eax & 0xFF) as u8 == eax % 256) by (bit_vector);
}

/// The width of physical addresses, in bits.
///
/// `cpuid` executes the CPUID instruction for a function and a subfunction. The
/// answer of a hardware-isolated partition's host can not be trusted. The
/// address space sizes are asked for only where CPUID has that function.
pub fn physical_address_bits<F: Fn(u32, u32) -> CpuidResult>(
    isolation: IsolationType,
    cpuid: F,
) -> (bits: u8)
    requires
        !isolation.hardware_isolated(),
        cpuid.requires((CPUID_EXTENDED_MAX_FUNCTION, 0u32)),
        forall|max_extended: CpuidResult|
            cpuid.ensures((CPUID_EXTENDED_MAX_FUNCTION, 0u32), max_extended) && max_extended.eax
                >= CPUID_EXTENDED_ADDRESS_SPACE_SIZES ==> cpuid.requires(
                (CPUID_EXTENDED_ADDRESS_SPACE_SIZES, 0u32),
            ),
    ensures
        exists|max_extended: CpuidResult, sizes: CpuidResult| #[trigger]
            address_bits(max_extended, sizes) == bits && cpuid.ensures(
                (CPUID_EXTENDED_MAX_FUNCTION, 0u32),
                max_extended,
            ) && (max_extended.eax >= CPUID_EXTENDED_ADDRESS_SPACE_SIZES ==> cpuid.ensures(
                (CPUID_EXTENDED_ADDRESS_SPACE_SIZES, 0u32),
                sizes,
            )),
        exists|max_extended: CpuidResult| #[trigger]
            cpuid.ensures((0x80000000u32, 0u32), max_extended) && (if max_extended.eax
                >= 0x80000008 {
                exists|sizes: CpuidResult| #[trigger]
                    cpuid.ensures((0x80000008u32, 0u32), sizes) && bits as int == sizes.eax as int
                        % 256
            } else {
                bits == 32
            }),
{
    let max_extended = cpuid(CPUID_EXTENDED_MAX_FUNCTION, 0);
    if max_extended.eax >= CPUID_EXTENDED_ADDRESS_SPACE_SIZES {
        let sizes = cpuid(CPUID_EXTENDED_ADDRESS_SPACE_SIZES, 0);
        let eax = sizes.eax;
        assert((eax & 0xFF) as u8 == eax % 256) by (bit_vector);
        assert(address_bits(max_extended, sizes) == eax % 256);
        (eax & 0xFF) as u8
    } else {
        assert(address_bits(max_extended, max_extended) == DEFAULT_PHYSICAL_ADDRESS_SIZE);
        DEFAULT_PHYSICAL_ADDRESS_SIZE
    }
}

/// The width of physical addresses, in bits, or nothing for a hardware-isolated
/// partition: there `cpuid` is not executed at all, so that no answer of the
/// host has a say in the result.
pub fn trusted_physical_address_bits<F: Fn(u32, u32) -> CpuidResult>(
    isolation: IsolationType,
    cpuid: F,
) -> (bits: Option<u8>)
    requires
        !isolation.hardware_isolated() ==> {
            &&& cpuid.requires((CPUID_EXTENDED_MAX_FUNCTION, 0u32))
            &&& forall|max_extended: CpuidResult|
                cpuid.ensures((CPUID_EXTENDED_MAX_FUNCTION, 0u32), max_extended)
                    && max_extended.eax >= CPUID_EXTENDED_ADDRESS_SPACE_SIZES ==> cpuid.requires(
                    (CPUID_EXTENDED_ADDRESS_SPACE_SIZES, 0u32),
                )
        },
    ensures
        bits is None <==> isolation.hardware_isolated(),
        bits matches Some(bits) ==> exists|max_extended: CpuidResult, sizes: CpuidResult|
            #[trigger] address_bits(max_extended, sizes) == bits && cpuid.ensures(
                (CPUID_EXTENDED_MAX_FUNCTION, 0u32),
                max_extended,
            ) && (max_extended.eax >= CPUID_EXTENDED_ADDRESS_SPACE_SIZES ==> cpuid.ensures(
                (CPUID_EXTENDED_ADDRESS_SPACE_SIZES, 0u32),
                sizes,
            )),
        bits is None <==> isolation == IsolationType::Snp || isolation == IsolationType::Tdx,
        bits matches Some(bits) ==> exists|max_extended: CpuidResult| #[trigger]
            cpuid.ensures((0x80000000u32, 0u32), max_extended) && (if max_extended.eax
                >= 0x80000008 {
                exists|sizes: CpuidResult| #[trigger]
                    cpuid.ensures((0x80000008u32, 0u32), sizes) && bits as int == sizes.eax as int
                        % 256
            } else {
                bits == 32
            }),
{
    if isolation.is_hardware_isolated() {
        None
    } else {
        Some(physical_address_bits(isolation, cpuid))
    }
}

/// A change to the GHCB page.
#[derive(Copy, Clone, Debug, PartialEq, Eq, Structural)]
pub enum GhcbAction {
    /// Set it up so that IOIO exits can be used for port I/O.
    Initialize,
    /// Restore it to its original private/accepted state.
    Uninitialize,
}

/// Whether the GHCB page is set up after `action`, given whether it was before.
pub open spec fn ghcb_set_up_after(set_up: bool, action: Option<GhcbAction>) -> bool {
    match action {
        Some(GhcbAction::Initialize) => true,
        Some(GhcbAction::Uninitialize) => false,
        None => set_up,
    }
}

/// What is needed before the boot shim can use serial logging.
pub open spec fn serial_io_setup(isolation_type: IsolationType) -> Option<GhcbAction> {
    if isolation_type == IsolationType::Snp {
        Some(GhcbAction::Initialize)
    } else {
        None
    }
}

/// What undoes [`serial_io_setup`].
pub open spec fn serial_io_teardown(isolation_type: IsolationType) -> Option<GhcbAction> {
    if isolation_type == IsolationType::Snp {
        Some(GhcbAction::Uninitialize)
    } else {
        None
    }
}

/// Law: tearing serial I/O down restores the GHCB page to the state that it had
/// before it was set up, and for an SNP partition the page is set up in between.
pub proof fn lemma_serial_io_teardown_undoes_setup(isolation_type: IsolationType)
    ensures
        !ghcb_set_up_after(
            ghcb_set_up_after(false, serial_io_setup(isolation_type)),
            serial_io_teardown(isolation_type),
        ),
        ghcb_set_up_after(false, serial_io_setup(isolation_type)) <==> isolation_type
            == IsolationType::Snp,
{
}

/// Law: an SNP partition, and no other, sets the GHCB page up before serial
/// logging and restores it afterwards.
pub proof fn lemma_only_snp_changes_the_ghcb(isolation_type: IsolationType)
    ensures
        isolation_type is Snp ==> serial_io_setup(isolation_type) == Some(GhcbAction::Initialize)
            && serial_io_teardown(isolation_type) == Some(GhcbAction::Uninitialize),
        !(isolation_type is Snp) ==> serial_io_setup(isolation_type) is None
            && serial_io_teardown(isolation_type) is None,
{
}

/// Perform any architecture and isolation-specific initialization required
/// before the boot shim can use serial logging. For SNP, this sets up the
/// GHCB page so that IOIO exits can be used for port I/O.
pub fn initialize_serial_io(p: &ShimParams) -> (action: Option<GhcbAction>)
    ensures
        action == serial_io_setup(p.isolation_type),
        p.isolation_type == IsolationType::Snp ==> action == Some(GhcbAction::Initialize),
        p.isolation_type != IsolationType::Snp ==> action is None,
{
    if p.isolation_type == IsolationType::Snp {
        Some(GhcbAction::Initialize)
    } else {
        None
    }
}

/// Tear down architecture and isolation-specific state set up by
/// [`initialize_serial_io`]. For SNP, this restores the GHCB page to its
/// original private/accepted state.
pub fn uninitialize_serial_io(p: &ShimParams) -> (action: Option<GhcbAction>)
    ensures
        action == serial_io_teardown(p.isolation_type),
        p.isolation_type == IsolationType::Snp ==> action == Some(GhcbAction::Uninitialize),
        p.isolation_type != IsolationType::Snp ==> action is None,
{
    if p.isolation_type == IsolationType::Snp {
        Some(GhcbAction::Uninitialize)
    } else {
        None
    }
}

/// The page information of a crash that `text` describes.
pub open spec fn crash_information(text: Seq<u8>) -> HclErrorInformationPageView {
    HclErrorInformationPageView {
        stop_code: 0,
        parameter1: 0,
        parameter2: 0,
        parameter3: 0,
        parameter4: 0,
        signature: HCL_TRIPLEFAULT_SIGNATURE,
        data: HclErrorPageDataView {
            version: HCL_ERROR_PAGE_DATA_VERSION_1,
            message: message_writer::null_terminated(text),
        },
        reserved: seq![0u8, 0, 0, 0],
    }
}

/// The contents of the error information page after a crash that `text`
/// describes: the page information, then zeros.
pub open spec fn crash_page(text: Seq<u8>) -> Seq<u8> {
    let bytes = crash_information(text).bytes();
    Seq::new(
        HV_PAGE_SIZE as nat,
        |i: int|
            if i < bytes.len() {
                bytes[i]
            } else {
                0u8
            },
    )
}

/// What VMWP surfaces of an error information page: nothing if the signature
/// does not match, else the message up to its terminator.
pub open spec fn surfaced_message(page: Seq<u8>) -> Option<Seq<u8>> {
    let information = HclErrorInformationPageView::from_bytes(
        page.take(HCL_ERROR_INFORMATION_PAGE_SIZE as int),
    );
    if information.signature == HCL_TRIPLEFAULT_SIGNATURE {
        Some(message_writer::c_string(information.data.message))
    } else {
        None
    }
}

/// Law: from the page that a crash leaves, VMWP reads exactly the page
/// information that was written, and surfaces the crash text in ASCII, cut to
/// what the message field holds, up to its first zero byte.
pub proof fn lemma_crash_text_is_surfaced(text: Seq<u8>)
    ensures
        ({
            let told = message_writer::ascii(text);
            let page = crash_page(told);
            &&& HclErrorInformationPageView::from_bytes(
                page.take(HCL_ERROR_INFORMATION_PAGE_SIZE as int),
            ) == crash_information(told)
            &&& surfaced_message(page) == Some(
                message_writer::c_string(message_writer::truncated(told)),
            )
            &&& !text.contains(0) ==> surfaced_message(page) == Some(
                message_writer::truncated(told),
            )
        }),
{
    let told = message_writer::ascii(text);
    crate::hcl::lemma_page_read_gives_back_write(crash_information(told));
    message_writer::lemma_message_reads_as_text(told);
    assert(crash_page(told).take(HCL_ERROR_INFORMATION_PAGE_SIZE as int)
        =~= crash_information(told).bytes());
    if !text.contains(0) {
        assert forall|i: int| 0 <= i < told.len() implies told[i] != 0 by {
            assert(text.contains(text[i]));
        }
    }
}

/// Law: every byte of the page that a crash leaves. The signature stands at byte
/// 40 and the version at byte 48. From byte 52 on there is the text, up to 255
/// bytes of it, with a question mark for each byte that is not ASCII. All the
/// rest is zero.
pub proof fn lemma_crash_page_byte_by_byte(text: Seq<u8>, page: Seq<u8>)
    requires
        page == crash_page(message_writer::ascii(text)),
    ensures
        page.len() == 4096,
        forall|i: int| 0 <= i < 40 ==> page[i] == 0,
        page[40] == 0x54 && page[41] == 0x4C && page[42] == 0x55 && page[43] == 0x41,
        page[44] == 0x46 && page[45] == 0x4C && page[46] == 0x43 && page[47] == 0x48,
        page[48] == 0 && page[49] == 1 && page[50] == 0 && page[51] == 0,
        forall|i: int|
            0 <= i < 255 && i < text.len() && text[i] < 128 ==> page[52 + i] == #[trigger] text[i],
        forall|i: int|
            0 <= i < 255 && i < text.len() && #[trigger] text[i] >= 128 ==> page[52 + i] == 63,
        forall|i: int| 52 + text.len() <= i < 4096 ==> page[i] == 0,
        forall|i: int| 307 <= i < 4096 ==> page[i] == 0,
{
    let told = message_writer::ascii(text);
    let information = crash_information(told);
    let bytes = information.bytes();
    crate::hcl::lemma_page_read_gives_back_write(information);
    crate::hcl::lemma_page_data_read_gives_back_write(information.data);
    crate::hcl::lemma_where_fields_lie(information);
    message_writer::lemma_null_terminated_byte_by_byte(told);
    message_writer::lemma_ascii_byte_by_byte(text);
    assert forall|i: int| 0 <= i < 40 implies page[i] == 0 by {
        let scale = power::pow(256, (i % 8) as nat);
        power::lemma_pow_positive(256, (i % 8) as nat);
        assert(0int / scale == 0) by (nonlinear_arith)
            requires
                scale > 0,
        ;
        assert(bytes[i] as int == 0int / scale % 256);
    }
    assert(page[40] == 0x54 && page[41] == 0x4C && page[42] == 0x55 && page[43] == 0x41
        && page[44] == 0x46 && page[45] == 0x4C && page[46] == 0x43 && page[47] == 0x48
        && page[48] == 0 && page[49] == 1 && page[50] == 0 && page[51] == 0) by {
        lemma_powers_of_256();
        let signature = 0x48434C4641554C54int;
        assert(signature / 0x1 % 256 == 0x54);
        assert(bytes[40] as int == signature / 0x1 % 256);
        assert(signature / 0x100 % 256 == 0x4C);
        assert(bytes[41] as int == signature / 0x100 % 256);
        assert(signature / 0x10000 % 256 == 0x55);
        assert(bytes[42] as int == signature / 0x10000 % 256);
        assert(signature / 0x1000000 % 256 == 0x41);
        assert(bytes[43] as int == signature / 0x1000000 % 256);
        assert(signature / 0x100000000 % 256 == 0x46);
        assert(bytes[44] as int == signature / 0x100000000 % 256);
        assert(signature / 0x10000000000 % 256 == 0x4C);
        assert(bytes[45] as int == signature / 0x10000000000 % 256);
        assert(signature / 0x1000000000000 % 256 == 0x43);
        assert(bytes[46] as int == signature / 0x1000000000000 % 256);
        assert(signature / 0x100000000000000 % 256 == 0x48);
        assert(bytes[47] as int == signature / 0x100000000000000 % 256);
        assert(bytes[48] as int == 0x100int / 0x1 % 256);
        assert(bytes[49] as int == 0x100int / 0x100 % 256);
        assert(bytes[50] as int == 0x100int / 0x10000 % 256);
        assert(bytes[51] as int == 0x100int / 0x1000000 % 256);
    }
}

/// The powers of 256 that scale the digits of an integer field.
proof fn lemma_powers_of_256()
    ensures
        power::pow(256, 0) == 1,
        power::pow(256, 1) == 0x100,
        power::pow(256, 2) == 0x10000,
        power::pow(256, 3) == 0x1000000,
        power::pow(256, 4) == 0x100000000,
        power::pow(256, 5) == 0x10000000000,
        power::pow(256, 6) == 0x1000000000000,
        power::pow(256, 7) == 0x100000000000000,
{
    reveal(power::pow);
    reveal_with_fuel(power::pow, 9);
}

/// Law: VMWP surfaces an ASCII crash text without a zero byte as it is, if it
/// has at most 255 bytes, and otherwise its first 255 bytes.
pub proof fn lemma_plain_crash_text_is_surfaced_whole(text: Seq<u8>)
    requires
        forall|i: int| 0 <= i < text.len() ==> 0 < #[trigger] text[i] < 128,
    ensures
        text.len() <= 255 ==> surfaced_message(crash_page(message_writer::ascii(text))) == Some(
            text,
        ),
        text.len() > 255 ==> surfaced_message(crash_page(message_writer::ascii(text))) == Some(
            text.take(255),
        ),
{
    lemma_crash_text_is_surfaced(text);
    message_writer::lemma_message_is_ascii(text);
    message_writer::lemma_text_is_kept_up_to_255_bytes(text);
}

/// Write a [`HclErrorInformationPage`] describing a panic to the HCL error
/// information page so VMWP's triple-fault handler can surface the message.
///
/// `panic` holds the fragments in which the panic was formatted. The message is
/// ASCII: what is not is replaced, byte by byte. The page is
/// host-owned and shared for the lifetime of the VM, so no page-table
/// manipulation is required.
///
/// The isolation type is retained for future use (e.g. TDX cache-attribute
/// handling) but is currently unused.
pub fn try_write_error_info_page(
    _isolation_type: IsolationType,
    info_page: &mut [u8; HV_PAGE_SIZE],
    panic: &[&str],
) -> (written: bool)
    ensures
        written,
        final(info_page)@ == crash_page(
            message_writer::ascii(message_writer::fragments_text(panic@)),
        ),
        forall|i: int| 0 <= i < 40 ==> final(info_page)@[i] == 0,
        final(info_page)@.subrange(40, 52) == seq![
            0x54u8, 0x4C, 0x55, 0x41, 0x46, 0x4C, 0x43, 0x48, 0, 1, 0, 0,
        ],
        forall|i: int|
            52 <= i < 307 && i < 52 + message_writer::fragments_text(panic@).len() ==> #[trigger]
            final(info_page)@[i] == ({
                let byte = message_writer::fragments_text(panic@)[i - 52];
                if byte < 128 {
                    byte
                } else {
                    63u8
                }
            }),
        forall|i: int|
            52 + message_writer::fragments_text(panic@).len() <= i < 4096 ==> final(info_page)@[i]
                == 0,
        forall|i: int| 307 <= i < 4096 ==> final(info_page)@[i] == 0,
{
    let mut writer = MessageWriter::new();
    let mut i: usize = 0;
    while i < panic.len()
        invariant
            i <= panic@.len(),
            writer@ == message_writer::truncated(
                message_writer::ascii(message_writer::fragments_text(panic@.take(i as int))),
            ),
        decreases panic.len() - i,
    {
        proof {
            let written = panic@.take(i as int);
            assert(panic@.take(i + 1).drop_last() =~= written);
            message_writer::lemma_message_ignores_pieces(
                message_writer::fragments_text(written),
                vstd::utf8::encode_utf8(panic@[i as int]@),
            );
        }
        writer.write_str(panic[i]);
        i += 1;
    }
    let ghost text = message_writer::ascii(message_writer::fragments_text(panic@));
    assert(panic@.take(i as int) =~= panic@);
    let info = HclErrorInformationPage {
        stop_code: 0,
        parameter1: 0,
        parameter2: 0,
        parameter3: 0,
        parameter4: 0,
        signature: HCL_TRIPLEFAULT_SIGNATURE,
        data: HclErrorPageData {
            version: HCL_ERROR_PAGE_DATA_VERSION_1,
            message: writer.message(),
        },
        _reserved: [0, 0, 0, 0],
    };
    assert(info@.data.message =~= message_writer::null_terminated(text));
    assert(info@ =~= crash_information(text));
    let bytes = info.as_bytes();
    let mut k: usize = 0;
    while k < HV_PAGE_SIZE
        invariant
            k <= HV_PAGE_SIZE,
            info_page@.len() == HV_PAGE_SIZE,
            forall|j: int| 0 <= j < k ==> info_page@[j] == 0,
        decreases HV_PAGE_SIZE - k,
    {
        info_page[k] = 0;
        k += 1;
    }
    let mut k: usize = 0;
    while k < bytes.len()
        invariant
            k <= bytes@.len() == HCL_ERROR_INFORMATION_PAGE_SIZE,
            info_page@.len() == HV_PAGE_SIZE,
            forall|j: int| 0 <= j < k ==> info_page@[j] == bytes@[j],
            forall|j: int| k <= j < HV_PAGE_SIZE ==> info_page@[j] == 0,
        decreases bytes.len() - k,
    {
        info_page[k] = bytes[k];
        k += 1;
    }
    assert(info_page@ =~= crash_page(text));
    proof {
        let all = message_writer::fragments_text(panic@);
        lemma_crash_page_byte_by_byte(all, info_page@);
        assert forall|i: int| 52 <= i < 307 && i < 52 + all.len() implies info_page@[i] == ({
            if all[i - 52] < 128 {
                all[i - 52]
            } else {
                63u8
            }
        }) by {
            assert(info_page@[52 + (i - 52)] == info_page@[i]);
        }
    }
    true
}

} // verus!
