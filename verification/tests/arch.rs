use openhcl_boot::arch::initialize_serial_io;
use openhcl_boot::arch::physical_address_bits;
use openhcl_boot::arch::trusted_physical_address_bits;
use openhcl_boot::arch::uninitialize_serial_io;
use openhcl_boot::arch::CpuidResult;
use openhcl_boot::arch::GhcbAction;
use openhcl_boot::host_params::IsolationType;
use openhcl_boot::host_params::ShimParams;
use std::cell::RefCell;

fn eax(eax: u32) -> CpuidResult {
    CpuidResult {
        eax,
        ebx: 0x11,
        ecx: 0x22,
        edx: 0x33,
    }
}

#[test]
fn address_bits_from_cpuid() {
    let asked = RefCell::new(Vec::new());
    let bits = physical_address_bits(IsolationType::NotIsolated, |function, subfunction| {
        asked.borrow_mut().push((function, subfunction));
        match function {
            0x80000000 => eax(0x8000001F),
            _ => eax(0x00003930),
        }
    });
    assert_eq!(bits, 0x30);
    assert_eq!(*asked.borrow(), [(0x80000000, 0), (0x80000008, 0)]);
}

#[test]
fn address_bits_at_the_limit() {
    let bits = physical_address_bits(IsolationType::Vbs, |function, _| match function {
        0x80000000 => eax(0x80000008),
        _ => eax(0xFFFFFF2E),
    });
    assert_eq!(bits, 46);
}

#[test]
fn address_bits_default() {
    let asked = RefCell::new(Vec::new());
    let bits = physical_address_bits(IsolationType::Vbs, |function, subfunction| {
        asked.borrow_mut().push((function, subfunction));
        eax(0x80000007)
    });
    assert_eq!(bits, 32);
    assert_eq!(*asked.borrow(), [(0x80000000, 0)]);
}

#[test]
fn serial_io_needs_the_ghcb_on_snp_only() {
    let snp = ShimParams {
        isolation_type: IsolationType::Snp,
    };
    assert_eq!(initialize_serial_io(&snp), Some(GhcbAction::Initialize));
    assert_eq!(uninitialize_serial_io(&snp), Some(GhcbAction::Uninitialize));
    for isolation_type in [
        IsolationType::NotIsolated,
        IsolationType::Vbs,
        IsolationType::Tdx,
    ] {
        let p = ShimParams { isolation_type };
        assert_eq!(initialize_serial_io(&p), None);
        assert_eq!(uninitialize_serial_io(&p), None);
    }
}

#[test]
fn hardware_isolation() {
    assert!(!IsolationType::NotIsolated.is_hardware_isolated());
    assert!(!IsolationType::Vbs.is_hardware_isolated());
    assert!(IsolationType::Snp.is_hardware_isolated());
    assert!(IsolationType::Tdx.is_hardware_isolated());
}

#[test]
fn hardware_isolated_partitions_do_not_ask_the_host() {
    for isolation in [IsolationType::Snp, IsolationType::Tdx] {
        let bits = trusted_physical_address_bits(isolation, |_, _| panic!("cpuid was executed"));
        assert_eq!(bits, None);
    }
    for isolation in [IsolationType::NotIsolated, IsolationType::Vbs] {
        let bits = trusted_physical_address_bits(isolation, |function, _| match function {
            0x80000000 => eax(0x80000008),
            _ => eax(0x0000302B),
        });
        assert_eq!(bits, Some(43));
    }
}
