use openhcl_boot::boot_logger::Level;
use openhcl_boot::build_config::BuildConfig;
use openhcl_boot::build_config::TargetArch;
use openhcl_boot::host_params::IsolationType;
use openhcl_boot::rt::init_error_info_page;
use openhcl_boot::rt::panic_step;
use openhcl_boot::rt::verify_stack_cookie;
use openhcl_boot::rt::CrashReport;
use openhcl_boot::rt::ErrorInfoPage;
use openhcl_boot::rt::PanicAction;
use openhcl_boot::rt::PanicEvent;
use openhcl_boot::rt::Stack;
use openhcl_boot::rt::STACK_COOKIE;
use openhcl_boot::rt::STACK_SIZE;

const X64: BuildConfig = BuildConfig {
    target_arch: TargetArch::X86_64,
    cvm_boot_log: false,
};

const ARM64: BuildConfig = BuildConfig {
    target_arch: TargetArch::Aarch64,
    cvm_boot_log: false,
};

const REPORT: PanicAction = PanicAction::Report(CrashReport { id: *b"OHCLBOOT" });

fn handle_panic(build: BuildConfig, page: &ErrorInfoPage, written: bool) -> Vec<PanicAction> {
    let mut actions = Vec::new();
    let mut event = PanicEvent::Started;
    loop {
        let action = panic_step(build, page, event);
        actions.push(action);
        event = match action {
            PanicAction::Log(_) => PanicEvent::Logged,
            PanicAction::FlushBootLog => PanicEvent::Flushed,
            PanicAction::WriteErrorInfoPage(_, _) => PanicEvent::ErrorInfoPage(written),
            PanicAction::Report(_) => PanicEvent::Reported,
            PanicAction::Fault => return actions,
        };
    }
}

#[test]
fn cookie_is_found() {
    let mut stack = Stack([0; STACK_SIZE]);
    assert!(!verify_stack_cookie(&stack.0));
    stack.0[..4].copy_from_slice(&STACK_COOKIE.to_le_bytes());
    assert!(verify_stack_cookie(&stack.0));
    assert!(verify_stack_cookie(&[0x60, 0x50, 0x40, 0x30]));
    assert!(!verify_stack_cookie(&[0x30, 0x40, 0x50, 0x60]));
    assert!(!verify_stack_cookie(&[0x60, 0x50, 0x40]));
    assert_eq!(STACK_SIZE, 32768);
}

#[test]
fn overrun_is_noticed() {
    let mut stack = Stack([7; STACK_SIZE]);
    stack.0[..4].copy_from_slice(&STACK_COOKIE.to_le_bytes());
    for i in 0..4 {
        stack.0[i] ^= 1;
        assert!(!verify_stack_cookie(&stack.0));
        stack.0[i] ^= 1;
    }
    stack.0[4] ^= 1;
    assert!(verify_stack_cookie(&stack.0));
}

#[test]
fn error_info_page_is_registered() {
    let mut page = ErrorInfoPage::new();
    assert_eq!(page.registered, None);
    init_error_info_page(&mut page, IsolationType::Tdx, 0x1000);
    assert_eq!(page.registered, Some((IsolationType::Tdx, 0x1000)));
    init_error_info_page(&mut page, IsolationType::Vbs, 0x2000);
    assert_eq!(page.registered, Some((IsolationType::Vbs, 0x2000)));
}

#[test]
fn panic_without_page_is_reported() {
    let page = ErrorInfoPage::new();
    for build in [X64, ARM64] {
        assert_eq!(
            handle_panic(build, &page, true),
            [
                PanicAction::Log(Level::Error),
                PanicAction::FlushBootLog,
                REPORT,
                PanicAction::Fault
            ]
        );
    }
}

#[test]
fn panic_goes_to_the_page() {
    let mut page = ErrorInfoPage::new();
    init_error_info_page(&mut page, IsolationType::Snp, 0x5000);
    assert_eq!(
        handle_panic(X64, &page, true),
        [
            PanicAction::Log(Level::Error),
            PanicAction::FlushBootLog,
            PanicAction::WriteErrorInfoPage(IsolationType::Snp, 0x5000),
            PanicAction::Fault
        ]
    );
}

#[test]
fn panic_falls_back_if_the_page_fails() {
    let mut page = ErrorInfoPage::new();
    init_error_info_page(&mut page, IsolationType::Snp, 0x5000);
    assert_eq!(
        handle_panic(X64, &page, false),
        [
            PanicAction::Log(Level::Error),
            PanicAction::FlushBootLog,
            PanicAction::WriteErrorInfoPage(IsolationType::Snp, 0x5000),
            REPORT,
            PanicAction::Fault
        ]
    );
}

#[test]
fn only_x86_64_has_the_page() {
    let mut page = ErrorInfoPage::new();
    init_error_info_page(&mut page, IsolationType::Vbs, 0x5000);
    assert_eq!(
        handle_panic(ARM64, &page, true),
        [
            PanicAction::Log(Level::Error),
            PanicAction::FlushBootLog,
            REPORT,
            PanicAction::Fault
        ]
    );
}

#[test]
fn report_addresses_are_identity_mapped() {
    let PanicAction::Report(report) =
        panic_step(X64, &ErrorInfoPage::new(), PanicEvent::Flushed)
    else {
        panic!("no report");
    };
    assert_eq!(report.id, *b"OHCLBOOT");
    for va in [0, 0x1000, 0x12345678] {
        assert_eq!(report.translate(va), Some(va as usize));
    }
}
