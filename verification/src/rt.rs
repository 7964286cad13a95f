//! Architecture-independent runtime support.

use crate::boot_logger::Level;
use crate::build_config::BuildConfig;
use crate::build_config::TargetArch;
use crate::host_params::IsolationType;
use crate::wire;
use vstd::prelude::*;
use vstd::slice::slice_subrange;

verus! {

/// The size of the boot stack. This must match the hardcoded value set at the
/// entry point in the asm.
pub const STACK_SIZE: usize = 32768;

/// What the entry point leaves at the far end of the boot stack.
pub const STACK_COOKIE: u32 = 0x30405060;

/// The boot stack. It grows down, towards the cookie in its first bytes.
pub struct Stack(pub [u8; STACK_SIZE]);

impl View for Stack {
    type V = Seq<u8>;

    open spec fn view(&self) -> Seq<u8> {
        self.0@
    }
}

/// Whether the cookie is in place in the first bytes of `stack`.
pub open spec fn cookie_present(stack: Seq<u8>) -> bool {
    stack.len() >= 4 && stack.take(4) == wire::le_bytes(STACK_COOKIE as nat, 4)
}

/// Law: whatever part of the stack is looked at, the cookie is present if and
/// only if it starts with the bytes 0x60, 0x50, 0x40, 0x30.
pub proof fn lemma_cookie_is_these_four_bytes(stack: Seq<u8>)
    ensures
        cookie_present(stack) <==> stack.len() >= 4 && stack[0] == 0x60 && stack[1] == 0x50
            && stack[2] == 0x40 && stack[3] == 0x30,
{
    reveal_with_fuel(wire::le_bytes, 5);
    let cookie = wire::le_bytes(STACK_COOKIE as nat, 4);
    wire::lemma_le_bytes_len(STACK_COOKIE as nat, 4);
    assert(cookie[0] == 0x60 && cookie[1] == 0x50 && cookie[2] == 0x40 && cookie[3] == 0x30);
    if stack.len() >= 4 {
        let start = stack.take(4);
        assert(start[0] == stack[0] && start[1] == stack[1] && start[2] == stack[2] && start[3]
            == stack[3]);
        if stack[0] == 0x60 && stack[1] == 0x50 && stack[2] == 0x40 && stack[3] == 0x30 {
            assert(start =~= cookie);
        }
    }
}

/// Law: an overrun that changes any of the cookie's bytes is noticed, and
/// nothing else on the stack matters.
pub proof fn lemma_overrun_is_noticed(before: Stack, after: Stack)
    requires
        cookie_present(before@),
    ensures
        cookie_present(after@) <==> forall|i: int| 0 <= i < 4 ==> after@[i] == before@[i],
{
    if forall|i: int| 0 <= i < 4 ==> after@[i] == before@[i] {
        assert(after@.take(4) =~= before@.take(4));
    }
    if cookie_present(after@) {
        assert forall|i: int| 0 <= i < 4 implies after@[i] == before@[i] by {
            assert(after@.take(4)[i] == before@.take(4)[i]);
        }
    }
}

/// Validate the stack cookie is still present: `false` means that the stack was
/// overrun, and that it is not safe to go on. Of the stack, only the bytes that
/// hold the cookie need to be handed over.
pub fn verify_stack_cookie(stack: &[u8]) -> (present: bool)
    ensures
        present == cookie_present(stack@),
        present <==> stack@.len() >= 4 && stack@[0] == 0x60 && stack@[1] == 0x50 && stack@[2]
            == 0x40 && stack@[3] == 0x30,
{
    if stack.len() < 4 {
        return false;
    }
    let first = wire::u32_read_from_bytes(slice_subrange(stack, 0, 4));
    proof {
        wire::lemma_integer_widths();
        wire::lemma_le_bytes_of_le_value(stack@.take(4));
        wire::lemma_le_value_of_le_bytes(STACK_COOKIE as nat, 4);
        assert(stack@.subrange(0, 4) =~= stack@.take(4));
        lemma_cookie_is_these_four_bytes(stack@);
    }
    first == Some(STACK_COOKIE)
}

/// Location of the HCL error information page (identity-mapped VA). Nothing
/// being registered means either no page was reserved by the loader or the
/// panic handler should not attempt to use it; in that case the handler falls
/// back to the standard enlightened-panic MSR path.
#[derive(Copy, Clone, Debug)]
pub struct ErrorInfoPage {
    /// The isolation type and the address of the page, once registered.
    pub registered: Option<(IsolationType, u64)>,
}

impl ErrorInfoPage {
    /// No page is registered.
    pub fn new() -> (page: ErrorInfoPage)
        ensures
            page.registered is None,
    {
        ErrorInfoPage { registered: None }
    }
}

/// Register the HCL error information page used by the panic handler to
/// report crashes to VMWP via the `IGVM_VHS_ERROR_RANGE` contract.
///
/// Must be called before anything that could panic. `info_page_va` is
/// identity-mapped so VA == PA.
pub fn init_error_info_page(
    error_info_page: &mut ErrorInfoPage,
    isolation_type: IsolationType,
    info_page_va: u64,
)
    ensures
        final(error_info_page).registered == Some((isolation_type, info_page_va)),
{
    error_info_page.registered = Some((isolation_type, info_page_va));
}

/// What the panic handler has just done.
#[derive(Copy, Clone, Debug, PartialEq, Eq, Structural)]
pub enum PanicEvent {
    /// It was entered.
    Started,
    /// It logged the panic.
    Logged,
    /// It flushed the boot log.
    Flushed,
    /// It tried to write the error information page, with this result.
    ErrorInfoPage(bool),
    /// It reported the panic through the guest crash MSRs.
    Reported,
}

/// A report of a panic through the guest crash MSRs.
#[derive(Copy, Clone, Debug, PartialEq, Eq)]
pub struct CrashReport {
    /// Who makes the report.
    pub id: [u8; 8],
}

/// The report that the boot shim makes: its id spells "OHCLBOOT".
pub open spec fn boot_crash_report() -> CrashReport {
    CrashReport { id: [0x4Fu8, 0x48u8, 0x43u8, 0x4Cu8, 0x42u8, 0x4Fu8, 0x4Fu8, 0x54u8] }
}

impl CrashReport {
    /// The physical address of what the report finds at `va`. The stack is
    /// identity mapped.
    pub fn translate(&self, va: u64) -> (pa: Option<usize>)
        ensures
            pa == Some(va as usize),
            va <= usize::MAX ==> (pa matches Some(pa) && pa == va),
    {
        Some(va as usize)
    }
}

/// What the panic handler does next.
#[derive(Copy, Clone, Debug, PartialEq, Eq)]
pub enum PanicAction {
    /// Log the panic, as one record of this level.
    Log(Level),
    /// Flush the boot log.
    FlushBootLog,
    /// Try to write the error information page.
    WriteErrorInfoPage(IsolationType, u64),
    /// Report the panic through the guest crash MSRs.
    Report(CrashReport),
    /// Fault; this ends the shim.
    Fault,
}

/// What the panic handler does next, if `registered` is the error information
/// page that it may use.
pub open spec fn panic_action(
    build: BuildConfig,
    registered: Option<(IsolationType, u64)>,
    event: PanicEvent,
) -> PanicAction {
    match event {
        PanicEvent::Started => PanicAction::Log(Level::Error),
        PanicEvent::Logged => PanicAction::FlushBootLog,
        PanicEvent::Flushed => match registered {
            Some((isolation_type, info_page)) if build.target_arch == TargetArch::X86_64 => {
                PanicAction::WriteErrorInfoPage(isolation_type, info_page)
            },
            _ => PanicAction::Report(boot_crash_report()),
        },
        PanicEvent::ErrorInfoPage(written) => if written {
            PanicAction::Fault
        } else {
            PanicAction::Report(boot_crash_report())
        },
        PanicEvent::Reported => PanicAction::Fault,
    }
}

/// Law: what each event leads to. Only a registered page on x86_64 is written,
/// and it is the registered one; a page that was written, or a report, leads to
/// the fault; everything else after the flush leads to a report, and its id
/// spells "OHCLBOOT".
pub proof fn lemma_what_each_event_leads_to(
    build: BuildConfig,
    isolation_type: IsolationType,
    info_page: u64,
    registered: Option<(IsolationType, u64)>,
)
    ensures
        panic_action(build, registered, PanicEvent::Started) == PanicAction::Log(Level::Error),
        panic_action(build, registered, PanicEvent::Logged) == PanicAction::FlushBootLog,
        panic_action(build, registered, PanicEvent::Flushed) == PanicAction::WriteErrorInfoPage(
            isolation_type,
            info_page,
        ) <==> build.target_arch is X86_64 && registered == Some((isolation_type, info_page)),
        panic_action(build, registered, PanicEvent::Flushed) is Report <==> build.target_arch
            is Aarch64 || registered is None,
        panic_action(build, registered, PanicEvent::ErrorInfoPage(true)) == PanicAction::Fault,
        panic_action(build, registered, PanicEvent::ErrorInfoPage(false)) is Report,
        panic_action(build, registered, PanicEvent::Reported) == PanicAction::Fault,
        forall|event: PanicEvent| (#[trigger] panic_action(build, registered, event))
            matches PanicAction::Report(report) ==> report.id@ == seq![
            0x4Fu8, 0x48, 0x43, 0x4C, 0x42, 0x4F, 0x4F, 0x54,
        ],
{
    assert(boot_crash_report().id@ =~= seq![0x4Fu8, 0x48, 0x43, 0x4C, 0x42, 0x4F, 0x4F, 0x54]);
}

/// Decides what the panic handler does next.
///
/// The handler logs the panic and flushes the boot log. Then it tries to publish
/// the panic via the HCL error information page. On success VMWP surfaces the
/// message when the subsequent triple fault is caught; on failure the handler
/// falls back to the guest crash MSRs so the host still sees *something*.
pub fn panic_step(
    build: BuildConfig,
    error_info_page: &ErrorInfoPage,
    event: PanicEvent,
) -> (action: PanicAction)
    ensures
        action == panic_action(build, error_info_page.registered, event),
        event is Started ==> action == PanicAction::Log(Level::Error),
        event is Logged ==> action == PanicAction::FlushBootLog,
        event is Flushed ==> (match error_info_page.registered {
            Some((isolation_type, info_page)) => build.target_arch == TargetArch::X86_64 ==> action
                == PanicAction::WriteErrorInfoPage(isolation_type, info_page),
            None => action is Report,
        }),
        event is Flushed && build.target_arch != TargetArch::X86_64 ==> action is Report,
        event == PanicEvent::ErrorInfoPage(true) ==> action == PanicAction::Fault,
        event == PanicEvent::ErrorInfoPage(false) ==> action is Report,
        event is Reported ==> action == PanicAction::Fault,
        action matches PanicAction::Report(report) ==> report.id@ == seq![
            0x4Fu8, 0x48, 0x43, 0x4C, 0x42, 0x4F, 0x4F, 0x54,
        ],
{
    let report = CrashReport { id: [0x4F, 0x48, 0x43, 0x4C, 0x42, 0x4F, 0x4F, 0x54] };
    assert(report.id@ =~= boot_crash_report().id@);
    match event {
        PanicEvent::Started => PanicAction::Log(Level::Error),
        PanicEvent::Logged => PanicAction::FlushBootLog,
        PanicEvent::Flushed => {
            if build.target_arch == TargetArch::X86_64 {
                if let Some((isolation_type, info_page)) = error_info_page.registered {
                    return PanicAction::WriteErrorInfoPage(isolation_type, info_page);
                }
            }
            PanicAction::Report(report)
        },
        PanicEvent::ErrorInfoPage(written) => if written {
            PanicAction::Fault
        } else {
            PanicAction::Report(report)
        },
        PanicEvent::Reported => PanicAction::Fault,
    }
}

/// The event that follows `action`, if writing the page gives `written`.
pub open spec fn panic_event_after(action: PanicAction, written: bool) -> PanicEvent {
    match action {
        PanicAction::Log(_) => PanicEvent::Logged,
        PanicAction::FlushBootLog => PanicEvent::Flushed,
        PanicAction::WriteErrorInfoPage(_, _) => PanicEvent::ErrorInfoPage(written),
        PanicAction::Report(_) => PanicEvent::Reported,
        PanicAction::Fault => PanicEvent::Reported,
    }
}

/// What the panic handler does from `event` on, up to the fault; `steps` limits
/// how far it is followed.
pub open spec fn panic_actions(
    build: BuildConfig,
    registered: Option<(IsolationType, u64)>,
    event: PanicEvent,
    written: bool,
    steps: nat,
) -> Seq<PanicAction>
    decreases steps,
{
    let action = panic_action(build, registered, event);
    if steps == 0 {
        Seq::empty()
    } else if action == PanicAction::Fault {
        seq![action]
    } else {
        seq![action] + panic_actions(
            build,
            registered,
            panic_event_after(action, written),
            written,
            (steps - 1) as nat,
        )
    }
}

/// Law: every panic is first logged, as one record of level Error, then the boot
/// log is flushed, then the host is told, and in the end the shim faults. The
/// host is told by the error information page exactly if one is registered, the
/// architecture has it and it was written; otherwise, and only then, it is told
/// by one report of the boot shim through the guest crash MSRs.
pub proof fn lemma_host_sees_every_panic(
    build: BuildConfig,
    registered: Option<(IsolationType, u64)>,
    written: bool,
    steps: nat,
)
    requires
        steps >= 5,
    ensures
        ({
            let actions = panic_actions(build, registered, PanicEvent::Started, written, steps);
            let usable = build.target_arch == TargetArch::X86_64 && registered is Some;
            let (isolation_type, info_page) = registered->0;
            let start = seq![PanicAction::Log(Level::Error), PanicAction::FlushBootLog];
            let page = if usable {
                seq![PanicAction::WriteErrorInfoPage(isolation_type, info_page)]
            } else {
                Seq::empty()
            };
            let report = if usable && written {
                Seq::empty()
            } else {
                seq![PanicAction::Report(boot_crash_report())]
            };
            actions == start + page + report + seq![PanicAction::Fault]
        }),
{
    reveal_with_fuel(panic_actions, 6);
    let actions = panic_actions(build, registered, PanicEvent::Started, written, steps);
    let usable = build.target_arch == TargetArch::X86_64 && registered is Some;
    let log = PanicAction::Log(Level::Error);
    let flush = PanicAction::FlushBootLog;
    let report = PanicAction::Report(boot_crash_report());
    let fault = PanicAction::Fault;
    if usable {
        let (isolation_type, info_page) = registered->0;
        let write = PanicAction::WriteErrorInfoPage(isolation_type, info_page);
        if written {
            assert(actions =~= seq![log, flush, write, fault]);
        } else {
            assert(actions =~= seq![log, flush, write, report, fault]);
        }
    } else {
        assert(actions =~= seq![log, flush, report, fault]);
    }
}

} // verus!
