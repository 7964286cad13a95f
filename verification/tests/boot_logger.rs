use openhcl_boot::boot_logger::boot_logger_memory_init;
use openhcl_boot::boot_logger::boot_logger_panic_flush;
use openhcl_boot::boot_logger::boot_logger_runtime_init;
use openhcl_boot::boot_logger::boot_logger_set_isolation_type;
use openhcl_boot::boot_logger::log_buffer_region;
use openhcl_boot::boot_logger::BootLogger;
use openhcl_boot::boot_logger::ComInfo;
use openhcl_boot::boot_logger::IoAccess;
use openhcl_boot::boot_logger::Level;
use openhcl_boot::boot_logger::LogAction;
use openhcl_boot::boot_logger::LogRun;
use openhcl_boot::boot_logger::Logger;
use openhcl_boot::boot_logger::WriteError;
use openhcl_boot::build_config::BuildConfig;
use openhcl_boot::build_config::TargetArch;
use openhcl_boot::host_params::IsolationType;
use openhcl_boot::memory_range::MemoryRange;
use std::collections::BTreeMap;

const ISOLATION_TYPES: [IsolationType; 4] = [
    IsolationType::NotIsolated,
    IsolationType::Vbs,
    IsolationType::Snp,
    IsolationType::Tdx,
];

fn build(target_arch: TargetArch, cvm_boot_log: bool) -> BuildConfig {
    BuildConfig {
        target_arch,
        cvm_boot_log,
    }
}

fn x64() -> BootLogger {
    BootLogger::new(build(TargetArch::X86_64, false))
}

fn cvm() -> BootLogger {
    BootLogger::new(build(TargetArch::X86_64, true))
}

fn with_memory(mut boot_logger: BootLogger) -> BootLogger {
    boot_logger_memory_init(&mut boot_logger, MemoryRange::new(0x10000, 0x12000));
    boot_logger
}

/// A serial port and an in-memory log that never fail.
#[derive(Default)]
struct World {
    port: Option<IoAccess>,
    logs: BTreeMap<u64, String>,
    serial: String,
}

impl World {
    fn memory(&self) -> &str {
        &self.logs[&0x10000]
    }

    fn perform(&mut self, actions: &[LogAction<'_>]) {
        for action in actions {
            match *action {
                LogAction::InitSerial(access) => self.port = Some(access),
                LogAction::AppendInMemory(range, text) => {
                    self.logs.entry(range.start()).or_default().push_str(text);
                }
                LogAction::WriteSerial(access, text) => {
                    assert_eq!(self.port, Some(access));
                    self.serial.push_str(text);
                }
                LogAction::WriteInMemoryLog(access, range) => {
                    assert_eq!(self.port, Some(access));
                    let log = self.logs.entry(range.start()).or_default();
                    self.serial.push_str(log);
                }
            }
        }
    }
}

#[test]
fn new_logger_has_no_outputs() {
    let boot_logger = x64();
    assert_eq!(boot_logger.logger, Logger::NoOutput);
    assert!(boot_logger.in_memory_logger.is_none());
    assert_eq!(boot_logger.isolation_type, IsolationType::NotIsolated);
    assert!(boot_logger.write_str("lost").is_empty());
    assert!(boot_logger.log(Level::Error, &["lost"], true).is_empty());
}

#[test]
fn isolation_type_is_stored() {
    let mut boot_logger = x64();
    boot_logger_set_isolation_type(&mut boot_logger, IsolationType::Tdx);
    assert_eq!(boot_logger.isolation_type, IsolationType::Tdx);
    assert_eq!(boot_logger.logger, Logger::NoOutput);
}

#[test]
fn memory_range() {
    let range = MemoryRange::new(0x1000, 0x3000);
    assert_eq!(range.start(), 0x1000);
    assert_eq!(range.end(), 0x3000);
    assert_eq!(range.len(), 0x2000);
    assert!(!range.is_empty());
    assert!(MemoryRange::new(5, 5).is_empty());
}

#[test]
fn memory_init() {
    let range = MemoryRange::new(0x10000, 0x12000);
    assert_eq!(log_buffer_region(&range), Some((0x10000, 0x2000)));
    let boot_logger = with_memory(x64());
    let kept = boot_logger.in_memory_logger.unwrap();
    assert_eq!((kept.start(), kept.end()), (0x10000, 0x12000));
}

#[test]
fn memory_init_with_empty_range_changes_nothing() {
    let empty = MemoryRange::new(0x4000, 0x4000);
    assert_eq!(log_buffer_region(&empty), None);
    let mut boot_logger = x64();
    boot_logger_memory_init(&mut boot_logger, empty);
    assert!(boot_logger.in_memory_logger.is_none());
    let mut boot_logger = with_memory(boot_logger);
    boot_logger_memory_init(&mut boot_logger, empty);
    assert_eq!(boot_logger.in_memory_logger.unwrap().start(), 0x10000);
}

#[test]
fn runtime_loggers() {
    for isolation_type in ISOLATION_TYPES {
        for com_info in [ComInfo::Ns16550, ComInfo::Pl011, ComInfo::NotAvailable] {
            for target_arch in [TargetArch::X86_64, TargetArch::Aarch64] {
                for cvm_boot_log in [false, true] {
                    let mut boot_logger = BootLogger::new(build(target_arch, cvm_boot_log));
                    boot_logger_runtime_init(&mut boot_logger, isolation_type, com_info);
                    let usable =
                        target_arch == TargetArch::X86_64 && com_info == ComInfo::Ns16550;
                    let expected = match isolation_type {
                        _ if !usable => Logger::NoOutput,
                        IsolationType::NotIsolated => Logger::Serial,
                        IsolationType::Tdx if cvm_boot_log => Logger::TdxSerial,
                        IsolationType::Snp if cvm_boot_log => Logger::SnpSerial,
                        _ => Logger::NoOutput,
                    };
                    assert_eq!(boot_logger.logger, expected);
                }
            }
        }
    }
}

#[test]
fn runtime_init_actions() {
    let mut boot_logger = with_memory(cvm());
    let actions =
        boot_logger_runtime_init(&mut boot_logger, IsolationType::Tdx, ComInfo::Ns16550);
    assert!(matches!(
        actions[..],
        [
            LogAction::InitSerial(IoAccess::Tdx),
            LogAction::WriteInMemoryLog(IoAccess::Tdx, _)
        ]
    ));
    let actions = boot_logger_runtime_init(&mut boot_logger, IsolationType::Vbs, ComInfo::Ns16550);
    assert!(actions.is_empty());
    assert_eq!(boot_logger.logger, Logger::NoOutput);

    let mut boot_logger = x64();
    let actions = boot_logger_runtime_init(
        &mut boot_logger,
        IsolationType::NotIsolated,
        ComInfo::Ns16550,
    );
    assert!(matches!(
        actions[..],
        [LogAction::InitSerial(IoAccess::Instr)]
    ));
}

#[test]
fn writes_go_to_memory_then_serial() {
    let mut boot_logger = with_memory(cvm());
    assert!(matches!(
        boot_logger.write_str("a")[..],
        [LogAction::AppendInMemory(_, "a")]
    ));
    boot_logger_runtime_init(&mut boot_logger, IsolationType::Snp, ComInfo::Ns16550);
    assert!(matches!(
        boot_logger.write_str("b")[..],
        [
            LogAction::AppendInMemory(_, "b"),
            LogAction::WriteSerial(IoAccess::Snp, "b")
        ]
    ));
    boot_logger.in_memory_logger = None;
    assert!(matches!(
        boot_logger.write_str("c")[..],
        [LogAction::WriteSerial(IoAccess::Snp, "c")]
    ));
}

#[test]
fn logger_write_str() {
    assert!(Logger::NoOutput.write_str("x").is_none());
    assert!(matches!(
        Logger::Serial.write_str("x"),
        Some(LogAction::WriteSerial(IoAccess::Instr, "x"))
    ));
    assert!(matches!(
        Logger::TdxSerial.write_str("x"),
        Some(LogAction::WriteSerial(IoAccess::Tdx, "x"))
    ));
    assert!(matches!(
        Logger::SnpSerial.write_str("x"),
        Some(LogAction::WriteSerial(IoAccess::Snp, "x"))
    ));
    assert_eq!(Logger::NoOutput.io_access(), None);
    assert_eq!(Logger::TdxSerial.io_access(), Some(IoAccess::Tdx));
}

#[test]
fn records_of_every_level_are_logged_in_full() {
    for (level, name) in [
        (Level::Error, "ERROR"),
        (Level::Warn, "WARN"),
        (Level::Info, "INFO"),
        (Level::Debug, "DEBUG"),
        (Level::Trace, "TRACE"),
    ] {
        let mut boot_logger = with_memory(x64());
        let mut world = World::default();
        world.perform(&boot_logger_runtime_init(
            &mut boot_logger,
            IsolationType::NotIsolated,
            ComInfo::Ns16550,
        ));
        assert!(boot_logger.enabled(level));
        world.perform(&boot_logger.log(level, &["x = ", "1"], true));
        assert_eq!(world.memory(), format!("[{name}] x = 1\n"));
        assert_eq!(world.serial, world.memory());
    }
}

#[test]
fn record_that_fails_to_format_stays_open() {
    let boot_logger = with_memory(x64());
    let mut world = World::default();
    world.perform(&boot_logger.log(Level::Warn, &["half"], false));
    assert_eq!(world.memory(), "[WARN] half");
}

#[test]
fn pieces_reach_every_output() {
    let boot_logger = with_memory(x64());
    let mut whole = World::default();
    whole.perform(&boot_logger.log(Level::Info, &["abc"], true));
    let mut pieces = World::default();
    pieces.perform(&boot_logger.log(Level::Info, &["a", "", "bc"], true));
    assert_eq!(whole.memory(), pieces.memory());
}

#[test]
fn early_log_comes_out() {
    let mut boot_logger = with_memory(x64());
    let mut world = World::default();
    world.perform(&boot_logger.log(Level::Info, &["early"], true));
    assert_eq!(world.serial, "");
    world.perform(&boot_logger_runtime_init(
        &mut boot_logger,
        IsolationType::NotIsolated,
        ComInfo::Ns16550,
    ));
    world.perform(&boot_logger.log(Level::Info, &["late"], true));
    assert_eq!(world.serial, "[INFO] early\n[INFO] late\n");
    assert_eq!(world.memory(), world.serial);
}

#[test]
fn failures() {
    let failed = Err(WriteError);
    let range = MemoryRange::new(0, 1);
    assert_eq!(
        LogAction::WriteSerial(IoAccess::Instr, "x").outcome(failed),
        failed
    );
    assert_eq!(
        LogAction::WriteSerial(IoAccess::Instr, "x").outcome(Ok(())),
        Ok(())
    );
    assert_eq!(LogAction::AppendInMemory(range, "x").outcome(failed), Ok(()));
    assert_eq!(
        LogAction::WriteInMemoryLog(IoAccess::Snp, range).outcome(failed),
        Ok(())
    );
    assert_eq!(LogAction::InitSerial(IoAccess::Tdx).outcome(failed), Ok(()));
}

#[test]
fn panic_flush_before_runtime_init() {
    let mut boot_logger = with_memory(cvm());
    boot_logger_set_isolation_type(&mut boot_logger, IsolationType::Snp);
    let mut world = World::default();
    world.perform(&boot_logger.log(Level::Error, &["boom"], true));
    world.perform(&boot_logger_panic_flush(&mut boot_logger, true, true));
    assert_eq!(boot_logger.logger, Logger::SnpSerial);
    assert_eq!(world.port, Some(IoAccess::Snp));
    assert_eq!(world.serial, "[ERROR] boom\n");
}

#[test]
fn panic_flush_leaves_what_is_in_use_alone() {
    let mut boot_logger = with_memory(x64());
    assert!(boot_logger_panic_flush(&mut boot_logger, false, true).is_empty());
    assert_eq!(boot_logger.logger, Logger::NoOutput);
    let actions = boot_logger_panic_flush(&mut boot_logger, true, false);
    assert!(matches!(
        actions[..],
        [LogAction::InitSerial(IoAccess::Instr)]
    ));
    assert_eq!(boot_logger.logger, Logger::Serial);
}

#[test]
fn panic_flush_keeps_the_runtime_output() {
    let mut boot_logger = with_memory(cvm());
    boot_logger_runtime_init(&mut boot_logger, IsolationType::Tdx, ComInfo::Ns16550);
    boot_logger_set_isolation_type(&mut boot_logger, IsolationType::Snp);
    for _ in 0..2 {
        let actions = boot_logger_panic_flush(&mut boot_logger, true, true);
        assert!(matches!(
            actions[..],
            [LogAction::WriteInMemoryLog(IoAccess::Tdx, _)]
        ));
        assert_eq!(boot_logger.logger, Logger::TdxSerial);
    }
}

#[test]
fn last_resort_is_default_com3() {
    for isolation_type in ISOLATION_TYPES {
        for target_arch in [TargetArch::X86_64, TargetArch::Aarch64] {
            for cvm_boot_log in [false, true] {
                let mut runtime = BootLogger::new(build(target_arch, cvm_boot_log));
                boot_logger_runtime_init(&mut runtime, isolation_type, ComInfo::Ns16550);
                let mut panicked = BootLogger::new(build(target_arch, cvm_boot_log));
                boot_logger_set_isolation_type(&mut panicked, isolation_type);
                boot_logger_panic_flush(&mut panicked, true, true);
                assert_eq!(panicked.logger, runtime.logger);
            }
        }
    }
}

#[test]
fn port_is_ready_in_every_history() {
    let mut boot_logger = cvm();
    let mut world = World::default();
    world.perform(&boot_logger.write_str("1"));
    boot_logger = with_memory(boot_logger);
    world.perform(&boot_logger.write_str("2"));
    world.perform(&boot_logger_panic_flush(&mut boot_logger, true, true));
    world.perform(&boot_logger.write_str("3"));
    world.perform(&boot_logger_runtime_init(
        &mut boot_logger,
        IsolationType::Tdx,
        ComInfo::Ns16550,
    ));
    world.perform(&boot_logger.write_str("4"));
    world.perform(&boot_logger_runtime_init(
        &mut boot_logger,
        IsolationType::Tdx,
        ComInfo::NotAvailable,
    ));
    world.perform(&boot_logger.write_str("5"));
    world.perform(&boot_logger_panic_flush(&mut boot_logger, true, true));
    assert_eq!(world.memory(), "2345");
    assert_eq!(world.serial, "23234".to_string() + "2345");
}

#[test]
fn new_memory_starts_afresh() {
    let mut boot_logger = with_memory(x64());
    let mut world = World::default();
    world.perform(&boot_logger.write_str("first"));
    boot_logger_memory_init(&mut boot_logger, MemoryRange::new(0x20000, 0x21000));
    world.perform(&boot_logger.write_str("second"));
    assert_eq!(world.logs[&0x10000], "first");
    assert_eq!(world.logs[&0x20000], "second");
    world.perform(&boot_logger_runtime_init(
        &mut boot_logger,
        IsolationType::NotIsolated,
        ComInfo::Ns16550,
    ));
    assert_eq!(world.serial, "second");
}

/// Performs actions while the serial port takes `serial_writes` more writes and
/// then fails, and the in-memory log takes what `memory_takes` admits.
fn run_with_failures(
    world: &mut World,
    actions: Vec<LogAction<'_>>,
    serial_writes: &mut usize,
    memory_takes: impl Fn(&str) -> bool,
) -> Result<(), WriteError> {
    let mut run = LogRun::new(actions);
    while let Some(action) = run.action() {
        let done = match action {
            LogAction::WriteSerial(_, _) if *serial_writes == 0 => false,
            LogAction::WriteSerial(_, _) => {
                *serial_writes -= 1;
                true
            }
            LogAction::AppendInMemory(_, text) => memory_takes(text),
            _ => true,
        };
        if done {
            world.perform(&[action]);
        }
        run.report(if done { Ok(()) } else { Err(WriteError) });
    }
    run.report(Err(WriteError));
    run.outcome()
}

fn running() -> (BootLogger, World) {
    let mut boot_logger = with_memory(x64());
    let mut world = World::default();
    world.perform(&boot_logger_runtime_init(
        &mut boot_logger,
        IsolationType::NotIsolated,
        ComInfo::Ns16550,
    ));
    (boot_logger, world)
}

#[test]
fn failure_ends_the_write() {
    let fragments = ["[", "INFO", "] ", "a", "b", "\n"];
    for taken in 0..6 {
        let (boot_logger, mut world) = running();
        let actions = boot_logger.log(Level::Info, &["a", "b"], true);
        let result = run_with_failures(&mut world, actions, &mut taken.clone(), |_| true);
        assert_eq!(result, Err(WriteError));
        assert_eq!(world.memory(), fragments[..taken + 1].concat());
        assert_eq!(world.serial, fragments[..taken].concat());
    }
}

#[test]
fn write_without_failure() {
    let (boot_logger, mut world) = running();
    let actions = boot_logger.log(Level::Info, &["a", "b"], true);
    let result = run_with_failures(&mut world, actions, &mut 6, |_| true);
    assert_eq!(result, Ok(()));
    assert_eq!(world.memory(), "[INFO] ab\n");
    assert_eq!(world.serial, "[INFO] ab\n");
}

#[test]
fn in_memory_failures_are_ignored() {
    let (boot_logger, mut world) = running();
    let actions = boot_logger.log(Level::Info, &["a", "b"], true);
    let result = run_with_failures(&mut world, actions, &mut 6, |text| text != "a");
    assert_eq!(result, Ok(()));
    assert_eq!(world.memory(), "[INFO] b\n");
    assert_eq!(world.serial, "[INFO] ab\n");
}

#[test]
fn run_of_nothing_succeeds() {
    let run = LogRun::new(Vec::new());
    assert!(run.action().is_none());
    assert_eq!(run.outcome(), Ok(()));
}

#[test]
fn record_in_parts() {
    let (boot_logger, mut world) = running();
    world.perform(&boot_logger.log_start(Level::Debug));
    assert_eq!(world.serial, "[DEBUG] ");
    for fragment in ["x", " = ", "1"] {
        world.perform(&boot_logger.write_str(fragment));
    }
    world.perform(&boot_logger.log_end());
    let (boot_logger, mut whole) = running();
    whole.perform(&boot_logger.log(Level::Debug, &["x", " = ", "1"], true));
    assert_eq!(world.serial, whole.serial);
    assert_eq!(world.memory(), whole.memory());
}

#[test]
fn parts_stop_where_an_earlier_one_fails() {
    let (boot_logger, mut whole) = running();
    let actions = boot_logger.log(Level::Warn, &["a"], true);
    let all = run_with_failures(&mut whole, actions, &mut 1, |_| true);

    let (boot_logger, mut parts) = running();
    let mut serial_writes = 1;
    let start = run_with_failures(
        &mut parts,
        boot_logger.log_start(Level::Warn),
        &mut serial_writes,
        |_| true,
    );
    assert_eq!(start, all);
    assert_eq!(parts.memory(), whole.memory());
    assert_eq!(parts.serial, whole.serial);
}
