//! Logging support for the bootshim.
//!
//! The bootshim performs no filtering of its logging messages when running in
//! a confidential VM. This is because it runs before any keys can be accessed
//! or any guest code is executed, and therefore it can not leak anything
//! sensitive.
//!
//! The functions here decide; the serial port and the in-memory log are reached
//! by performing the [`LogAction`]s that they return. A [`LogRun`] says which
//! one is next: they are performed in order, up to the first whose failure
//! counts.

use crate::build_config::BuildConfig;
use crate::build_config::TargetArch;
use crate::host_params::IsolationType;
use crate::memory_range::MemoryRange;
use vstd::prelude::*;

verus! {

/// The COM port that the host describes for logging.
#[derive(Copy, Clone, Debug, PartialEq, Eq, Structural)]
pub enum ComInfo {
    /// A 16550-compatible UART.
    Ns16550,
    /// An Arm PrimeCell UART.
    Pl011,
    /// No port that can be used.
    NotAvailable,
}

/// How the serial port's registers are accessed.
#[derive(Copy, Clone, Debug, PartialEq, Eq, Structural)]
pub enum IoAccess {
    /// Port I/O instructions.
    Instr,
    /// TDX hypercalls.
    Tdx,
    /// SNP GHCB exits.
    Snp,
}

/// The runtime output of the boot logger.
#[derive(Copy, Clone, Debug, PartialEq, Eq, Structural)]
pub enum Logger {
    /// The serial port, by port I/O instructions.
    Serial,
    /// The serial port, from inside a TDX partition.
    TdxSerial,
    /// The serial port, from inside an SNP partition.
    SnpSerial,
    /// No output.
    NoOutput,
}

/// The severity of a log record.
#[derive(Copy, Clone, Debug, PartialEq, Eq, Structural)]
pub enum Level {
    Error,
    Warn,
    Info,
    Debug,
    Trace,
}

/// A piece of outside work that logging asks for.
#[derive(Copy, Clone, Debug)]
pub enum LogAction<'a> {
    /// Initialize the serial port.
    InitSerial(IoAccess),
    /// Append text to the in-memory log in this range.
    AppendInMemory(MemoryRange, &'a str),
    /// Write text to the serial port.
    WriteSerial(IoAccess, &'a str),
    /// Write the contents of the in-memory log in this range to the serial port.
    WriteInMemoryLog(IoAccess, MemoryRange),
}

/// A piece of outside work could not be done.
#[derive(Copy, Clone, Debug, PartialEq, Eq, Structural)]
pub struct WriteError;

/// What a [`LogAction`] does.
pub enum LogEffect {
    InitSerial(IoAccess),
    AppendInMemory(MemoryRange, Seq<char>),
    WriteSerial(IoAccess, Seq<char>),
    WriteInMemoryLog(IoAccess, MemoryRange),
}

impl<'a> View for LogAction<'a> {
    type V = LogEffect;

    open spec fn view(&self) -> LogEffect {
        match self {
            LogAction::InitSerial(access) => LogEffect::InitSerial(*access),
            LogAction::AppendInMemory(range, text) => LogEffect::AppendInMemory(*range, text@),
            LogAction::WriteSerial(access, text) => LogEffect::WriteSerial(*access, text@),
            LogAction::WriteInMemoryLog(access, range) => LogEffect::WriteInMemoryLog(
                *access,
                *range,
            ),
        }
    }
}

/// What `actions` do, in order.
pub open spec fn effects(actions: Seq<LogAction>) -> Seq<LogEffect> {
    Seq::new(actions.len(), |i: int| actions[i]@)
}

impl LogEffect {
    /// Whether logging takes notice of a failure of this effect.
    pub open spec fn failure_counts(self) -> bool {
        self is WriteSerial
    }
}

impl<'a> LogAction<'a> {
    /// What the result of performing this action means for the write that it
    /// is a part of: failures of the in-memory log, and of writing its contents
    /// out, are ignored.
    pub fn outcome(&self, result: Result<(), WriteError>) -> (outcome: Result<(), WriteError>)
        ensures
            outcome is Err <==> self@.failure_counts() && result is Err,
            *self is WriteSerial ==> outcome == result,
            !(*self is WriteSerial) ==> outcome is Ok,
    {
        match self {
            LogAction::WriteSerial(_, _) => result,
            _ => Ok(()),
        }
    }
}

/// Whether one of `effects` fails in a way that counts. `done` says of each
/// effect whether it can be done.
pub open spec fn write_fails(effects: Seq<LogEffect>, done: Seq<bool>) -> bool {
    exists|i: int|
        0 <= i < effects.len() && !done[i] && (#[trigger] effects[i]).failure_counts()
}

/// Those of `effects` that are performed: all up to and including the first
/// whose failure counts.
pub open spec fn performed(effects: Seq<LogEffect>, done: Seq<bool>) -> Seq<LogEffect>
    decreases effects.len(),
{
    if effects.len() == 0 {
        effects
    } else if write_fails(effects.drop_last(), done) {
        performed(effects.drop_last(), done)
    } else {
        effects
    }
}

/// How far a [`LogRun`] has come.
pub struct LogRunView {
    /// What the run is to do.
    pub effects: Seq<LogEffect>,
    /// How much of it was performed.
    pub next: nat,
    /// Whether a failure that counts has ended it.
    pub failed: bool,
}

impl LogRunView {
    /// A run of which nothing was performed yet.
    pub open spec fn start(effects: Seq<LogEffect>) -> LogRunView {
        LogRunView { effects, next: 0, failed: false }
    }

    /// What is to be performed next, unless the run has ended.
    pub open spec fn current(self) -> Option<LogEffect> {
        if !self.failed && self.next < self.effects.len() {
            Some(self.effects[self.next as int])
        } else {
            None
        }
    }

    /// The run once its next effect was performed, and could be done or not. A
    /// run that has ended stays as it is.
    pub open spec fn after(self, done: bool) -> LogRunView {
        match self.current() {
            Some(effect) => LogRunView {
                effects: self.effects,
                next: self.next + 1,
                failed: effect.failure_counts() && !done,
            },
            None => self,
        }
    }

    /// The run over `effects` once it was told `count` times how its next effect
    /// went.
    pub open spec fn after_all(effects: Seq<LogEffect>, done: Seq<bool>, count: nat) -> LogRunView
        decreases count,
    {
        if count == 0 {
            LogRunView::start(effects)
        } else {
            LogRunView::after_all(effects, done, (count - 1) as nat).after(done[count - 1])
        }
    }
}

/// A sequence of actions that is being performed.
pub struct LogRun<'a> {
    actions: Vec<LogAction<'a>>,
    next: usize,
    failed: bool,
}

impl<'a> View for LogRun<'a> {
    type V = LogRunView;

    closed spec fn view(&self) -> LogRunView {
        LogRunView {
            effects: effects(self.actions@),
            next: self.next as nat,
            failed: self.failed,
        }
    }
}

impl<'a> LogRun<'a> {
    /// The actions of the run.
    pub closed spec fn actions(self) -> Seq<LogAction<'a>> {
        self.actions@
    }

    /// A run of `actions`, of which none was performed yet.
    pub fn new(actions: Vec<LogAction<'a>>) -> (run: LogRun<'a>)
        ensures
            run@ == LogRunView::start(effects(actions@)),
            run.actions() == actions@,
            run@.next == 0,
            !run@.failed,
    {
        LogRun { actions, next: 0, failed: false }
    }

    /// The action to perform next, unless the run has ended.
    pub fn action(&self) -> (action: Option<LogAction<'a>>)
        ensures
            action is Some <==> self@.current() is Some,
            action matches Some(action) ==> self@.current() == Some(action@),
            self@.failed || self@.next >= self.actions().len() ==> action is None,
            !self@.failed && self@.next < self.actions().len() ==> action == Some(
                self.actions()[self@.next as int],
            ),
    {
        if !self.failed && self.next < self.actions.len() {
            Some(self.actions[self.next])
        } else {
            None
        }
    }

    /// Takes note of how performing the action went.
    pub fn report(&mut self, result: Result<(), WriteError>)
        ensures
            final(self)@ == old(self)@.after(result is Ok),
            final(self).actions() == old(self).actions(),
            old(self)@.failed || old(self)@.next >= old(self).actions().len() ==> final(self)@.next
                == old(self)@.next && final(self)@.failed == old(self)@.failed,
            !old(self)@.failed && old(self)@.next < old(self).actions().len() ==> final(self)@.next
                == old(self)@.next + 1 && (final(self)@.failed <==> result is Err && old(
                self,
            ).actions()[old(self)@.next as int] is WriteSerial),
    {
        if let Some(action) = self.action() {
            assert(self.next < self.actions.len());
            self.failed = action.outcome(result).is_err();
            self.next += 1;
        }
    }

    /// What the run comes to: an error if a failure that counts has ended it.
    pub fn outcome(&self) -> (outcome: Result<(), WriteError>)
        ensures
            outcome is Err <==> self@.failed,
    {
        if self.failed {
            Err(WriteError)
        } else {
            Ok(())
        }
    }
}

impl Logger {
    /// How this logger accesses the serial port, if it does.
    pub open spec fn access(self) -> Option<IoAccess> {
        match self {
            Logger::Serial => Some(IoAccess::Instr),
            Logger::TdxSerial => Some(IoAccess::Tdx),
            Logger::SnpSerial => Some(IoAccess::Snp),
            Logger::NoOutput => None,
        }
    }

    /// Whether a build has this logger.
    pub open spec fn available(self, build: BuildConfig) -> bool {
        match self {
            Logger::NoOutput => true,
            Logger::Serial => build.target_arch == TargetArch::X86_64,
            _ => build.target_arch == TargetArch::X86_64 && build.cvm_boot_log,
        }
    }

    /// How this logger accesses the serial port, if it does.
    pub fn io_access(&self) -> (access: Option<IoAccess>)
        ensures
            access == self.access(),
            *self == Logger::Serial <==> access == Some(IoAccess::Instr),
            *self == Logger::TdxSerial <==> access == Some(IoAccess::Tdx),
            *self == Logger::SnpSerial <==> access == Some(IoAccess::Snp),
    {
        match self {
            Logger::Serial => Some(IoAccess::Instr),
            Logger::TdxSerial => Some(IoAccess::Tdx),
            Logger::SnpSerial => Some(IoAccess::Snp),
            Logger::NoOutput => None,
        }
    }

    /// What writing `text` to this logger does: nothing without an output.
    pub open spec fn write_effects(self, text: Seq<char>) -> Seq<LogEffect> {
        match self.access() {
            Some(access) => seq![LogEffect::WriteSerial(access, text)],
            None => Seq::empty(),
        }
    }

    /// Writes `s` to this logger.
    pub fn write_str<'a>(&self, s: &'a str) -> (action: Option<LogAction<'a>>)
        ensures
            self.access() matches Some(access) ==> (action matches Some(action) && action@
                == LogEffect::WriteSerial(access, s@)),
            self.access() is None ==> action is None,
            *self == Logger::Serial ==> action == Some(LogAction::WriteSerial(IoAccess::Instr, s)),
            *self == Logger::TdxSerial ==> action == Some(LogAction::WriteSerial(IoAccess::Tdx, s)),
            *self == Logger::SnpSerial ==> action == Some(LogAction::WriteSerial(IoAccess::Snp, s)),
            *self == Logger::NoOutput ==> action is None,
    {
        match self.io_access() {
            Some(access) => Some(LogAction::WriteSerial(access, s)),
            None => None,
        }
    }
}

/// The logger that the host's description of the COM port calls for.
pub open spec fn runtime_logger(
    build: BuildConfig,
    isolation_type: IsolationType,
    com3_serial_available: ComInfo,
) -> Logger {
    if build.target_arch != TargetArch::X86_64 || com3_serial_available != ComInfo::Ns16550 {
        Logger::NoOutput
    } else {
        match isolation_type {
            IsolationType::NotIsolated => Logger::Serial,
            IsolationType::Tdx if build.cvm_boot_log => Logger::TdxSerial,
            IsolationType::Snp if build.cvm_boot_log => Logger::SnpSerial,
            _ => Logger::NoOutput,
        }
    }
}

/// The logger of last resort: no description of the COM port is at hand.
pub open spec fn last_resort_logger(build: BuildConfig, isolation_type: IsolationType) -> Logger {
    match (build.target_arch, isolation_type) {
        (TargetArch::X86_64, IsolationType::NotIsolated) => Logger::Serial,
        (TargetArch::X86_64, IsolationType::Tdx) if build.cvm_boot_log => Logger::TdxSerial,
        (TargetArch::X86_64, IsolationType::Snp) if build.cvm_boot_log => Logger::SnpSerial,
        _ => Logger::NoOutput,
    }
}

/// What bringing up `logger` does.
pub open spec fn init_effects(logger: Logger) -> Seq<LogEffect> {
    match logger.access() {
        Some(access) => seq![LogEffect::InitSerial(access)],
        None => Seq::empty(),
    }
}

/// What writing the in-memory log out to `logger` does, as far as there are
/// both.
pub open spec fn emit_effects(
    logger: Logger,
    in_memory_logger: Option<MemoryRange>,
) -> Seq<LogEffect> {
    match (logger.access(), in_memory_logger) {
        (Some(access), Some(range)) => seq![LogEffect::WriteInMemoryLog(access, range)],
        _ => Seq::empty(),
    }
}

/// The boot logger.
#[derive(Copy, Clone, Debug)]
pub struct BootLogger {
    /// The build that this logger runs in.
    pub build: BuildConfig,
    /// The runtime output.
    pub logger: Logger,
    /// Where the in-memory log lies, if there is one.
    pub in_memory_logger: Option<MemoryRange>,
    /// The isolation type, for last-resort serial initialization.
    pub isolation_type: IsolationType,
}

impl BootLogger {
    /// The output is one that the build has, and the in-memory log has room.
    pub open spec fn wf(self) -> bool {
        &&& self.logger.available(self.build)
        &&& self.in_memory_logger matches Some(range) ==> !range.empty()
    }

    /// A logger without outputs.
    pub fn new(build: BuildConfig) -> (boot_logger: BootLogger)
        ensures
            boot_logger.wf(),
            boot_logger.build == build,
            boot_logger.logger == Logger::NoOutput,
            boot_logger.in_memory_logger is None,
            boot_logger.isolation_type == IsolationType::NotIsolated,
    {
        BootLogger {
            build,
            logger: Logger::NoOutput,
            in_memory_logger: None,
            isolation_type: IsolationType::NotIsolated,
        }
    }

    /// What writing `text` does: it goes to the in-memory log, then to the
    /// runtime output, as far as there are any.
    pub open spec fn write_effects(self, text: Seq<char>) -> Seq<LogEffect> {
        let in_memory = match self.in_memory_logger {
            Some(range) => seq![LogEffect::AppendInMemory(range, text)],
            None => Seq::empty(),
        };
        in_memory + self.logger.write_effects(text)
    }

    /// What writing `fragments` one by one does.
    pub open spec fn fragments_effects(self, fragments: Seq<Seq<char>>) -> Seq<LogEffect>
        decreases fragments.len(),
    {
        if fragments.len() == 0 {
            Seq::empty()
        } else {
            self.fragments_effects(fragments.drop_last()) + self.write_effects(fragments.last())
        }
    }

    /// Adds the actions that write `s`.
    fn push_write<'a>(&self, s: &'a str, actions: &mut Vec<LogAction<'a>>)
        ensures
            effects(final(actions)@) == effects(old(actions)@) + self.write_effects(s@),
    {
        if let Some(range) = self.in_memory_logger {
            actions.push(LogAction::AppendInMemory(range, s));
        }
        if let Some(action) = self.logger.write_str(s) {
            actions.push(action);
        }
        assert(effects(actions@) =~= effects(old(actions)@) + self.write_effects(s@));
    }

    /// Writes `s`.
    pub fn write_str<'a>(&self, s: &'a str) -> (actions: Vec<LogAction<'a>>)
        ensures
            effects(actions@) == self.write_effects(s@),
            actions@.len() == (if self.in_memory_logger is Some {
                1int
            } else {
                0
            }) + (if self.logger == Logger::NoOutput {
                0int
            } else {
                1
            }),
            self.in_memory_logger matches Some(range) ==> actions@[0]@
                == LogEffect::AppendInMemory(range, s@),
            self.logger == Logger::Serial ==> actions@.last()@ == LogEffect::WriteSerial(
                IoAccess::Instr,
                s@,
            ),
            self.logger == Logger::TdxSerial ==> actions@.last()@ == LogEffect::WriteSerial(
                IoAccess::Tdx,
                s@,
            ),
            self.logger == Logger::SnpSerial ==> actions@.last()@ == LogEffect::WriteSerial(
                IoAccess::Snp,
                s@,
            ),
    {
        let mut actions = Vec::new();
        self.push_write(s, &mut actions);
        proof {
            assert(effects(actions@) =~= self.write_effects(s@));
            assert(effects(actions@).len() == actions@.len());
            assert(forall|i: int|
                0 <= i < actions@.len() ==> #[trigger] actions@[i]@ == effects(actions@)[i]);
        }
        actions
    }

    /// Whether records of a level are logged: all of them are.
    pub fn enabled(&self, _level: Level) -> (enabled: bool)
        ensures
            enabled,
    {
        true
    }

    /// Adds the actions that write what comes before a record's message.
    fn push_prefix<'a>(&self, level: Level, actions: &mut Vec<LogAction<'a>>)
        requires
            old(actions)@.len() == 0,
        ensures
            effects(final(actions)@) == self.fragments_effects(prefix_fragments(level)),
            effects(final(actions)@) == self.write_effects("["@) + self.write_effects(level.name())
                + self.write_effects("] "@),
    {
        let ghost prefix = prefix_fragments(level);
        self.push_write("[", actions);
        self.push_write(level_as_str(level), actions);
        self.push_write("] ", actions);
        proof {
            reveal_with_fuel(BootLogger::fragments_effects, 4);
            assert(prefix.drop_last() =~= seq!["["@, level.name()]);
            assert(prefix.drop_last().drop_last() =~= seq!["["@]);
            assert(prefix.drop_last().drop_last().drop_last() =~= Seq::empty());
            assert(effects(actions@) =~= self.fragments_effects(prefix));
            assert(effects(actions@) =~= self.write_effects("["@) + self.write_effects(level.name())
                + self.write_effects("] "@));
        }
    }

    /// Starts a record. Its message follows, by [`BootLogger::write_str`] for
    /// each fragment in which it is formatted, and then
    /// [`BootLogger::log_end`].
    pub fn log_start(&self, level: Level) -> (actions: Vec<LogAction<'static>>)
        ensures
            effects(actions@) == self.fragments_effects(prefix_fragments(level)),
            effects(actions@) == self.write_effects("["@) + self.write_effects(level.name())
                + self.write_effects("] "@),
    {
        let mut actions = Vec::new();
        self.push_prefix(level, &mut actions);
        actions
    }

    /// Ends a record whose message was formatted to its end.
    pub fn log_end(&self) -> (actions: Vec<LogAction<'static>>)
        ensures
            effects(actions@) == self.write_effects("\n"@),
    {
        self.write_str("\n")
    }

    /// Logs a record whose message was formatted beforehand. `args` holds the
    /// fragments in which it was, and `complete` says whether formatting came to
    /// its end: if it did not, the line stays open.
    pub fn log<'a>(&self, level: Level, args: &[&'a str], complete: bool) -> (actions: Vec<
        LogAction<'a>,
    >)
        ensures
            effects(actions@) == self.fragments_effects(record_fragments(level, args@, complete)),
    {
        let ghost all = record_fragments(level, args@, complete);
        let mut actions = Vec::new();
        self.push_prefix(level, &mut actions);
        assert(all.take(3) =~= prefix_fragments(level));
        let mut i: usize = 0;
        while i < args.len()
            invariant
                i <= args@.len(),
                all == record_fragments(level, args@, complete),
                effects(actions@) == self.fragments_effects(all.take(3 + i)),
            decreases args.len() - i,
        {
            self.push_write(args[i], &mut actions);
            assert(all.take(4 + i).drop_last() =~= all.take(3 + i));
            i += 1;
        }
        if complete {
            self.push_write("\n", &mut actions);
            assert(all.drop_last() =~= all.take(3 + i));
        } else {
            assert(all =~= all.take(3 + i));
        }
        actions
    }
}

impl Level {
    /// The name of the level in a log line.
    pub open spec fn name(self) -> Seq<char> {
        match self {
            Level::Error => "ERROR"@,
            Level::Warn => "WARN"@,
            Level::Info => "INFO"@,
            Level::Debug => "DEBUG"@,
            Level::Trace => "TRACE"@,
        }
    }
}

/// `log::Level::as_str`: the upper-case name of the level.
#[verifier::external_body]
fn level_as_str(level: Level) -> (name: &'static str)
    ensures
        name@ == level.name(),
{
    match level {
        Level::Error => log::Level::Error,
        Level::Warn => log::Level::Warn,
        Level::Info => log::Level::Info,
        Level::Debug => log::Level::Debug,
        Level::Trace => log::Level::Trace,
    }.as_str()
}

/// The fragments that come before a record's message.
pub open spec fn prefix_fragments(level: Level) -> Seq<Seq<char>> {
    seq!["["@, level.name(), "] "@]
}

/// The fragments of the line that a record makes.
pub open spec fn record_fragments(level: Level, args: Seq<&str>, complete: bool) -> Seq<Seq<char>> {
    let open_line = prefix_fragments(level) + Seq::new(args.len(), |i: int| args[i]@);
    if complete {
        open_line.push("\n"@)
    } else {
        open_line
    }
}

impl BootLogger {
    /// The boot logger once the isolation type is stored.
    pub open spec fn with_isolation_type(self, isolation_type: IsolationType) -> BootLogger {
        BootLogger { isolation_type, ..self }
    }

    /// The boot logger once the in-memory log lies in `buffer`; an empty range
    /// changes nothing.
    pub open spec fn with_memory(self, buffer: MemoryRange) -> BootLogger {
        if buffer.empty() {
            self
        } else {
            BootLogger { in_memory_logger: Some(buffer), ..self }
        }
    }

    /// The boot logger with `logger` as its output.
    pub open spec fn with_logger(self, logger: Logger) -> BootLogger {
        BootLogger { logger, ..self }
    }

    /// What initializing the runtime output does, `self` being the boot logger
    /// that has it: the port comes up and the in-memory log is written out.
    pub open spec fn runtime_init_effects(self) -> Seq<LogEffect> {
        init_effects(self.logger) + emit_effects(self.logger, self.in_memory_logger)
    }

    /// The output of the boot logger after a flush on panic: one of last resort
    /// if there was none.
    pub open spec fn panic_logger(self) -> Logger {
        if self.logger == Logger::NoOutput {
            last_resort_logger(self.build, self.isolation_type)
        } else {
            self.logger
        }
    }

    /// The boot logger after a flush on panic; nothing changes if the output
    /// was in use when the panic occurred.
    pub open spec fn after_panic_flush(self, logger_free: bool) -> BootLogger {
        if logger_free {
            self.with_logger(self.panic_logger())
        } else {
            self
        }
    }

    /// What a flush on panic does: the output is brought up if there was none,
    /// and the in-memory log is written out. What was in use when the panic
    /// occurred is left alone.
    pub open spec fn panic_flush_effects(
        self,
        logger_free: bool,
        in_memory_logger_free: bool,
    ) -> Seq<LogEffect> {
        let init = if self.logger == Logger::NoOutput {
            init_effects(self.panic_logger())
        } else {
            Seq::empty()
        };
        let emit = if in_memory_logger_free {
            emit_effects(self.panic_logger(), self.in_memory_logger)
        } else {
            Seq::empty()
        };
        if logger_free {
            init + emit
        } else {
            Seq::empty()
        }
    }
}

/// Store the isolation type so the panic handler can use it for last-resort
/// serial initialization.
pub fn boot_logger_set_isolation_type(
    boot_logger: &mut BootLogger,
    isolation_type: IsolationType,
)
    ensures
        *final(boot_logger) == old(boot_logger).with_isolation_type(isolation_type),
        final(boot_logger).isolation_type == isolation_type,
        final(boot_logger).build == old(boot_logger).build,
        final(boot_logger).logger == old(boot_logger).logger,
        final(boot_logger).in_memory_logger == old(boot_logger).in_memory_logger,
        old(boot_logger).wf() ==> final(boot_logger).wf(),
{
    boot_logger.isolation_type = isolation_type;
}

/// The address and length of the memory to put the in-memory log into, if
/// `buffer` gives it any.
pub fn log_buffer_region(buffer: &MemoryRange) -> (region: Option<(u64, u64)>)
    ensures
        region == (if buffer.empty() {
            None
        } else {
            Some((buffer.spec_start(), (buffer.spec_end() - buffer.spec_start()) as u64))
        }),
        region is None <==> buffer.spec_start() == buffer.spec_end(),
        region matches Some((address, length)) ==> address == buffer.spec_start() && address
            + length == buffer.spec_end(),
{
    if buffer.is_empty() {
        None
    } else {
        Some((buffer.start(), buffer.len()))
    }
}

/// Initialize the in-memory log buffer. This range must be identity mapped, and
/// unused by anything else, and hold a valid log buffer unless it is empty.
pub fn boot_logger_memory_init(boot_logger: &mut BootLogger, buffer: MemoryRange)
    ensures
        *final(boot_logger) == old(boot_logger).with_memory(buffer),
        buffer.spec_start() == buffer.spec_end() ==> *final(boot_logger) == *old(boot_logger),
        buffer.spec_start() != buffer.spec_end() ==> final(boot_logger).in_memory_logger == Some(
            buffer,
        ),
        final(boot_logger).build == old(boot_logger).build,
        final(boot_logger).logger == old(boot_logger).logger,
        final(boot_logger).isolation_type == old(boot_logger).isolation_type,
        old(boot_logger).wf() ==> final(boot_logger).wf(),
{
    if buffer.is_empty() {
        return;
    }
    boot_logger.in_memory_logger = Some(buffer);
}

/// Adds the action that brings up `logger`.
fn push_init(logger: Logger, actions: &mut Vec<LogAction<'static>>)
    ensures
        effects(final(actions)@) == effects(old(actions)@) + init_effects(logger),
{
    if let Some(access) = logger.io_access() {
        actions.push(LogAction::InitSerial(access));
    }
    assert(effects(actions@) =~= effects(old(actions)@) + init_effects(logger));
}

/// Adds the action that writes the in-memory log out to `logger`.
fn push_emit(
    logger: Logger,
    in_memory_logger: Option<MemoryRange>,
    actions: &mut Vec<LogAction<'static>>,
)
    ensures
        effects(final(actions)@) == effects(old(actions)@) + emit_effects(logger, in_memory_logger),
{
    if let Some(access) = logger.io_access() {
        if let Some(range) = in_memory_logger {
            actions.push(LogAction::WriteInMemoryLog(access, range));
        }
    }
    assert(effects(actions@) =~= effects(old(actions)@) + emit_effects(logger, in_memory_logger));
}

/// Initialize the runtime boot logger, for logging to serial or other outputs.
///
/// If a runtime logger was initialized, emit any in-memory log to the
/// configured runtime output.
pub fn boot_logger_runtime_init(
    boot_logger: &mut BootLogger,
    isolation_type: IsolationType,
    com3_serial_available: ComInfo,
) -> (actions: Vec<LogAction<'static>>)
    ensures
        *final(boot_logger) == old(boot_logger).with_logger(
            runtime_logger(old(boot_logger).build, isolation_type, com3_serial_available),
        ),
        effects(actions@) == final(boot_logger).runtime_init_effects(),
        final(boot_logger).build == old(boot_logger).build,
        final(boot_logger).in_memory_logger == old(boot_logger).in_memory_logger,
        final(boot_logger).isolation_type == old(boot_logger).isolation_type,
        final(boot_logger).logger == Logger::Serial <==> old(boot_logger).build.target_arch
            == TargetArch::X86_64 && com3_serial_available == ComInfo::Ns16550 && isolation_type
            == IsolationType::NotIsolated,
        final(boot_logger).logger == Logger::TdxSerial <==> old(boot_logger).build.target_arch
            == TargetArch::X86_64 && old(boot_logger).build.cvm_boot_log && com3_serial_available
            == ComInfo::Ns16550 && isolation_type == IsolationType::Tdx,
        final(boot_logger).logger == Logger::SnpSerial <==> old(boot_logger).build.target_arch
            == TargetArch::X86_64 && old(boot_logger).build.cvm_boot_log && com3_serial_available
            == ComInfo::Ns16550 && isolation_type == IsolationType::Snp,
        final(boot_logger).logger == Logger::NoOutput ==> actions@.len() == 0,
        final(boot_logger).logger != Logger::NoOutput ==> actions@.len() == (if old(
            boot_logger,
        ).in_memory_logger is Some {
            2int
        } else {
            1
        }),
        final(boot_logger).logger == Logger::Serial ==> actions@[0]@ == LogEffect::InitSerial(
            IoAccess::Instr,
        ),
        final(boot_logger).logger == Logger::Serial ==> (old(boot_logger).in_memory_logger
            matches Some(range) ==> actions@[1]@ == LogEffect::WriteInMemoryLog(
            IoAccess::Instr,
            range,
        )),
        final(boot_logger).logger == Logger::TdxSerial ==> actions@[0]@ == LogEffect::InitSerial(
            IoAccess::Tdx,
        ),
        final(boot_logger).logger == Logger::TdxSerial ==> (old(boot_logger).in_memory_logger
            matches Some(range) ==> actions@[1]@ == LogEffect::WriteInMemoryLog(
            IoAccess::Tdx,
            range,
        )),
        final(boot_logger).logger == Logger::SnpSerial ==> actions@[0]@ == LogEffect::InitSerial(
            IoAccess::Snp,
        ),
        final(boot_logger).logger == Logger::SnpSerial ==> (old(boot_logger).in_memory_logger
            matches Some(range) ==> actions@[1]@ == LogEffect::WriteInMemoryLog(
            IoAccess::Snp,
            range,
        )),
        old(boot_logger).wf() ==> final(boot_logger).wf(),
{
    let x86_64 = boot_logger.build.target_arch == TargetArch::X86_64;
    let cvm_boot_log = x86_64 && boot_logger.build.cvm_boot_log;
    let logger = match (isolation_type, com3_serial_available) {
        (IsolationType::NotIsolated, ComInfo::Ns16550) if x86_64 => Logger::Serial,
        (IsolationType::Tdx, ComInfo::Ns16550) if cvm_boot_log => Logger::TdxSerial,
        (IsolationType::Snp, ComInfo::Ns16550) if cvm_boot_log => Logger::SnpSerial,
        _ => Logger::NoOutput,
    };
    boot_logger.logger = logger;
    let mut actions = Vec::new();
    push_init(logger, &mut actions);
    push_emit(logger, boot_logger.in_memory_logger, &mut actions);
    assert(effects(actions@) =~= boot_logger.runtime_init_effects());
    assert(effects(actions@).len() == actions@.len());
    assert(forall|i: int|
        0 <= i < actions@.len() ==> #[trigger] actions@[i]@ == effects(actions@)[i]);
    actions
}

/// Attempt to flush the in-memory log buffer to serial on panic.
///
/// This is a best-effort fallback for cases where the runtime logger was never
/// initialized (e.g., a panic during device tree parsing before
/// [`boot_logger_runtime_init`] is called). It initializes a serial logger using
/// the stored isolation type and default COM3 settings, then flushes the
/// in-memory buffer.
///
/// `logger_free` and `in_memory_logger_free` say whether the runtime output and
/// the in-memory log could be claimed: they can not if the panic occurred while
/// they were in use.
///
/// This function should only be called from the panic handler as a last resort.
pub fn boot_logger_panic_flush(
    boot_logger: &mut BootLogger,
    logger_free: bool,
    in_memory_logger_free: bool,
) -> (actions: Vec<LogAction<'static>>)
    ensures
        *final(boot_logger) == old(boot_logger).after_panic_flush(logger_free),
        effects(actions@) == old(boot_logger).panic_flush_effects(
            logger_free,
            in_memory_logger_free,
        ),
        !logger_free ==> *final(boot_logger) == *old(boot_logger) && actions@.len() == 0,
        final(boot_logger).build == old(boot_logger).build,
        final(boot_logger).in_memory_logger == old(boot_logger).in_memory_logger,
        final(boot_logger).isolation_type == old(boot_logger).isolation_type,
        old(boot_logger).logger != Logger::NoOutput ==> final(boot_logger).logger == old(
            boot_logger,
        ).logger,
        logger_free && old(boot_logger).logger == Logger::NoOutput ==> {
            let x86_64 = old(boot_logger).build.target_arch == TargetArch::X86_64;
            let cvm_boot_log = old(boot_logger).build.cvm_boot_log;
            let stored = old(boot_logger).isolation_type;
            let logger = final(boot_logger).logger;
            &&& logger == Logger::Serial <==> x86_64 && stored == IsolationType::NotIsolated
            &&& logger == Logger::TdxSerial <==> x86_64 && cvm_boot_log && stored
                == IsolationType::Tdx
            &&& logger == Logger::SnpSerial <==> x86_64 && cvm_boot_log && stored
                == IsolationType::Snp
        },
        final(boot_logger).logger == Logger::NoOutput ==> actions@.len() == 0,
        logger_free && final(boot_logger).logger != Logger::NoOutput ==> actions@.len() == (if old(
            boot_logger,
        ).logger == Logger::NoOutput {
            1int
        } else {
            0
        }) + (if in_memory_logger_free && old(boot_logger).in_memory_logger is Some {
            1int
        } else {
            0
        }),
        logger_free && old(boot_logger).logger == Logger::NoOutput && final(boot_logger).logger
            == Logger::Serial ==> actions@[0]@ == LogEffect::InitSerial(IoAccess::Instr),
        logger_free && in_memory_logger_free && final(boot_logger).logger == Logger::Serial
            ==> (old(boot_logger).in_memory_logger matches Some(range) ==> actions@.last()@
            == LogEffect::WriteInMemoryLog(
            IoAccess::Instr,
            range,
        )),
        logger_free && old(boot_logger).logger == Logger::NoOutput && final(boot_logger).logger
            == Logger::TdxSerial ==> actions@[0]@ == LogEffect::InitSerial(IoAccess::Tdx),
        logger_free && in_memory_logger_free && final(boot_logger).logger == Logger::TdxSerial
            ==> (old(boot_logger).in_memory_logger matches Some(range) ==> actions@.last()@
            == LogEffect::WriteInMemoryLog(
            IoAccess::Tdx,
            range,
        )),
        logger_free && old(boot_logger).logger == Logger::NoOutput && final(boot_logger).logger
            == Logger::SnpSerial ==> actions@[0]@ == LogEffect::InitSerial(IoAccess::Snp),
        logger_free && in_memory_logger_free && final(boot_logger).logger == Logger::SnpSerial
            ==> (old(boot_logger).in_memory_logger matches Some(range) ==> actions@.last()@
            == LogEffect::WriteInMemoryLog(
            IoAccess::Snp,
            range,
        )),
        old(boot_logger).wf() ==> final(boot_logger).wf(),
{
    let mut actions = Vec::new();
    if !logger_free {
        assert(effects(actions@) =~= Seq::empty());
        return actions;
    }
    let x86_64 = boot_logger.build.target_arch == TargetArch::X86_64;
    let cvm_boot_log = x86_64 && boot_logger.build.cvm_boot_log;
    if boot_logger.logger == Logger::NoOutput {
        boot_logger.logger = match boot_logger.isolation_type {
            IsolationType::NotIsolated if x86_64 => Logger::Serial,
            IsolationType::Tdx if cvm_boot_log => Logger::TdxSerial,
            IsolationType::Snp if cvm_boot_log => Logger::SnpSerial,
            _ => Logger::NoOutput,
        };
        push_init(boot_logger.logger, &mut actions);
    }
    if in_memory_logger_free {
        push_emit(boot_logger.logger, boot_logger.in_memory_logger, &mut actions);
    }
    assert(effects(actions@) =~= old(boot_logger).panic_flush_effects(
        logger_free,
        in_memory_logger_free,
    ));
    assert(effects(actions@).len() == actions@.len());
    assert(forall|i: int|
        0 <= i < actions@.len() ==> #[trigger] actions@[i]@ == effects(actions@)[i]);
    actions
}

} // verus!
