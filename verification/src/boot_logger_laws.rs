//! What holds of the boot logger as a whole.

use crate::boot_logger;
use crate::boot_logger::BootLogger;
use crate::boot_logger::ComInfo;
use crate::boot_logger::IoAccess;
use crate::boot_logger::Level;
use crate::boot_logger::LogEffect;
use crate::boot_logger::Logger;
use crate::build_config::BuildConfig;
use crate::build_config::TargetArch;
use crate::host_params::IsolationType;
use crate::memory_range::MemoryRange;
use vstd::prelude::*;

verus! {

/// What logging acts on, as long as nothing fails: the serial port and the
/// in-memory logs.
#[verifier::ext_equal]
pub struct LogWorld {
    /// The access that the serial port was last initialized for.
    pub port: Option<IoAccess>,
    /// The contents of the in-memory log in each range that holds one.
    pub logs: Map<MemoryRange, Seq<char>>,
    /// What came out of the serial port.
    pub serial: Seq<char>,
}

/// What `effect` changes. Nothing comes out of a port that was not initialized
/// for the same access.
pub open spec fn perform(world: LogWorld, effect: LogEffect) -> LogWorld {
    match effect {
        LogEffect::InitSerial(access) => LogWorld { port: Some(access), ..world },
        LogEffect::AppendInMemory(range, text) => LogWorld {
            logs: world.logs.insert(range, world.logs[range] + text),
            ..world
        },
        LogEffect::WriteSerial(access, text) => if world.port == Some(access) {
            LogWorld { serial: world.serial + text, ..world }
        } else {
            world
        },
        LogEffect::WriteInMemoryLog(access, range) => if world.port == Some(access) {
            LogWorld { serial: world.serial + world.logs[range], ..world }
        } else {
            world
        },
    }
}

/// What `effects` change, one after the other.
pub open spec fn perform_all(world: LogWorld, effects: Seq<LogEffect>) -> LogWorld
    decreases effects.len(),
{
    if effects.len() == 0 {
        world
    } else {
        perform(perform_all(world, effects.drop_last()), effects.last())
    }
}

/// Whether every effect that writes to the serial port finds it initialized for
/// its access.
pub open spec fn port_ready_throughout(world: LogWorld, effects: Seq<LogEffect>) -> bool
    decreases effects.len(),
{
    effects.len() > 0 ==> {
        let before = perform_all(world, effects.drop_last());
        &&& port_ready_throughout(world, effects.drop_last())
        &&& match effects.last() {
            LogEffect::WriteSerial(access, _) => before.port == Some(access),
            LogEffect::WriteInMemoryLog(access, _) => before.port == Some(access),
            _ => true,
        }
    }
}

/// Whether the serial port is initialized for the boot logger's output, and
/// there is a log where the boot logger appends to one.
pub open spec fn outputs_ready(boot_logger: BootLogger, world: LogWorld) -> bool {
    &&& boot_logger.logger.access() matches Some(access) ==> world.port == Some(access)
    &&& boot_logger.in_memory_logger matches Some(range) ==> world.logs.contains_key(range)
}

/// `world` with a new, empty log in `buffer`, which overwrites any log that it
/// overlaps with.
pub open spec fn with_new_log(world: LogWorld, buffer: MemoryRange) -> LogWorld {
    LogWorld {
        logs: world.logs.restrict(
            Set::new(|range: MemoryRange| range.disjoint(buffer)),
        ).insert(buffer, Seq::empty()),
        ..world
    }
}

/// `pieces`, one after the other.
pub open spec fn joined(pieces: Seq<Seq<char>>) -> Seq<char>
    decreases pieces.len(),
{
    if pieces.len() == 0 {
        Seq::empty()
    } else {
        joined(pieces.drop_last()) + pieces.last()
    }
}

/// The line that a record makes in the log.
pub open spec fn record_line(level: Level, args: Seq<&str>) -> Seq<char> {
    "["@ + level.name() + "] "@ + joined(Seq::new(args.len(), |i: int| args[i]@)) + "\n"@
}

/// `world` with `text` added to each of the boot logger's outputs.
pub open spec fn with_text(boot_logger: BootLogger, world: LogWorld, text: Seq<char>) -> LogWorld {
    LogWorld {
        port: world.port,
        logs: match boot_logger.in_memory_logger {
            Some(range) => world.logs.insert(range, world.logs[range] + text),
            None => world.logs,
        },
        serial: if boot_logger.logger.access() is Some {
            world.serial + text
        } else {
            world.serial
        },
    }
}

/// Effects can be performed in two parts.
proof fn lemma_perform_all_concat(world: LogWorld, first: Seq<LogEffect>, second: Seq<LogEffect>)
    ensures
        perform_all(world, first + second) == perform_all(perform_all(world, first), second),
    decreases second.len(),
{
    if second.len() == 0 {
        assert(first + second =~= first);
    } else {
        assert((first + second).drop_last() =~= first + second.drop_last());
        lemma_perform_all_concat(world, first, second.drop_last());
    }
}

/// The port is ready throughout two parts if it is throughout each.
proof fn lemma_port_ready_concat(world: LogWorld, first: Seq<LogEffect>, second: Seq<LogEffect>)
    requires
        port_ready_throughout(world, first),
        port_ready_throughout(perform_all(world, first), second),
    ensures
        port_ready_throughout(world, first + second),
    decreases second.len(),
{
    if second.len() == 0 {
        assert(first + second =~= first);
    } else {
        assert((first + second).drop_last() =~= first + second.drop_last());
        lemma_port_ready_concat(world, first, second.drop_last());
        lemma_perform_all_concat(world, first, second.drop_last());
    }
}

/// Performing one effect.
proof fn lemma_perform_one(world: LogWorld, effect: LogEffect)
    ensures
        perform_all(world, seq![effect]) == perform(world, effect),
{
    reveal_with_fuel(perform_all, 2);
    assert(seq![effect].drop_last() =~= Seq::empty());
}

/// Performing two effects.
pub(crate) proof fn lemma_perform_two(world: LogWorld, first: LogEffect, second: LogEffect)
    ensures
        perform_all(world, seq![first, second]) == perform(perform(world, first), second),
{
    assert(seq![first, second].drop_last() =~= seq![first]);
    lemma_perform_one(world, first);
}

/// Law: a text that is written reaches each of the boot logger's outputs, in
/// full and once, and the serial port is ready for it.
pub proof fn lemma_write_reaches_every_output(
    boot_logger: BootLogger,
    world: LogWorld,
    text: Seq<char>,
)
    requires
        outputs_ready(boot_logger, world),
    ensures
        perform_all(world, boot_logger.write_effects(text)) == with_text(boot_logger, world, text),
        port_ready_throughout(world, boot_logger.write_effects(text)),
{
    reveal_with_fuel(perform_all, 3);
    reveal_with_fuel(port_ready_throughout, 3);
    let effects = boot_logger.write_effects(text);
    if effects.len() > 0 {
        let head = effects.drop_last();
        if head.len() > 0 {
            assert(head.drop_last() =~= Seq::empty());
        }
    }
}

/// Law: it makes no difference to the outputs in how many pieces a text is
/// written, and the serial port is ready for all of them.
pub proof fn lemma_pieces_reach_every_output(
    boot_logger: BootLogger,
    world: LogWorld,
    pieces: Seq<Seq<char>>,
)
    requires
        outputs_ready(boot_logger, world),
    ensures
        perform_all(world, boot_logger.fragments_effects(pieces)) == with_text(
            boot_logger,
            world,
            joined(pieces),
        ),
        port_ready_throughout(world, boot_logger.fragments_effects(pieces)),
    decreases pieces.len(),
{
    if pieces.len() == 0 {
        assert(with_text(boot_logger, world, joined(pieces)) =~= world);
    } else {
        let head = pieces.drop_last();
        let before = perform_all(world, boot_logger.fragments_effects(head));
        lemma_pieces_reach_every_output(boot_logger, world, head);
        lemma_write_reaches_every_output(boot_logger, before, pieces.last());
        lemma_perform_all_concat(
            world,
            boot_logger.fragments_effects(head),
            boot_logger.write_effects(pieces.last()),
        );
        lemma_port_ready_concat(
            world,
            boot_logger.fragments_effects(head),
            boot_logger.write_effects(pieces.last()),
        );
        if let Some(range) = boot_logger.in_memory_logger {
            assert(world.logs[range] + joined(head) + pieces.last() =~= world.logs[range] + joined(
                pieces,
            ));
        }
        assert(with_text(boot_logger, before, pieces.last()) =~= with_text(
            boot_logger,
            world,
            joined(pieces),
        ));
    }
}

/// Pieces can be joined in two parts.
proof fn lemma_joined_concat(first: Seq<Seq<char>>, second: Seq<Seq<char>>)
    ensures
        joined(first + second) == joined(first) + joined(second),
    decreases second.len(),
{
    if second.len() == 0 {
        assert(first + second =~= first);
        assert(joined(first) + joined(second) =~= joined(first));
    } else {
        assert((first + second).drop_last() =~= first + second.drop_last());
        lemma_joined_concat(first, second.drop_last());
        assert(joined(first + second) =~= joined(first) + joined(second));
    }
}

/// Law: nothing is filtered. A record of any level adds its whole line, level
/// and newline included, to each of the boot logger's outputs.
pub proof fn lemma_record_reaches_every_output(
    boot_logger: BootLogger,
    world: LogWorld,
    level: Level,
    args: Seq<&str>,
)
    requires
        outputs_ready(boot_logger, world),
    ensures
        perform_all(
            world,
            boot_logger.fragments_effects(boot_logger::record_fragments(level, args, true)),
        ) == with_text(boot_logger, world, record_line(level, args)),
{
    let prefix = boot_logger::prefix_fragments(level);
    let message = Seq::new(args.len(), |i: int| args[i]@);
    let end = seq!["\n"@];
    let all = boot_logger::record_fragments(level, args, true);
    assert(all =~= prefix + message + end);
    lemma_joined_concat(prefix + message, end);
    lemma_joined_concat(prefix, message);
    assert(joined(prefix) =~= "["@ + level.name() + "] "@) by {
        reveal_with_fuel(joined, 4);
        assert(prefix.drop_last() =~= seq!["["@, level.name()]);
        assert(prefix.drop_last().drop_last() =~= seq!["["@]);
        assert(prefix.drop_last().drop_last().drop_last() =~= Seq::empty());
    }
    assert(joined(end) =~= "\n"@) by {
        reveal_with_fuel(joined, 2);
        assert(end.drop_last() =~= Seq::empty());
    }
    assert(joined(all) =~= record_line(level, args));
    lemma_pieces_reach_every_output(boot_logger, world, all);
}

/// Law: what was logged before there was a runtime output is not lost. Once one
/// is initialized, everything that went into the in-memory log before, and
/// everything that is written after, has come out of the serial port in order.
/// The in-memory log holds all of it too.
pub proof fn lemma_early_log_comes_out(
    boot_logger: BootLogger,
    world: LogWorld,
    before: Seq<Seq<char>>,
    isolation_type: IsolationType,
    com3_serial_available: ComInfo,
    after: Seq<Seq<char>>,
)
    requires
        boot_logger.logger == Logger::NoOutput,
        boot_logger.in_memory_logger is Some,
        outputs_ready(boot_logger, world),
        boot_logger::runtime_logger(boot_logger.build, isolation_type, com3_serial_available)
            != Logger::NoOutput,
    ensures
        ({
            let ready = boot_logger.with_logger(
                boot_logger::runtime_logger(
                    boot_logger.build,
                    isolation_type,
                    com3_serial_available,
                ),
            );
            let range = boot_logger.in_memory_logger->0;
            let end = perform_all(
                world,
                boot_logger.fragments_effects(before) + ready.runtime_init_effects()
                    + ready.fragments_effects(after),
            );
            &&& end.serial == world.serial + world.logs[range] + joined(before) + joined(after)
            &&& end.logs == world.logs.insert(
                range,
                world.logs[range] + joined(before) + joined(after),
            )
        }),
{
    let logger = boot_logger::runtime_logger(
        boot_logger.build,
        isolation_type,
        com3_serial_available,
    );
    let ready = boot_logger.with_logger(logger);
    let access = logger.access()->0;
    let range = boot_logger.in_memory_logger->0;
    let first = boot_logger.fragments_effects(before);
    let middle = ready.runtime_init_effects();
    let world1 = perform_all(world, first);
    let world2 = perform_all(world1, middle);
    lemma_pieces_reach_every_output(boot_logger, world, before);
    assert(middle =~= seq![
        LogEffect::InitSerial(access),
        LogEffect::WriteInMemoryLog(access, range),
    ]);
    lemma_perform_two(
        world1,
        LogEffect::InitSerial(access),
        LogEffect::WriteInMemoryLog(access, range),
    );
    lemma_pieces_reach_every_output(ready, world2, after);
    lemma_perform_all_concat(world, first, middle);
    lemma_perform_all_concat(world, first + middle, ready.fragments_effects(after));
    let end = perform_all(world, first + middle + ready.fragments_effects(after));
    assert(end.serial =~= world.serial + world.logs[range] + joined(before) + joined(after));
    assert(end.logs =~= world.logs.insert(
        range,
        world.logs[range] + joined(before) + joined(after),
    ));
}

/// Law: a flush on panic brings out the in-memory log even if no runtime output
/// was ever initialized, unless something was in use or there is no output to
/// fall back on.
pub proof fn lemma_panic_flush_brings_out_the_log(boot_logger: BootLogger, world: LogWorld)
    requires
        outputs_ready(boot_logger, world),
        boot_logger.in_memory_logger is Some,
        boot_logger.panic_logger() != Logger::NoOutput,
    ensures
        perform_all(world, boot_logger.panic_flush_effects(true, true)).serial == world.serial
            + world.logs[boot_logger.in_memory_logger->0],
{
    let access = boot_logger.panic_logger().access()->0;
    let init = LogEffect::InitSerial(access);
    let emit = LogEffect::WriteInMemoryLog(access, boot_logger.in_memory_logger->0);
    lemma_perform_two(world, init, emit);
    lemma_perform_one(world, emit);
    if boot_logger.logger == Logger::NoOutput {
        assert(boot_logger.panic_flush_effects(true, true) =~= seq![init, emit]);
    } else {
        assert(boot_logger.panic_flush_effects(true, true) =~= seq![emit]);
    }
}

/// Law: the logger of last resort is the runtime logger of the default COM3
/// settings.
pub proof fn lemma_last_resort_is_default_com3(build: BuildConfig, isolation_type: IsolationType)
    ensures
        boot_logger::last_resort_logger(build, isolation_type) == boot_logger::runtime_logger(
            build,
            isolation_type,
            ComInfo::Ns16550,
        ),
{
}

/// Law: an isolated partition gets a serial output only if it is isolated by
/// hardware and the build allows confidential VMs to log, and only x86_64 gets
/// one at all.
pub proof fn lemma_who_gets_a_serial_output(
    build: BuildConfig,
    isolation_type: IsolationType,
    com3_serial_available: ComInfo,
)
    ensures
        boot_logger::runtime_logger(build, isolation_type, com3_serial_available)
            != Logger::NoOutput <==> {
            &&& build.target_arch == TargetArch::X86_64
            &&& com3_serial_available == ComInfo::Ns16550
            &&& isolation_type == IsolationType::NotIsolated || (
            isolation_type.hardware_isolated() && build.cvm_boot_log)
        },
{
}

/// Law: a second flush on panic initializes nothing and changes nothing.
pub proof fn lemma_second_flush_changes_nothing(
    boot_logger: BootLogger,
    in_memory_logger_free: bool,
)
    ensures
        ({
            let once = boot_logger.after_panic_flush(true);
            &&& once.after_panic_flush(true) == once
            &&& forall|i: int|
                0 <= i < once.panic_flush_effects(true, in_memory_logger_free).len() ==> !(
                once.panic_flush_effects(true, in_memory_logger_free)[i] is InitSerial)
        }),
{
}

/// Law: once the in-memory log is moved to a new range, text goes there only.
/// The new log holds what was written since, nothing is copied into it, and a
/// log in memory that it does not overlap with stays as it was.
pub proof fn lemma_new_memory_starts_afresh(
    boot_logger: BootLogger,
    world: LogWorld,
    buffer: MemoryRange,
    pieces: Seq<Seq<char>>,
    other: MemoryRange,
)
    requires
        outputs_ready(boot_logger, world),
        !buffer.empty(),
        other != buffer,
        other.disjoint(buffer),
        world.logs.contains_key(other),
    ensures
        ({
            let moved = boot_logger.with_memory(buffer);
            let after = perform_all(
                with_new_log(world, buffer),
                moved.fragments_effects(pieces),
            );
            &&& after.logs[buffer] == joined(pieces)
            &&& after.logs.contains_key(other)
            &&& after.logs[other] == world.logs[other]
        }),
{
    let moved = boot_logger.with_memory(buffer);
    let fresh = with_new_log(world, buffer);
    lemma_pieces_reach_every_output(moved, fresh, pieces);
    assert(Seq::<char>::empty() + joined(pieces) =~= joined(pieces));
}

/// A call on the boot logger.
pub enum LogOperation<'a> {
    SetIsolationType(IsolationType),
    MemoryInit(MemoryRange),
    RuntimeInit(IsolationType, ComInfo),
    PanicFlush(bool, bool),
    WriteStr(Seq<char>),
    Log(Level, Seq<&'a str>, bool),
}

/// The boot logger after a call.
pub open spec fn after_operation(boot_logger: BootLogger, operation: LogOperation) -> BootLogger {
    match operation {
        LogOperation::SetIsolationType(isolation_type) => boot_logger.with_isolation_type(
            isolation_type,
        ),
        LogOperation::MemoryInit(buffer) => boot_logger.with_memory(buffer),
        LogOperation::RuntimeInit(isolation_type, com_info) => boot_logger.with_logger(
            boot_logger::runtime_logger(boot_logger.build, isolation_type, com_info),
        ),
        LogOperation::PanicFlush(logger_free, _) => boot_logger.after_panic_flush(logger_free),
        LogOperation::WriteStr(_) => boot_logger,
        LogOperation::Log(_, _, _) => boot_logger,
    }
}

/// What a call does.
pub open spec fn operation_effects(
    boot_logger: BootLogger,
    operation: LogOperation,
) -> Seq<LogEffect> {
    match operation {
        LogOperation::SetIsolationType(_) => Seq::empty(),
        LogOperation::MemoryInit(_) => Seq::empty(),
        LogOperation::RuntimeInit(_, _) => after_operation(
            boot_logger,
            operation,
        ).runtime_init_effects(),
        LogOperation::PanicFlush(
            logger_free,
            in_memory_logger_free,
        ) => boot_logger.panic_flush_effects(logger_free, in_memory_logger_free),
        LogOperation::WriteStr(text) => boot_logger.write_effects(text),
        LogOperation::Log(level, args, complete) => boot_logger.fragments_effects(
            boot_logger::record_fragments(level, args, complete),
        ),
    }
}

/// The world after a call: initializing the in-memory log puts a new one into
/// its range, the other calls do no more than they ask for.
pub open spec fn world_after_operation(
    boot_logger: BootLogger,
    world: LogWorld,
    operation: LogOperation,
) -> LogWorld {
    match operation {
        LogOperation::MemoryInit(buffer) => if buffer.empty() {
            world
        } else {
            with_new_log(world, buffer)
        },
        _ => perform_all(world, operation_effects(boot_logger, operation)),
    }
}

/// Law: every call keeps the boot logger well-formed and in its build, keeps
/// its outputs ready, and writes to the serial port only while it is initialized
/// for the access that is used.
pub proof fn lemma_operation_keeps_outputs_ready(
    boot_logger: BootLogger,
    world: LogWorld,
    operation: LogOperation,
)
    requires
        boot_logger.wf(),
        outputs_ready(boot_logger, world),
    ensures
        after_operation(boot_logger, operation).wf(),
        after_operation(boot_logger, operation).build == boot_logger.build,
        port_ready_throughout(world, operation_effects(boot_logger, operation)),
        outputs_ready(
            after_operation(boot_logger, operation),
            world_after_operation(boot_logger, world, operation),
        ),
{
    let effects = operation_effects(boot_logger, operation);
    match operation {
        LogOperation::WriteStr(text) => {
            lemma_write_reaches_every_output(boot_logger, world, text);
        },
        LogOperation::Log(level, args, complete) => {
            let fragments = boot_logger::record_fragments(level, args, complete);
            lemma_pieces_reach_every_output(boot_logger, world, fragments);
        },
        _ => {
            reveal_with_fuel(perform_all, 3);
            reveal_with_fuel(port_ready_throughout, 3);
            if effects.len() > 0 {
                let head = effects.drop_last();
                if head.len() > 0 {
                    assert(head.drop_last() =~= Seq::empty());
                }
            }
        },
    }
}

/// The boot logger after a sequence of calls.
pub open spec fn after_operations(
    boot_logger: BootLogger,
    operations: Seq<LogOperation>,
) -> BootLogger
    decreases operations.len(),
{
    if operations.len() == 0 {
        boot_logger
    } else {
        after_operation(
            after_operations(boot_logger, operations.drop_last()),
            operations.last(),
        )
    }
}

/// The world after a sequence of calls.
pub open spec fn world_after_operations(
    boot_logger: BootLogger,
    world: LogWorld,
    operations: Seq<LogOperation>,
) -> LogWorld
    decreases operations.len(),
{
    if operations.len() == 0 {
        world
    } else {
        world_after_operation(
            after_operations(boot_logger, operations.drop_last()),
            world_after_operations(boot_logger, world, operations.drop_last()),
            operations.last(),
        )
    }
}

/// Law: whatever is called on a new boot logger, in whatever order, it stays
/// well-formed, its outputs are ready, and the next call, whatever it is, writes
/// to the serial port only while it is initialized for the access that is used.
pub proof fn lemma_every_history_keeps_outputs_ready(
    boot_logger: BootLogger,
    world: LogWorld,
    operations: Seq<LogOperation>,
    next: LogOperation,
)
    requires
        boot_logger.logger == Logger::NoOutput,
        boot_logger.in_memory_logger is None,
    ensures
        after_operations(boot_logger, operations).wf(),
        after_operations(boot_logger, operations).build == boot_logger.build,
        outputs_ready(
            after_operations(boot_logger, operations),
            world_after_operations(boot_logger, world, operations),
        ),
        port_ready_throughout(
            world_after_operations(boot_logger, world, operations),
            operation_effects(after_operations(boot_logger, operations), next),
        ),
    decreases operations.len(),
{
    if operations.len() > 0 {
        let earlier = operations.drop_last();
        lemma_every_history_keeps_outputs_ready(boot_logger, world, earlier, next);
        lemma_operation_keeps_outputs_ready(
            after_operations(boot_logger, earlier),
            world_after_operations(boot_logger, world, earlier),
            operations.last(),
        );
    }
    lemma_operation_keeps_outputs_ready(
        after_operations(boot_logger, operations),
        world_after_operations(boot_logger, world, operations),
        next,
    );
}

} // verus!
