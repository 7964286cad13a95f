//! Which output the boot logger gets, and what each call asks for.

use crate::boot_logger;
use crate::boot_logger::BootLogger;
use crate::boot_logger::ComInfo;
use crate::boot_logger::IoAccess;
use crate::boot_logger::Level;
use crate::boot_logger::LogAction;
use crate::boot_logger::LogEffect;
use crate::boot_logger::LogRunView;
use crate::boot_logger::Logger;
use crate::boot_logger_laws;
use crate::boot_logger_laws::LogWorld;
use crate::host_params::IsolationType;
use crate::log_failure_laws;
use crate::memory_range::MemoryRange;
use vstd::prelude::*;

verus! {

/// Law: an action does what it says, to the range, by the access and with the
/// text that it names, and several actions do what each of them does.
pub proof fn lemma_actions_do_what_they_say(
    access: IoAccess,
    range: MemoryRange,
    text: &str,
    actions: Seq<LogAction>,
)
    ensures
        LogAction::InitSerial(access)@ == LogEffect::InitSerial(access),
        LogAction::AppendInMemory(range, text)@ == LogEffect::AppendInMemory(range, text@),
        LogAction::WriteSerial(access, text)@ == LogEffect::WriteSerial(access, text@),
        LogAction::WriteInMemoryLog(access, range)@ == LogEffect::WriteInMemoryLog(access, range),
        boot_logger::effects(actions).len() == actions.len(),
        forall|i: int|
            0 <= i < actions.len() ==> #[trigger] boot_logger::effects(actions)[i] == actions[i]@,
{
}

/// Law: each kind of partition has an access of its own, and each serial output
/// uses the access of its partition.
pub proof fn lemma_access_of_each_output(logger: Logger)
    ensures
        logger.access() == Some(IoAccess::Instr) <==> logger is Serial,
        logger.access() == Some(IoAccess::Tdx) <==> logger is TdxSerial,
        logger.access() == Some(IoAccess::Snp) <==> logger is SnpSerial,
        logger.access() is None <==> logger is NoOutput,
{
}

/// Law: initializing the runtime output gives each partition the output that is
/// its own, whatever output and whatever stored isolation type there was before.
/// An output takes x86_64 and a 16550-compatible UART, and that of a TDX or SNP
/// partition takes a build that lets confidential VMs log. Nothing else about
/// the boot logger changes.
pub proof fn lemma_output_after_runtime_init(
    boot_logger: BootLogger,
    isolation_type: IsolationType,
    com3_serial_available: ComInfo,
)
    ensures
        ({
            let after = boot_logger.with_logger(
                boot_logger::runtime_logger(
                    boot_logger.build,
                    isolation_type,
                    com3_serial_available,
                ),
            );
            let usable = boot_logger.build.target_arch is X86_64 && com3_serial_available
                is Ns16550;
            let confidential = usable && boot_logger.build.cvm_boot_log;
            &&& after.logger is Serial <==> usable && isolation_type is NotIsolated
            &&& after.logger is TdxSerial <==> confidential && isolation_type is Tdx
            &&& after.logger is SnpSerial <==> confidential && isolation_type is Snp
            &&& after.logger.access() == Some(IoAccess::Instr) <==> usable && isolation_type
                is NotIsolated
            &&& after.logger.access() == Some(IoAccess::Tdx) <==> confidential && isolation_type
                is Tdx
            &&& after.logger.access() == Some(IoAccess::Snp) <==> confidential && isolation_type
                is Snp
            &&& after.build == boot_logger.build
            &&& after.in_memory_logger == boot_logger.in_memory_logger
            &&& after.isolation_type == boot_logger.isolation_type
        }),
{
}

/// Law: setting one thing about the boot logger sets it to what is given, and
/// leaves the others alone. An empty range is no place for an in-memory log.
pub proof fn lemma_setting_one_thing(
    boot_logger: BootLogger,
    logger: Logger,
    isolation_type: IsolationType,
    buffer: MemoryRange,
)
    ensures
        boot_logger.with_logger(logger) == (BootLogger {
            build: boot_logger.build,
            logger,
            in_memory_logger: boot_logger.in_memory_logger,
            isolation_type: boot_logger.isolation_type,
        }),
        boot_logger.with_isolation_type(isolation_type) == (BootLogger {
            build: boot_logger.build,
            logger: boot_logger.logger,
            in_memory_logger: boot_logger.in_memory_logger,
            isolation_type,
        }),
        buffer.spec_start() != buffer.spec_end() ==> boot_logger.with_memory(buffer) == (
        BootLogger {
            build: boot_logger.build,
            logger: boot_logger.logger,
            in_memory_logger: Some(buffer),
            isolation_type: boot_logger.isolation_type,
        }),
        buffer.spec_start() == buffer.spec_end() ==> boot_logger.with_memory(buffer)
            == boot_logger,
{
}

/// Law: what a well-formed boot logger is. Its output is one that its build has,
/// and its in-memory log has room.
pub proof fn lemma_well_formed_boot_logger(boot_logger: BootLogger)
    ensures
        boot_logger.wf() <==> {
            &&& !(boot_logger.logger is NoOutput) ==> boot_logger.build.target_arch is X86_64
            &&& boot_logger.logger is TdxSerial || boot_logger.logger is SnpSerial
                ==> boot_logger.build.cvm_boot_log
            &&& boot_logger.in_memory_logger matches Some(range) ==> range.spec_start()
                != range.spec_end()
        },
{
}

/// Law: a flush on panic finds an output by the stored isolation type, exactly as
/// initializing the runtime output for a 16550-compatible UART does, whatever
/// in-memory log there is. An output that is there already is kept, and if the
/// output was in use, nothing changes.
pub proof fn lemma_output_after_panic_flush(boot_logger: BootLogger)
    ensures
        ({
            let after = boot_logger.after_panic_flush(true);
            let x86_64 = boot_logger.build.target_arch is X86_64;
            let confidential = x86_64 && boot_logger.build.cvm_boot_log;
            let stored = boot_logger.isolation_type;
            &&& boot_logger.after_panic_flush(false) == boot_logger
            &&& !(boot_logger.logger is NoOutput) ==> after == boot_logger
            &&& boot_logger.logger is NoOutput ==> {
                &&& after.logger is Serial <==> x86_64 && stored is NotIsolated
                &&& after.logger is TdxSerial <==> confidential && stored is Tdx
                &&& after.logger is SnpSerial <==> confidential && stored is Snp
                &&& after.logger == boot_logger::runtime_logger(
                    boot_logger.build,
                    stored,
                    ComInfo::Ns16550,
                )
            }
            &&& after.logger == boot_logger.panic_logger()
            &&& after.build == boot_logger.build
            &&& after.in_memory_logger == boot_logger.in_memory_logger
            &&& after.isolation_type == stored
        }),
{
}

/// Law: what initializing the runtime output asks for. Without an output that is
/// nothing. Otherwise the port is initialized, and then the in-memory log, if
/// there is one, is written out, both by the access of the output.
pub proof fn lemma_runtime_init_asks_for(
    boot_logger: BootLogger,
    access: IoAccess,
    range: MemoryRange,
)
    ensures
        boot_logger.logger is NoOutput ==> boot_logger.runtime_init_effects() == Seq::<
            LogEffect,
        >::empty(),
        boot_logger.logger.access() == Some(access) && boot_logger.in_memory_logger is None
            ==> boot_logger.runtime_init_effects() == seq![LogEffect::InitSerial(access)],
        boot_logger.logger.access() == Some(access) && boot_logger.in_memory_logger == Some(range)
            ==> boot_logger.runtime_init_effects() == seq![
            LogEffect::InitSerial(access),
            LogEffect::WriteInMemoryLog(access, range),
        ],
{
}

/// Law: what a flush on panic asks for, where `access` is that of the output
/// after it. Only an output that was not there before is initialized, and the
/// in-memory log is written out if there is one that is not in use.
pub proof fn lemma_panic_flush_asks_for(
    boot_logger: BootLogger,
    in_memory_logger_free: bool,
    access: IoAccess,
    range: MemoryRange,
)
    ensures
        boot_logger.panic_flush_effects(false, in_memory_logger_free) == Seq::<LogEffect>::empty(),
        boot_logger.after_panic_flush(true).logger is NoOutput ==> boot_logger.panic_flush_effects(
            true,
            in_memory_logger_free,
        ) == Seq::<LogEffect>::empty(),
        boot_logger.after_panic_flush(true).logger.access() == Some(access) ==> {
            let flush = boot_logger.panic_flush_effects(true, in_memory_logger_free);
            let init = LogEffect::InitSerial(access);
            let emit = LogEffect::WriteInMemoryLog(access, range);
            let to_emit = in_memory_logger_free && boot_logger.in_memory_logger == Some(range);
            let none_to_emit = !in_memory_logger_free || boot_logger.in_memory_logger is None;
            &&& boot_logger.logger is NoOutput && to_emit ==> flush == seq![init, emit]
            &&& boot_logger.logger is NoOutput && none_to_emit ==> flush == seq![init]
            &&& !(boot_logger.logger is NoOutput) && to_emit ==> flush == seq![emit]
            &&& !(boot_logger.logger is NoOutput) && none_to_emit ==> flush == Seq::<
                LogEffect,
            >::empty()
        },
{
}

/// Law: a panic before any runtime output was initialized brings out the whole
/// in-memory log, on x86_64: in a partition that is not isolated always, and in
/// a TDX or SNP partition if the build lets confidential VMs log. In any other
/// partition nothing comes out.
pub proof fn lemma_who_sees_the_log_of_a_panic(
    boot_logger: BootLogger,
    world: LogWorld,
    range: MemoryRange,
)
    requires
        boot_logger.logger is NoOutput,
        boot_logger.in_memory_logger == Some(range),
    ensures
        ({
            let after = boot_logger_laws::perform_all(
                world,
                boot_logger.panic_flush_effects(true, true),
            );
            let confidential = boot_logger.isolation_type is Tdx || boot_logger.isolation_type
                is Snp;
            let seen = boot_logger.build.target_arch is X86_64 && (boot_logger.isolation_type
                is NotIsolated || confidential && boot_logger.build.cvm_boot_log);
            &&& seen ==> after.serial == world.serial + world.logs[range]
            &&& !seen ==> after == world
            &&& after.logs == world.logs
        }),
{
    if let Some(access) = boot_logger.after_panic_flush(true).logger.access() {
        lemma_panic_flush_asks_for(boot_logger, true, access, range);
        boot_logger_laws::lemma_perform_two(
            world,
            LogEffect::InitSerial(access),
            LogEffect::WriteInMemoryLog(access, range),
        );
    }
}

/// Law: what writing a text asks for. It is appended to the in-memory log first,
/// if there is one, and then written to the output, if there is one.
pub proof fn lemma_write_asks_for(
    boot_logger: BootLogger,
    text: Seq<char>,
    access: IoAccess,
    range: MemoryRange,
)
    ensures
        ({
            let write = boot_logger.write_effects(text);
            let append = LogEffect::AppendInMemory(range, text);
            let output = LogEffect::WriteSerial(access, text);
            let has_log = boot_logger.in_memory_logger == Some(range);
            let has_output = boot_logger.logger.access() == Some(access);
            &&& has_log && has_output ==> write == seq![append, output]
            &&& has_log && boot_logger.logger is NoOutput ==> write == seq![append]
            &&& boot_logger.in_memory_logger is None && has_output ==> write == seq![output]
            &&& boot_logger.in_memory_logger is None && boot_logger.logger is NoOutput ==> write
                == Seq::<LogEffect>::empty()
            &&& has_output ==> boot_logger.logger.write_effects(text) == seq![output]
            &&& boot_logger.logger is NoOutput ==> boot_logger.logger.write_effects(text) == Seq::<
                LogEffect,
            >::empty()
        }),
{
}

/// Law: fragments are written one by one in order, and each as a text of its own.
pub proof fn lemma_fragments_are_written_in_order(
    boot_logger: BootLogger,
    fragments: Seq<Seq<char>>,
    next: Seq<char>,
)
    ensures
        boot_logger.fragments_effects(Seq::empty()) == Seq::<LogEffect>::empty(),
        boot_logger.fragments_effects(fragments.push(next)) == boot_logger.fragments_effects(
            fragments,
        ) + boot_logger.write_effects(next),
{
    assert(fragments.push(next).drop_last() =~= fragments);
}

/// Law: with an in-memory log and an output, each fragment is appended to the
/// log and then written to the output before the next one comes; with one of the
/// two, it goes there.
pub proof fn lemma_where_each_fragment_goes(
    boot_logger: BootLogger,
    fragments: Seq<Seq<char>>,
    k: int,
    access: IoAccess,
    range: MemoryRange,
)
    requires
        0 <= k < fragments.len(),
    ensures
        ({
            let all = boot_logger.fragments_effects(fragments);
            let append = LogEffect::AppendInMemory(range, fragments[k]);
            let output = LogEffect::WriteSerial(access, fragments[k]);
            let has_log = boot_logger.in_memory_logger == Some(range);
            let has_output = boot_logger.logger.access() == Some(access);
            &&& has_log && has_output ==> all.len() == 2 * fragments.len() && all[2 * k] == append
                && all[2 * k + 1] == output
            &&& has_log && boot_logger.logger is NoOutput ==> all.len() == fragments.len() && all[k]
                == append
            &&& boot_logger.in_memory_logger is None && has_output ==> all.len() == fragments.len()
                && all[k] == output
            &&& boot_logger.in_memory_logger is None && boot_logger.logger is NoOutput
                ==> all.len() == 0
        }),
    decreases fragments.len(),
{
    let head = fragments.drop_last();
    if head.len() == 0 {
        reveal_with_fuel(BootLogger::fragments_effects, 2);
    } else if k < head.len() {
        lemma_where_each_fragment_goes(boot_logger, head, k, access, range);
    } else {
        lemma_where_each_fragment_goes(boot_logger, head, 0, access, range);
    }
}

/// Law: the names of the levels.
pub proof fn lemma_level_names()
    ensures
        Level::Error.name() == seq!['E', 'R', 'R', 'O', 'R'],
        Level::Warn.name() == seq!['W', 'A', 'R', 'N'],
        Level::Info.name() == seq!['I', 'N', 'F', 'O'],
        Level::Debug.name() == seq!['D', 'E', 'B', 'U', 'G'],
        Level::Trace.name() == seq!['T', 'R', 'A', 'C', 'E'],
{
    reveal_strlit("ERROR");
    reveal_strlit("WARN");
    reveal_strlit("INFO");
    reveal_strlit("DEBUG");
    reveal_strlit("TRACE");
}

/// Law: the fragments of a record are an opening bracket, the name of its level,
/// a closing bracket and a space, each fragment of its message as it is, and a
/// newline exactly if the message came to its end.
pub proof fn lemma_fragments_of_a_record(level: Level, args: Seq<&str>, complete: bool)
    ensures
        ({
            let all = boot_logger::record_fragments(level, args, complete);
            &&& all.len() == 3 + args.len() + if complete {
                1int
            } else {
                0
            }
            &&& all[0] == seq!['[']
            &&& all[1] == level.name()
            &&& all[2] == seq![']', ' ']
            &&& forall|i: int| 0 <= i < args.len() ==> all[3 + i] == (#[trigger] args[i])@
            &&& complete ==> all.last() == seq!['\n']
            &&& boot_logger::prefix_fragments(level) == all.take(3)
        }),
{
    reveal_strlit("[");
    reveal_strlit("] ");
    reveal_strlit("\n");
    assert(boot_logger::prefix_fragments(level) =~= boot_logger::record_fragments(
        level,
        args,
        complete,
    ).take(3));
}

/// Law: the one failure that counts is that of writing text to the serial port.
pub proof fn lemma_which_failures_count(effect: LogEffect)
    ensures
        effect.failure_counts() <==> effect is WriteSerial,
{
}

/// Law: effects are performed up to and including the first write of text to the
/// serial port that can not be done, and all of them if there is none.
pub proof fn lemma_what_is_performed(effects: Seq<LogEffect>, done: Seq<bool>, i: int)
    ensures
        (forall|j: int| 0 <= j < effects.len() && effects[j] is WriteSerial ==> done[j])
            ==> boot_logger::performed(effects, done) == effects && !boot_logger::write_fails(
            effects,
            done,
        ),
        0 <= i < effects.len() && effects[i] is WriteSerial && !done[i] && (forall|j: int|
            0 <= j < i && effects[j] is WriteSerial ==> done[j]) ==> boot_logger::performed(
            effects,
            done,
        ) == effects.take(i + 1) && boot_logger::write_fails(effects, done),
{
    log_failure_laws::lemma_performed_up_to_first_failure(effects, done, i);
    if 0 <= i < effects.len() && effects[i] is WriteSerial && !done[i] {
        assert(effects[i].failure_counts());
        if forall|j: int| 0 <= j < i && effects[j] is WriteSerial ==> done[j] {
            let before = effects.take(i);
            if boot_logger::write_fails(before, done) {
                let j = choose|j: int|
                    0 <= j < before.len() && !done[j] && (#[trigger] before[j]).failure_counts();
                assert(effects[j] is WriteSerial);
            }
        }
    }
}

/// Law: a run starts with its first effect, goes on to the next one each time it
/// is told how one went, and ends after the last one or after a write of text to
/// the serial port that could not be done. Once ended, it stays as it is.
pub proof fn lemma_how_a_run_goes_on(run: LogRunView, effects: Seq<LogEffect>, done: bool)
    ensures
        LogRunView::start(effects) == (LogRunView { effects, next: 0, failed: false }),
        run.failed || run.next >= run.effects.len() ==> run.current() is None && run.after(done)
            == run,
        !run.failed && run.next < run.effects.len() ==> run.current() == Some(
            run.effects[run.next as int],
        ) && run.after(done) == (LogRunView {
            effects: run.effects,
            next: run.next + 1,
            failed: !done && run.effects[run.next as int] is WriteSerial,
        }),
{
}

} // verus!
