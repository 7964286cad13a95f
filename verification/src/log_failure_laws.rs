//! What holds of the boot logger when its outputs fail.

use crate::boot_logger;
use crate::boot_logger::BootLogger;
use crate::boot_logger::Level;
use crate::boot_logger::LogEffect;
use crate::boot_logger::LogRunView;
use crate::boot_logger_laws;
use crate::boot_logger_laws::LogWorld;
use vstd::prelude::*;

verus! {

/// What performing `effects` changes if `done` says of each whether it can be
/// done: one that can not changes nothing.
pub open spec fn attempt_all(
    world: LogWorld,
    effects: Seq<LogEffect>,
    done: Seq<bool>,
) -> LogWorld
    decreases effects.len(),
{
    if effects.len() == 0 {
        world
    } else {
        let before = attempt_all(world, effects.drop_last(), done);
        if done[effects.len() - 1] {
            boot_logger_laws::perform(before, effects.last())
        } else {
            before
        }
    }
}

/// How many effects writing one fragment has.
pub open spec fn effects_per_fragment(boot_logger: BootLogger) -> int {
    (if boot_logger.in_memory_logger is Some {
        1int
    } else {
        0
    }) + (if boot_logger.logger.access() is Some {
        1int
    } else {
        0
    })
}

/// Where in the effects of writing fragments the first effect of fragment `k`
/// stands. With an in-memory log, it is the append to that log.
pub open spec fn fragment_start(boot_logger: BootLogger, k: int) -> int {
    k * effects_per_fragment(boot_logger)
}

/// Where in the effects of writing fragments the write of fragment `k` to the
/// runtime output stands.
pub open spec fn runtime_write(boot_logger: BootLogger, k: int) -> int {
    fragment_start(boot_logger, k + 1) - 1
}

/// Whether fragment `k` is the first that the runtime output fails on.
pub open spec fn fails_at(
    boot_logger: BootLogger,
    fragments: Seq<Seq<char>>,
    done: Seq<bool>,
    k: int,
) -> bool {
    &&& 0 <= k < fragments.len()
    &&& boot_logger.logger.access() is Some
    &&& !done[runtime_write(boot_logger, k)]
    &&& forall|j: int| 0 <= j < k ==> done[#[trigger] runtime_write(boot_logger, j)]
}

/// Those of `fragments` that the in-memory log takes, one after the other.
pub open spec fn appended(
    boot_logger: BootLogger,
    fragments: Seq<Seq<char>>,
    done: Seq<bool>,
) -> Seq<char>
    decreases fragments.len(),
{
    if fragments.len() == 0 {
        Seq::empty()
    } else {
        let earlier = appended(boot_logger, fragments.drop_last(), done);
        if done[fragment_start(boot_logger, fragments.len() - 1)] {
            earlier + fragments.last()
        } else {
            earlier
        }
    }
}

/// `world` once `in_memory` was added to the boot logger's in-memory log, if it
/// has one, and `serial` came out of its runtime output, if it has one.
pub open spec fn with_texts(
    boot_logger: BootLogger,
    world: LogWorld,
    in_memory: Seq<char>,
    serial: Seq<char>,
) -> LogWorld {
    LogWorld {
        port: world.port,
        logs: match boot_logger.in_memory_logger {
            Some(range) => world.logs.insert(range, world.logs[range] + in_memory),
            None => world.logs,
        },
        serial: if boot_logger.logger.access() is Some {
            world.serial + serial
        } else {
            world.serial
        },
    }
}

/// If the in-memory log takes everything, it takes all of `fragments`.
proof fn lemma_appended_all(
    boot_logger: BootLogger,
    fragments: Seq<Seq<char>>,
    done: Seq<bool>,
)
    requires
        forall|j: int|
            0 <= j < fragments.len() ==> done[#[trigger] fragment_start(boot_logger, j)],
    ensures
        appended(boot_logger, fragments, done) == boot_logger_laws::joined(fragments),
    decreases fragments.len(),
{
    if fragments.len() > 0 {
        lemma_appended_all(boot_logger, fragments.drop_last(), done);
    }
}

/// Where the effects of each fragment stand.
proof fn lemma_fragment_effects(boot_logger: BootLogger, fragments: Seq<Seq<char>>)
    ensures
        boot_logger.fragments_effects(fragments).len() == fragment_start(
            boot_logger,
            fragments.len() as int,
        ),
        forall|i: int|
            0 <= i < boot_logger.fragments_effects(fragments).len()
                && #[trigger] boot_logger.fragments_effects(fragments)[i].failure_counts()
                ==> boot_logger.logger.access() is Some && exists|k: int|
                0 <= k < fragments.len() && i == #[trigger] runtime_write(boot_logger, k),
        boot_logger.logger.access() is Some ==> forall|k: int|
            0 <= k < fragments.len() ==> {
                &&& 0 <= #[trigger] runtime_write(boot_logger, k)
                    < boot_logger.fragments_effects(fragments).len()
                &&& boot_logger.fragments_effects(fragments)[runtime_write(boot_logger, k)]
                    == LogEffect::WriteSerial(boot_logger.logger.access()->0, fragments[k])
            },
    decreases fragments.len(),
{
    let width = effects_per_fragment(boot_logger);
    let effects = boot_logger.fragments_effects(fragments);
    if fragments.len() == 0 {
        assert(fragment_start(boot_logger, 0) == 0) by (nonlinear_arith)
            requires
                fragment_start(boot_logger, 0) == 0 * width,
        ;
    } else {
        let n = fragments.len() as int;
        let head = fragments.drop_last();
        let earlier = boot_logger.fragments_effects(head);
        let own = boot_logger.write_effects(fragments.last());
        lemma_fragment_effects(boot_logger, head);
        assert(own.len() == width);
        assert(fragment_start(boot_logger, n) == fragment_start(boot_logger, n - 1) + width)
            by (nonlinear_arith)
            requires
                fragment_start(boot_logger, n) == n * width,
                fragment_start(boot_logger, n - 1) == (n - 1) * width,
        ;
        assert(effects == earlier + own);
        assert forall|i: int|
            0 <= i < effects.len() && #[trigger] effects[i].failure_counts() implies
            boot_logger.logger.access() is Some && exists|k: int|
            0 <= k < fragments.len() && i == #[trigger] runtime_write(boot_logger, k) by {
            if i < earlier.len() {
                assert(earlier[i].failure_counts());
            } else {
                assert(own[i - earlier.len()].failure_counts());
                assert(i == runtime_write(boot_logger, n - 1));
            }
        }
        if boot_logger.logger.access() is Some {
            assert forall|k: int| 0 <= k < fragments.len() implies {
                &&& 0 <= #[trigger] runtime_write(boot_logger, k) < effects.len()
                &&& effects[runtime_write(boot_logger, k)] == LogEffect::WriteSerial(
                    boot_logger.logger.access()->0,
                    fragments[k],
                )
            } by {
                if k < n - 1 {
                    assert(fragments[k] == head[k]);
                } else {
                    assert(effects[runtime_write(boot_logger, k)] == own.last());
                }
            }
        }
    }
}

/// The effects of the first `n` fragments come first.
proof fn lemma_fragment_effects_prefix(
    boot_logger: BootLogger,
    fragments: Seq<Seq<char>>,
    n: int,
)
    requires
        0 <= n <= fragments.len(),
    ensures
        boot_logger.fragments_effects(fragments.take(n)) == boot_logger.fragments_effects(
            fragments,
        ).take(fragment_start(boot_logger, n)),
        0 <= fragment_start(boot_logger, n) <= boot_logger.fragments_effects(fragments).len(),
    decreases fragments.len(),
{
    let effects = boot_logger.fragments_effects(fragments);
    lemma_fragment_effects(boot_logger, fragments);
    if n == fragments.len() {
        assert(fragments.take(n) =~= fragments);
        assert(effects.take(effects.len() as int) =~= effects);
    } else {
        let head = fragments.drop_last();
        lemma_fragment_effects_prefix(boot_logger, head, n);
        assert(head.take(n) =~= fragments.take(n));
        assert(effects.take(fragment_start(boot_logger, n))
            =~= boot_logger.fragments_effects(head).take(fragment_start(boot_logger, n)));
    }
}

/// Law: effects are performed in order up to the first whose failure counts, and
/// all of them if there is none.
pub proof fn lemma_performed_up_to_first_failure(effects: Seq<LogEffect>, done: Seq<bool>, i: int)
    ensures
        !boot_logger::write_fails(effects, done) ==> boot_logger::performed(effects, done)
            == effects,
        0 <= i < effects.len() && effects[i].failure_counts() && !done[i]
            && !boot_logger::write_fails(effects.take(i), done) ==> boot_logger::performed(
            effects,
            done,
        ) == effects.take(i + 1),
    decreases effects.len(),
{
    if effects.len() > 0 {
        let head = effects.drop_last();
        lemma_performed_up_to_first_failure(head, done, i);
        if boot_logger::write_fails(head, done) {
            let j = choose|j: int|
                0 <= j < head.len() && !done[j] && (#[trigger] head[j]).failure_counts();
            assert(effects[j].failure_counts());
            assert(boot_logger::write_fails(effects, done));
        }
        if 0 <= i < effects.len() && effects[i].failure_counts() && !done[i] {
            if i < head.len() {
                assert(head[i].failure_counts());
                assert(boot_logger::write_fails(head, done));
                assert(head.take(i) =~= effects.take(i));
                assert(head.take(i + 1) =~= effects.take(i + 1));
            } else {
                assert(effects.take(i) =~= head);
                assert(effects.take(i + 1) =~= effects);
            }
        }
    }
}

/// Law: effects can be performed in two parts, if the second is left out where
/// the first fails.
pub proof fn lemma_performed_in_parts(
    first: Seq<LogEffect>,
    second: Seq<LogEffect>,
    done: Seq<bool>,
)
    requires
        done.len() >= first.len() + second.len(),
    ensures
        ({
            let rest = done.skip(first.len() as int);
            &&& boot_logger::performed(first + second, done) == if boot_logger::write_fails(
                first,
                done,
            ) {
                boot_logger::performed(first, done)
            } else {
                first + boot_logger::performed(second, rest)
            }
            &&& boot_logger::write_fails(first + second, done) <==> boot_logger::write_fails(
                first,
                done,
            ) || boot_logger::write_fails(second, rest)
        }),
    decreases second.len(),
{
    let both = first + second;
    let rest = done.skip(first.len() as int);
    if boot_logger::write_fails(first, done) {
        let i = choose|i: int|
            0 <= i < first.len() && !done[i] && (#[trigger] first[i]).failure_counts();
        assert(both[i].failure_counts());
    }
    if boot_logger::write_fails(second, rest) {
        let i = choose|i: int|
            0 <= i < second.len() && !rest[i] && (#[trigger] second[i]).failure_counts();
        assert(both[first.len() + i].failure_counts());
    }
    if boot_logger::write_fails(both, done) {
        let i = choose|i: int|
            0 <= i < both.len() && !done[i] && (#[trigger] both[i]).failure_counts();
        if i < first.len() {
            assert(first[i].failure_counts());
        } else {
            assert(second[i - first.len()].failure_counts());
            assert(!rest[i - first.len()]);
        }
    }
    if second.len() == 0 {
        assert(both =~= first);
        assert(first + boot_logger::performed(second, rest) =~= first);
        lemma_performed_up_to_first_failure(first, done, 0);
    } else {
        assert(both.drop_last() =~= first + second.drop_last());
        lemma_performed_in_parts(first, second.drop_last(), done);
    }
}

/// How far a run has come after it was told `count` results.
proof fn lemma_run_so_far(effects: Seq<LogEffect>, done: Seq<bool>, count: nat)
    requires
        count <= effects.len(),
    ensures
        ({
            let run = LogRunView::after_all(effects, done, count);
            &&& run.effects == effects
            &&& run.next <= count
            &&& !run.failed ==> run.next == count
            &&& run.failed == boot_logger::write_fails(effects.take(count as int), done)
            &&& effects.take(run.next as int) == boot_logger::performed(
                effects.take(count as int),
                done,
            )
        }),
    decreases count,
{
    let now = effects.take(count as int);
    if count > 0 {
        let earlier = effects.take(count - 1);
        let before = LogRunView::after_all(effects, done, (count - 1) as nat);
        lemma_run_so_far(effects, done, (count - 1) as nat);
        assert(now.drop_last() =~= earlier);
        if before.failed {
            let j = choose|j: int|
                0 <= j < earlier.len() && !done[j] && (#[trigger] earlier[j]).failure_counts();
            assert(now[j].failure_counts());
        } else {
            if now.last().failure_counts() && !done[count - 1] {
                assert(now[count - 1].failure_counts());
            } else if boot_logger::write_fails(now, done) {
                let j = choose|j: int|
                    0 <= j < now.len() && !done[j] && (#[trigger] now[j]).failure_counts();
                assert(j < count - 1);
                assert(earlier[j].failure_counts());
            }
        }
    }
}

/// Law: a run that is told how each of its actions went hands out exactly the
/// effects that are to be performed, then ends, and comes to an error if and
/// only if one of them fails in a way that counts.
pub proof fn lemma_run_performs(effects: Seq<LogEffect>, done: Seq<bool>)
    ensures
        ({
            let run = LogRunView::after_all(effects, done, effects.len());
            &&& run.current() is None
            &&& effects.take(run.next as int) == boot_logger::performed(effects, done)
            &&& run.failed == boot_logger::write_fails(effects, done)
        }),
{
    lemma_run_so_far(effects, done, effects.len());
    assert(effects.take(effects.len() as int) =~= effects);
}

/// What writing `fragments` changes if the runtime output fails on none of them.
proof fn lemma_fragments_without_failure(
    boot_logger: BootLogger,
    world: LogWorld,
    fragments: Seq<Seq<char>>,
    done: Seq<bool>,
)
    requires
        boot_logger_laws::outputs_ready(boot_logger, world),
        boot_logger.logger.access() is Some ==> forall|j: int|
            0 <= j < fragments.len() ==> done[#[trigger] runtime_write(boot_logger, j)],
    ensures
        attempt_all(world, boot_logger.fragments_effects(fragments), done) == with_texts(
            boot_logger,
            world,
            appended(boot_logger, fragments, done),
            boot_logger_laws::joined(fragments),
        ),
    decreases fragments.len(),
{
    let in_memory = appended(boot_logger, fragments, done);
    let serial = boot_logger_laws::joined(fragments);
    let effects = boot_logger.fragments_effects(fragments);
    if fragments.len() == 0 {
        assert(with_texts(boot_logger, world, in_memory, serial) =~= world);
    } else {
        let n = fragments.len() as int;
        let head = fragments.drop_last();
        let text = fragments.last();
        lemma_fragments_without_failure(boot_logger, world, head, done);
        lemma_fragment_effects(boot_logger, head);
        lemma_fragment_effects(boot_logger, fragments);
        lemma_attempt_fragment(boot_logger, world, head, text, done);
        assert(head.push(text) =~= fragments);
        if let Some(range) = boot_logger.in_memory_logger {
            let taken = appended(boot_logger, head, done);
            assert(world.logs[range] + taken + text =~= world.logs[range] + (taken + text));
        }
        if boot_logger.logger.access() is Some {
            assert(done[runtime_write(boot_logger, n - 1)]);
        }
        assert(attempt_all(world, effects, done) =~= with_texts(
            boot_logger,
            world,
            in_memory,
            serial,
        ));
    }
}

/// What one more fragment changes.
proof fn lemma_attempt_fragment(
    boot_logger: BootLogger,
    world: LogWorld,
    head: Seq<Seq<char>>,
    text: Seq<char>,
    done: Seq<bool>,
)
    ensures
        ({
            let n = head.len() as int;
            let before = attempt_all(world, boot_logger.fragments_effects(head), done);
            let kept = match boot_logger.in_memory_logger {
                Some(range) => if done[fragment_start(boot_logger, n)] {
                    boot_logger_laws::perform(before, LogEffect::AppendInMemory(range, text))
                } else {
                    before
                },
                None => before,
            };
            let written = match boot_logger.logger.access() {
                Some(access) => if done[runtime_write(boot_logger, n)] {
                    boot_logger_laws::perform(kept, LogEffect::WriteSerial(access, text))
                } else {
                    kept
                },
                None => kept,
            };
            attempt_all(world, boot_logger.fragments_effects(head.push(text)), done) == written
        }),
{
    let n = head.len() as int;
    let all = head.push(text);
    let earlier = boot_logger.fragments_effects(head);
    let effects = boot_logger.fragments_effects(all);
    assert(all.drop_last() =~= head);
    assert(effects == earlier + boot_logger.write_effects(text));
    lemma_fragment_effects(boot_logger, head);
    lemma_fragment_effects(boot_logger, all);
    reveal_with_fuel(attempt_all, 3);
    match (boot_logger.in_memory_logger, boot_logger.logger.access()) {
        (Some(_), Some(_)) => {
            assert(effects.drop_last().drop_last() =~= earlier);
            assert(effects.len() == earlier.len() + 2);
        },
        (None, None) => {
            assert(effects =~= earlier);
        },
        _ => {
            assert(effects.drop_last() =~= earlier);
            assert(effects.len() == earlier.len() + 1);
        },
    }
}

/// Law: a failing runtime output ends what is being written. Fragments are
/// written one by one, and `done` says of each effect whether it can be done.
///
/// The write comes to an error if and only if the runtime output fails on one of
/// the fragments. If `k` is the first of these, what is performed is exactly
/// writing the fragments up to and including `k`. Of these, the in-memory log
/// gains the ones that it takes, which are all of them unless it fails itself,
/// and the ones before `k` come out of the runtime output.
pub proof fn lemma_failure_ends_the_write(
    boot_logger: BootLogger,
    world: LogWorld,
    fragments: Seq<Seq<char>>,
    done: Seq<bool>,
    k: int,
)
    requires
        boot_logger_laws::outputs_ready(boot_logger, world),
    ensures
        ({
            let effects = boot_logger.fragments_effects(fragments);
            let performed = boot_logger::performed(effects, done);
            let tried = fragments.take(k + 1);
            &&& boot_logger::write_fails(effects, done) <==> exists|j: int|
                #[trigger] fails_at(boot_logger, fragments, done, j)
            &&& fails_at(boot_logger, fragments, done, k) ==> {
                &&& performed == boot_logger.fragments_effects(tried)
                &&& attempt_all(world, performed, done) == with_texts(
                    boot_logger,
                    world,
                    appended(boot_logger, tried, done),
                    boot_logger_laws::joined(fragments.take(k)),
                )
                &&& (forall|j: int|
                    0 <= j <= k ==> done[#[trigger] fragment_start(boot_logger, j)])
                    ==> appended(boot_logger, tried, done) == boot_logger_laws::joined(tried)
            }
        }),
{
    let effects = boot_logger.fragments_effects(fragments);
    lemma_fragment_effects(boot_logger, fragments);
    if boot_logger::write_fails(effects, done) {
        let i = choose|i: int|
            0 <= i < effects.len() && !done[i] && (#[trigger] effects[i]).failure_counts();
        let j = choose|j: int|
            0 <= j < fragments.len() && i == #[trigger] runtime_write(boot_logger, j);
        lemma_first_failing_fragment(boot_logger, fragments, done, j);
    }
    if exists|j: int| #[trigger] fails_at(boot_logger, fragments, done, j) {
        let j = choose|j: int| #[trigger] fails_at(boot_logger, fragments, done, j);
        assert(effects[runtime_write(boot_logger, j)].failure_counts());
    }
    if fails_at(boot_logger, fragments, done, k) {
        let i = runtime_write(boot_logger, k);
        let head = fragments.take(k);
        let tried = fragments.take(k + 1);
        assert(effects[i].failure_counts());
        assert(!boot_logger::write_fails(effects.take(i), done)) by {
            if boot_logger::write_fails(effects.take(i), done) {
                let e = choose|e: int|
                    0 <= e < effects.take(i).len() && !done[e] && (#[trigger] effects.take(
                        i,
                    )[e]).failure_counts();
                assert(effects[e].failure_counts());
                let j = choose|j: int|
                    0 <= j < fragments.len() && e == #[trigger] runtime_write(boot_logger, j);
                lemma_runtime_writes_in_order(boot_logger, j, k);
            }
        }
        lemma_performed_up_to_first_failure(effects, done, i);
        lemma_fragment_effects_prefix(boot_logger, fragments, k + 1);
        assert(tried =~= head.push(fragments[k]));
        lemma_fragments_without_failure(boot_logger, world, head, done);
        lemma_attempt_fragment(boot_logger, world, head, fragments[k], done);
        assert(tried.drop_last() =~= head);
        if let Some(range) = boot_logger.in_memory_logger {
            let taken = appended(boot_logger, head, done);
            assert(world.logs[range] + taken + fragments[k] =~= world.logs[range] + (taken
                + fragments[k]));
        }
        assert(attempt_all(world, boot_logger.fragments_effects(tried), done) =~= with_texts(
            boot_logger,
            world,
            appended(boot_logger, tried, done),
            boot_logger_laws::joined(head),
        ));
        if forall|j: int| 0 <= j <= k ==> done[#[trigger] fragment_start(boot_logger, j)] {
            lemma_appended_all(boot_logger, tried, done);
        }
    }
}

/// The writes to the runtime output stand in the order of the fragments.
proof fn lemma_runtime_writes_in_order(boot_logger: BootLogger, j: int, k: int)
    requires
        boot_logger.logger.access() is Some,
        runtime_write(boot_logger, j) < runtime_write(boot_logger, k),
    ensures
        j < k,
{
    let width = effects_per_fragment(boot_logger);
    assert(j < k) by (nonlinear_arith)
        requires
            (j + 1) * width < (k + 1) * width,
            width >= 1,
    ;
}

/// If the runtime output fails on a fragment, there is a first that it fails on.
proof fn lemma_first_failing_fragment(
    boot_logger: BootLogger,
    fragments: Seq<Seq<char>>,
    done: Seq<bool>,
    j: int,
)
    requires
        0 <= j < fragments.len(),
        boot_logger.logger.access() is Some,
        !done[runtime_write(boot_logger, j)],
    ensures
        exists|k: int| #[trigger] fails_at(boot_logger, fragments, done, k),
    decreases j,
{
    if forall|i: int| 0 <= i < j ==> done[#[trigger] runtime_write(boot_logger, i)] {
        assert(fails_at(boot_logger, fragments, done, j));
    } else {
        let i = choose|i: int| 0 <= i < j && !done[#[trigger] runtime_write(boot_logger, i)];
        lemma_first_failing_fragment(boot_logger, fragments, done, i);
    }
}

/// Law: if the runtime output fails on none of the fragments, all of the write
/// is performed: all of it comes out, and the in-memory log gains what it takes.
pub proof fn lemma_write_without_failure(
    boot_logger: BootLogger,
    world: LogWorld,
    fragments: Seq<Seq<char>>,
    done: Seq<bool>,
)
    requires
        boot_logger_laws::outputs_ready(boot_logger, world),
        !boot_logger::write_fails(boot_logger.fragments_effects(fragments), done),
    ensures
        boot_logger::performed(boot_logger.fragments_effects(fragments), done)
            == boot_logger.fragments_effects(fragments),
        attempt_all(world, boot_logger.fragments_effects(fragments), done) == with_texts(
            boot_logger,
            world,
            appended(boot_logger, fragments, done),
            boot_logger_laws::joined(fragments),
        ),
{
    let effects = boot_logger.fragments_effects(fragments);
    lemma_performed_up_to_first_failure(effects, done, 0);
    lemma_fragment_effects(boot_logger, fragments);
    if boot_logger.logger.access() is Some {
        assert forall|j: int| 0 <= j < fragments.len() implies done[#[trigger] runtime_write(
            boot_logger,
            j,
        )] by {
            assert(effects[runtime_write(boot_logger, j)].failure_counts());
        }
    }
    lemma_fragments_without_failure(boot_logger, world, fragments, done);
}

/// Law: a record that is logged in parts, its message written fragment by
/// fragment between the start and the end, does what logging it at once does.
pub proof fn lemma_record_in_parts(
    boot_logger: BootLogger,
    level: Level,
    args: Seq<&str>,
    complete: bool,
)
    ensures
        ({
            let message = Seq::new(args.len(), |i: int| args[i]@);
            boot_logger.fragments_effects(boot_logger::record_fragments(level, args, complete))
                == boot_logger.fragments_effects(boot_logger::prefix_fragments(level))
                + boot_logger.fragments_effects(message) + if complete {
                boot_logger.write_effects("\n"@)
            } else {
                Seq::empty()
            }
        }),
{
    let prefix = boot_logger::prefix_fragments(level);
    let message = Seq::new(args.len(), |i: int| args[i]@);
    let all = boot_logger::record_fragments(level, args, complete);
    lemma_fragments_concat(boot_logger, prefix, message);
    if complete {
        assert(all.drop_last() =~= prefix + message);
    } else {
        assert(all =~= prefix + message);
        assert(boot_logger.fragments_effects(all) + Seq::empty()
            =~= boot_logger.fragments_effects(all));
    }
}

/// Fragments can be written in two parts.
proof fn lemma_fragments_concat(
    boot_logger: BootLogger,
    first: Seq<Seq<char>>,
    second: Seq<Seq<char>>,
)
    ensures
        boot_logger.fragments_effects(first + second) == boot_logger.fragments_effects(first)
            + boot_logger.fragments_effects(second),
    decreases second.len(),
{
    if second.len() == 0 {
        assert(first + second =~= first);
        assert(boot_logger.fragments_effects(first + second) =~= boot_logger.fragments_effects(
            first,
        ) + boot_logger.fragments_effects(second));
    } else {
        assert((first + second).drop_last() =~= first + second.drop_last());
        lemma_fragments_concat(boot_logger, first, second.drop_last());
        assert(boot_logger.fragments_effects(first + second) =~= boot_logger.fragments_effects(
            first,
        ) + boot_logger.fragments_effects(second));
    }
}

} // verus!
