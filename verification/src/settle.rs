//! What a run comes to on a disk that behaves: one that holds what the
//! directory listings say, gains every file that is placed, and on which
//! every step succeeds. There the run performs the steps of the settled
//! script, each file under the name that the listing gives it.
use vstd::prelude::*;
use crate::conflict::{
    candidate_name, conflict_extension, conflict_stem, first_free, resolved_name, PROBE_CEILING,
};
use crate::migrate::{
    cleanup_steps, conflict_line, contributes, folder_keep_gathers, folder_maybe_gathers,
    gather_conflicts, gather_names, gather_origins, gather_steps, gathers, is_picture, unifying,
    FolderOutputView, Gather,
};
use crate::model::{folder_names, EntryView, Folder};
use crate::paths::{file_name_of, joined};
use crate::plan::{plain_step, OpView, StepView};
use crate::script::{
    fixed_tasks, folder_gather_tasks, gather_tasks, placing_tasks, triage_tasks,
    unified_triage_tasks, unify_tasks,
};
use crate::triage::{
    placed_names, placed_origins, placements, transfer_steps, trash_steps, triage_origins,
    triage_steps, Placement,
};
use crate::run::{
    advance, after_perform, after_probe, begin_task, booked, fresh_run, placing_step, Answer,
    Phase, PlacingView, Purpose, RequestView, RunView, TaskView,
};

verus! {

/// The names that a disk holds in a directory; none in a directory that it
/// does not know.
pub open spec fn names_at(disk: Map<Seq<char>, Seq<Seq<char>>>, dir: Seq<char>) -> Seq<Seq<char>> {
    if disk.contains_key(dir) {
        disk[dir]
    } else {
        Seq::empty()
    }
}

/// A script settled up to some task: the steps so far, what they record
/// and report, and what the disk holds by then.
pub struct Settled {
    pub steps: Seq<StepView>,
    pub origins: Seq<(Seq<char>, Seq<char>)>,
    pub conflicts: Seq<Seq<char>>,
    pub disk: Map<Seq<char>, Seq<Seq<char>>>,
}

/// A disk with one more name in a directory.
pub open spec fn with_name(
    disk: Map<Seq<char>, Seq<Seq<char>>>,
    dir: Seq<char>,
    name: Seq<char>,
) -> Map<Seq<char>, Seq<Seq<char>>> {
    disk.insert(dir, names_at(disk, dir).push(name))
}

/// A placing settled: the file gets the first name that is free in its
/// directory, is recorded under it, and a migration reports the renaming.
pub open spec fn settle_placing(state: Settled, placing: PlacingView) -> Settled {
    let name = resolved_name(names_at(state.disk, placing.dir), placing.name);
    Settled {
        steps: state.steps.push(placing_step(placing, name)),
        origins: state.origins.push((name, placing.folder_id)),
        conflicts: if placing.purpose is Migration && name != placing.name {
            state.conflicts.push(conflict_line(placing.name, name))
        } else {
            state.conflicts
        },
        disk: with_name(state.disk, placing.dir, name),
    }
}

/// One more task settled.
pub open spec fn settle_task(state: Settled, task: TaskView) -> Settled {
    match task {
        TaskView::Fixed(step) => Settled { steps: state.steps.push(step), ..state },
        TaskView::Place(placing) => settle_placing(state, placing),
    }
}

/// A script settled task by task.
pub open spec fn settle(state: Settled, tasks: Seq<TaskView>) -> Settled
    decreases tasks.len(),
{
    if tasks.len() == 0 {
        state
    } else {
        settle_task(settle(state, tasks.drop_last()), tasks.last())
    }
}

/// Nothing settled yet on a disk.
pub open spec fn unsettled(disk: Map<Seq<char>, Seq<Seq<char>>>) -> Settled {
    Settled { steps: Seq::empty(), origins: Seq::empty(), conflicts: Seq::empty(), disk }
}

/// Settling two scripts one after the other settles them put together.
pub proof fn settle_in_parts(state: Settled, first: Seq<TaskView>, second: Seq<TaskView>)
    ensures
        settle(state, first + second) == settle(settle(state, first), second),
    decreases second.len(),
{
    if second.len() == 0 {
        assert(first + second =~= first);
    } else {
        settle_in_parts(state, first, second.drop_last());
        assert((first + second).drop_last() =~= first + second.drop_last());
        assert((first + second).last() == second.last());
    }
}

/// How much a run has left to do: a bound on the answers it can still
/// take before it is over.
pub open spec fn weight(run: RunView) -> nat {
    let left = if 0 <= run.at <= run.tasks.len() {
        run.tasks.len() - run.at
    } else {
        0
    };
    let within: int = match run.phase {
        Phase::Idle => PROBE_CEILING + 3,
        Phase::Probing => 2 + (if run.counter < PROBE_CEILING {
            PROBE_CEILING - run.counter
        } else {
            0
        }),
        Phase::Performing => 1,
        Phase::Finished => 0,
    };
    (left * (PROBE_CEILING + 3) + within) as nat
}

/// Whether the disk holds the name that a run probes.
pub open spec fn taken_on(run: RunView, disk: Map<Seq<char>, Seq<Seq<char>>>) -> bool {
    0 <= run.at < run.tasks.len() && match run.tasks[run.at] {
        TaskView::Place(placing) => names_at(disk, placing.dir).contains(run.name),
        TaskView::Fixed(_) => false,
    }
}

/// The disk after the step in hand: a file that was placed is there under
/// its name.
pub open spec fn disk_after(run: RunView, disk: Map<Seq<char>, Seq<Seq<char>>>) -> Map<
    Seq<char>,
    Seq<Seq<char>>,
> {
    if 0 <= run.at < run.tasks.len() {
        match run.tasks[run.at] {
            TaskView::Place(placing) => with_name(disk, placing.dir, run.name),
            TaskView::Fixed(_) => disk,
        }
    } else {
        disk
    }
}

/// Where a run has come to: the run, the disk, and the steps performed.
pub struct Course {
    pub run: RunView,
    pub disk: Map<Seq<char>, Seq<Seq<char>>>,
    pub performed: Seq<StepView>,
}

/// A run carried to its end on a disk that behaves: every probe is
/// answered by what the disk holds, every step succeeds, and a file that
/// was placed is on the disk from then on.
pub open spec fn carry_out(
    run: RunView,
    request: RequestView,
    disk: Map<Seq<char>, Seq<Seq<char>>>,
    performed: Seq<StepView>,
) -> Course
    decreases weight(run),
{
    match request {
        RequestView::Probe(_) => {
            if run.phase is Probing {
                let next = advance(run, Answer::Exists(taken_on(run, disk)));
                carry_out(next.0, next.1, disk, performed)
            } else {
                Course { run, disk, performed }
            }
        },
        RequestView::Perform(step) => {
            if run.phase is Performing {
                let next = advance(run, Answer::Done);
                carry_out(next.0, next.1, disk_after(run, disk), performed.push(step))
            } else {
                Course { run, disk, performed }
            }
        },
        RequestView::Finish => Course { run, disk, performed },
    }
}

/// The counter at which the probing for a name ends on a disk that holds
/// `taken`: none for a name that is free, else the first free counter.
pub open spec fn settled_counter(taken: Seq<Seq<char>>, name: Seq<char>) -> int {
    if !taken.contains(name) {
        0
    } else {
        first_free(taken, conflict_stem(name), conflict_extension(name), 1) as int
    }
}

/// Probing on a disk that behaves ends with the name that the listing
/// gives: from any candidate before which every name was found taken, the
/// run comes to perform the placing under the resolved name.
proof fn probing_settles(
    run: RunView,
    placing: PlacingView,
    disk: Map<Seq<char>, Seq<Seq<char>>>,
    performed: Seq<StepView>,
)
    requires
        run.phase is Probing,
        0 <= run.at < run.tasks.len(),
        run.tasks[run.at] == TaskView::Place(placing),
        run.stem == conflict_stem(placing.name),
        run.ext == conflict_extension(placing.name),
        0 <= run.counter < PROBE_CEILING,
        run.counter == 0 ==> run.name == placing.name,
        run.counter > 0 ==> {
            &&& run.name == candidate_name(run.stem, run.ext, run.counter as nat)
            &&& names_at(disk, placing.dir).contains(placing.name)
            &&& first_free(names_at(disk, placing.dir), run.stem, run.ext, 1) == first_free(
                names_at(disk, placing.dir),
                run.stem,
                run.ext,
                run.counter as nat,
            )
        },
    ensures
        ({
            let taken = names_at(disk, placing.dir);
            let name = resolved_name(taken, placing.name);
            carry_out(run, RequestView::Probe(joined(placing.dir, run.name)), disk, performed)
                == carry_out(
                RunView {
                    phase: Phase::Performing,
                    counter: settled_counter(taken, placing.name),
                    name,
                    ..run
                },
                RequestView::Perform(placing_step(placing, name)),
                disk,
                performed,
            )
        }),
    decreases PROBE_CEILING - run.counter,
{
    let taken = names_at(disk, placing.dir);
    let stem = run.stem;
    let ext = run.ext;
    let found = taken.contains(run.name);
    assert(taken_on(run, disk) == found);
    let next = advance(run, Answer::Exists(found));
    assert(next == after_probe(run, found));
    if found {
        let counter = if run.counter + 1 < PROBE_CEILING {
            run.counter + 1
        } else {
            PROBE_CEILING as int
        };
        let name = candidate_name(stem, ext, counter as nat);
        if run.counter > 0 {
            assert(first_free(taken, stem, ext, run.counter as nat) == first_free(
                taken,
                stem,
                ext,
                (run.counter + 1) as nat,
            ));
        }
        if counter < PROBE_CEILING {
            let onward = RunView { counter, name, ..run };
            assert(next.0 == onward);
            probing_settles(onward, placing, disk, performed);
        } else {
            assert(first_free(taken, stem, ext, PROBE_CEILING as nat) == PROBE_CEILING);
        }
    } else {
        if run.counter > 0 {
            assert(first_free(taken, stem, ext, run.counter as nat) == run.counter);
        }
    }
}

/// The last of the first `n + 1` tasks settles on top of the first `n`.
proof fn settle_one_more(state: Settled, tasks: Seq<TaskView>, n: int)
    requires
        0 <= n < tasks.len(),
    ensures
        settle(state, tasks.take(n + 1)) == settle_task(settle(state, tasks.take(n)), tasks[n]),
{
    assert(tasks.take(n + 1).drop_last() =~= tasks.take(n));
    assert(tasks.take(n + 1).last() == tasks[n]);
}

/// Whether a course ended with the script settled: the run is over
/// without a failure, it performed the settled steps, and its books and
/// the disk are those of the settled script.
pub open spec fn ended_settled(course: Course, settled: Settled) -> bool {
    &&& course.run.phase is Finished
    &&& course.run.failure is None
    &&& course.performed == settled.steps
    &&& course.run.origins == settled.origins
    &&& course.run.conflicts == settled.conflicts
    &&& course.disk == settled.disk
}

/// From any task on, a run whose books agree with the script settled so
/// far comes to the end with the whole script settled.
proof fn carries_out_from(
    base: RunView,
    disk: Map<Seq<char>, Seq<Seq<char>>>,
    state: Settled,
    n: nat,
)
    requires
        n <= base.tasks.len(),
        base.at == n,
        base.failure is None,
        base.origins == state.origins,
        base.conflicts == state.conflicts,
        state == settle(unsettled(disk), base.tasks.take(n as int)),
    ensures
        ended_settled(
            carry_out(begin_task(base).0, begin_task(base).1, state.disk, state.steps),
            settle(unsettled(disk), base.tasks),
        ),
    decreases base.tasks.len() - n,
{
    let tasks = base.tasks;
    if n == tasks.len() {
        assert(tasks.take(n as int) =~= tasks);
    } else {
        let task = tasks[n as int];
        let after = settle_task(state, task);
        settle_one_more(unsettled(disk), tasks, n as int);
        let begun = begin_task(base);
        match task {
            TaskView::Fixed(step) => {
                let run = begun.0;
                assert(run == RunView { phase: Phase::Performing, ..base });
                let next = advance(run, Answer::Done);
                assert(next == after_perform(run, None));
                let onward = RunView { at: run.at + 1, phase: Phase::Idle, ..booked(run) };
                assert(next == begin_task(onward));
                assert(disk_after(run, state.disk) == state.disk);
                carries_out_from(onward, disk, after, n + 1);
            },
            TaskView::Place(placing) => {
                let run = begun.0;
                let taken = names_at(state.disk, placing.dir);
                let name = resolved_name(taken, placing.name);
                probing_settles(run, placing, state.disk, state.steps);
                let settled_run = RunView {
                    phase: Phase::Performing,
                    counter: settled_counter(taken, placing.name),
                    name,
                    ..run
                };
                let next = advance(settled_run, Answer::Done);
                assert(next == after_perform(settled_run, None));
                let onward = RunView {
                    at: settled_run.at + 1,
                    phase: Phase::Idle,
                    ..booked(settled_run)
                };
                assert(next == begin_task(onward));
                assert(disk_after(settled_run, state.disk) == after.disk);
                carries_out_from(onward, disk, after, n + 1);
            },
        }
    }
}

/// On a disk that behaves, a run settles its script: begun with `Start`
/// and carried to its end, it performs the steps of the settled script in
/// their order, records and reports what the settled script records and
/// reports, and ends without a failure.
pub proof fn run_settles_its_script(tasks: Seq<TaskView>, disk: Map<Seq<char>, Seq<Seq<char>>>)
    ensures
        ended_settled(
            carry_out(
                advance(fresh_run(tasks), Answer::Start).0,
                advance(fresh_run(tasks), Answer::Start).1,
                disk,
                Seq::<StepView>::empty(),
            ),
            settle(unsettled(disk), tasks),
        ),
{
    let base = fresh_run(tasks);
    assert(tasks.take(0) =~= Seq::<TaskView>::empty());
    carries_out_from(base, disk, unsettled(disk), 0);
}

/// Fixed tasks settle as the steps they are, and leave books and disk as
/// they were.
pub proof fn settle_fixed(state: Settled, steps: Seq<StepView>)
    ensures
        settle(state, fixed_tasks(steps)) == (Settled { steps: state.steps + steps, ..state }),
    decreases steps.len(),
{
    let tasks = fixed_tasks(steps);
    if steps.len() == 0 {
        assert(state.steps + steps =~= state.steps);
    } else {
        settle_fixed(state, steps.drop_last());
        assert(tasks.drop_last() =~= fixed_tasks(steps.drop_last()));
        assert(tasks.last() == TaskView::Fixed(steps.last()));
        assert(state.steps + steps =~= (state.steps + steps.drop_last()).push(steps.last()));
    }
}

/// Whether one disk is another with names added at the end of one
/// directory.
pub open spec fn grown_by(
    after: Map<Seq<char>, Seq<Seq<char>>>,
    before: Map<Seq<char>, Seq<Seq<char>>>,
    dir: Seq<char>,
    names: Seq<Seq<char>>,
) -> bool {
    forall|d: Seq<char>|
        #[trigger] names_at(after, d) == (if d == dir {
            names_at(before, dir) + names
        } else {
            names_at(before, d)
        })
}

/// The files of one class of a triage settle as the plan places them: each
/// under the name that the listing of the directory gives it.
pub proof fn placings_settle_as_planned(
    state: Settled,
    dir: Seq<char>,
    files: Seq<Seq<char>>,
    folder_id: Seq<char>,
    moving: bool,
)
    ensures
        ({
            let placed = placements(names_at(state.disk, dir), files, true);
            let end = settle(
                state,
                placing_tasks(dir, files, folder_id, Purpose::Triage { moving }),
            );
            &&& end.steps == state.steps + transfer_steps(dir, placed, moving)
            &&& end.origins == state.origins + placed_origins(placed, folder_id)
            &&& end.conflicts == state.conflicts
            &&& grown_by(end.disk, state.disk, dir, placed_names(placed))
            &&& placing_tasks(dir, files, folder_id, Purpose::Triage { moving }).len()
                == placed.len()
        }),
    decreases files.len(),
{
    let purpose = Purpose::Triage { moving };
    let taken = names_at(state.disk, dir);
    let placed = placements(taken, files, true);
    let tasks = placing_tasks(dir, files, folder_id, purpose);
    let end = settle(state, tasks);
    if files.len() == 0 {
        assert(state.steps + transfer_steps(dir, placed, moving) =~= state.steps);
        assert(state.origins + placed_origins(placed, folder_id) =~= state.origins);
        assert forall|d: Seq<char>| #[trigger] names_at(end.disk, d) == (if d == dir {
            names_at(state.disk, dir) + placed_names(placed)
        } else {
            names_at(state.disk, d)
        }) by {
            assert(taken + placed_names(placed) =~= taken);
        }
    } else {
        let front = files.drop_last();
        placings_settle_as_planned(state, dir, front, folder_id, moving);
        let before = placements(taken, front, true);
        let mid = settle(state, placing_tasks(dir, front, folder_id, purpose));
        match file_name_of(files.last()) {
            Some(component) => {
                let placing = PlacingView {
                    source: files.last(),
                    dir,
                    name: component,
                    folder_id,
                    purpose,
                };
                assert(tasks == placing_tasks(dir, front, folder_id, purpose).push(
                    TaskView::Place(placing),
                ));
                assert(tasks.drop_last() =~= placing_tasks(dir, front, folder_id, purpose));
                assert(tasks.last() == TaskView::Place(placing));
                assert(end == settle_placing(mid, placing));
                assert(names_at(mid.disk, dir) == taken + placed_names(before));
                let name = resolved_name(taken + placed_names(before), component);
                assert(placed == before.push(Placement { source: files.last(), name }));
                assert(end.steps =~= state.steps + transfer_steps(dir, placed, moving));
                assert(end.origins =~= state.origins + placed_origins(placed, folder_id));
                assert forall|d: Seq<char>| #[trigger] names_at(end.disk, d) == (if d == dir {
                    names_at(state.disk, dir) + placed_names(placed)
                } else {
                    names_at(state.disk, d)
                }) by {
                    if d == dir {
                        assert((taken + placed_names(before)).push(name) =~= taken + placed_names(
                            placed,
                        ));
                    } else {
                        assert(names_at(mid.disk, d) == names_at(state.disk, d));
                    }
                }
            },
            None => {
                assert(end == mid);
            },
        }
    }
}

/// The pictures of a directory settle as the plan gathers them: each
/// under the name that the listing of the unified directory gives it.
pub proof fn gathers_settle_as_planned(
    state: Settled,
    dir: Seq<char>,
    entries: Seq<EntryView>,
    folder_id: Seq<char>,
)
    ensures
        ({
            let gathered = gathers(names_at(state.disk, dir), entries);
            let end = settle(state, gather_tasks(dir, entries, folder_id));
            &&& end.steps == state.steps + gather_steps(dir, gathered)
            &&& end.origins == state.origins + gather_origins(gathered, folder_id)
            &&& end.conflicts == state.conflicts + gather_conflicts(gathered)
            &&& grown_by(end.disk, state.disk, dir, gather_names(gathered))
        }),
    decreases entries.len(),
{
    let taken = names_at(state.disk, dir);
    let gathered = gathers(taken, entries);
    let tasks = gather_tasks(dir, entries, folder_id);
    let end = settle(state, tasks);
    if entries.len() == 0 {
        assert(state.steps + gather_steps(dir, gathered) =~= state.steps);
        assert(state.origins + gather_origins(gathered, folder_id) =~= state.origins);
        assert(state.conflicts + gather_conflicts(gathered) =~= state.conflicts);
        assert forall|d: Seq<char>| #[trigger] names_at(end.disk, d) == (if d == dir {
            names_at(state.disk, dir) + gather_names(gathered)
        } else {
            names_at(state.disk, d)
        }) by {
            assert(taken + gather_names(gathered) =~= taken);
        }
    } else {
        let front = entries.drop_last();
        let entry = entries.last();
        gathers_settle_as_planned(state, dir, front, folder_id);
        let before = gathers(taken, front);
        let mid = settle(state, gather_tasks(dir, front, folder_id));
        if is_picture(entry) {
            let placing = PlacingView {
                source: entry.path,
                dir,
                name: entry.name,
                folder_id,
                purpose: Purpose::Migration,
            };
            assert(tasks.drop_last() =~= gather_tasks(dir, front, folder_id));
            assert(tasks.last() == TaskView::Place(placing));
            assert(end == settle_placing(mid, placing));
            assert(names_at(mid.disk, dir) == taken + gather_names(before));
            let name = resolved_name(taken + gather_names(before), entry.name);
            let last = Gather { source: entry.path, original: entry.name, name };
            assert(gathered == before.push(last));
            assert(gathered.drop_last() =~= before);
            assert(end.steps =~= state.steps + gather_steps(dir, gathered));
            assert(end.origins =~= state.origins + gather_origins(gathered, folder_id));
            assert(end.conflicts =~= state.conflicts + gather_conflicts(gathered));
            assert forall|d: Seq<char>| #[trigger] names_at(end.disk, d) == (if d == dir {
                names_at(state.disk, dir) + gather_names(gathered)
            } else {
                names_at(state.disk, d)
            }) by {
                if d == dir {
                    assert((taken + gather_names(before)).push(name) =~= taken + gather_names(
                        gathered,
                    ));
                } else {
                    assert(names_at(mid.disk, d) == names_at(state.disk, d));
                }
            }
        } else {
            assert(end == mid);
        }
    }
}

/// A triage settles as planned: on a disk whose keep and maybe directory
/// hold what the listings say, the script of a triage settles into the
/// steps and the origins of the plan that is made from the listings.
pub proof fn triage_settles_as_planned(
    disk: Map<Seq<char>, Seq<Seq<char>>>,
    keep_dir: Seq<char>,
    maybe_dir: Seq<char>,
    keep_files: Seq<Seq<char>>,
    maybe_files: Seq<Seq<char>>,
    unified: bool,
    moving: bool,
    discard: Seq<Seq<char>>,
    folder_id: Seq<char>,
)
    requires
        keep_dir != maybe_dir,
    ensures
        ({
            let kept = placements(names_at(disk, keep_dir), keep_files, unified);
            let maybes = placements(names_at(disk, maybe_dir), maybe_files, unified);
            let end = settle(
                unsettled(disk),
                triage_tasks(
                    keep_dir,
                    maybe_dir,
                    keep_files,
                    maybe_files,
                    unified,
                    moving,
                    discard,
                    folder_id,
                ),
            );
            &&& end.steps == triage_steps(
                keep_dir,
                maybe_dir,
                kept,
                maybes,
                unified,
                moving,
                discard,
            )
            &&& unified ==> end.origins == triage_origins(kept, maybes, true, folder_id)
            &&& end.conflicts.len() == 0
        }),
{
    let start = unsettled(disk);
    if !unified {
        crate::triage::per_folder_triage_keeps_names(
            names_at(disk, keep_dir),
            Seq::empty(),
            keep_files,
        );
        crate::triage::per_folder_triage_keeps_names(
            names_at(disk, maybe_dir),
            Seq::empty(),
            maybe_files,
        );
        let steps = triage_steps(
            keep_dir,
            maybe_dir,
            placements(Seq::empty(), keep_files, false),
            placements(Seq::empty(), maybe_files, false),
            false,
            moving,
            discard,
        );
        settle_fixed(start, steps);
        assert(start.steps + steps =~= steps);
    } else {
        let purpose = Purpose::Triage { moving };
        let head = seq![
            crate::plan::create_output_step(keep_dir, "keep"@),
            crate::plan::create_output_step(maybe_dir, "maybe"@),
            plain_step(OpView::LoadMetadata),
        ];
        let keep_tasks = placing_tasks(keep_dir, keep_files, folder_id, purpose);
        let maybe_tasks = placing_tasks(maybe_dir, maybe_files, folder_id, purpose);
        let store = if keep_tasks.len() + maybe_tasks.len() > 0 {
            seq![plain_step(OpView::StoreMetadata)]
        } else {
            Seq::empty()
        };
        let trash = trash_steps(discard);
        let tasks = unified_triage_tasks(
            keep_dir,
            maybe_dir,
            keep_files,
            maybe_files,
            moving,
            discard,
            folder_id,
        );
        assert(tasks =~= fixed_tasks(head) + keep_tasks + maybe_tasks + fixed_tasks(store)
            + fixed_tasks(trash));
        let s1 = settle(start, fixed_tasks(head));
        settle_fixed(start, head);
        let s2 = settle(s1, keep_tasks);
        placings_settle_as_planned(s1, keep_dir, keep_files, folder_id, moving);
        let s3 = settle(s2, maybe_tasks);
        placings_settle_as_planned(s2, maybe_dir, maybe_files, folder_id, moving);
        let s4 = settle(s3, fixed_tasks(store));
        settle_fixed(s3, store);
        let s5 = settle(s4, fixed_tasks(trash));
        settle_fixed(s4, trash);
        settle_in_parts(start, fixed_tasks(head), keep_tasks);
        settle_in_parts(start, fixed_tasks(head) + keep_tasks, maybe_tasks);
        settle_in_parts(start, fixed_tasks(head) + keep_tasks + maybe_tasks, fixed_tasks(store));
        settle_in_parts(
            start,
            fixed_tasks(head) + keep_tasks + maybe_tasks + fixed_tasks(store),
            fixed_tasks(trash),
        );
        assert(settle(start, tasks) == s5);
        let kept = placements(names_at(disk, keep_dir), keep_files, true);
        let maybes = placements(names_at(disk, maybe_dir), maybe_files, true);
        assert(names_at(s1.disk, keep_dir) == names_at(disk, keep_dir));
        assert(names_at(s2.disk, maybe_dir) == names_at(disk, maybe_dir));
        assert(s5.steps =~= triage_steps(keep_dir, maybe_dir, kept, maybes, true, moving, discard));
        assert(s5.origins =~= triage_origins(kept, maybes, true, folder_id));
    }
}

/// The settled script of a migration after the first `n` folders agrees
/// with the plan made from the listings of the two unified directories.
pub proof fn unify_settles_as_planned(
    disk: Map<Seq<char>, Seq<Seq<char>>>,
    project_dir: Seq<char>,
    folders: Seq<Folder>,
    outputs: Seq<FolderOutputView>,
    n: nat,
)
    requires
        joined(project_dir, "keep"@) != joined(project_dir, "maybe"@),
    ensures
        ({
            let keep_dir = joined(project_dir, "keep"@);
            let maybe_dir = joined(project_dir, "maybe"@);
            let plan = unifying(
                project_dir,
                folders,
                outputs,
                names_at(disk, keep_dir),
                names_at(disk, maybe_dir),
                n,
            );
            let end = settle(unsettled(disk), unify_tasks(project_dir, folders, outputs, n));
            &&& end.steps == plan.steps
            &&& end.origins == plan.origins
            &&& end.conflicts == plan.conflicts
            &&& names_at(end.disk, keep_dir) == plan.keep_taken
            &&& names_at(end.disk, maybe_dir) == plan.maybe_taken
        }),
    decreases n,
{
    let keep_dir = joined(project_dir, "keep"@);
    let maybe_dir = joined(project_dir, "maybe"@);
    let start = unsettled(disk);
    if n == 0 {
        let head = seq![
            crate::plan::optional_step(OpView::CreateDir(keep_dir)),
            crate::plan::optional_step(OpView::CreateDir(maybe_dir)),
        ];
        assert(unify_tasks(project_dir, folders, outputs, 0) =~= fixed_tasks(head));
        settle_fixed(start, head);
        assert(start.steps + head =~= head);
    } else {
        let i = (n - 1) as int;
        unify_settles_as_planned(disk, project_dir, folders, outputs, i as nat);
        let before = unifying(
            project_dir,
            folders,
            outputs,
            names_at(disk, keep_dir),
            names_at(disk, maybe_dir),
            i as nat,
        );
        let earlier = unify_tasks(project_dir, folders, outputs, i as nat);
        let mid = settle(start, earlier);
        let bring = folder_gather_tasks(project_dir, folders, outputs, i);
        let cleanup = cleanup_steps(joined(project_dir, folder_names(folders)[i]));
        let kept = folder_keep_gathers(folders, outputs, before.keep_taken, i);
        let maybes = folder_maybe_gathers(folders, outputs, before.maybe_taken, i);
        let id = folders[i].id@;
        settle_in_parts(start, earlier, bring);
        settle_in_parts(start, earlier + bring, fixed_tasks(cleanup));
        let brought = settle(mid, bring);
        settle_fixed(brought, cleanup);
        if contributes(folders, outputs, i) {
            let keep_tasks = gather_tasks(keep_dir, outputs[i].keep, id);
            let maybe_tasks = gather_tasks(maybe_dir, outputs[i].maybe, id);
            let half = settle(mid, keep_tasks);
            gathers_settle_as_planned(mid, keep_dir, outputs[i].keep, id);
            gathers_settle_as_planned(half, maybe_dir, outputs[i].maybe, id);
            settle_in_parts(mid, keep_tasks, maybe_tasks);
            assert(names_at(half.disk, maybe_dir) == names_at(mid.disk, maybe_dir));
            assert(names_at(brought.disk, keep_dir) == names_at(half.disk, keep_dir));
            assert(brought.steps =~= mid.steps + gather_steps(keep_dir, kept) + gather_steps(
                maybe_dir,
                maybes,
            ));
            assert(brought.origins =~= mid.origins + gather_origins(kept, id) + gather_origins(
                maybes,
                id,
            ));
            assert(brought.conflicts =~= mid.conflicts + gather_conflicts(kept) + gather_conflicts(
                maybes,
            ));
        } else {
            assert(kept =~= Seq::<Gather>::empty());
            assert(maybes =~= Seq::<Gather>::empty());
            assert(brought == mid);
            assert(mid.steps + gather_steps(keep_dir, kept) + gather_steps(maybe_dir, maybes)
                =~= mid.steps);
            assert(mid.origins + gather_origins(kept, id) + gather_origins(maybes, id)
                =~= mid.origins);
            assert(mid.conflicts + gather_conflicts(kept) + gather_conflicts(maybes)
                =~= mid.conflicts);
            assert(before.keep_taken + gather_names(kept) =~= before.keep_taken);
            assert(before.maybe_taken + gather_names(maybes) =~= before.maybe_taken);
        }
    }
}

/// A run carried out from its start on a disk that behaves.
pub open spec fn course_of(tasks: Seq<TaskView>, disk: Map<Seq<char>, Seq<Seq<char>>>) -> Course {
    carry_out(
        advance(fresh_run(tasks), Answer::Start).0,
        advance(fresh_run(tasks), Answer::Start).1,
        disk,
        Seq::empty(),
    )
}

/// The run of a triage performs the plan: on a disk that behaves, it
/// performs, in their order, the steps of the plan that is made from what
/// the keep and the maybe directory hold, records the origins of that
/// plan, and ends without a failure.
pub proof fn triage_run_performs_the_plan(
    disk: Map<Seq<char>, Seq<Seq<char>>>,
    keep_dir: Seq<char>,
    maybe_dir: Seq<char>,
    keep_files: Seq<Seq<char>>,
    maybe_files: Seq<Seq<char>>,
    unified: bool,
    moving: bool,
    discard: Seq<Seq<char>>,
    folder_id: Seq<char>,
)
    requires
        keep_dir != maybe_dir,
    ensures
        ({
            let kept = placements(names_at(disk, keep_dir), keep_files, unified);
            let maybes = placements(names_at(disk, maybe_dir), maybe_files, unified);
            let course = course_of(
                triage_tasks(
                    keep_dir,
                    maybe_dir,
                    keep_files,
                    maybe_files,
                    unified,
                    moving,
                    discard,
                    folder_id,
                ),
                disk,
            );
            &&& course.run.phase is Finished
            &&& course.run.failure is None
            &&& course.performed == triage_steps(
                keep_dir,
                maybe_dir,
                kept,
                maybes,
                unified,
                moving,
                discard,
            )
            &&& unified ==> course.run.origins == triage_origins(kept, maybes, true, folder_id)
        }),
{
    let tasks = triage_tasks(
        keep_dir,
        maybe_dir,
        keep_files,
        maybe_files,
        unified,
        moving,
        discard,
        folder_id,
    );
    run_settles_its_script(tasks, disk);
    triage_settles_as_planned(
        disk,
        keep_dir,
        maybe_dir,
        keep_files,
        maybe_files,
        unified,
        moving,
        discard,
        folder_id,
    );
}

/// The run of a migration into the unified layout performs the plan: on a
/// disk that behaves, it performs, in their order, the steps of the plan
/// that is made from what the two unified directories hold, records and
/// reports what that plan records and reports, and ends without a failure.
pub proof fn unify_run_performs_the_plan(
    disk: Map<Seq<char>, Seq<Seq<char>>>,
    project_dir: Seq<char>,
    folders: Seq<Folder>,
    outputs: Seq<FolderOutputView>,
)
    requires
        joined(project_dir, "keep"@) != joined(project_dir, "maybe"@),
    ensures
        ({
            let plan = unifying(
                project_dir,
                folders,
                outputs,
                names_at(disk, joined(project_dir, "keep"@)),
                names_at(disk, joined(project_dir, "maybe"@)),
                folders.len(),
            );
            let course = course_of(
                unify_tasks(project_dir, folders, outputs, folders.len()).push(
                    TaskView::Fixed(plain_step(OpView::StoreMetadata)),
                ),
                disk,
            );
            &&& course.run.phase is Finished
            &&& course.run.failure is None
            &&& course.performed == plan.steps.push(plain_step(OpView::StoreMetadata))
            &&& course.run.origins == plan.origins
            &&& course.run.conflicts == plan.conflicts
        }),
{
    let gathering = unify_tasks(project_dir, folders, outputs, folders.len());
    let store = TaskView::Fixed(plain_step(OpView::StoreMetadata));
    let tasks = gathering.push(store);
    run_settles_its_script(tasks, disk);
    unify_settles_as_planned(disk, project_dir, folders, outputs, folders.len());
    assert(tasks.drop_last() =~= gathering);
    assert(tasks.last() == store);
}

} // verus!
