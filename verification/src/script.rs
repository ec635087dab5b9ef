//! Scripts: the tasks of a command in their order, with the names of files
//! that go into a shared directory left open for the run to settle.
use vstd::prelude::*;
use vstd::string::*;
use crate::migrate::{
    cleanup_steps, contributes, is_picture, output_views, picture_entry, project_folder_names,
    FolderOutputView,
};
use crate::model::{
    entry_views, folder_names, folder_position, is_move, is_unified, move_mode, unified_mode,
    DirEntry, EntryView, Folder, FolderOutput, Project,
};
use crate::paths::{file_name_of, joined, path_component, path_join};
use crate::plan::{
    create_output_step, make_create_output_step, make_optional_step, make_plain_step,
    optional_step, plain_step, step_views, FileOp, OpView, Step, StepView,
};
use crate::run::{copy_step, task_views, Placing, PlacingView, Purpose, Task, TaskView};
use crate::text::texts;
use crate::triage::{
    output_dir, placements, plan_triage, trash_steps, triage_directories, triage_steps,
    TriageError,
};

verus! {

/// Steps as tasks that stand as they are.
pub open spec fn fixed_tasks(steps: Seq<StepView>) -> Seq<TaskView> {
    Seq::new(steps.len(), |i: int| TaskView::Fixed(steps[i]))
}

/// Adds a task to a script, and its view to the script's views.
pub fn push_task(tasks: &mut Vec<Task>, task: Task)
    ensures
        final(tasks)@ == old(tasks)@.push(task),
        task_views(final(tasks)@) == task_views(old(tasks)@).push(task@),
{
    tasks.push(task);
    assert(task_views(tasks@) =~= task_views(old(tasks)@).push(task@));
}

/// Adds steps to a script as tasks that stand as they are.
pub fn push_fixed(tasks: &mut Vec<Task>, steps: &Vec<Step>)
    ensures
        task_views(final(tasks)@) == task_views(old(tasks)@) + fixed_tasks(step_views(steps@)),
{
    let ghost start = task_views(tasks@);
    let ghost wanted = fixed_tasks(step_views(steps@));
    let mut i: usize = 0;
    proof {
        assert(start + wanted.take(0) =~= start);
    }
    while i < steps.len()
        invariant
            i <= steps.len(),
            wanted == fixed_tasks(step_views(steps@)),
            task_views(tasks@) == start + wanted.take(i as int),
        decreases steps.len() - i,
    {
        push_task(tasks, Task::Fixed(copy_step(&steps[i])));
        proof {
            assert(task_views(tasks@) =~= start + wanted.take(i as int + 1));
        }
        i += 1;
    }
    proof {
        assert(wanted.take(steps.len() as int) =~= wanted);
    }
}

/// The steps of a plan as a script.
pub fn fixed_script(steps: &Vec<Step>) -> (tasks: Vec<Task>)
    ensures
        task_views(tasks@) == fixed_tasks(step_views(steps@)),
{
    let mut tasks: Vec<Task> = Vec::new();
    proof {
        assert(task_views(tasks@) =~= Seq::<TaskView>::empty());
    }
    push_fixed(&mut tasks, steps);
    proof {
        assert(Seq::<TaskView>::empty() + fixed_tasks(step_views(steps@)) =~= fixed_tasks(
            step_views(steps@),
        ));
    }
    tasks
}

/// The classified files of one class as tasks: each file that has a final
/// component is to be placed into `dir` under that name or the first free
/// one after it.
pub open spec fn placing_tasks(
    dir: Seq<char>,
    files: Seq<Seq<char>>,
    folder_id: Seq<char>,
    purpose: Purpose,
) -> Seq<TaskView>
    decreases files.len(),
{
    if files.len() == 0 {
        Seq::empty()
    } else {
        let before = placing_tasks(dir, files.drop_last(), folder_id, purpose);
        match file_name_of(files.last()) {
            Some(name) => before.push(
                TaskView::Place(PlacingView { source: files.last(), dir, name, folder_id, purpose }),
            ),
            None => before,
        }
    }
}

/// The pictures of a directory as tasks: each is to be moved into `dir`
/// under its name or the first free one after it.
pub open spec fn gather_tasks(dir: Seq<char>, entries: Seq<EntryView>, folder_id: Seq<char>) -> Seq<
    TaskView,
>
    decreases entries.len(),
{
    if entries.len() == 0 {
        Seq::empty()
    } else {
        let before = gather_tasks(dir, entries.drop_last(), folder_id);
        let entry = entries.last();
        if is_picture(entry) {
            before.push(
                TaskView::Place(
                    PlacingView {
                        source: entry.path,
                        dir,
                        name: entry.name,
                        folder_id,
                        purpose: Purpose::Migration,
                    },
                ),
            )
        } else {
            before
        }
    }
}

/// The script of a triage into a unified output: both directories are
/// created and the record of origins is read; the kept files are placed,
/// then the maybes; the record is stored if anything was to be placed; last
/// the discarded files go to the trash.
pub open spec fn unified_triage_tasks(
    keep_dir: Seq<char>,
    maybe_dir: Seq<char>,
    keep_files: Seq<Seq<char>>,
    maybe_files: Seq<Seq<char>>,
    moving: bool,
    discard: Seq<Seq<char>>,
    folder_id: Seq<char>,
) -> Seq<TaskView> {
    let kept = placing_tasks(keep_dir, keep_files, folder_id, Purpose::Triage { moving });
    let maybes = placing_tasks(maybe_dir, maybe_files, folder_id, Purpose::Triage { moving });
    seq![
        TaskView::Fixed(create_output_step(keep_dir, "keep"@)),
        TaskView::Fixed(create_output_step(maybe_dir, "maybe"@)),
        TaskView::Fixed(plain_step(OpView::LoadMetadata)),
    ] + kept + maybes + (if kept.len() + maybes.len() > 0 {
        seq![TaskView::Fixed(plain_step(OpView::StoreMetadata))]
    } else {
        Seq::empty()
    }) + fixed_tasks(trash_steps(discard))
}

/// The script of a triage. In a per-folder output no name is left open:
/// the script is the plan.
pub open spec fn triage_tasks(
    keep_dir: Seq<char>,
    maybe_dir: Seq<char>,
    keep_files: Seq<Seq<char>>,
    maybe_files: Seq<Seq<char>>,
    unified: bool,
    moving: bool,
    discard: Seq<Seq<char>>,
    folder_id: Seq<char>,
) -> Seq<TaskView> {
    if unified {
        unified_triage_tasks(
            keep_dir,
            maybe_dir,
            keep_files,
            maybe_files,
            moving,
            discard,
            folder_id,
        )
    } else {
        fixed_tasks(
            triage_steps(
                keep_dir,
                maybe_dir,
                placements(Seq::empty(), keep_files, false),
                placements(Seq::empty(), maybe_files, false),
                false,
                moving,
                discard,
            ),
        )
    }
}

/// Adds the placing of classified files to a script.
fn push_placings(
    tasks: &mut Vec<Task>,
    dir: &str,
    files: &Vec<String>,
    folder_id: &str,
    purpose: Purpose,
) -> (count: usize)
    ensures
        task_views(final(tasks)@) == task_views(old(tasks)@) + placing_tasks(
            dir@,
            texts(files@),
            folder_id@,
            purpose,
        ),
        count == placing_tasks(dir@, texts(files@), folder_id@, purpose).len(),
{
    let ghost start = task_views(tasks@);
    let ghost all = texts(files@);
    let mut count: usize = 0;
    let mut i: usize = 0;
    proof {
        assert(all.take(0) =~= Seq::<Seq<char>>::empty());
        assert(start + placing_tasks(dir@, all.take(0), folder_id@, purpose) =~= start);
    }
    while i < files.len()
        invariant
            i <= files.len(),
            count <= i,
            all == texts(files@),
            count == placing_tasks(dir@, all.take(i as int), folder_id@, purpose).len(),
            task_views(tasks@) == start + placing_tasks(
                dir@,
                all.take(i as int),
                folder_id@,
                purpose,
            ),
        decreases files.len() - i,
    {
        proof {
            assert(all.take(i as int + 1).drop_last() =~= all.take(i as int));
            assert(all.take(i as int + 1).last() == files@[i as int]@);
        }
        match path_component(files[i].as_str()) {
            Some(name) => {
                push_task(
                    tasks,
                    Task::Place(
                        Placing {
                            source: files[i].clone(),
                            dir: String::from_str(dir),
                            name,
                            folder_id: String::from_str(folder_id),
                            purpose,
                        },
                    ),
                );
                proof {
                    assert(task_views(tasks@) =~= start + placing_tasks(
                        dir@,
                        all.take(i as int + 1),
                        folder_id@,
                        purpose,
                    ));
                }
                count += 1;
            },
            None => {},
        }
        i += 1;
    }
    proof {
        assert(all.take(files.len() as int) =~= all);
    }
    count
}

/// Adds the gathering of a directory's pictures to a script.
fn push_gathers(tasks: &mut Vec<Task>, dir: &str, entries: &Vec<DirEntry>, folder_id: &str)
    ensures
        task_views(final(tasks)@) == task_views(old(tasks)@) + gather_tasks(
            dir@,
            entry_views(entries@),
            folder_id@,
        ),
{
    let ghost start = task_views(tasks@);
    let ghost all = entry_views(entries@);
    let mut i: usize = 0;
    proof {
        assert(all.take(0) =~= Seq::<EntryView>::empty());
        assert(start + gather_tasks(dir@, all.take(0), folder_id@) =~= start);
    }
    while i < entries.len()
        invariant
            i <= entries.len(),
            all == entry_views(entries@),
            task_views(tasks@) == start + gather_tasks(dir@, all.take(i as int), folder_id@),
        decreases entries.len() - i,
    {
        proof {
            assert(all.take(i as int + 1).drop_last() =~= all.take(i as int));
            assert(all.take(i as int + 1).last() == entries@[i as int]@);
        }
        if picture_entry(&entries[i]) {
            push_task(
                tasks,
                Task::Place(
                    Placing {
                        source: entries[i].path.clone(),
                        dir: String::from_str(dir),
                        name: entries[i].name.clone(),
                        folder_id: String::from_str(folder_id),
                        purpose: Purpose::Migration,
                    },
                ),
            );
            proof {
                assert(task_views(tasks@) =~= start + gather_tasks(
                    dir@,
                    all.take(i as int + 1),
                    folder_id@,
                ));
            }
        }
        i += 1;
    }
    proof {
        assert(all.take(entries.len() as int) =~= all);
    }
}

/// The script of the triage of one folder: `keep_files` and `maybe_files`
/// go into the folder's keep and maybe directory (moved where
/// `output_mode` is `move`, copied otherwise), `discard_files` go to the
/// trash. In a unified output every file is placed under the first name
/// that the run finds free, and its origin is recorded. Every step is
/// required.
pub fn triage_script(
    project: &Project,
    project_dir: &str,
    folder_id: &str,
    output_mode: &str,
    keep_files: &Vec<String>,
    maybe_files: &Vec<String>,
    discard_files: &Vec<String>,
) -> (script: Result<Vec<Task>, TriageError>)
    ensures
        match script {
            Ok(tasks) => {
                let unified = is_unified(project.output_directory_mode@);
                &&& folder_position(project.folders@, folder_id@) matches Some(i)
                &&& task_views(tasks@) == triage_tasks(
                    output_dir(project_dir@, project.folders@[i].source_path@, unified, "keep"@),
                    output_dir(project_dir@, project.folders@[i].source_path@, unified, "maybe"@),
                    texts(keep_files@),
                    texts(maybe_files@),
                    unified,
                    is_move(output_mode@),
                    texts(discard_files@),
                    folder_id@,
                )
            },
            Err(TriageError::FolderNotFound(id)) => {
                &&& folder_position(project.folders@, folder_id@) is None
                &&& id@ == folder_id@
            },
        },
{
    let unified = unified_mode(project.output_directory_mode.as_str());
    if !unified {
        let none: Vec<String> = Vec::new();
        proof {
            assert(texts(none@) =~= Seq::<Seq<char>>::empty());
        }
        return match plan_triage(
            project,
            project_dir,
            folder_id,
            output_mode,
            keep_files,
            maybe_files,
            discard_files,
            &none,
            &none,
        ) {
            Ok(plan) => Ok(fixed_script(&plan.steps)),
            Err(e) => Err(e),
        };
    }
    let (keep_dir, maybe_dir) = match triage_directories(project, project_dir, folder_id) {
        Ok(dirs) => dirs,
        Err(e) => {
            return Err(e);
        },
    };
    let purpose = Purpose::Triage { moving: move_mode(output_mode) };
    let mut tasks: Vec<Task> = Vec::new();
    push_task(&mut tasks, Task::Fixed(make_create_output_step(keep_dir.clone(), "keep")));
    push_task(&mut tasks, Task::Fixed(make_create_output_step(maybe_dir.clone(), "maybe")));
    push_task(&mut tasks, Task::Fixed(make_plain_step(FileOp::LoadMetadata)));
    let kept = push_placings(&mut tasks, keep_dir.as_str(), keep_files, folder_id, purpose);
    let set_aside = push_placings(&mut tasks, maybe_dir.as_str(), maybe_files, folder_id, purpose);
    if kept > 0 || set_aside > 0 {
        push_task(&mut tasks, Task::Fixed(make_plain_step(FileOp::StoreMetadata)));
    }
    let mut trash: Vec<Step> = Vec::new();
    proof {
        assert(step_views(trash@) =~= Seq::<StepView>::empty());
    }
    crate::triage::trash_files(discard_files, &mut trash);
    proof {
        assert(step_views(trash@) =~= trash_steps(texts(discard_files@)));
    }
    push_fixed(&mut tasks, &trash);
    proof {
        assert(task_views(tasks@) =~= unified_triage_tasks(
            keep_dir@,
            maybe_dir@,
            texts(keep_files@),
            texts(maybe_files@),
            is_move(output_mode@),
            texts(discard_files@),
            folder_id@,
        ));
    }
    Ok(tasks)
}

/// The pictures that the folder at `i` brings into a migration, as tasks.
pub open spec fn folder_gather_tasks(
    project_dir: Seq<char>,
    folders: Seq<Folder>,
    outputs: Seq<FolderOutputView>,
    i: int,
) -> Seq<TaskView> {
    if contributes(folders, outputs, i) {
        gather_tasks(joined(project_dir, "keep"@), outputs[i].keep, folders[i].id@) + gather_tasks(
            joined(project_dir, "maybe"@),
            outputs[i].maybe,
            folders[i].id@,
        )
    } else {
        Seq::empty()
    }
}

/// The script of a migration into the unified layout up to the first `n`
/// folders: the two unified directories are created; then, folder by
/// folder, the pictures of its keep and of its maybe directory are placed
/// and the folder's directories are removed where they are empty.
pub open spec fn unify_tasks(
    project_dir: Seq<char>,
    folders: Seq<Folder>,
    outputs: Seq<FolderOutputView>,
    n: nat,
) -> Seq<TaskView>
    decreases n,
{
    if n == 0 {
        seq![
            TaskView::Fixed(optional_step(OpView::CreateDir(joined(project_dir, "keep"@)))),
            TaskView::Fixed(optional_step(OpView::CreateDir(joined(project_dir, "maybe"@)))),
        ]
    } else {
        let i = n - 1;
        unify_tasks(project_dir, folders, outputs, i as nat) + folder_gather_tasks(
            project_dir,
            folders,
            outputs,
            i,
        ) + fixed_tasks(cleanup_steps(joined(project_dir, folder_names(folders)[i])))
    }
}

/// The script of the migration of a project's output into the unified
/// layout. `outputs` holds, folder by folder, what the folder's keep and
/// maybe directories hold. Every picture is placed into the unified
/// directory of its class under the first name that the run finds free.
/// No step but the last, which stores the record of origins, is required.
pub fn unify_script(project: &Project, project_dir: &str, outputs: &Vec<FolderOutput>) -> (tasks:
    Vec<Task>)
    ensures
        task_views(tasks@) == unify_tasks(
            project_dir@,
            project.folders@,
            output_views(outputs@),
            project.folders@.len(),
        ).push(TaskView::Fixed(plain_step(OpView::StoreMetadata))),
{
    let keep_dir = path_join(project_dir, "keep");
    let maybe_dir = path_join(project_dir, "maybe");
    let names = project_folder_names(project);
    let ghost folders = project.folders@;
    let ghost listed = output_views(outputs@);
    let mut tasks: Vec<Task> = Vec::new();
    push_task(&mut tasks, Task::Fixed(make_optional_step(FileOp::CreateDir(keep_dir.clone()))));
    push_task(&mut tasks, Task::Fixed(make_optional_step(FileOp::CreateDir(maybe_dir.clone()))));
    let mut i: usize = 0;
    proof {
        assert(texts(names@).len() == folder_names(folders).len());
        assert(task_views(tasks@) =~= unify_tasks(project_dir@, folders, listed, 0));
    }
    while i < project.folders.len()
        invariant
            i <= project.folders.len(),
            folders == project.folders@,
            listed == output_views(outputs@),
            keep_dir@ == joined(project_dir@, "keep"@),
            maybe_dir@ == joined(project_dir@, "maybe"@),
            texts(names@) == folder_names(folders),
            names@.len() == folders.len(),
            task_views(tasks@) == unify_tasks(project_dir@, folders, listed, i as nat),
        decreases project.folders.len() - i,
    {
        let ghost before = task_views(tasks@);
        let folder = &project.folders[i];
        let seen_before = crate::conflict::contains_text_before(&names, i);
        if i < outputs.len() && !seen_before {
            push_gathers(&mut tasks, keep_dir.as_str(), &outputs[i].keep, folder.id.as_str());
            push_gathers(&mut tasks, maybe_dir.as_str(), &outputs[i].maybe, folder.id.as_str());
        }
        proof {
            assert(task_views(tasks@) =~= before + folder_gather_tasks(
                project_dir@,
                folders,
                listed,
                i as int,
            ));
            assert(texts(names@)[i as int] == names@[i as int]@);
        }
        let folder_dir = path_join(project_dir, names[i].as_str());
        let keep_sub = path_join(folder_dir.as_str(), "keep");
        let maybe_sub = path_join(folder_dir.as_str(), "maybe");
        let mut cleanup: Vec<Step> = Vec::new();
        cleanup.push(make_optional_step(FileOp::RemoveDir(keep_sub)));
        cleanup.push(make_optional_step(FileOp::RemoveDir(maybe_sub)));
        cleanup.push(make_optional_step(FileOp::RemoveDir(folder_dir)));
        proof {
            assert(step_views(cleanup@) =~= cleanup_steps(
                joined(project_dir@, folder_names(folders)[i as int]),
            ));
        }
        push_fixed(&mut tasks, &cleanup);
        i += 1;
    }
    push_task(&mut tasks, Task::Fixed(make_plain_step(FileOp::StoreMetadata)));
    tasks
}

} // verus!
