//! Migration between the two layouts of a project's output: gathering the
//! pictures of every folder into the unified keep and maybe directories,
//! and handing them back to the folders they came from.
use vstd::prelude::*;
use vstd::string::*;
use crate::conflict::{resolve_filename_conflict, resolved_name};
use crate::metadata::{origin_views, Origin, OutputMetadata};
use crate::model::{
    entry_views, folder_names, folder_position, is_unified, unified_mode, DirEntry, EntryView,
    FileMove, Folder, FolderOutput, Project,
};
use crate::paths::{get_folder_name, has_image_extension, image_name, joined, path_join};
use crate::plan::{
    make_optional_step, make_plain_step, optional_step, plain_step, push_step,
    step_views, FileOp, OpView, Plan, Step, StepView,
};
use crate::text::{copy_texts, push_text, texts};
use crate::triage::output_dir;

verus! {

/// The file in a project's directory that holds the record of origins.
pub open spec fn metadata_file() -> Seq<char> {
    "toss-metadata.json"@
}

/// Which layout a migration leads to.
#[derive(Debug, Clone, Copy, PartialEq, Eq)]
pub enum MigrationTarget {
    Unified,
    PerFolder,
}

/// The layout that a requested mode stands for: `unified` for that word,
/// a tree per folder for every other.
pub fn migration_target(to_mode: &str) -> (target: MigrationTarget)
    ensures
        target == (if is_unified(to_mode@) {
            MigrationTarget::Unified
        } else {
            MigrationTarget::PerFolder
        }),
{
    if unified_mode(to_mode) {
        MigrationTarget::Unified
    } else {
        MigrationTarget::PerFolder
    }
}

/// Whether a migration touches a directory entry: regular files with the
/// name of a picture only.
pub open spec fn is_picture(entry: EntryView) -> bool {
    entry.is_file && image_name(entry.name)
}

/// Whether a migration touches a directory entry.
pub fn picture_entry(entry: &DirEntry) -> (picture: bool)
    ensures
        picture == is_picture(entry@),
{
    entry.is_file && has_image_extension(entry.name.as_str())
}

/// A picture on its way into a unified directory: where it lies, what it
/// is called there, and what it will be called.
pub struct Gather {
    pub source: Seq<char>,
    pub original: Seq<char>,
    pub name: Seq<char>,
}

/// The names that gathered pictures get, in order.
pub open spec fn gather_names(gathered: Seq<Gather>) -> Seq<Seq<char>> {
    Seq::new(gathered.len(), |i: int| gathered[i].name)
}

/// The pictures of one directory, gathered one after another into a
/// directory that holds `taken` to begin with and then also what was
/// gathered before: each gets the first free name.
pub open spec fn gathers(taken: Seq<Seq<char>>, entries: Seq<EntryView>) -> Seq<Gather>
    decreases entries.len(),
{
    if entries.len() == 0 {
        Seq::empty()
    } else {
        let before = gathers(taken, entries.drop_last());
        let entry = entries.last();
        if is_picture(entry) {
            before.push(
                Gather {
                    source: entry.path,
                    original: entry.name,
                    name: resolved_name(taken + gather_names(before), entry.name),
                },
            )
        } else {
            before
        }
    }
}

/// The line that reports a renaming.
pub open spec fn conflict_line(original: Seq<char>, name: Seq<char>) -> Seq<char> {
    original + " \u{2192} "@ + name
}

/// The report of the renamings among gathered pictures, in order.
pub open spec fn gather_conflicts(gathered: Seq<Gather>) -> Seq<Seq<char>>
    decreases gathered.len(),
{
    if gathered.len() == 0 {
        Seq::empty()
    } else {
        let before = gather_conflicts(gathered.drop_last());
        let last = gathered.last();
        if last.name != last.original {
            before.push(conflict_line(last.original, last.name))
        } else {
            before
        }
    }
}

/// The moves of gathered pictures into `dir`; a move that fails is passed
/// over.
pub open spec fn gather_steps(dir: Seq<char>, gathered: Seq<Gather>) -> Seq<StepView> {
    Seq::new(
        gathered.len(),
        |i: int| optional_step(OpView::Move(gathered[i].source, joined(dir, gathered[i].name))),
    )
}

/// The origins of gathered pictures: each new name with the folder's id.
pub open spec fn gather_origins(gathered: Seq<Gather>, folder_id: Seq<char>) -> Seq<
    (Seq<char>, Seq<char>),
> {
    Seq::new(gathered.len(), |i: int| (gathered[i].name, folder_id))
}

/// What the keep and maybe directories of a folder hold, over plain text.
pub struct FolderOutputView {
    pub keep: Seq<EntryView>,
    pub maybe: Seq<EntryView>,
}

impl View for FolderOutput {
    type V = FolderOutputView;

    open spec fn view(&self) -> FolderOutputView {
        FolderOutputView { keep: entry_views(self.keep@), maybe: entry_views(self.maybe@) }
    }
}

/// The folder listings of a project over plain text.
pub open spec fn output_views(outputs: Seq<FolderOutput>) -> Seq<FolderOutputView> {
    Seq::new(outputs.len(), |i: int| outputs[i]@)
}

/// Whether the folder at `i` brings pictures into a migration: its
/// directories were listed, and no folder before it has the same name and
/// with it the same directories.
pub open spec fn contributes(folders: Seq<Folder>, outputs: Seq<FolderOutputView>, i: int) -> bool {
    i < outputs.len() && !folder_names(folders).take(i).contains(folder_names(folders)[i])
}

/// The removal of a folder's output directories after its pictures left:
/// keep, maybe, and the directory above them, each only if it is empty.
pub open spec fn cleanup_steps(folder_dir: Seq<char>) -> Seq<StepView> {
    seq![
        optional_step(OpView::RemoveDir(joined(folder_dir, "keep"@))),
        optional_step(OpView::RemoveDir(joined(folder_dir, "maybe"@))),
        optional_step(OpView::RemoveDir(folder_dir)),
    ]
}

/// A migration into the unified layout after some folders.
pub struct Unifying {
    pub keep_taken: Seq<Seq<char>>,
    pub maybe_taken: Seq<Seq<char>>,
    pub steps: Seq<StepView>,
    pub origins: Seq<(Seq<char>, Seq<char>)>,
    pub conflicts: Seq<Seq<char>>,
}

/// The pictures that the folder at `i` brings into the unified keep
/// directory, which holds `taken`.
pub open spec fn folder_keep_gathers(
    folders: Seq<Folder>,
    outputs: Seq<FolderOutputView>,
    taken: Seq<Seq<char>>,
    i: int,
) -> Seq<Gather> {
    if contributes(folders, outputs, i) {
        gathers(taken, outputs[i].keep)
    } else {
        Seq::empty()
    }
}

/// The pictures that the folder at `i` brings into the unified maybe
/// directory, which holds `taken`.
pub open spec fn folder_maybe_gathers(
    folders: Seq<Folder>,
    outputs: Seq<FolderOutputView>,
    taken: Seq<Seq<char>>,
    i: int,
) -> Seq<Gather> {
    if contributes(folders, outputs, i) {
        gathers(taken, outputs[i].maybe)
    } else {
        Seq::empty()
    }
}

/// The migration into the unified layout after the first `n` folders: the
/// two unified directories are created; then, folder by folder, the
/// pictures of its keep directory and of its maybe directory move over,
/// each under the first free name, and the folder's directories are
/// removed where they are empty.
pub open spec fn unifying(
    project_dir: Seq<char>,
    folders: Seq<Folder>,
    outputs: Seq<FolderOutputView>,
    keep_taken: Seq<Seq<char>>,
    maybe_taken: Seq<Seq<char>>,
    n: nat,
) -> Unifying
    decreases n,
{
    if n == 0 {
        Unifying {
            keep_taken,
            maybe_taken,
            steps: seq![
                optional_step(OpView::CreateDir(joined(project_dir, "keep"@))),
                optional_step(OpView::CreateDir(joined(project_dir, "maybe"@))),
            ],
            origins: Seq::empty(),
            conflicts: Seq::empty(),
        }
    } else {
        let i = n - 1;
        let before = unifying(project_dir, folders, outputs, keep_taken, maybe_taken, i as nat);
        let kept = folder_keep_gathers(folders, outputs, before.keep_taken, i);
        let maybes = folder_maybe_gathers(folders, outputs, before.maybe_taken, i);
        Unifying {
            keep_taken: before.keep_taken + gather_names(kept),
            maybe_taken: before.maybe_taken + gather_names(maybes),
            steps: before.steps + gather_steps(joined(project_dir, "keep"@), kept) + gather_steps(
                joined(project_dir, "maybe"@),
                maybes,
            ) + cleanup_steps(joined(project_dir, folder_names(folders)[i])),
            origins: before.origins + gather_origins(kept, folders[i].id@) + gather_origins(
                maybes,
                folders[i].id@,
            ),
            conflicts: before.conflicts + gather_conflicts(kept) + gather_conflicts(maybes),
        }
    }
}

/// Plans the moves of one directory's pictures into a unified directory.
fn gather_files(
    dir: &str,
    entries: &Vec<DirEntry>,
    folder_id: &str,
    taken: &mut Vec<String>,
    steps: &mut Vec<Step>,
    origins: &mut Vec<Origin>,
    conflicts: &mut Vec<String>,
)
    ensures
        texts(final(taken)@) == texts(old(taken)@) + gather_names(
            gathers(texts(old(taken)@), entry_views(entries@)),
        ),
        step_views(final(steps)@) == step_views(old(steps)@) + gather_steps(
            dir@,
            gathers(texts(old(taken)@), entry_views(entries@)),
        ),
        origin_views(final(origins)@) == origin_views(old(origins)@) + gather_origins(
            gathers(texts(old(taken)@), entry_views(entries@)),
            folder_id@,
        ),
        texts(final(conflicts)@) == texts(old(conflicts)@) + gather_conflicts(
            gathers(texts(old(taken)@), entry_views(entries@)),
        ),
{
    let ghost taken0 = texts(taken@);
    let ghost all = entry_views(entries@);
    let ghost steps0 = step_views(steps@);
    let ghost origins0 = origin_views(origins@);
    let ghost conflicts0 = texts(conflicts@);
    let mut i: usize = 0;
    proof {
        assert(all.take(0) =~= Seq::<EntryView>::empty());
        assert(taken0 + gather_names(Seq::<Gather>::empty()) =~= taken0);
        assert(steps0 + gather_steps(dir@, Seq::<Gather>::empty()) =~= steps0);
        assert(origins0 + gather_origins(Seq::<Gather>::empty(), folder_id@) =~= origins0);
        assert(conflicts0 + gather_conflicts(Seq::<Gather>::empty()) =~= conflicts0);
    }
    while i < entries.len()
        invariant
            i <= entries.len(),
            all == entry_views(entries@),
            texts(taken@) == taken0 + gather_names(gathers(taken0, all.take(i as int))),
            step_views(steps@) == steps0 + gather_steps(dir@, gathers(taken0, all.take(i as int))),
            origin_views(origins@) == origins0 + gather_origins(
                gathers(taken0, all.take(i as int)),
                folder_id@,
            ),
            texts(conflicts@) == conflicts0 + gather_conflicts(gathers(taken0, all.take(i as int))),
        decreases entries.len() - i,
    {
        let ghost before = gathers(taken0, all.take(i as int));
        proof {
            assert(all.take(i as int + 1).drop_last() =~= all.take(i as int));
            assert(all.take(i as int + 1).last() == entries@[i as int]@);
        }
        let entry = &entries[i];
        if picture_entry(entry) {
            let name = resolve_filename_conflict(taken, entry.name.as_str());
            let ghost gathered = Gather {
                source: entry.path@,
                original: entry.name@,
                name: name@,
            };
            let ghost after = before.push(gathered);
            proof {
                assert(gathers(taken0, all.take(i as int + 1)) == after);
                assert(after.drop_last() =~= before);
            }
            if !crate::text::same_text(name.as_str(), entry.name.as_str()) {
                let mut line = entry.name.clone();
                line.append(" \u{2192} ");
                line.append(name.as_str());
                push_text(conflicts, line);
            }
            proof {
                assert(texts(conflicts@) =~= conflicts0 + gather_conflicts(after));
            }
            let destination = path_join(dir, name.as_str());
            push_step(
                steps,
                make_optional_step(
                    FileOp::Move(FileMove { source: entry.path.clone(), destination }),
                ),
            );
            let ghost shown = origin_views(origins@);
            origins.push(Origin { name: name.clone(), folder_id: String::from_str(folder_id) });
            push_text(taken, name);
            proof {
                assert(origin_views(origins@) =~= shown.push((name@, folder_id@)));
                assert(origin_views(origins@) =~= origins0 + gather_origins(after, folder_id@));
                assert(texts(taken@) =~= taken0 + gather_names(after));
                assert(step_views(steps@) =~= steps0 + gather_steps(dir@, after));
            }
        } else {
            proof {
                assert(gathers(taken0, all.take(i as int + 1)) == before);
            }
        }
        i += 1;
    }
    proof {
        assert(all.take(entries.len() as int) =~= all);
    }
}

/// The names of the source folders of a project, in order.
pub fn project_folder_names(project: &Project) -> (names: Vec<String>)
    ensures
        texts(names@) == folder_names(project.folders@),
{
    let mut names: Vec<String> = Vec::new();
    let mut i: usize = 0;
    while i < project.folders.len()
        invariant
            i <= project.folders.len(),
            texts(names@) == folder_names(project.folders@).take(i as int),
        decreases project.folders.len() - i,
    {
        let name = get_folder_name(project.folders[i].source_path.as_str());
        push_text(&mut names, name);
        proof {
            assert(texts(names@) =~= folder_names(project.folders@).take(i as int + 1));
        }
        i += 1;
    }
    proof {
        assert(folder_names(project.folders@).take(project.folders.len() as int)
            =~= folder_names(project.folders@));
    }
    names
}

/// Plans the migration of a project's output into the unified layout.
/// `outputs` holds, folder by folder, what the folder's keep and maybe
/// directories hold; `keep_taken` and `maybe_taken` are the names that the
/// unified directories hold already. Every picture moves into the unified
/// directory of its class, under the first free name; each renaming is
/// reported in `conflicts`; `origins` records every new name with the id of
/// the folder the picture came from. No step but the last, which stores the
/// record, is required.
pub fn plan_unify(
    project: &Project,
    project_dir: &str,
    outputs: &Vec<FolderOutput>,
    keep_taken: &Vec<String>,
    maybe_taken: &Vec<String>,
) -> (plan: Plan)
    ensures
        ({
            let end = unifying(
                project_dir@,
                project.folders@,
                output_views(outputs@),
                texts(keep_taken@),
                texts(maybe_taken@),
                project.folders@.len(),
            );
            &&& step_views(plan.steps@) == end.steps.push(plain_step(OpView::StoreMetadata))
            &&& origin_views(plan.origins@) == end.origins
            &&& texts(plan.conflicts@) == end.conflicts
        }),
{
    let keep_dir = path_join(project_dir, "keep");
    let maybe_dir = path_join(project_dir, "maybe");
    let names = project_folder_names(project);
    let mut keep_now = copy_texts(keep_taken);
    let mut maybe_now = copy_texts(maybe_taken);
    let mut steps: Vec<Step> = Vec::new();
    let mut origins: Vec<Origin> = Vec::new();
    let mut conflicts: Vec<String> = Vec::new();
    push_step(&mut steps, make_optional_step(FileOp::CreateDir(keep_dir.clone())));
    push_step(&mut steps, make_optional_step(FileOp::CreateDir(maybe_dir.clone())));
    let ghost folders = project.folders@;
    let ghost listed = output_views(outputs@);
    let ghost keep0 = texts(keep_taken@);
    let ghost maybe0 = texts(maybe_taken@);
    let mut i: usize = 0;
    proof {
        let start = unifying(project_dir@, folders, listed, keep0, maybe0, 0);
        assert(texts(names@).len() == folder_names(folders).len());
        assert(step_views(steps@) =~= start.steps);
        assert(origin_views(origins@) =~= start.origins);
        assert(texts(conflicts@) =~= start.conflicts);
    }
    while i < project.folders.len()
        invariant
            i <= project.folders.len(),
            folders == project.folders@,
            listed == output_views(outputs@),
            keep_dir@ == joined(project_dir@, "keep"@),
            maybe_dir@ == joined(project_dir@, "maybe"@),
            texts(names@) == folder_names(folders),
            names@.len() == folders.len(),
            texts(keep_now@) == unifying(project_dir@, folders, listed, keep0, maybe0, i as nat).keep_taken,
            texts(maybe_now@) == unifying(project_dir@, folders, listed, keep0, maybe0, i as nat).maybe_taken,
            step_views(steps@) == unifying(project_dir@, folders, listed, keep0, maybe0, i as nat).steps,
            origin_views(origins@) == unifying(project_dir@, folders, listed, keep0, maybe0, i as nat).origins,
            texts(conflicts@) == unifying(project_dir@, folders, listed, keep0, maybe0, i as nat).conflicts,
        decreases project.folders.len() - i,
    {
        let ghost before = unifying(project_dir@, folders, listed, keep0, maybe0, i as nat);
        let ghost after = unifying(project_dir@, folders, listed, keep0, maybe0, (i + 1) as nat);
        let ghost kept = folder_keep_gathers(folders, listed, before.keep_taken, i as int);
        let ghost maybes = folder_maybe_gathers(folders, listed, before.maybe_taken, i as int);
        let folder = &project.folders[i];
        let seen_before = crate::conflict::contains_text_before(&names, i);
        if i < outputs.len() && !seen_before {
            gather_files(
                keep_dir.as_str(),
                &outputs[i].keep,
                folder.id.as_str(),
                &mut keep_now,
                &mut steps,
                &mut origins,
                &mut conflicts,
            );
            gather_files(
                maybe_dir.as_str(),
                &outputs[i].maybe,
                folder.id.as_str(),
                &mut maybe_now,
                &mut steps,
                &mut origins,
                &mut conflicts,
            );
        } else {
            proof {
                assert(kept =~= Seq::<Gather>::empty());
                assert(maybes =~= Seq::<Gather>::empty());
                assert(texts(keep_now@) + gather_names(kept) =~= texts(keep_now@));
                assert(texts(maybe_now@) + gather_names(maybes) =~= texts(maybe_now@));
                assert(gather_steps(keep_dir@, kept) =~= Seq::<StepView>::empty());
                assert(gather_steps(maybe_dir@, maybes) =~= Seq::<StepView>::empty());
                assert(step_views(steps@) + gather_steps(keep_dir@, kept) + gather_steps(
                    maybe_dir@,
                    maybes,
                ) =~= step_views(steps@));
                assert(origin_views(origins@) + gather_origins(kept, folder.id@) + gather_origins(
                    maybes,
                    folder.id@,
                ) =~= origin_views(origins@));
                assert(texts(conflicts@) + gather_conflicts(kept) + gather_conflicts(maybes)
                    =~= texts(conflicts@));
            }
        }
        let folder_dir = path_join(project_dir, names[i].as_str());
        proof {
            assert(texts(names@)[i as int] == names@[i as int]@);
        }
        let keep_sub = path_join(folder_dir.as_str(), "keep");
        let maybe_sub = path_join(folder_dir.as_str(), "maybe");
        let ghost moved = step_views(steps@);
        push_step(&mut steps, make_optional_step(FileOp::RemoveDir(keep_sub)));
        push_step(&mut steps, make_optional_step(FileOp::RemoveDir(maybe_sub)));
        push_step(&mut steps, make_optional_step(FileOp::RemoveDir(folder_dir)));
        proof {
            assert(step_views(steps@) =~= moved + cleanup_steps(
                joined(project_dir@, folder_names(folders)[i as int]),
            ));
            assert(step_views(steps@) =~= after.steps);
            assert(texts(keep_now@) =~= after.keep_taken);
            assert(texts(maybe_now@) =~= after.maybe_taken);
            assert(origin_views(origins@) =~= after.origins);
            assert(texts(conflicts@) =~= after.conflicts);
        }
        i += 1;
    }
    push_step(&mut steps, make_plain_step(FileOp::StoreMetadata));
    Plan { steps, origins, conflicts }
}

/// The directory that a picture of a unified directory goes home to: the
/// output directory, for its class, of the first folder with the id that
/// the record of origins gives for the picture's name. None where the
/// entry is no picture, the record does not know the name, or the project
/// has no folder with that id.
pub open spec fn home_dir(
    project_dir: Seq<char>,
    folders: Seq<Folder>,
    origins: Map<Seq<char>, Seq<char>>,
    entry: EntryView,
    class: Seq<char>,
) -> Option<Seq<char>> {
    if is_picture(entry) && origins.contains_key(entry.name) {
        match folder_position(folders, origins[entry.name]) {
            Some(i) => Some(output_dir(project_dir, folders[i].source_path@, false, class)),
            None => None,
        }
    } else {
        None
    }
}

/// The steps that hand the pictures of one unified directory back: for
/// each picture with a home, the home is created and the picture moves
/// there under its own name. Pictures without a home stay.
pub open spec fn scatter_steps(
    project_dir: Seq<char>,
    folders: Seq<Folder>,
    origins: Map<Seq<char>, Seq<char>>,
    entries: Seq<EntryView>,
    class: Seq<char>,
) -> Seq<StepView>
    decreases entries.len(),
{
    if entries.len() == 0 {
        Seq::empty()
    } else {
        let before = scatter_steps(project_dir, folders, origins, entries.drop_last(), class);
        let entry = entries.last();
        match home_dir(project_dir, folders, origins, entry, class) {
            Some(dir) => before.push(optional_step(OpView::CreateDir(dir))).push(
                optional_step(OpView::Move(entry.path, joined(dir, entry.name))),
            ),
            None => before,
        }
    }
}

/// The migration into the per-folder layout: the pictures of the unified
/// keep directory go home, then those of the unified maybe directory; then
/// the two unified directories are removed where they are empty, and the
/// stored record of origins is removed.
pub open spec fn scattering(
    project_dir: Seq<char>,
    folders: Seq<Folder>,
    origins: Map<Seq<char>, Seq<char>>,
    keep: Seq<EntryView>,
    maybe: Seq<EntryView>,
) -> Seq<StepView> {
    scatter_steps(project_dir, folders, origins, keep, "keep"@) + scatter_steps(
        project_dir,
        folders,
        origins,
        maybe,
        "maybe"@,
    ) + seq![
        optional_step(OpView::RemoveDir(joined(project_dir, "keep"@))),
        optional_step(OpView::RemoveDir(joined(project_dir, "maybe"@))),
        optional_step(OpView::RemoveFile(joined(project_dir, metadata_file()))),
    ]
}

/// The directory that an entry of a unified directory goes home to.
pub fn find_home(
    project: &Project,
    project_dir: &str,
    metadata: &OutputMetadata,
    entry: &DirEntry,
    class: &str,
) -> (home: Option<String>)
    ensures
        crate::text::opt_text(home) == home_dir(
            project_dir@,
            project.folders@,
            metadata@,
            entry@,
            class@,
        ),
{
    if !picture_entry(entry) {
        return None;
    }
    match metadata.get(entry.name.as_str()) {
        None => None,
        Some(folder_id) => match project.find_folder(folder_id.as_str()) {
            None => None,
            Some(i) => Some(
                crate::triage::output_directory(
                    project_dir,
                    project.folders[i].source_path.as_str(),
                    false,
                    class,
                ),
            ),
        },
    }
}

/// Plans the way home for the pictures of one unified directory.
fn scatter_files(
    project: &Project,
    project_dir: &str,
    metadata: &OutputMetadata,
    entries: &Vec<DirEntry>,
    class: &str,
    steps: &mut Vec<Step>,
)
    ensures
        step_views(final(steps)@) == step_views(old(steps)@) + scatter_steps(
            project_dir@,
            project.folders@,
            metadata@,
            entry_views(entries@),
            class@,
        ),
{
    let ghost all = entry_views(entries@);
    let ghost steps0 = step_views(steps@);
    let mut i: usize = 0;
    proof {
        assert(all.take(0) =~= Seq::<EntryView>::empty());
        assert(steps0 + Seq::<StepView>::empty() =~= steps0);
    }
    while i < entries.len()
        invariant
            i <= entries.len(),
            all == entry_views(entries@),
            step_views(steps@) == steps0 + scatter_steps(
                project_dir@,
                project.folders@,
                metadata@,
                all.take(i as int),
                class@,
            ),
        decreases entries.len() - i,
    {
        let ghost before = scatter_steps(
            project_dir@,
            project.folders@,
            metadata@,
            all.take(i as int),
            class@,
        );
        proof {
            assert(all.take(i as int + 1).drop_last() =~= all.take(i as int));
            assert(all.take(i as int + 1).last() == entries@[i as int]@);
        }
        let entry = &entries[i];
        match find_home(project, project_dir, metadata, entry, class) {
            Some(dir) => {
                let destination = path_join(dir.as_str(), entry.name.as_str());
                push_step(steps, make_optional_step(FileOp::CreateDir(dir)));
                push_step(
                    steps,
                    make_optional_step(
                        FileOp::Move(FileMove { source: entry.path.clone(), destination }),
                    ),
                );
                proof {
                    assert(step_views(steps@) =~= steps0 + scatter_steps(
                        project_dir@,
                        project.folders@,
                        metadata@,
                        all.take(i as int + 1),
                        class@,
                    ));
                }
            },
            None => {},
        }
        i += 1;
    }
    proof {
        assert(all.take(entries.len() as int) =~= all);
    }
}

/// Plans the migration of a project's output into the per-folder layout.
/// `keep` and `maybe` are what the unified directories hold, `metadata` the
/// stored record of origins. Every picture whose origin is known and still
/// a folder of the project moves, under its own name, into that folder's
/// directory of its class; the others stay where they are. Nothing is
/// renamed, recorded or required.
pub fn plan_scatter(
    project: &Project,
    project_dir: &str,
    metadata: &OutputMetadata,
    keep: &Vec<DirEntry>,
    maybe: &Vec<DirEntry>,
) -> (plan: Plan)
    ensures
        step_views(plan.steps@) == scattering(
            project_dir@,
            project.folders@,
            metadata@,
            entry_views(keep@),
            entry_views(maybe@),
        ),
        plan.origins@.len() == 0,
        plan.conflicts@.len() == 0,
{
    let mut steps: Vec<Step> = Vec::new();
    proof {
        assert(step_views(steps@) =~= Seq::<StepView>::empty());
    }
    scatter_files(project, project_dir, metadata, keep, "keep", &mut steps);
    scatter_files(project, project_dir, metadata, maybe, "maybe", &mut steps);
    let ghost scattered = step_views(steps@);
    push_step(&mut steps, make_optional_step(FileOp::RemoveDir(path_join(project_dir, "keep"))));
    push_step(&mut steps, make_optional_step(FileOp::RemoveDir(path_join(project_dir, "maybe"))));
    push_step(
        &mut steps,
        make_optional_step(FileOp::RemoveFile(path_join(project_dir, "toss-metadata.json"))),
    );
    proof {
        assert(step_views(steps@) =~= scattering(
            project_dir@,
            project.folders@,
            metadata@,
            entry_views(keep@),
            entry_views(maybe@),
        ));
    }
    Plan { steps, origins: Vec::new(), conflicts: Vec::new() }
}

/// The keep and the maybe directory of the unified layout.
pub fn unified_directories(project_dir: &str) -> (dirs: (String, String))
    ensures
        dirs.0@ == joined(project_dir@, "keep"@),
        dirs.1@ == joined(project_dir@, "maybe"@),
{
    (path_join(project_dir, "keep"), path_join(project_dir, "maybe"))
}

/// The keep and the maybe directory of every folder in the per-folder
/// layout, in the order of the project's folders.
pub fn folder_directories(project: &Project, project_dir: &str) -> (dirs: Vec<(String, String)>)
    ensures
        dirs@.len() == project.folders@.len(),
        forall|i: int|
            0 <= i < dirs@.len() ==> {
                &&& (#[trigger] dirs@[i]).0@ == output_dir(
                    project_dir@,
                    project.folders@[i].source_path@,
                    false,
                    "keep"@,
                )
                &&& dirs@[i].1@ == output_dir(
                    project_dir@,
                    project.folders@[i].source_path@,
                    false,
                    "maybe"@,
                )
            },
{
    let mut dirs: Vec<(String, String)> = Vec::new();
    let mut i: usize = 0;
    while i < project.folders.len()
        invariant
            i <= project.folders.len(),
            dirs@.len() == i,
            forall|k: int|
                0 <= k < i ==> {
                    &&& (#[trigger] dirs@[k]).0@ == output_dir(
                        project_dir@,
                        project.folders@[k].source_path@,
                        false,
                        "keep"@,
                    )
                    &&& dirs@[k].1@ == output_dir(
                        project_dir@,
                        project.folders@[k].source_path@,
                        false,
                        "maybe"@,
                    )
                },
        decreases project.folders.len() - i,
    {
        let source = project.folders[i].source_path.as_str();
        let keep = crate::triage::output_directory(project_dir, source, false, "keep");
        let maybe = crate::triage::output_directory(project_dir, source, false, "maybe");
        dirs.push((keep, maybe));
        i += 1;
    }
    dirs
}

} // verus!
