//! Triage: what is to be done with the files of one folder that were
//! sorted into keep, maybe and discard.
use vstd::prelude::*;
use vstd::string::*;
use crate::conflict::{resolve_filename_conflict, resolved_name};
use crate::metadata::{origin_views, Origin};
use crate::model::{folder_position, is_move, is_unified, move_mode, unified_mode, Project};
use crate::paths::{file_name_of, folder_name_of, get_folder_name, joined, path_component, path_join};
use crate::plan::{
    create_output_step, make_create_output_step, make_plain_step, make_transfer_step,
    make_trash_step, plain_step, push_step, step_views, transfer_step, trash_step,
    FileOp, OpView, Plan, Step, StepView,
};
use crate::text::{copy_texts, push_text, texts};

verus! {

/// Why a triage cannot be planned.
#[derive(Debug, Clone, PartialEq, Eq)]
pub enum TriageError {
    /// The project has no folder with this id.
    FolderNotFound(String),
}

impl TriageError {
    /// The error in words.
    pub fn message(&self) -> (text: String)
        ensures
            match *self {
                TriageError::FolderNotFound(id) => text@ == "Folder "@ + id@
                    + " not found in project"@,
            },
    {
        match self {
            TriageError::FolderNotFound(id) => {
                let mut text = String::from_str("Folder ");
                text.append(id.as_str());
                text.append(" not found in project");
                text
            },
        }
    }
}

/// A classified file with the name it gets in its output directory.
pub struct Placement {
    pub source: Seq<char>,
    pub name: Seq<char>,
}

/// The names that a list of placements hands out, in order.
pub open spec fn placed_names(placed: Seq<Placement>) -> Seq<Seq<char>> {
    Seq::new(placed.len(), |i: int| placed[i].name)
}

/// The name a file gets in its output directory: in a unified output the
/// one that avoids the names that are taken, in a per-folder output always
/// its own.
pub open spec fn final_name(taken: Seq<Seq<char>>, component: Seq<char>, unified: bool) -> Seq<
    char,
> {
    if unified {
        resolved_name(taken, component)
    } else {
        component
    }
}

/// The files of one class, placed one after another into a directory that
/// holds `taken` to begin with and then also what was placed before. A
/// path without a final component is passed over.
pub open spec fn placements(taken: Seq<Seq<char>>, files: Seq<Seq<char>>, unified: bool) -> Seq<
    Placement,
>
    decreases files.len(),
{
    if files.len() == 0 {
        Seq::empty()
    } else {
        let before = placements(taken, files.drop_last(), unified);
        match file_name_of(files.last()) {
            Some(component) => before.push(
                Placement {
                    source: files.last(),
                    name: final_name(taken + placed_names(before), component, unified),
                },
            ),
            None => before,
        }
    }
}

/// One of the two directories that a folder's files are sorted into;
/// `class` is `keep` or `maybe`. A unified output has them directly under
/// the project, a per-folder output under the folder's name.
pub open spec fn output_dir(
    project_dir: Seq<char>,
    source_path: Seq<char>,
    unified: bool,
    class: Seq<char>,
) -> Seq<char> {
    if unified {
        joined(project_dir, class)
    } else {
        joined(joined(project_dir, folder_name_of(source_path)), class)
    }
}

/// The transfers of the placed files into `dir`, in order.
pub open spec fn transfer_steps(dir: Seq<char>, placed: Seq<Placement>, moving: bool) -> Seq<
    StepView,
> {
    Seq::new(
        placed.len(),
        |i: int| transfer_step(placed[i].source, joined(dir, placed[i].name), moving),
    )
}

/// Every discarded file goes to the trash, in order.
pub open spec fn trash_steps(discard: Seq<Seq<char>>) -> Seq<StepView> {
    Seq::new(discard.len(), |i: int| trash_step(discard[i]))
}

/// The origins to record for placed files: each final name with the
/// folder's id.
pub open spec fn placed_origins(placed: Seq<Placement>, folder_id: Seq<char>) -> Seq<
    (Seq<char>, Seq<char>),
> {
    Seq::new(placed.len(), |i: int| (placed[i].name, folder_id))
}

/// The steps of a triage: both directories are created; in a unified
/// output the record of origins is read; the kept files are transferred,
/// then the maybes; in a unified output the record is stored if anything
/// was transferred; last the discarded files go to the trash.
pub open spec fn triage_steps(
    keep_dir: Seq<char>,
    maybe_dir: Seq<char>,
    keep_placed: Seq<Placement>,
    maybe_placed: Seq<Placement>,
    unified: bool,
    moving: bool,
    discard: Seq<Seq<char>>,
) -> Seq<StepView> {
    seq![create_output_step(keep_dir, "keep"@), create_output_step(maybe_dir, "maybe"@)] + (if unified {
        seq![plain_step(OpView::LoadMetadata)]
    } else {
        Seq::empty()
    }) + transfer_steps(keep_dir, keep_placed, moving) + transfer_steps(
        maybe_dir,
        maybe_placed,
        moving,
    ) + (if unified && keep_placed.len() + maybe_placed.len() > 0 {
        seq![plain_step(OpView::StoreMetadata)]
    } else {
        Seq::empty()
    }) + trash_steps(discard)
}

/// The origins that a triage records: in a unified output those of the
/// kept files, then those of the maybes; none in a per-folder output.
pub open spec fn triage_origins(
    keep_placed: Seq<Placement>,
    maybe_placed: Seq<Placement>,
    unified: bool,
    folder_id: Seq<char>,
) -> Seq<(Seq<char>, Seq<char>)> {
    if unified {
        placed_origins(keep_placed, folder_id) + placed_origins(maybe_placed, folder_id)
    } else {
        Seq::empty()
    }
}

/// The name for a file whose path has the final component `component`,
/// among the names in `taken`.
pub fn place_file(taken: &Vec<String>, component: &str, unified: bool) -> (name: String)
    ensures
        name@ == final_name(texts(taken@), component@, unified),
{
    if unified {
        resolve_filename_conflict(taken, component)
    } else {
        String::from_str(component)
    }
}

/// Plans the transfers of the files of one class into `dir`.
fn place_files(
    dir: &str,
    listing: &Vec<String>,
    files: &Vec<String>,
    unified: bool,
    moving: bool,
    folder_id: &str,
    steps: &mut Vec<Step>,
    origins: &mut Vec<Origin>,
) -> (count: usize)
    ensures
        step_views(final(steps)@) == step_views(old(steps)@) + transfer_steps(
            dir@,
            placements(texts(listing@), texts(files@), unified),
            moving,
        ),
        origin_views(final(origins)@) == origin_views(old(origins)@) + (if unified {
            placed_origins(placements(texts(listing@), texts(files@), unified), folder_id@)
        } else {
            Seq::empty()
        }),
        count == placements(texts(listing@), texts(files@), unified).len(),
{
    let ghost taken0 = texts(listing@);
    let ghost all = texts(files@);
    let ghost steps0 = step_views(steps@);
    let ghost origins0 = origin_views(origins@);
    let mut taken = copy_texts(listing);
    let mut count: usize = 0;
    let mut i: usize = 0;
    proof {
        assert(all.take(0) =~= Seq::<Seq<char>>::empty());
        assert(taken0 + placed_names(Seq::<Placement>::empty()) =~= taken0);
        assert(steps0 + transfer_steps(dir@, Seq::<Placement>::empty(), moving) =~= steps0);
        assert(origins0 + placed_origins(Seq::<Placement>::empty(), folder_id@) =~= origins0);
        assert(origins0 + Seq::<(Seq<char>, Seq<char>)>::empty() =~= origins0);
    }
    while i < files.len()
        invariant
            i <= files.len(),
            count <= i,
            all == texts(files@),
            taken0 == texts(listing@),
            count == placements(taken0, all.take(i as int), unified).len(),
            texts(taken@) == taken0 + placed_names(placements(taken0, all.take(i as int), unified)),
            step_views(steps@) == steps0 + transfer_steps(
                dir@,
                placements(taken0, all.take(i as int), unified),
                moving,
            ),
            origin_views(origins@) == origins0 + (if unified {
                placed_origins(placements(taken0, all.take(i as int), unified), folder_id@)
            } else {
                Seq::empty()
            }),
        decreases files.len() - i,
    {
        let ghost before = placements(taken0, all.take(i as int), unified);
        proof {
            assert(all.take(i as int + 1).drop_last() =~= all.take(i as int));
            assert(all.take(i as int + 1).last() == files@[i as int]@);
        }
        match path_component(files[i].as_str()) {
            Some(component) => {
                let name = place_file(&taken, component.as_str(), unified);
                let ghost placed = Placement { source: files@[i as int]@, name: name@ };
                let ghost after = before.push(placed);
                proof {
                    assert(placements(taken0, all.take(i as int + 1), unified) == after);
                }
                let destination = path_join(dir, name.as_str());
                push_step(steps, make_transfer_step(files[i].as_str(), destination, moving));
                if unified {
                    let ghost shown = origin_views(origins@);
                    origins.push(
                        Origin { name: name.clone(), folder_id: String::from_str(folder_id) },
                    );
                    proof {
                        assert(origin_views(origins@) =~= shown.push((name@, folder_id@)));
                        assert(origin_views(origins@) =~= origins0 + placed_origins(
                            after,
                            folder_id@,
                        ));
                    }
                }
                push_text(&mut taken, name);
                proof {
                    assert(texts(taken@) =~= taken0 + placed_names(after));
                    assert(step_views(steps@) =~= steps0 + transfer_steps(dir@, after, moving));
                }
                count += 1;
            },
            None => {
                proof {
                    assert(placements(taken0, all.take(i as int + 1), unified) == before);
                }
            },
        }
        i += 1;
    }
    proof {
        assert(all.take(files.len() as int) =~= all);
    }
    count
}

/// Plans the trashing of the discarded files.
pub(crate) fn trash_files(discard: &Vec<String>, steps: &mut Vec<Step>)
    ensures
        step_views(final(steps)@) == step_views(old(steps)@) + trash_steps(texts(discard@)),
{
    let ghost steps0 = step_views(steps@);
    let mut i: usize = 0;
    proof {
        assert(steps0 + trash_steps(texts(discard@).take(0)) =~= steps0);
    }
    while i < discard.len()
        invariant
            i <= discard.len(),
            step_views(steps@) == steps0 + trash_steps(texts(discard@).take(i as int)),
        decreases discard.len() - i,
    {
        push_step(steps, make_trash_step(discard[i].as_str()));
        proof {
            assert(step_views(steps@) =~= steps0 + trash_steps(texts(discard@).take(i as int + 1)));
        }
        i += 1;
    }
    proof {
        assert(texts(discard@).take(discard.len() as int) =~= texts(discard@));
    }
}

/// One of the two output directories of a folder.
pub fn output_directory(project_dir: &str, source_path: &str, unified: bool, class: &str) -> (dir:
    String)
    ensures
        dir@ == output_dir(project_dir@, source_path@, unified, class@),
{
    if unified {
        path_join(project_dir, class)
    } else {
        let name = get_folder_name(source_path);
        let base = path_join(project_dir, name.as_str());
        path_join(base.as_str(), class)
    }
}

/// The keep and the maybe directory that a triage of the folder `folder_id`
/// puts files into, under the project's present layout.
pub fn triage_directories(project: &Project, project_dir: &str, folder_id: &str) -> (dirs: Result<
    (String, String),
    TriageError,
>)
    ensures
        match dirs {
            Ok((keep, maybe)) => {
                &&& folder_position(project.folders@, folder_id@) matches Some(i)
                &&& keep@ == output_dir(
                    project_dir@,
                    project.folders@[i].source_path@,
                    is_unified(project.output_directory_mode@),
                    "keep"@,
                )
                &&& maybe@ == output_dir(
                    project_dir@,
                    project.folders@[i].source_path@,
                    is_unified(project.output_directory_mode@),
                    "maybe"@,
                )
            },
            Err(TriageError::FolderNotFound(id)) => {
                &&& folder_position(project.folders@, folder_id@) is None
                &&& id@ == folder_id@
            },
        },
{
    match project.find_folder(folder_id) {
        None => Err(TriageError::FolderNotFound(String::from_str(folder_id))),
        Some(i) => {
            let unified = unified_mode(project.output_directory_mode.as_str());
            let source = project.folders[i].source_path.as_str();
            Ok(
                (
                    output_directory(project_dir, source, unified, "keep"),
                    output_directory(project_dir, source, unified, "maybe"),
                ),
            )
        },
    }
}

/// Plans the triage of one folder: `keep_files` and `maybe_files` are
/// transferred into the folder's keep and maybe directory (moved where
/// `output_mode` is `move`, copied otherwise), `discard_files` go to the
/// trash. `keep_taken` and `maybe_taken` are the names that the two
/// directories hold now; they matter in a unified output only, where a file
/// whose name is taken gets a new one and the origin of every transferred
/// file is recorded. Every step is required: the first that fails ends the
/// triage, with what was done before left as it is.
pub fn plan_triage(
    project: &Project,
    project_dir: &str,
    folder_id: &str,
    output_mode: &str,
    keep_files: &Vec<String>,
    maybe_files: &Vec<String>,
    discard_files: &Vec<String>,
    keep_taken: &Vec<String>,
    maybe_taken: &Vec<String>,
) -> (planned: Result<Plan, TriageError>)
    ensures
        match planned {
            Ok(plan) => {
                let unified = is_unified(project.output_directory_mode@);
                let keep_placed = placements(texts(keep_taken@), texts(keep_files@), unified);
                let maybe_placed = placements(texts(maybe_taken@), texts(maybe_files@), unified);
                &&& folder_position(project.folders@, folder_id@) matches Some(i)
                &&& step_views(plan.steps@) == triage_steps(
                    output_dir(project_dir@, project.folders@[i].source_path@, unified, "keep"@),
                    output_dir(project_dir@, project.folders@[i].source_path@, unified, "maybe"@),
                    keep_placed,
                    maybe_placed,
                    unified,
                    is_move(output_mode@),
                    texts(discard_files@),
                )
                &&& origin_views(plan.origins@) == triage_origins(
                    keep_placed,
                    maybe_placed,
                    unified,
                    folder_id@,
                )
                &&& plan.conflicts@.len() == 0
            },
            Err(TriageError::FolderNotFound(id)) => {
                &&& folder_position(project.folders@, folder_id@) is None
                &&& id@ == folder_id@
            },
        },
{
    let (keep_dir, maybe_dir) = match triage_directories(project, project_dir, folder_id) {
        Ok(dirs) => dirs,
        Err(e) => {
            return Err(e);
        },
    };
    let unified = unified_mode(project.output_directory_mode.as_str());
    let moving = move_mode(output_mode);
    let mut steps: Vec<Step> = Vec::new();
    let mut origins: Vec<Origin> = Vec::new();
    push_step(&mut steps, make_create_output_step(keep_dir.clone(), "keep"));
    push_step(&mut steps, make_create_output_step(maybe_dir.clone(), "maybe"));
    if unified {
        push_step(&mut steps, make_plain_step(FileOp::LoadMetadata));
    }
    let kept = place_files(
        keep_dir.as_str(),
        keep_taken,
        keep_files,
        unified,
        moving,
        folder_id,
        &mut steps,
        &mut origins,
    );
    let set_aside = place_files(
        maybe_dir.as_str(),
        maybe_taken,
        maybe_files,
        unified,
        moving,
        folder_id,
        &mut steps,
        &mut origins,
    );
    if unified && (kept > 0 || set_aside > 0) {
        push_step(&mut steps, make_plain_step(FileOp::StoreMetadata));
    }
    trash_files(discard_files, &mut steps);
    proof {
        let u = is_unified(project.output_directory_mode@);
        let keep_placed = placements(texts(keep_taken@), texts(keep_files@), u);
        let maybe_placed = placements(texts(maybe_taken@), texts(maybe_files@), u);
        assert(origin_views(origins@) =~= triage_origins(keep_placed, maybe_placed, u, folder_id@));
        assert(step_views(steps@) =~= triage_steps(
            keep_dir@,
            maybe_dir@,
            keep_placed,
            maybe_placed,
            u,
            is_move(output_mode@),
            texts(discard_files@),
        ));
    }
    Ok(Plan { steps, origins, conflicts: Vec::new() })
}

/// A triage into per-folder directories never renames: every file lands
/// under the final component of its own path, whatever the directory
/// holds.
pub proof fn per_folder_triage_keeps_names(
    taken: Seq<Seq<char>>,
    other: Seq<Seq<char>>,
    files: Seq<Seq<char>>,
)
    ensures
        placements(taken, files, false) == placements(other, files, false),
        forall|k: int|
            0 <= k < placements(taken, files, false).len() ==> file_name_of(
                (#[trigger] placements(taken, files, false)[k]).source,
            ) == Some(placements(taken, files, false)[k].name),
    decreases files.len(),
{
    if files.len() > 0 {
        per_folder_triage_keeps_names(taken, other, files.drop_last());
    }
}

/// Discarded files always go to the trash: whatever the layout and whether
/// files are moved or copied, the steps of a triage end with one required
/// trashing for each discarded file, in order.
pub proof fn discards_always_go_to_trash(
    keep_dir: Seq<char>,
    maybe_dir: Seq<char>,
    keep_placed: Seq<Placement>,
    maybe_placed: Seq<Placement>,
    unified: bool,
    moving: bool,
    discard: Seq<Seq<char>>,
)
    ensures
        ({
            let steps = triage_steps(
                keep_dir,
                maybe_dir,
                keep_placed,
                maybe_placed,
                unified,
                moving,
                discard,
            );
            &&& steps.len() >= discard.len()
            &&& forall|k: int|
                0 <= k < discard.len() ==> {
                    &&& (#[trigger] steps[steps.len() - discard.len() + k]).op == OpView::Trash(
                        discard[k],
                    )
                    &&& steps[steps.len() - discard.len() + k].required
                }
        }),
{
    let steps = triage_steps(keep_dir, maybe_dir, keep_placed, maybe_placed, unified, moving, discard);
    let trash = trash_steps(discard);
    assert(steps.len() >= trash.len());
    assert forall|k: int| 0 <= k < discard.len() implies {
        &&& (#[trigger] steps[steps.len() - discard.len() + k]).op == OpView::Trash(discard[k])
        &&& steps[steps.len() - discard.len() + k].required
    } by {
        assert(steps[steps.len() - discard.len() + k] == trash[k]);
    }
}

/// Whether every file of a class finds a free name below the ceiling when
/// the files are placed one after another into a unified directory.
pub open spec fn placed_below_ceiling(taken: Seq<Seq<char>>, files: Seq<Seq<char>>) -> bool
    decreases files.len(),
{
    if files.len() == 0 {
        true
    } else {
        let before = placements(taken, files.drop_last(), true);
        &&& placed_below_ceiling(taken, files.drop_last())
        &&& match file_name_of(files.last()) {
            Some(component) => crate::conflict::below_ceiling(
                taken + placed_names(before),
                component,
                crate::conflict::conflict_stem(component),
                crate::conflict::conflict_extension(component),
            ),
            None => true,
        }
    }
}

/// Collision-free below the ceiling: the names handed out in a unified
/// directory are new to the directory and differ from one another.
pub proof fn unified_names_never_collide(taken: Seq<Seq<char>>, files: Seq<Seq<char>>)
    requires
        placed_below_ceiling(taken, files),
    ensures
        forall|k: int|
            0 <= k < placements(taken, files, true).len() ==> !taken.contains(
                #[trigger] placed_names(placements(taken, files, true))[k],
            ),
        forall|j: int, k: int|
            0 <= j < k < placements(taken, files, true).len() ==> placed_names(
                placements(taken, files, true),
            )[j] != placed_names(placements(taken, files, true))[k],
    decreases files.len(),
{
    if files.len() > 0 {
        let before = placements(taken, files.drop_last(), true);
        let all = placements(taken, files, true);
        unified_names_never_collide(taken, files.drop_last());
        match file_name_of(files.last()) {
            Some(component) => {
                let seen = taken + placed_names(before);
                crate::conflict::resolved_name_is_free(seen, component);
                let name = resolved_name(seen, component);
                assert(all == before.push(Placement { source: files.last(), name }));
                assert forall|k: int| 0 <= k < all.len() implies !taken.contains(
                    #[trigger] placed_names(all)[k],
                ) by {
                    if k < before.len() {
                        assert(placed_names(all)[k] == placed_names(before)[k]);
                    } else {
                        if taken.contains(name) {
                            let at = taken.index_of(name);
                            assert(seen[at] == name);
                        }
                    }
                }
                assert forall|j: int, k: int| 0 <= j < k < all.len() implies placed_names(all)[j]
                    != placed_names(all)[k] by {
                    assert(placed_names(all)[j] == placed_names(before)[j]);
                    if k < before.len() {
                        assert(placed_names(all)[k] == placed_names(before)[k]);
                    } else {
                        assert(seen[taken.len() + j] == placed_names(before)[j]);
                    }
                }
            },
            None => {},
        }
    }
}

/// The names with the counters from 1 up to `n - 1`, behind the name
/// itself: `name`, `name_1`, `name_2`, and so on.
pub open spec fn counted_names(name: Seq<char>, n: nat) -> Seq<Seq<char>> {
    Seq::new(
        n,
        |k: int|
            if k == 0 {
                name
            } else {
                crate::conflict::candidate_name(
                    crate::conflict::conflict_stem(name),
                    crate::conflict::conflict_extension(name),
                    k as nat,
                )
            },
    )
}

/// Files of one name, placed one after another into a unified directory
/// that holds neither the name nor its counted forms, come out as `name`,
/// `name_1`, `name_2`, and so on, as far as the ceiling allows.
pub proof fn repeated_name_is_counted_up(taken: Seq<Seq<char>>, files: Seq<Seq<char>>, name: Seq<char>)
    requires
        files.len() <= crate::conflict::PROBE_CEILING,
        forall|k: int| 0 <= k < files.len() ==> file_name_of(#[trigger] files[k]) == Some(name),
        file_name_of(name) == Some(name),
        forall|k: int|
            0 <= k < files.len() ==> !taken.contains(
                #[trigger] counted_names(name, files.len())[k],
            ),
    ensures
        placed_names(placements(taken, files, true)) == counted_names(name, files.len()),
    decreases files.len(),
{
    let stem = crate::conflict::conflict_stem(name);
    let ext = crate::conflict::conflict_extension(name);
    if files.len() > 0 {
        let n = (files.len() - 1) as nat;
        let front = files.drop_last();
        assert forall|k: int| 0 <= k < front.len() implies !taken.contains(
            #[trigger] counted_names(name, front.len())[k],
        ) by {
            assert(counted_names(name, front.len())[k] == counted_names(name, files.len())[k]);
        }
        assert forall|k: int| 0 <= k < front.len() implies file_name_of(#[trigger] front[k])
            == Some(name) by {
            assert(front[k] == files[k]);
        }
        repeated_name_is_counted_up(taken, front, name);
        let before = placements(taken, front, true);
        let seen = taken + placed_names(before);
        assert(file_name_of(files.last()) == Some(name));
        let got = resolved_name(seen, name);
        assert(placements(taken, files, true) == before.push(
            Placement { source: files.last(), name: got },
        ));
        // What the directory holds of the counted names is what was placed.
        assert forall|k: int| 0 <= k < files.len() implies (seen.contains(
            #[trigger] counted_names(name, files.len())[k],
        ) <==> k < n) by {
            let wanted = counted_names(name, files.len())[k];
            if k < n {
                assert(placed_names(before)[k] == wanted);
                assert(seen[taken.len() + k] == wanted);
            } else {
                if seen.contains(wanted) {
                    let at = seen.index_of(wanted);
                    if at < taken.len() {
                        assert(taken[at] == wanted);
                    } else {
                        let j = at - taken.len();
                        assert(placed_names(before)[j] == counted_names(name, files.len())[j]);
                        counted_names_differ(name, j as nat, k as nat);
                    }
                }
            }
        }
        if n == 0 {
            assert(counted_names(name, files.len())[0] == name);
            assert(got == name);
        } else {
            assert(counted_names(name, files.len())[0] == name);
            assert(seen.contains(name));
            first_free_skips_taken(seen, name, n, 1);
            assert(got == crate::conflict::candidate_name(stem, ext, n));
        }
        let all = placements(taken, files, true);
        assert(got == counted_names(name, files.len())[n as int]);
        assert forall|k: int| 0 <= k < all.len() implies placed_names(all)[k] == counted_names(
            name,
            files.len(),
        )[k] by {
            if k < n {
                assert(placed_names(all)[k] == placed_names(before)[k]);
                assert(counted_names(name, front.len())[k] == counted_names(name, files.len())[k]);
            }
        }
        assert(placed_names(all) =~= counted_names(name, files.len()));
    } else {
        assert(placed_names(placements(taken, files, true)) =~= counted_names(name, files.len()));
    }
}

/// The counted forms of a file name differ from one another and from the
/// name.
pub proof fn counted_names_differ(name: Seq<char>, j: nat, k: nat)
    requires
        file_name_of(name) == Some(name),
        j != k,
    ensures
        counted_names(name, (if j > k {
            j + 1
        } else {
            k + 1
        }) as nat)[j as int] != counted_names(name, (if j > k {
            j + 1
        } else {
            k + 1
        }) as nat)[k as int],
{
    let stem = crate::conflict::conflict_stem(name);
    let ext = crate::conflict::conflict_extension(name);
    if j == 0 {
        crate::conflict::candidate_is_longer(name, k);
    } else if k == 0 {
        crate::conflict::candidate_is_longer(name, j);
    } else {
        crate::conflict::candidates_are_distinct(stem, ext, j, k);
    }
}

/// Where the names with the counters from `from` up to `n - 1` are taken
/// and the one with `n` is free, `n` is the first free counter.
proof fn first_free_skips_taken(seen: Seq<Seq<char>>, name: Seq<char>, n: nat, from: nat)
    requires
        1 <= from <= n < crate::conflict::PROBE_CEILING,
        forall|k: int|
            from <= k < n ==> seen.contains(#[trigger] counted_names(name, n + 1)[k]),
        !seen.contains(counted_names(name, n + 1)[n as int]),
    ensures
        crate::conflict::first_free(
            seen,
            crate::conflict::conflict_stem(name),
            crate::conflict::conflict_extension(name),
            from,
        ) == n,
    decreases n - from,
{
    if from < n {
        assert(seen.contains(counted_names(name, n + 1)[from as int]));
        first_free_skips_taken(seen, name, n, from + 1);
    }
}

} // verus!
