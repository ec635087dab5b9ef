//! Counts of pictures: in one directory, for one folder, for a project.
use vstd::prelude::*;
use vstd::string::*;
use crate::migrate::{is_picture, picture_entry};
use crate::model::{
    entry_views, folder_position, is_unified, unified_mode, DirEntry, EntryView, Folder,
    FolderOutput, FolderStats, Project, ProjectStats,
};
use crate::paths::{folder_name_of, get_folder_name};
use crate::project::ProjectError;

verus! {

/// The pictures among the entries of a directory.
pub open spec fn pictures(entries: Seq<EntryView>) -> Seq<EntryView> {
    entries.filter(|e: EntryView| is_picture(e))
}

/// The number of pictures in a directory, as the 32 bits of a count hold
/// it.
pub open spec fn picture_count(entries: Seq<EntryView>) -> u32 {
    pictures(entries).len() as u32
}

/// Counts the pictures among the entries of a directory. A directory that
/// does not exist counts as one without entries.
pub fn count_images_in_dir(entries: &Vec<DirEntry>) -> (count: u32)
    ensures
        count == picture_count(entry_views(entries@)),
{
    let ghost all = entry_views(entries@);
    let mut count: usize = 0;
    let mut i: usize = 0;
    proof {
        reveal(Seq::filter);
        assert(all.take(0) =~= Seq::<EntryView>::empty());
    }
    while i < entries.len()
        invariant
            i <= entries.len(),
            count <= i,
            all == entry_views(entries@),
            count == pictures(all.take(i as int)).len(),
        decreases entries.len() - i,
    {
        proof {
            reveal(Seq::filter);
            assert(all.take(i as int + 1).drop_last() =~= all.take(i as int));
            assert(all.take(i as int + 1).last() == entries@[i as int]@);
        }
        if picture_entry(&entries[i]) {
            count += 1;
        }
        i += 1;
    }
    proof {
        assert(all.take(entries.len() as int) =~= all);
    }
    #[verifier::truncate]
    (count as u32)
}

/// The counts for the folder with the given id: the pictures in its source
/// directory and in its keep and maybe directory of the per-folder layout.
pub fn folder_stats(
    project: &Project,
    folder_id: String,
    source: &Vec<DirEntry>,
    keep: &Vec<DirEntry>,
    maybe: &Vec<DirEntry>,
) -> (stats: Result<FolderStats, ProjectError>)
    ensures
        match stats {
            Ok(s) => {
                &&& folder_position(project.folders@, folder_id@) matches Some(i)
                &&& s.folder_id == folder_id
                &&& s.folder_name@ == folder_name_of(project.folders@[i].source_path@)
                &&& s.source_count == picture_count(entry_views(source@))
                &&& s.keep_count == picture_count(entry_views(keep@))
                &&& s.maybe_count == picture_count(entry_views(maybe@))
            },
            Err(e) => folder_position(project.folders@, folder_id@) is None && e
                == ProjectError::FolderNotFound,
        },
{
    match project.find_folder(folder_id.as_str()) {
        None => Err(ProjectError::FolderNotFound),
        Some(i) => Ok(
            FolderStats {
                folder_id,
                folder_name: get_folder_name(project.folders[i].source_path.as_str()),
                source_count: count_images_in_dir(source),
                keep_count: count_images_in_dir(keep),
                maybe_count: count_images_in_dir(maybe),
            },
        ),
    }
}

/// The entries of the listing at `i`, or none where the list is shorter.
pub open spec fn listing_at(listings: Seq<Vec<DirEntry>>, i: int) -> Seq<EntryView> {
    if 0 <= i < listings.len() {
        entry_views(listings[i]@)
    } else {
        Seq::empty()
    }
}

/// The entries of a folder's keep directory, or none where it was not
/// listed.
pub open spec fn keep_at(outputs: Seq<FolderOutput>, i: int) -> Seq<EntryView> {
    if 0 <= i < outputs.len() {
        entry_views(outputs[i].keep@)
    } else {
        Seq::empty()
    }
}

/// The entries of a folder's maybe directory, or none where it was not
/// listed.
pub open spec fn maybe_at(outputs: Seq<FolderOutput>, i: int) -> Seq<EntryView> {
    if 0 <= i < outputs.len() {
        entry_views(outputs[i].maybe@)
    } else {
        Seq::empty()
    }
}

/// The kept pictures of the first `n` folders, added up in 32 bits.
pub open spec fn kept_total(outputs: Seq<FolderOutput>, n: nat) -> u32
    decreases n,
{
    if n == 0 {
        0
    } else {
        kept_total(outputs, (n - 1) as nat).wrapping_add(picture_count(keep_at(outputs, n - 1)))
    }
}

/// The set-aside pictures of the first `n` folders, added up in 32 bits.
pub open spec fn maybe_total(outputs: Seq<FolderOutput>, n: nat) -> u32
    decreases n,
{
    if n == 0 {
        0
    } else {
        maybe_total(outputs, (n - 1) as nat).wrapping_add(picture_count(maybe_at(outputs, n - 1)))
    }
}

/// Whether `stats` are the counts for the folder at `i`: in the unified
/// layout the pictures of its source directory only, since kept pictures
/// are not told apart by folder there.
pub open spec fn is_folder_stats(
    stats: FolderStats,
    folders: Seq<Folder>,
    unified: bool,
    sources: Seq<Vec<DirEntry>>,
    outputs: Seq<FolderOutput>,
    i: int,
) -> bool {
    &&& stats.folder_id@ == folders[i].id@
    &&& stats.folder_name@ == folder_name_of(folders[i].source_path@)
    &&& stats.source_count == picture_count(listing_at(sources, i))
    &&& stats.keep_count == (if unified {
        0
    } else {
        picture_count(keep_at(outputs, i))
    })
    &&& stats.maybe_count == (if unified {
        0
    } else {
        picture_count(maybe_at(outputs, i))
    })
}

fn count_listing(listings: &Vec<Vec<DirEntry>>, i: usize) -> (count: u32)
    ensures
        count == picture_count(listing_at(listings@, i as int)),
{
    if i < listings.len() {
        count_images_in_dir(&listings[i])
    } else {
        proof {
            reveal(Seq::filter);
        }
        0
    }
}

fn count_output(outputs: &Vec<FolderOutput>, i: usize) -> (counts: (u32, u32))
    ensures
        counts.0 == picture_count(keep_at(outputs@, i as int)),
        counts.1 == picture_count(maybe_at(outputs@, i as int)),
{
    if i < outputs.len() {
        (count_images_in_dir(&outputs[i].keep), count_images_in_dir(&outputs[i].maybe))
    } else {
        proof {
            reveal(Seq::filter);
        }
        (0, 0)
    }
}

/// The counts for a project. `sources` and `outputs` hold, folder by
/// folder, what the source directory and the per-folder keep and maybe
/// directories hold; `unified_keep` and `unified_maybe` what the unified
/// directories hold. In the unified layout the totals are the pictures of
/// the unified directories; in the per-folder layout they are the sums over
/// the folders.
pub fn project_stats(
    project: &Project,
    sources: &Vec<Vec<DirEntry>>,
    outputs: &Vec<FolderOutput>,
    unified_keep: &Vec<DirEntry>,
    unified_maybe: &Vec<DirEntry>,
) -> (stats: ProjectStats)
    ensures
        stats.folder_stats@.len() == project.folders@.len(),
        forall|i: int|
            0 <= i < project.folders@.len() ==> is_folder_stats(
                #[trigger] stats.folder_stats@[i],
                project.folders@,
                is_unified(project.output_directory_mode@),
                sources@,
                outputs@,
                i,
            ),
        stats.total_keep == (if is_unified(project.output_directory_mode@) {
            picture_count(entry_views(unified_keep@))
        } else {
            kept_total(outputs@, project.folders@.len())
        }),
        stats.total_maybe == (if is_unified(project.output_directory_mode@) {
            picture_count(entry_views(unified_maybe@))
        } else {
            maybe_total(outputs@, project.folders@.len())
        }),
{
    let unified = unified_mode(project.output_directory_mode.as_str());
    let mut total_keep: u32 = 0;
    let mut total_maybe: u32 = 0;
    let mut folder_stats: Vec<FolderStats> = Vec::new();
    let mut i: usize = 0;
    while i < project.folders.len()
        invariant
            i <= project.folders.len(),
            unified == is_unified(project.output_directory_mode@),
            folder_stats@.len() == i,
            forall|k: int|
                0 <= k < i ==> is_folder_stats(
                    #[trigger] folder_stats@[k],
                    project.folders@,
                    unified,
                    sources@,
                    outputs@,
                    k,
                ),
            total_keep == (if unified {
                0
            } else {
                kept_total(outputs@, i as nat)
            }),
            total_maybe == (if unified {
                0
            } else {
                maybe_total(outputs@, i as nat)
            }),
        decreases project.folders.len() - i,
    {
        let folder = &project.folders[i];
        let source_count = count_listing(sources, i);
        let (mut keep_count, mut maybe_count) = count_output(outputs, i);
        if unified {
            keep_count = 0;
            maybe_count = 0;
        } else {
            total_keep = total_keep.wrapping_add(keep_count);
            total_maybe = total_maybe.wrapping_add(maybe_count);
        }
        folder_stats.push(
            FolderStats {
                folder_id: folder.id.clone(),
                folder_name: get_folder_name(folder.source_path.as_str()),
                source_count,
                keep_count,
                maybe_count,
            },
        );
        i += 1;
    }
    if unified {
        total_keep = count_images_in_dir(unified_keep);
        total_maybe = count_images_in_dir(unified_maybe);
    }
    ProjectStats { total_keep, total_maybe, folder_stats }
}

} // verus!
