//! Lists of pictures: what a directory holds, and what the output of a
//! project holds in one class, each in the order of the names.
use vstd::prelude::*;
use vstd::string::*;
use vstd::utf8::encode_utf8;
use crate::metadata::OutputMetadata;
use crate::model::{is_unified, unified_mode, Folder, ImageInfo, OutputImageInfo, Project};
use crate::order::{key_bytes, positions, sorted_order, stable_order};
use crate::paths::{has_image_extension, image_name, joined, lowercase, lowercase_of, path_join};
use crate::project::ProjectError;
use crate::thumbnail::{hash_path, path_hash};
use crate::triage::{output_dir, output_directory};

verus! {

/// An entry of a directory with what was read of it: whether it is a
/// regular file, its size, and the width and height of the picture where
/// they could be read.
#[derive(Debug, Clone, PartialEq, Eq)]
pub struct ScannedFile {
    pub name: String,
    pub path: String,
    pub is_file: bool,
    pub size: u64,
    pub width: Option<u32>,
    pub height: Option<u32>,
}

/// A scanned entry over plain text.
pub struct ScannedView {
    pub name: Seq<char>,
    pub path: Seq<char>,
    pub is_file: bool,
    pub size: u64,
    pub width: Option<u32>,
    pub height: Option<u32>,
}

impl View for ScannedFile {
    type V = ScannedView;

    open spec fn view(&self) -> ScannedView {
        ScannedView {
            name: self.name@,
            path: self.path@,
            is_file: self.is_file,
            size: self.size,
            width: self.width,
            height: self.height,
        }
    }
}

/// A picture of a list over plain text.
pub struct ImageView {
    pub id: Seq<char>,
    pub path: Seq<char>,
    pub name: Seq<char>,
    pub size: u64,
    pub width: Option<u32>,
    pub height: Option<u32>,
}

impl View for ImageInfo {
    type V = ImageView;

    open spec fn view(&self) -> ImageView {
        ImageView {
            id: self.id@,
            path: self.path@,
            name: self.name@,
            size: self.size,
            width: self.width,
            height: self.height,
        }
    }
}

/// A picture of a project's output over plain text.
pub struct OutputImageView {
    pub image: ImageView,
    pub source_folder_id: Seq<char>,
}

impl View for OutputImageInfo {
    type V = OutputImageView;

    open spec fn view(&self) -> OutputImageView {
        OutputImageView {
            image: ImageView {
                id: self.id@,
                path: self.path@,
                name: self.name@,
                size: self.size,
                width: self.width,
                height: self.height,
            },
            source_folder_id: self.source_folder_id@,
        }
    }
}

/// The entries of a scan over plain text.
pub open spec fn scanned_views(files: Seq<ScannedFile>) -> Seq<ScannedView> {
    Seq::new(files.len(), |i: int| files[i]@)
}

/// The pictures of a list over plain text.
pub open spec fn image_views(images: Seq<ImageInfo>) -> Seq<ImageView> {
    Seq::new(images.len(), |i: int| images[i]@)
}

/// The pictures of an output list over plain text.
pub open spec fn output_image_views(images: Seq<OutputImageInfo>) -> Seq<OutputImageView> {
    Seq::new(images.len(), |i: int| images[i]@)
}

/// Whether a scanned entry is listed: regular files with the name of a
/// picture are.
pub open spec fn is_listed(file: ScannedView) -> bool {
    file.is_file && image_name(file.name)
}

/// The picture that a scanned entry is listed as: identified by the short
/// hash of its path.
pub open spec fn image_of(file: ScannedView) -> ImageView {
    ImageView {
        id: path_hash(file.path),
        path: file.path,
        name: file.name,
        size: file.size,
        width: file.width,
        height: file.height,
    }
}

/// The pictures among scanned entries, in the order of the scan.
pub open spec fn found_images(files: Seq<ScannedView>) -> Seq<ImageView>
    decreases files.len(),
{
    if files.len() == 0 {
        Seq::empty()
    } else if is_listed(files.last()) {
        found_images(files.drop_last()).push(image_of(files.last()))
    } else {
        found_images(files.drop_last())
    }
}

/// The key by which a name is ordered: the bytes of its lower-case form.
pub open spec fn name_key(name: Seq<char>) -> Seq<u8> {
    encode_utf8(lowercase_of(name))
}

/// The keys of a list of pictures.
pub open spec fn image_keys(images: Seq<ImageView>) -> Seq<Seq<u8>> {
    Seq::new(images.len(), |i: int| name_key(images[i].name))
}

/// The keys of a list of output pictures.
pub open spec fn output_keys(images: Seq<OutputImageView>) -> Seq<Seq<u8>> {
    Seq::new(images.len(), |i: int| name_key(images[i].image.name))
}

/// A list in the arrangement that a list of positions gives.
pub open spec fn arranged<T>(items: Seq<T>, order: Seq<int>) -> Seq<T> {
    Seq::new(order.len(), |i: int| items[order[i]])
}

/// Pictures in the order of their names without regard to case; pictures
/// whose names are equal in that regard stay in the order they had.
pub open spec fn by_name(images: Seq<ImageView>) -> Seq<ImageView> {
    arranged(images, stable_order(image_keys(images), images.len()))
}

/// Output pictures in the order of their names without regard to case.
pub open spec fn by_output_name(images: Seq<OutputImageView>) -> Seq<OutputImageView> {
    arranged(images, stable_order(output_keys(images), images.len()))
}

/// The list of the pictures of a directory: its pictures in the order of
/// their names.
pub open spec fn listed_images(files: Seq<ScannedView>) -> Seq<ImageView> {
    by_name(found_images(files))
}

/// A list by name is in the order of its keys, as long as the list it was
/// made from, and holds every picture of that list.
pub proof fn by_name_is_in_order(images: Seq<ImageView>)
    ensures
        by_name(images).len() == images.len(),
        forall|a: int, b: int|
            0 <= a <= b < images.len() ==> crate::order::lex_le(
                name_key((#[trigger] by_name(images)[a]).name),
                name_key((#[trigger] by_name(images)[b]).name),
            ),
        forall|k: int| 0 <= k < images.len() ==> by_name(images).contains(#[trigger] images[k]),
{
    let keys = image_keys(images);
    let order = stable_order(keys, images.len());
    let sorted = by_name(images);
    crate::order::stable_order_in_range(keys, images.len());
    crate::order::stable_order_is_in_order(keys, images.len());
    crate::order::stable_order_holds_all(keys, images.len());
    assert forall|a: int, b: int| 0 <= a <= b < images.len() implies crate::order::lex_le(
        name_key((#[trigger] sorted[a]).name),
        name_key((#[trigger] sorted[b]).name),
    ) by {
        assert(crate::order::lex_le(keys[order[a]], keys[order[b]]));
    }
    assert forall|k: int| 0 <= k < images.len() implies sorted.contains(#[trigger] images[k]) by {
        assert(order.contains(k));
        let at = order.index_of(k);
        assert(sorted[at] == images[k]);
    }
}

/// A copy of a picture record.
pub fn copy_image(image: &ImageInfo) -> (copy: ImageInfo)
    ensures
        copy == *image,
{
    ImageInfo {
        id: image.id.clone(),
        path: image.path.clone(),
        name: image.name.clone(),
        size: image.size,
        width: image.width,
        height: image.height,
    }
}

/// A copy of an output picture record.
pub fn copy_output_image(image: &OutputImageInfo) -> (copy: OutputImageInfo)
    ensures
        copy == *image,
{
    OutputImageInfo {
        id: image.id.clone(),
        path: image.path.clone(),
        name: image.name.clone(),
        size: image.size,
        width: image.width,
        height: image.height,
        source_folder_id: image.source_folder_id.clone(),
    }
}

/// The pictures among scanned entries, in the order of the scan.
pub fn find_images(files: &Vec<ScannedFile>) -> (found: Vec<ImageInfo>)
    ensures
        image_views(found@) == found_images(scanned_views(files@)),
{
    let ghost all = scanned_views(files@);
    let mut found: Vec<ImageInfo> = Vec::new();
    let mut i: usize = 0;
    proof {
        assert(all.take(0) =~= Seq::<ScannedView>::empty());
        assert(image_views(found@) =~= found_images(all.take(0)));
    }
    while i < files.len()
        invariant
            i <= files.len(),
            all == scanned_views(files@),
            image_views(found@) == found_images(all.take(i as int)),
        decreases files.len() - i,
    {
        proof {
            assert(all.take(i as int + 1).drop_last() =~= all.take(i as int));
            assert(all.take(i as int + 1).last() == files@[i as int]@);
        }
        let file = &files[i];
        if file.is_file && has_image_extension(file.name.as_str()) {
            let ghost before = image_views(found@);
            let image = ImageInfo {
                id: hash_path(file.path.as_str()),
                path: file.path.clone(),
                name: file.name.clone(),
                size: file.size,
                width: file.width,
                height: file.height,
            };
            found.push(image);
            proof {
                assert(image_views(found@) =~= before.push(image_of(files@[i as int]@)));
            }
        }
        i += 1;
    }
    proof {
        assert(all.take(files.len() as int) =~= all);
    }
    found
}

/// Puts pictures in the order of their names.
pub fn sort_images(images: &Vec<ImageInfo>) -> (sorted: Vec<ImageInfo>)
    ensures
        image_views(sorted@) == by_name(image_views(images@)),
{
    let mut keys: Vec<String> = Vec::new();
    let mut i: usize = 0;
    while i < images.len()
        invariant
            i <= images.len(),
            keys@.len() == i,
            forall|k: int|
                0 <= k < i ==> (#[trigger] keys@[k])@ == lowercase_of(images@[k].name@),
        decreases images.len() - i,
    {
        keys.push(lowercase(images[i].name.as_str()));
        i += 1;
    }
    proof {
        assert(key_bytes(keys@) =~= image_keys(image_views(images@)));
    }
    let order = sorted_order(&keys);
    let ghost wanted = by_name(image_views(images@));
    let mut sorted: Vec<ImageInfo> = Vec::new();
    let mut k: usize = 0;
    while k < order.len()
        invariant
            k <= order.len(),
            order@.len() == images@.len(),
            forall|j: int| 0 <= j < order@.len() ==> (#[trigger] order@[j]) < images@.len(),
            positions(order@) == stable_order(
                image_keys(image_views(images@)),
                images@.len(),
            ),
            wanted == by_name(image_views(images@)),
            image_views(sorted@) == wanted.take(k as int),
        decreases order.len() - k,
    {
        let ghost before = image_views(sorted@);
        sorted.push(copy_image(&images[order[k]]));
        proof {
            assert(positions(order@)[k as int] == order@[k as int]);
            assert(image_views(sorted@) =~= before.push(wanted[k as int]));
            assert(wanted.take(k as int + 1) =~= wanted.take(k as int).push(wanted[k as int]));
        }
        k += 1;
    }
    proof {
        assert(wanted.take(order.len() as int) =~= wanted);
    }
    sorted
}

/// Puts output pictures in the order of their names.
pub fn sort_output_images(images: &Vec<OutputImageInfo>) -> (sorted: Vec<OutputImageInfo>)
    ensures
        output_image_views(sorted@) == by_output_name(output_image_views(images@)),
{
    let mut keys: Vec<String> = Vec::new();
    let mut i: usize = 0;
    while i < images.len()
        invariant
            i <= images.len(),
            keys@.len() == i,
            forall|k: int|
                0 <= k < i ==> (#[trigger] keys@[k])@ == lowercase_of(images@[k].name@),
        decreases images.len() - i,
    {
        keys.push(lowercase(images[i].name.as_str()));
        i += 1;
    }
    proof {
        assert(key_bytes(keys@) =~= output_keys(output_image_views(images@)));
    }
    let order = sorted_order(&keys);
    let ghost wanted = by_output_name(output_image_views(images@));
    let mut sorted: Vec<OutputImageInfo> = Vec::new();
    let mut k: usize = 0;
    while k < order.len()
        invariant
            k <= order.len(),
            order@.len() == images@.len(),
            forall|j: int| 0 <= j < order@.len() ==> (#[trigger] order@[j]) < images@.len(),
            positions(order@) == stable_order(
                output_keys(output_image_views(images@)),
                images@.len(),
            ),
            wanted == by_output_name(output_image_views(images@)),
            output_image_views(sorted@) == wanted.take(k as int),
        decreases order.len() - k,
    {
        let ghost before = output_image_views(sorted@);
        sorted.push(copy_output_image(&images[order[k]]));
        proof {
            assert(positions(order@)[k as int] == order@[k as int]);
            assert(output_image_views(sorted@) =~= before.push(wanted[k as int]));
            assert(wanted.take(k as int + 1) =~= wanted.take(k as int).push(wanted[k as int]));
        }
        k += 1;
    }
    proof {
        assert(wanted.take(order.len() as int) =~= wanted);
    }
    sorted
}

/// Lists the pictures among the entries of a directory, in the order of
/// their names. A directory that does not exist has no entries.
pub fn scan_directory_for_images(files: &Vec<ScannedFile>) -> (images: Vec<ImageInfo>)
    ensures
        image_views(images@) == listed_images(scanned_views(files@)),
{
    let found = find_images(files);
    sort_images(&found)
}

/// Lists the pictures of a source folder. `files` is what the folder
/// holds, or nothing where the folder is no directory, which is an error.
pub fn list_images(files: Option<&Vec<ScannedFile>>) -> (images: Result<Vec<ImageInfo>, ProjectError>)
    ensures
        match images {
            Ok(list) => files matches Some(entries) && image_views(list@) == listed_images(
                scanned_views(entries@),
            ),
            Err(e) => files is None && e == ProjectError::MissingDirectory,
        },
{
    match files {
        Some(entries) => Ok(scan_directory_for_images(entries)),
        None => Err(ProjectError::MissingDirectory),
    }
}

/// The folder that the record of origins gives for a name; empty where it
/// gives none.
pub open spec fn recorded_source(record: Map<Seq<char>, Seq<char>>, name: Seq<char>) -> Seq<char> {
    if record.contains_key(name) {
        record[name]
    } else {
        Seq::empty()
    }
}

/// The pictures of a unified directory with the folders that the record
/// gives for them.
pub open spec fn unified_items(images: Seq<ImageView>, record: Map<Seq<char>, Seq<char>>) -> Seq<
    OutputImageView,
> {
    Seq::new(
        images.len(),
        |i: int|
            OutputImageView {
                image: images[i],
                source_folder_id: recorded_source(record, images[i].name),
            },
    )
}

/// The pictures of a folder's directory, all from that folder.
pub open spec fn folder_items(images: Seq<ImageView>, folder_id: Seq<char>) -> Seq<OutputImageView> {
    Seq::new(images.len(), |i: int| OutputImageView { image: images[i], source_folder_id: folder_id })
}

/// The scan of the folder at `i`, or an empty one where none was made.
pub open spec fn scan_at(scans: Seq<Vec<ScannedFile>>, i: int) -> Seq<ScannedView> {
    if 0 <= i < scans.len() {
        scanned_views(scans[i]@)
    } else {
        Seq::empty()
    }
}

/// The pictures of the first `n` folders, folder by folder, each folder's
/// in the order of their names.
pub open spec fn per_folder_items(folders: Seq<Folder>, scans: Seq<Vec<ScannedFile>>, n: nat) -> Seq<
    OutputImageView,
>
    decreases n,
{
    if n == 0 {
        Seq::empty()
    } else {
        per_folder_items(folders, scans, (n - 1) as nat) + folder_items(
            listed_images(scan_at(scans, n - 1)),
            folders[n - 1].id@,
        )
    }
}

fn output_image(image: &ImageInfo, source_folder_id: String) -> (made: OutputImageInfo)
    ensures
        made@ == (OutputImageView { image: image@, source_folder_id: source_folder_id@ }),
{
    OutputImageInfo {
        id: image.id.clone(),
        path: image.path.clone(),
        name: image.name.clone(),
        size: image.size,
        width: image.width,
        height: image.height,
        source_folder_id,
    }
}

/// Lists the pictures of one class in a project's output, in the order of
/// their names, each with the folder it came from. In the unified layout
/// `unified` is what the class's directory holds and the folder is the one
/// that the record of origins gives, or empty; in the per-folder layout
/// `per_folder` holds what the class's directory of every folder holds.
pub fn list_output_images(
    project: &Project,
    metadata: &OutputMetadata,
    unified: &Vec<ScannedFile>,
    per_folder: &Vec<Vec<ScannedFile>>,
) -> (images: Vec<OutputImageInfo>)
    ensures
        output_image_views(images@) == by_output_name(
            if is_unified(project.output_directory_mode@) {
                unified_items(listed_images(scanned_views(unified@)), metadata@)
            } else {
                per_folder_items(project.folders@, per_folder@, project.folders@.len())
            },
        ),
{
    let mut all: Vec<OutputImageInfo> = Vec::new();
    if unified_mode(project.output_directory_mode.as_str()) {
        let listed = scan_directory_for_images(unified);
        let ghost wanted = unified_items(image_views(listed@), metadata@);
        let mut i: usize = 0;
        proof {
            assert(output_image_views(all@) =~= wanted.take(0));
        }
        while i < listed.len()
            invariant
                i <= listed.len(),
                wanted == unified_items(image_views(listed@), metadata@),
                output_image_views(all@) == wanted.take(i as int),
            decreases listed.len() - i,
        {
            let source = match metadata.get(listed[i].name.as_str()) {
                Some(id) => id,
                None => String::new(),
            };
            let ghost before = output_image_views(all@);
            all.push(output_image(&listed[i], source));
            proof {
                assert(output_image_views(all@) =~= before.push(wanted[i as int]));
                assert(wanted.take(i as int + 1) =~= wanted.take(i as int).push(wanted[i as int]));
            }
            i += 1;
        }
        proof {
            assert(wanted.take(listed.len() as int) =~= wanted);
        }
    } else {
        let mut n: usize = 0;
        proof {
            assert(output_image_views(all@) =~= per_folder_items(project.folders@, per_folder@, 0));
        }
        while n < project.folders.len()
            invariant
                n <= project.folders.len(),
                output_image_views(all@) == per_folder_items(
                    project.folders@,
                    per_folder@,
                    n as nat,
                ),
            decreases project.folders.len() - n,
        {
            let ghost start = output_image_views(all@);
            if n < per_folder.len() {
                let listed = scan_directory_for_images(&per_folder[n]);
                let ghost wanted = folder_items(image_views(listed@), project.folders@[n as int].id@);
                let mut i: usize = 0;
                proof {
                    assert(start + wanted.take(0) =~= start);
                }
                while i < listed.len()
                    invariant
                        i <= listed.len(),
                        n < project.folders.len(),
                        wanted == folder_items(
                            image_views(listed@),
                            project.folders@[n as int].id@,
                        ),
                        output_image_views(all@) == start + wanted.take(i as int),
                    decreases listed.len() - i,
                {
                    let ghost before = output_image_views(all@);
                    all.push(output_image(&listed[i], project.folders[n].id.clone()));
                    proof {
                        assert(output_image_views(all@) =~= before.push(wanted[i as int]));
                        assert(start + wanted.take(i as int + 1) =~= (start + wanted.take(
                            i as int,
                        )).push(wanted[i as int]));
                    }
                    i += 1;
                }
                proof {
                    assert(wanted.take(listed.len() as int) =~= wanted);
                }
            } else {
                proof {
                    let none = listed_images(scan_at(per_folder@, n as int));
                    assert(found_images(Seq::<ScannedView>::empty()).len() == 0);
                    assert(none.len() == 0);
                    assert(start + folder_items(none, project.folders@[n as int].id@) =~= start);
                }
            }
            n += 1;
        }
    }
    sort_output_images(&all)
}

/// The directories whose pictures make up one class of a project's
/// output: the class's unified directory in the unified layout, the
/// class's directory of every folder in the per-folder layout.
pub fn class_directories(project: &Project, project_dir: &str, class: &str) -> (dirs: Vec<String>)
    ensures
        is_unified(project.output_directory_mode@) ==> dirs@.len() == 1 && dirs@[0]@ == joined(
            project_dir@,
            class@,
        ),
        !is_unified(project.output_directory_mode@) ==> dirs@.len() == project.folders@.len()
            && forall|i: int|
            0 <= i < dirs@.len() ==> (#[trigger] dirs@[i])@ == output_dir(
                project_dir@,
                project.folders@[i].source_path@,
                false,
                class@,
            ),
{
    let mut dirs: Vec<String> = Vec::new();
    if unified_mode(project.output_directory_mode.as_str()) {
        dirs.push(path_join(project_dir, class));
    } else {
        let mut i: usize = 0;
        while i < project.folders.len()
            invariant
                i <= project.folders.len(),
                dirs@.len() == i,
                forall|k: int|
                    0 <= k < i ==> (#[trigger] dirs@[k])@ == output_dir(
                        project_dir@,
                        project.folders@[k].source_path@,
                        false,
                        class@,
                    ),
            decreases project.folders.len() - i,
        {
            dirs.push(
                output_directory(
                    project_dir,
                    project.folders[i].source_path.as_str(),
                    false,
                    class,
                ),
            );
            i += 1;
        }
    }
    dirs
}

} // verus!
