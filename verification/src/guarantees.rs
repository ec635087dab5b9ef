//! What holds of the plans as a whole: the record of origins matches what
//! the unified directories hold, a migration over a tree that has the
//! target layout already moves nothing, and a migration there and back
//! brings every picture home.
use vstd::prelude::*;
use crate::metadata::{names_pair, names_pair_of_parts, record_domain, record_of, record_value};
use crate::migrate::{
    cleanup_steps, contributes, folder_keep_gathers, folder_maybe_gathers, gather_names, gather_origins, gather_steps, gathers, home_dir, is_picture, scatter_steps,
    scattering, unifying, FolderOutputView, Gather, Unifying,
};
use crate::model::{folder_ids, folder_names, folder_position, EntryView, Folder};
use crate::paths::joined;
use crate::plan::{optional_step, OpView, StepView};
use crate::triage::{output_dir, placed_names, placed_origins, placements, triage_origins, Placement};

verus! {

/// The origins of placed files speak of the names that were handed out.
proof fn placed_origins_name_the_placed(placed: Seq<Placement>, folder_id: Seq<char>, name: Seq<char>)
    ensures
        names_pair(placed_origins(placed, folder_id), name) <==> placed_names(placed).contains(name),
{
    let pairs = placed_origins(placed, folder_id);
    if names_pair(pairs, name) {
        let k = choose|k: int| 0 <= k < pairs.len() && (#[trigger] pairs[k]).0 == name;
        assert(placed_names(placed)[k] == name);
    }
    if placed_names(placed).contains(name) {
        let k = placed_names(placed).index_of(name);
        assert(pairs[k].0 == name);
    }
}

/// The origins of gathered pictures speak of the names that were handed
/// out.
proof fn gather_origins_name_the_gathered(gathered: Seq<Gather>, folder_id: Seq<char>, name: Seq<char>)
    ensures
        names_pair(gather_origins(gathered, folder_id), name) <==> gather_names(gathered).contains(
            name,
        ),
{
    let pairs = gather_origins(gathered, folder_id);
    if names_pair(pairs, name) {
        let k = choose|k: int| 0 <= k < pairs.len() && (#[trigger] pairs[k]).0 == name;
        assert(gather_names(gathered)[k] == name);
    }
    if gather_names(gathered).contains(name) {
        let k = gather_names(gathered).index_of(name);
        assert(pairs[k].0 == name);
    }
}

/// A name stands in two lists put together when it stands in one of them.
proof fn contains_of_parts(a: Seq<Seq<char>>, b: Seq<Seq<char>>, name: Seq<char>)
    ensures
        (a + b).contains(name) <==> a.contains(name) || b.contains(name),
{
    if (a + b).contains(name) {
        let k = (a + b).index_of(name);
        if k < a.len() {
            assert(a[k] == name);
        } else {
            assert(b[k - a.len()] == name);
        }
    }
    if a.contains(name) {
        let k = a.index_of(name);
        assert((a + b)[k] == name);
    }
    if b.contains(name) {
        let k = b.index_of(name);
        assert((a + b)[a.len() + k] == name);
    }
}

/// A triage into a unified output keeps the record of origins exact: where
/// the stored record knew exactly the names in the keep and the maybe
/// directory, the record with the origins of the triage added knows exactly
/// the names that the two directories hold once every file is transferred.
pub proof fn unified_triage_keeps_record_exact(
    record: Seq<(Seq<char>, Seq<char>)>,
    keep_taken: Seq<Seq<char>>,
    maybe_taken: Seq<Seq<char>>,
    keep_files: Seq<Seq<char>>,
    maybe_files: Seq<Seq<char>>,
    folder_id: Seq<char>,
)
    requires
        forall|name: Seq<char>|
            record_of(record).contains_key(name) <==> keep_taken.contains(name)
                || maybe_taken.contains(name),
    ensures
        ({
            let kept = placements(keep_taken, keep_files, true);
            let maybes = placements(maybe_taken, maybe_files, true);
            let after = record + triage_origins(kept, maybes, true, folder_id);
            forall|name: Seq<char>|
                record_of(after).contains_key(name) <==> (keep_taken + placed_names(kept)).contains(
                    name,
                ) || (maybe_taken + placed_names(maybes)).contains(name)
        }),
{
    let kept = placements(keep_taken, keep_files, true);
    let maybes = placements(maybe_taken, maybe_files, true);
    let added = triage_origins(kept, maybes, true, folder_id);
    let after = record + added;
    record_domain(record);
    record_domain(after);
    assert forall|name: Seq<char>|
        record_of(after).contains_key(name) <==> (keep_taken + placed_names(kept)).contains(name)
            || (maybe_taken + placed_names(maybes)).contains(name) by {
        names_pair_of_parts(record, added, name);
        names_pair_of_parts(
            placed_origins(kept, folder_id),
            placed_origins(maybes, folder_id),
            name,
        );
        placed_origins_name_the_placed(kept, folder_id, name);
        placed_origins_name_the_placed(maybes, folder_id, name);
        contains_of_parts(keep_taken, placed_names(kept), name);
        contains_of_parts(maybe_taken, placed_names(maybes), name);
    }
}

/// A migration into the unified layout leaves a record that matches the
/// unified directories: it knows no name that neither directory holds, and
/// it knows every name that they hold, but for names that were there
/// before the migration. With the two directories empty before, the record
/// knows exactly what they hold after.
pub proof fn unified_migration_record_is_exact(
    project_dir: Seq<char>,
    folders: Seq<Folder>,
    outputs: Seq<FolderOutputView>,
    keep_taken: Seq<Seq<char>>,
    maybe_taken: Seq<Seq<char>>,
    n: nat,
)
    ensures
        ({
            let end = unifying(project_dir, folders, outputs, keep_taken, maybe_taken, n);
            &&& forall|name: Seq<char>|
                record_of(end.origins).contains_key(name) ==> end.keep_taken.contains(name)
                    || end.maybe_taken.contains(name)
            &&& forall|name: Seq<char>|
                end.keep_taken.contains(name) || end.maybe_taken.contains(name) ==> record_of(
                    end.origins,
                ).contains_key(name) || keep_taken.contains(name) || maybe_taken.contains(name)
        }),
    decreases n,
{
    let end = unifying(project_dir, folders, outputs, keep_taken, maybe_taken, n);
    record_domain(end.origins);
    if n == 0 {
        assert forall|name: Seq<char>| !names_pair(end.origins, name) by {}
    } else {
        let i = n - 1;
        let before = unifying(project_dir, folders, outputs, keep_taken, maybe_taken, i as nat);
        unified_migration_record_is_exact(
            project_dir,
            folders,
            outputs,
            keep_taken,
            maybe_taken,
            i as nat,
        );
        record_domain(before.origins);
        let kept = folder_keep_gathers(folders, outputs, before.keep_taken, i);
        let maybes = folder_maybe_gathers(folders, outputs, before.maybe_taken, i);
        let id = folders[i].id@;
        assert forall|name: Seq<char>|
            (names_pair(end.origins, name) <==> names_pair(before.origins, name)
                || gather_names(kept).contains(name) || gather_names(maybes).contains(name)) && (
            end.keep_taken.contains(name) <==> before.keep_taken.contains(name) || gather_names(
                kept,
            ).contains(name)) && (end.maybe_taken.contains(name) <==> before.maybe_taken.contains(
                name,
            ) || gather_names(maybes).contains(name)) by {
            names_pair_of_parts(
                before.origins + gather_origins(kept, id),
                gather_origins(maybes, id),
                name,
            );
            names_pair_of_parts(before.origins, gather_origins(kept, id), name);
            gather_origins_name_the_gathered(kept, id, name);
            gather_origins_name_the_gathered(maybes, id, name);
            contains_of_parts(before.keep_taken, gather_names(kept), name);
            contains_of_parts(before.maybe_taken, gather_names(maybes), name);
        }
    }
}

/// Whether every picture of a directory finds a free name below the
/// ceiling when the pictures are gathered one after another.
pub open spec fn gathered_below_ceiling(taken: Seq<Seq<char>>, entries: Seq<EntryView>) -> bool
    decreases entries.len(),
{
    if entries.len() == 0 {
        true
    } else {
        let before = gathers(taken, entries.drop_last());
        &&& gathered_below_ceiling(taken, entries.drop_last())
        &&& is_picture(entries.last()) ==> crate::conflict::below_ceiling(
            taken + gather_names(before),
            entries.last().name,
            crate::conflict::conflict_stem(entries.last().name),
            crate::conflict::conflict_extension(entries.last().name),
        )
    }
}

/// A migration into the unified layout overwrites nothing below the
/// ceiling: the names under which pictures are gathered are new to the
/// unified directory and differ from one another.
pub proof fn gathered_names_never_collide(taken: Seq<Seq<char>>, entries: Seq<EntryView>)
    requires
        gathered_below_ceiling(taken, entries),
    ensures
        forall|k: int|
            0 <= k < gathers(taken, entries).len() ==> !taken.contains(
                #[trigger] gather_names(gathers(taken, entries))[k],
            ),
        forall|j: int, k: int|
            0 <= j < k < gathers(taken, entries).len() ==> gather_names(gathers(taken, entries))[j]
                != gather_names(gathers(taken, entries))[k],
    decreases entries.len(),
{
    if entries.len() > 0 {
        let before = gathers(taken, entries.drop_last());
        let all = gathers(taken, entries);
        gathered_names_never_collide(taken, entries.drop_last());
        if is_picture(entries.last()) {
            let seen = taken + gather_names(before);
            let name = crate::conflict::resolved_name(seen, entries.last().name);
            crate::conflict::resolved_name_is_free(seen, entries.last().name);
            assert(all.len() == before.len() + 1);
            assert forall|k: int| 0 <= k < all.len() implies !taken.contains(
                #[trigger] gather_names(all)[k],
            ) by {
                if k < before.len() {
                    assert(gather_names(all)[k] == gather_names(before)[k]);
                } else {
                    if taken.contains(name) {
                        let at = taken.index_of(name);
                        assert(seen[at] == name);
                    }
                }
            }
            assert forall|j: int, k: int| 0 <= j < k < all.len() implies gather_names(all)[j]
                != gather_names(all)[k] by {
                assert(gather_names(all)[j] == gather_names(before)[j]);
                if k < before.len() {
                    assert(gather_names(all)[k] == gather_names(before)[k]);
                } else {
                    assert(seen[taken.len() + j] == gather_names(before)[j]);
                }
            }
        }
    }
}

/// A directory without pictures has nothing to gather.
pub proof fn nothing_to_gather(taken: Seq<Seq<char>>, entries: Seq<EntryView>)
    requires
        forall|j: int| 0 <= j < entries.len() ==> !is_picture(#[trigger] entries[j]),
    ensures
        gathers(taken, entries).len() == 0,
    decreases entries.len(),
{
    if entries.len() > 0 {
        let front = entries.drop_last();
        assert forall|j: int| 0 <= j < front.len() implies !is_picture(#[trigger] front[j]) by {
            assert(front[j] == entries[j]);
        }
        nothing_to_gather(taken, front);
        assert(!is_picture(entries[entries.len() - 1]));
    }
}

/// Whether a step moves a file.
pub open spec fn is_move_step(step: StepView) -> bool {
    step.op is Move
}

/// A migration into the unified layout over a tree that is unified
/// already, where no folder directory holds a picture, destroys and
/// duplicates nothing: it plans no move, renames nothing, and leaves what
/// the unified directories hold as it is.
pub proof fn unify_again_moves_nothing(
    project_dir: Seq<char>,
    folders: Seq<Folder>,
    outputs: Seq<FolderOutputView>,
    keep_taken: Seq<Seq<char>>,
    maybe_taken: Seq<Seq<char>>,
    n: nat,
)
    requires
        forall|i: int, j: int|
            0 <= i < outputs.len() && 0 <= j < outputs[i].keep.len() ==> !is_picture(
                #[trigger] outputs[i].keep[j],
            ),
        forall|i: int, j: int|
            0 <= i < outputs.len() && 0 <= j < outputs[i].maybe.len() ==> !is_picture(
                #[trigger] outputs[i].maybe[j],
            ),
    ensures
        ({
            let end = unifying(project_dir, folders, outputs, keep_taken, maybe_taken, n);
            &&& end.keep_taken == keep_taken
            &&& end.maybe_taken == maybe_taken
            &&& end.origins.len() == 0
            &&& end.conflicts.len() == 0
            &&& forall|k: int| 0 <= k < end.steps.len() ==> !is_move_step(#[trigger] end.steps[k])
        }),
    decreases n,
{
    if n > 0 {
        let i = n - 1;
        let before = unifying(project_dir, folders, outputs, keep_taken, maybe_taken, i as nat);
        let end = unifying(project_dir, folders, outputs, keep_taken, maybe_taken, n);
        unify_again_moves_nothing(project_dir, folders, outputs, keep_taken, maybe_taken, i as nat);
        let kept = folder_keep_gathers(folders, outputs, before.keep_taken, i);
        let maybes = folder_maybe_gathers(folders, outputs, before.maybe_taken, i);
        if contributes(folders, outputs, i) {
            assert forall|j: int| 0 <= j < outputs[i].keep.len() implies !is_picture(
                #[trigger] outputs[i].keep[j],
            ) by {}
            assert forall|j: int| 0 <= j < outputs[i].maybe.len() implies !is_picture(
                #[trigger] outputs[i].maybe[j],
            ) by {}
            nothing_to_gather(before.keep_taken, outputs[i].keep);
            nothing_to_gather(before.maybe_taken, outputs[i].maybe);
        }
        assert(kept.len() == 0);
        assert(maybes.len() == 0);
        assert(end.keep_taken =~= keep_taken);
        assert(end.maybe_taken =~= maybe_taken);
        assert(end.origins =~= before.origins);
        assert(end.conflicts =~= before.conflicts);
        let cleanup = cleanup_steps(joined(project_dir, folder_names(folders)[i]));
        assert(end.steps =~= before.steps + cleanup);
        assert forall|k: int| 0 <= k < end.steps.len() implies !is_move_step(
            #[trigger] end.steps[k],
        ) by {
            if k < before.steps.len() {
                assert(end.steps[k] == before.steps[k]);
            } else {
                assert(end.steps[k] == cleanup[k - before.steps.len()]);
            }
        }
    }
}

/// A unified directory without pictures sends nothing home.
pub proof fn nothing_to_scatter(
    project_dir: Seq<char>,
    folders: Seq<Folder>,
    origins: Map<Seq<char>, Seq<char>>,
    entries: Seq<EntryView>,
    class: Seq<char>,
)
    requires
        forall|j: int| 0 <= j < entries.len() ==> !is_picture(#[trigger] entries[j]),
    ensures
        scatter_steps(project_dir, folders, origins, entries, class).len() == 0,
    decreases entries.len(),
{
    if entries.len() > 0 {
        let front = entries.drop_last();
        assert forall|j: int| 0 <= j < front.len() implies !is_picture(#[trigger] front[j]) by {
            assert(front[j] == entries[j]);
        }
        nothing_to_scatter(project_dir, folders, origins, front, class);
        assert(!is_picture(entries[entries.len() - 1]));
    }
}

/// A migration into the per-folder layout over a tree that has that
/// layout already, where the unified directories hold no picture, destroys
/// and duplicates nothing: it plans no move.
pub proof fn scatter_again_moves_nothing(
    project_dir: Seq<char>,
    folders: Seq<Folder>,
    origins: Map<Seq<char>, Seq<char>>,
    keep: Seq<EntryView>,
    maybe: Seq<EntryView>,
)
    requires
        forall|j: int| 0 <= j < keep.len() ==> !is_picture(#[trigger] keep[j]),
        forall|j: int| 0 <= j < maybe.len() ==> !is_picture(#[trigger] maybe[j]),
    ensures
        ({
            let steps = scattering(project_dir, folders, origins, keep, maybe);
            forall|k: int| 0 <= k < steps.len() ==> !is_move_step(#[trigger] steps[k])
        }),
{
    nothing_to_scatter(project_dir, folders, origins, keep, "keep"@);
    nothing_to_scatter(project_dir, folders, origins, maybe, "maybe"@);
}

/// The directory name of a class of pictures.
pub open spec fn class_dir(keep: bool) -> Seq<char> {
    if keep {
        "keep"@
    } else {
        "maybe"@
    }
}

/// What one of the two directories of the folder at `i` holds.
pub open spec fn listing_of(outputs: Seq<FolderOutputView>, i: int, keep: bool) -> Seq<EntryView> {
    if keep {
        outputs[i].keep
    } else {
        outputs[i].maybe
    }
}

/// Whether entry `j` of a directory of the folder at `i` is a picture that
/// a migration into the unified layout gathers.
pub open spec fn picture_at(
    folders: Seq<Folder>,
    outputs: Seq<FolderOutputView>,
    i: int,
    keep: bool,
    j: int,
) -> bool {
    &&& 0 <= i < folders.len()
    &&& contributes(folders, outputs, i)
    &&& 0 <= j < listing_of(outputs, i, keep).len()
    &&& is_picture(listing_of(outputs, i, keep)[j])
}

/// No two pictures that a migration gathers have the same name, whether
/// they lie in one directory, in the keep and the maybe directory of a
/// folder, or in different folders.
pub open spec fn names_unique(folders: Seq<Folder>, outputs: Seq<FolderOutputView>) -> bool {
    forall|i1: int, k1: bool, j1: int, i2: int, k2: bool, j2: int|
        #![trigger picture_at(folders, outputs, i1, k1, j1), picture_at(folders, outputs, i2, k2, j2)]
        picture_at(folders, outputs, i1, k1, j1) && picture_at(folders, outputs, i2, k2, j2)
            && listing_of(outputs, i1, k1)[j1].name == listing_of(outputs, i2, k2)[j2].name ==> i1
            == i2 && k1 == k2 && j1 == j2
}

/// No two folders of a project have the same id.
pub open spec fn ids_unique(folders: Seq<Folder>) -> bool {
    forall|a: int, b: int|
        0 <= a < b < folders.len() ==> (#[trigger] folders[a]).id@ != (#[trigger] folders[b]).id@
}

/// A picture gathered under its own name.
pub open spec fn plain_gather(entry: EntryView) -> Gather {
    Gather { source: entry.path, original: entry.name, name: entry.name }
}

/// Whether a gathered picture is one of a listing, under its own name.
pub open spec fn picked_from(listing: Seq<EntryView>, gathered: Gather) -> bool {
    exists|j: int|
        0 <= j < listing.len() && is_picture(#[trigger] listing[j]) && gathered == plain_gather(
            listing[j],
        )
}

/// Pictures whose names are new to the unified directory and differ from
/// one another are gathered under their own names, each of them once.
proof fn gathers_without_collisions(taken: Seq<Seq<char>>, listing: Seq<EntryView>)
    requires
        forall|j: int|
            0 <= j < listing.len() && is_picture(#[trigger] listing[j]) ==> !taken.contains(
                listing[j].name,
            ),
        forall|a: int, b: int|
            0 <= a < b < listing.len() && is_picture(#[trigger] listing[a]) && is_picture(
                #[trigger] listing[b],
            ) ==> listing[a].name != listing[b].name,
    ensures
        forall|k: int|
            0 <= k < gathers(taken, listing).len() ==> picked_from(
                listing,
                #[trigger] gathers(taken, listing)[k],
            ),
        forall|j: int|
            0 <= j < listing.len() && is_picture(#[trigger] listing[j]) ==> gathers(
                taken,
                listing,
            ).contains(plain_gather(listing[j])),
    decreases listing.len(),
{
    if listing.len() > 0 {
        let front = listing.drop_last();
        let last = listing.last();
        assert forall|j: int| 0 <= j < front.len() && is_picture(#[trigger] front[j]) implies
            !taken.contains(front[j].name) by {
            assert(front[j] == listing[j]);
        }
        assert forall|a: int, b: int|
            0 <= a < b < front.len() && is_picture(#[trigger] front[a]) && is_picture(
                #[trigger] front[b],
            ) implies front[a].name != front[b].name by {
            assert(front[a] == listing[a]);
            assert(front[b] == listing[b]);
        }
        gathers_without_collisions(taken, front);
        let before = gathers(taken, front);
        let all = gathers(taken, listing);
        if is_picture(last) {
            let seen = taken + gather_names(before);
            assert(listing[listing.len() - 1] == last);
            if seen.contains(last.name) {
                let at = seen.index_of(last.name);
                if at < taken.len() {
                    assert(taken[at] == last.name);
                    assert(taken.contains(last.name));
                } else {
                    let k = at - taken.len();
                    assert(gather_names(before)[k] == last.name);
                    assert(picked_from(front, before[k]));
                    let j = choose|j: int|
                        0 <= j < front.len() && is_picture(#[trigger] front[j]) && before[k]
                            == plain_gather(front[j]);
                    assert(front[j] == listing[j]);
                    assert(listing[j].name != listing[listing.len() - 1].name);
                }
                assert(false);
            }
            assert(all == before.push(plain_gather(last)));
            assert forall|k: int| 0 <= k < all.len() implies picked_from(
                listing,
                #[trigger] all[k],
            ) by {
                if k < before.len() {
                    assert(all[k] == before[k]);
                    assert(picked_from(front, before[k]));
                    let j = choose|j: int|
                        0 <= j < front.len() && is_picture(#[trigger] front[j]) && before[k]
                            == plain_gather(front[j]);
                    assert(front[j] == listing[j]);
                } else {
                    assert(all[k] == plain_gather(listing[listing.len() - 1]));
                }
            }
            assert forall|j: int|
                0 <= j < listing.len() && is_picture(#[trigger] listing[j]) implies all.contains(
                plain_gather(listing[j]),
            ) by {
                if j < front.len() {
                    assert(front[j] == listing[j]);
                    let k = before.index_of(plain_gather(front[j]));
                    assert(all[k] == plain_gather(listing[j]));
                } else {
                    assert(all[all.len() - 1] == plain_gather(listing[j]));
                }
            }
        } else {
            assert(all == before);
            assert forall|k: int| 0 <= k < all.len() implies picked_from(
                listing,
                #[trigger] all[k],
            ) by {
                assert(picked_from(front, before[k]));
                let j = choose|j: int|
                    0 <= j < front.len() && is_picture(#[trigger] front[j]) && before[k]
                        == plain_gather(front[j]);
                assert(front[j] == listing[j]);
            }
            assert forall|j: int|
                0 <= j < listing.len() && is_picture(#[trigger] listing[j]) implies all.contains(
                plain_gather(listing[j]),
            ) by {
                assert(j < front.len());
                assert(front[j] == listing[j]);
            }
        }
    }
}

/// Whether a name is that of a picture of the given class in one of the
/// first `n` folders.
pub open spec fn named_among(
    folders: Seq<Folder>,
    outputs: Seq<FolderOutputView>,
    n: int,
    keep: bool,
    name: Seq<char>,
) -> bool {
    exists|a: int, j: int|
        0 <= a < n && #[trigger] picture_at(folders, outputs, a, keep, j) && listing_of(
            outputs,
            a,
            keep,
        )[j].name == name
}

/// Whether a pair of name and folder id is the origin of a picture in one
/// of the first `n` folders.
pub open spec fn origin_among(
    folders: Seq<Folder>,
    outputs: Seq<FolderOutputView>,
    n: int,
    pair: (Seq<char>, Seq<char>),
) -> bool {
    exists|a: int, c: bool, j: int|
        0 <= a < n && #[trigger] picture_at(folders, outputs, a, c, j) && pair == (
            listing_of(outputs, a, c)[j].name,
            folders[a].id@,
        )
}

/// The move that takes a picture into the unified directory of its class
/// under its own name.
pub open spec fn plain_move(project_dir: Seq<char>, keep: bool, entry: EntryView) -> StepView {
    optional_step(
        OpView::Move(entry.path, joined(joined(project_dir, class_dir(keep)), entry.name)),
    )
}

/// What holds of a migration into empty unified directories after the
/// first `n` folders, where no two pictures have the same name.
pub open spec fn gathered_plainly(
    project_dir: Seq<char>,
    folders: Seq<Folder>,
    outputs: Seq<FolderOutputView>,
    n: int,
    state: Unifying,
) -> bool {
    &&& forall|name: Seq<char>|
        state.keep_taken.contains(name) ==> #[trigger] named_among(folders, outputs, n, true, name)
    &&& forall|name: Seq<char>|
        state.maybe_taken.contains(name) ==> #[trigger] named_among(
            folders,
            outputs,
            n,
            false,
            name,
        )
    &&& forall|k: int|
        0 <= k < state.origins.len() ==> origin_among(
            folders,
            outputs,
            n,
            #[trigger] state.origins[k],
        )
    &&& forall|a: int, c: bool, j: int|
        0 <= a < n && #[trigger] picture_at(folders, outputs, a, c, j) ==> {
            &&& state.origins.contains((listing_of(outputs, a, c)[j].name, folders[a].id@))
            &&& state.steps.contains(plain_move(project_dir, c, listing_of(outputs, a, c)[j]))
        }
}

/// The names of one class that the folder at `i` brings are new to the
/// unified directory and differ from one another.
proof fn folder_brings_new_names(
    project_dir: Seq<char>,
    folders: Seq<Folder>,
    outputs: Seq<FolderOutputView>,
    i: int,
    keep: bool,
    state: Unifying,
)
    requires
        0 <= i < folders.len(),
        contributes(folders, outputs, i),
        names_unique(folders, outputs),
        gathered_plainly(project_dir, folders, outputs, i, state),
    ensures
        ({
            let taken = if keep {
                state.keep_taken
            } else {
                state.maybe_taken
            };
            let listing = listing_of(outputs, i, keep);
            &&& forall|j: int|
                0 <= j < listing.len() && is_picture(#[trigger] listing[j]) ==> !taken.contains(
                    listing[j].name,
                )
            &&& forall|a: int, b: int|
                0 <= a < b < listing.len() && is_picture(#[trigger] listing[a]) && is_picture(
                    #[trigger] listing[b],
                ) ==> listing[a].name != listing[b].name
        }),
{
    let taken = if keep {
        state.keep_taken
    } else {
        state.maybe_taken
    };
    let listing = listing_of(outputs, i, keep);
    assert forall|j: int| 0 <= j < listing.len() && is_picture(#[trigger] listing[j]) implies
        !taken.contains(listing[j].name) by {
        if taken.contains(listing[j].name) {
            assert(named_among(folders, outputs, i, keep, listing[j].name));
            let (a, j2) = choose|a: int, j2: int|
                0 <= a < i && #[trigger] picture_at(folders, outputs, a, keep, j2) && listing_of(
                    outputs,
                    a,
                    keep,
                )[j2].name == listing[j].name;
            assert(picture_at(folders, outputs, i, keep, j));
            assert(picture_at(folders, outputs, a, keep, j2));
            assert(false);
        }
    }
    assert forall|a: int, b: int|
        0 <= a < b < listing.len() && is_picture(#[trigger] listing[a]) && is_picture(
            #[trigger] listing[b],
        ) implies listing[a].name != listing[b].name by {
        assert(picture_at(folders, outputs, i, keep, a));
        assert(picture_at(folders, outputs, i, keep, b));
    }
}

/// What the folder at `i` adds to a migration when it brings pictures of
/// new and different names: they are gathered under their own names.
proof fn folder_is_gathered_plainly(
    project_dir: Seq<char>,
    folders: Seq<Folder>,
    outputs: Seq<FolderOutputView>,
    i: int,
    before: Unifying,
    end: Unifying,
)
    requires
        0 <= i < folders.len(),
        names_unique(folders, outputs),
        gathered_plainly(project_dir, folders, outputs, i, before),
        end.keep_taken == before.keep_taken + gather_names(
            folder_keep_gathers(folders, outputs, before.keep_taken, i),
        ),
        end.maybe_taken == before.maybe_taken + gather_names(
            folder_maybe_gathers(folders, outputs, before.maybe_taken, i),
        ),
        end.steps == before.steps + gather_steps(
            joined(project_dir, "keep"@),
            folder_keep_gathers(folders, outputs, before.keep_taken, i),
        ) + gather_steps(
            joined(project_dir, "maybe"@),
            folder_maybe_gathers(folders, outputs, before.maybe_taken, i),
        ) + cleanup_steps(joined(project_dir, folder_names(folders)[i])),
        end.origins == before.origins + gather_origins(
            folder_keep_gathers(folders, outputs, before.keep_taken, i),
            folders[i].id@,
        ) + gather_origins(
            folder_maybe_gathers(folders, outputs, before.maybe_taken, i),
            folders[i].id@,
        ),
    ensures
        gathered_plainly(project_dir, folders, outputs, i + 1, end),
{
    let kept = folder_keep_gathers(folders, outputs, before.keep_taken, i);
    let maybes = folder_maybe_gathers(folders, outputs, before.maybe_taken, i);
    let id = folders[i].id@;
    let keep_steps = gather_steps(joined(project_dir, "keep"@), kept);
    let maybe_steps = gather_steps(joined(project_dir, "maybe"@), maybes);
    let cleanup = cleanup_steps(joined(project_dir, folder_names(folders)[i]));
    let keep_origins = gather_origins(kept, id);
    let maybe_origins = gather_origins(maybes, id);
    if contributes(folders, outputs, i) {
        folder_brings_new_names(project_dir, folders, outputs, i, true, before);
        folder_brings_new_names(project_dir, folders, outputs, i, false, before);
        assert(listing_of(outputs, i, true) == outputs[i].keep);
        assert(listing_of(outputs, i, false) == outputs[i].maybe);
        gathers_without_collisions(before.keep_taken, outputs[i].keep);
        gathers_without_collisions(before.maybe_taken, outputs[i].maybe);
    }
    assert forall|name: Seq<char>| end.keep_taken.contains(name) implies #[trigger] named_among(
        folders,
        outputs,
        i + 1,
        true,
        name,
    ) by {
        contains_of_parts(before.keep_taken, gather_names(kept), name);
        if before.keep_taken.contains(name) {
            assert(named_among(folders, outputs, i, true, name));
            let (a, j) = choose|a: int, j: int|
                0 <= a < i && #[trigger] picture_at(folders, outputs, a, true, j) && listing_of(
                    outputs,
                    a,
                    true,
                )[j].name == name;
            assert(picture_at(folders, outputs, a, true, j));
        } else {
            let k = gather_names(kept).index_of(name);
            assert(picked_from(outputs[i].keep, kept[k]));
            let j = choose|j: int|
                0 <= j < outputs[i].keep.len() && is_picture(#[trigger] outputs[i].keep[j])
                    && kept[k] == plain_gather(outputs[i].keep[j]);
            assert(picture_at(folders, outputs, i, true, j));
        }
    }
    assert forall|name: Seq<char>| end.maybe_taken.contains(name) implies #[trigger] named_among(
        folders,
        outputs,
        i + 1,
        false,
        name,
    ) by {
        contains_of_parts(before.maybe_taken, gather_names(maybes), name);
        if before.maybe_taken.contains(name) {
            assert(named_among(folders, outputs, i, false, name));
            let (a, j) = choose|a: int, j: int|
                0 <= a < i && #[trigger] picture_at(folders, outputs, a, false, j) && listing_of(
                    outputs,
                    a,
                    false,
                )[j].name == name;
            assert(picture_at(folders, outputs, a, false, j));
        } else {
            let k = gather_names(maybes).index_of(name);
            assert(picked_from(outputs[i].maybe, maybes[k]));
            let j = choose|j: int|
                0 <= j < outputs[i].maybe.len() && is_picture(#[trigger] outputs[i].maybe[j])
                    && maybes[k] == plain_gather(outputs[i].maybe[j]);
            assert(picture_at(folders, outputs, i, false, j));
        }
    }
    assert forall|k: int| 0 <= k < end.origins.len() implies origin_among(
        folders,
        outputs,
        i + 1,
        #[trigger] end.origins[k],
    ) by {
        if k < before.origins.len() {
            assert(end.origins[k] == before.origins[k]);
            assert(origin_among(folders, outputs, i, before.origins[k]));
            let (a, c, j) = choose|a: int, c: bool, j: int|
                0 <= a < i && #[trigger] picture_at(folders, outputs, a, c, j) && before.origins[k]
                    == (listing_of(outputs, a, c)[j].name, folders[a].id@);
            assert(picture_at(folders, outputs, a, c, j));
        } else if k < before.origins.len() + keep_origins.len() {
            let at = k - before.origins.len();
            assert(end.origins[k] == keep_origins[at]);
            assert(picked_from(outputs[i].keep, kept[at]));
            let j = choose|j: int|
                0 <= j < outputs[i].keep.len() && is_picture(#[trigger] outputs[i].keep[j])
                    && kept[at] == plain_gather(outputs[i].keep[j]);
            assert(picture_at(folders, outputs, i, true, j));
        } else {
            let at = k - before.origins.len() - keep_origins.len();
            assert(end.origins[k] == maybe_origins[at]);
            assert(picked_from(outputs[i].maybe, maybes[at]));
            let j = choose|j: int|
                0 <= j < outputs[i].maybe.len() && is_picture(#[trigger] outputs[i].maybe[j])
                    && maybes[at] == plain_gather(outputs[i].maybe[j]);
            assert(picture_at(folders, outputs, i, false, j));
        }
    }
    assert forall|a: int, c: bool, j: int|
        0 <= a < i + 1 && #[trigger] picture_at(folders, outputs, a, c, j) implies {
        &&& end.origins.contains((listing_of(outputs, a, c)[j].name, folders[a].id@))
        &&& end.steps.contains(plain_move(project_dir, c, listing_of(outputs, a, c)[j]))
    } by {
        let entry = listing_of(outputs, a, c)[j];
        let pair = (entry.name, folders[a].id@);
        let step = plain_move(project_dir, c, entry);
        if a < i {
            let at = before.origins.index_of(pair);
            assert(end.origins[at] == pair);
            let st = before.steps.index_of(step);
            assert(end.steps[st] == step);
        } else if c {
            let k = kept.index_of(plain_gather(entry));
            assert(keep_origins[k] == pair);
            assert(end.origins[before.origins.len() + k] == pair);
            assert(keep_steps[k] == step);
            assert(end.steps[before.steps.len() + k] == step);
        } else {
            let k = maybes.index_of(plain_gather(entry));
            assert(maybe_origins[k] == pair);
            assert(end.origins[before.origins.len() + keep_origins.len() + k] == pair);
            assert(maybe_steps[k] == step);
            assert(end.steps[before.steps.len() + keep_steps.len() + k] == step);
        }
    }
}

/// A migration into empty unified directories gathers every picture under
/// its own name where no two pictures have the same name.
pub proof fn unifying_gathers_plainly(
    project_dir: Seq<char>,
    folders: Seq<Folder>,
    outputs: Seq<FolderOutputView>,
    n: nat,
)
    requires
        n <= folders.len(),
        names_unique(folders, outputs),
    ensures
        gathered_plainly(
            project_dir,
            folders,
            outputs,
            n as int,
            unifying(project_dir, folders, outputs, Seq::empty(), Seq::empty(), n),
        ),
    decreases n,
{
    if n > 0 {
        let i = (n - 1) as nat;
        unifying_gathers_plainly(project_dir, folders, outputs, i);
        let before = unifying(project_dir, folders, outputs, Seq::empty(), Seq::empty(), i);
        let end = unifying(project_dir, folders, outputs, Seq::empty(), Seq::empty(), n);
        folder_is_gathered_plainly(project_dir, folders, outputs, i as int, before, end);
    }
}

/// The folder with a given id is found at its own place where no two
/// folders have the same id.
pub proof fn unique_id_finds_its_folder(folders: Seq<Folder>, i: int)
    requires
        0 <= i < folders.len(),
        ids_unique(folders),
    ensures
        folder_position(folders, folders[i].id@) == Some(i),
{
    let ids = folder_ids(folders);
    assert(ids[i] == folders[i].id@);
    assert(ids.contains(folders[i].id@));
    ids.index_of_first_ensures(folders[i].id@);
    let found = ids.index_of_first(folders[i].id@);
    assert(found is Some);
    let at = found->0;
    assert(ids[at] == folders[at].id@);
    if at < i {
        assert(folders[at].id@ != folders[i].id@);
    } else if i < at {
        assert(folders[i].id@ != folders[at].id@);
    }
}

/// There and back: a project whose folders have different ids and whose
/// pictures have different names migrates into empty unified directories
/// and from there into the per-folder layout. Every picture moves into the
/// unified directory of its class under its own name, and the record that
/// the first migration leaves sends it home to the directory of its own
/// folder.
pub proof fn round_trip_brings_pictures_home(
    project_dir: Seq<char>,
    folders: Seq<Folder>,
    outputs: Seq<FolderOutputView>,
    i: int,
    keep: bool,
    j: int,
)
    requires
        ids_unique(folders),
        names_unique(folders, outputs),
        picture_at(folders, outputs, i, keep, j),
    ensures
        ({
            let end = unifying(
                project_dir,
                folders,
                outputs,
                Seq::empty(),
                Seq::empty(),
                folders.len(),
            );
            let entry = listing_of(outputs, i, keep)[j];
            let arrived = EntryView {
                name: entry.name,
                path: joined(joined(project_dir, class_dir(keep)), entry.name),
                is_file: true,
            };
            &&& end.steps.contains(optional_step(OpView::Move(entry.path, arrived.path)))
            &&& home_dir(project_dir, folders, record_of(end.origins), arrived, class_dir(keep))
                == Some(output_dir(project_dir, folders[i].source_path@, false, class_dir(keep)))
        }),
{
    let end = unifying(project_dir, folders, outputs, Seq::empty(), Seq::empty(), folders.len());
    let entry = listing_of(outputs, i, keep)[j];
    unifying_gathers_plainly(project_dir, folders, outputs, folders.len());
    let pair = (entry.name, folders[i].id@);
    assert(end.origins.contains(pair));
    let at = end.origins.index_of(pair);
    assert(end.origins[at].0 == entry.name);
    assert(names_pair(end.origins, entry.name));
    assert forall|k: int| 0 <= k < end.origins.len() && (#[trigger] end.origins[k]).0
        == entry.name implies end.origins[k].1 == folders[i].id@ by {
        assert(origin_among(folders, outputs, folders.len() as int, end.origins[k]));
        let (a, c, j2) = choose|a: int, c: bool, j2: int|
            0 <= a < folders.len() && #[trigger] picture_at(folders, outputs, a, c, j2)
                && end.origins[k] == (listing_of(outputs, a, c)[j2].name, folders[a].id@);
        assert(picture_at(folders, outputs, a, c, j2));
        assert(picture_at(folders, outputs, i, keep, j));
        assert(a == i);
    }
    record_value(end.origins, entry.name, folders[i].id@);
    unique_id_finds_its_folder(folders, i);
    assert(end.steps.contains(plain_move(project_dir, keep, entry)));
}

/// A picture with a home is moved there by the migration into the
/// per-folder layout, under its own name.
pub proof fn scatter_sends_home(
    project_dir: Seq<char>,
    folders: Seq<Folder>,
    origins: Map<Seq<char>, Seq<char>>,
    entries: Seq<EntryView>,
    class: Seq<char>,
    k: int,
)
    requires
        0 <= k < entries.len(),
        home_dir(project_dir, folders, origins, entries[k], class) is Some,
    ensures
        scatter_steps(project_dir, folders, origins, entries, class).contains(
            optional_step(
                OpView::Move(
                    entries[k].path,
                    joined(
                        home_dir(project_dir, folders, origins, entries[k], class)->0,
                        entries[k].name,
                    ),
                ),
            ),
        ),
    decreases entries.len(),
{
    let steps = scatter_steps(project_dir, folders, origins, entries, class);
    let front = entries.drop_last();
    let before = scatter_steps(project_dir, folders, origins, front, class);
    let wanted = optional_step(
        OpView::Move(
            entries[k].path,
            joined(home_dir(project_dir, folders, origins, entries[k], class)->0, entries[k].name),
        ),
    );
    if k < entries.len() - 1 {
        assert(front[k] == entries[k]);
        scatter_sends_home(project_dir, folders, origins, front, class, k);
        let at = before.index_of(wanted);
        assert(steps[at] == wanted);
    } else {
        assert(entries.last() == entries[k]);
        assert(steps[steps.len() - 1] == wanted);
    }
}

/// There and back, in steps: under the conditions of the round trip, a
/// picture that lay in the directory of its folder is moved into the
/// unified directory by the first migration, and the second migration,
/// which finds it there, plans the move back to the very path it came
/// from.
pub proof fn round_trip_restores_path(
    project_dir: Seq<char>,
    folders: Seq<Folder>,
    outputs: Seq<FolderOutputView>,
    i: int,
    keep: bool,
    j: int,
    unified_keep: Seq<EntryView>,
    unified_maybe: Seq<EntryView>,
    k: int,
)
    requires
        ids_unique(folders),
        names_unique(folders, outputs),
        picture_at(folders, outputs, i, keep, j),
        listing_of(outputs, i, keep)[j].path == joined(
            output_dir(project_dir, folders[i].source_path@, false, class_dir(keep)),
            listing_of(outputs, i, keep)[j].name,
        ),
        0 <= k < (if keep {
            unified_keep
        } else {
            unified_maybe
        }).len(),
        (if keep {
            unified_keep
        } else {
            unified_maybe
        })[k] == (EntryView {
            name: listing_of(outputs, i, keep)[j].name,
            path: joined(
                joined(project_dir, class_dir(keep)),
                listing_of(outputs, i, keep)[j].name,
            ),
            is_file: true,
        }),
    ensures
        ({
            let end = unifying(
                project_dir,
                folders,
                outputs,
                Seq::empty(),
                Seq::empty(),
                folders.len(),
            );
            let entry = listing_of(outputs, i, keep)[j];
            let there = joined(joined(project_dir, class_dir(keep)), entry.name);
            &&& end.steps.contains(optional_step(OpView::Move(entry.path, there)))
            &&& scattering(
                project_dir,
                folders,
                record_of(end.origins),
                unified_keep,
                unified_maybe,
            ).contains(optional_step(OpView::Move(there, entry.path)))
        }),
{
    let end = unifying(project_dir, folders, outputs, Seq::empty(), Seq::empty(), folders.len());
    let record = record_of(end.origins);
    let entry = listing_of(outputs, i, keep)[j];
    let there = joined(joined(project_dir, class_dir(keep)), entry.name);
    let back = optional_step(OpView::Move(there, entry.path));
    round_trip_brings_pictures_home(project_dir, folders, outputs, i, keep, j);
    let all = scattering(project_dir, folders, record, unified_keep, unified_maybe);
    let from_keep = scatter_steps(project_dir, folders, record, unified_keep, "keep"@);
    let from_maybe = scatter_steps(project_dir, folders, record, unified_maybe, "maybe"@);
    if keep {
        scatter_sends_home(project_dir, folders, record, unified_keep, "keep"@, k);
        let at = from_keep.index_of(back);
        assert(all[at] == back);
    } else {
        scatter_sends_home(project_dir, folders, record, unified_maybe, "maybe"@, k);
        let at = from_maybe.index_of(back);
        assert(all[from_keep.len() + at] == back);
    }
}

/// Whether every picture of a migration into the unified layout finds a
/// free name below the ceiling, folder by folder.
pub open spec fn unifying_below_ceiling(
    project_dir: Seq<char>,
    folders: Seq<Folder>,
    outputs: Seq<FolderOutputView>,
    keep_taken: Seq<Seq<char>>,
    maybe_taken: Seq<Seq<char>>,
    n: nat,
) -> bool
    decreases n,
{
    if n == 0 {
        true
    } else {
        let i = (n - 1) as int;
        let before = unifying(project_dir, folders, outputs, keep_taken, maybe_taken, i as nat);
        &&& unifying_below_ceiling(project_dir, folders, outputs, keep_taken, maybe_taken, i as nat)
        &&& contributes(folders, outputs, i) ==> gathered_below_ceiling(
            before.keep_taken,
            outputs[i].keep,
        ) && gathered_below_ceiling(before.maybe_taken, outputs[i].maybe)
    }
}

/// For each origin that a migration records, whether its picture went
/// into the unified keep directory; the others went into the maybe
/// directory.
pub open spec fn origin_classes(
    project_dir: Seq<char>,
    folders: Seq<Folder>,
    outputs: Seq<FolderOutputView>,
    keep_taken: Seq<Seq<char>>,
    maybe_taken: Seq<Seq<char>>,
    n: nat,
) -> Seq<bool>
    decreases n,
{
    if n == 0 {
        Seq::empty()
    } else {
        let i = (n - 1) as int;
        let before = unifying(project_dir, folders, outputs, keep_taken, maybe_taken, i as nat);
        let kept = folder_keep_gathers(folders, outputs, before.keep_taken, i);
        let maybes = folder_maybe_gathers(folders, outputs, before.maybe_taken, i);
        origin_classes(project_dir, folders, outputs, keep_taken, maybe_taken, i as nat) + Seq::new(
            kept.len(),
            |k: int| true,
        ) + Seq::new(maybes.len(), |k: int| false)
    }
}

/// Below the ceiling, the origins of a migration are told apart by their
/// names within each of the two directories: every origin's name stands in
/// the directory its picture went into, and no two origins of one
/// directory have the same name.
pub proof fn origins_are_told_apart(
    project_dir: Seq<char>,
    folders: Seq<Folder>,
    outputs: Seq<FolderOutputView>,
    keep_taken: Seq<Seq<char>>,
    maybe_taken: Seq<Seq<char>>,
    n: nat,
)
    requires
        unifying_below_ceiling(project_dir, folders, outputs, keep_taken, maybe_taken, n),
    ensures
        ({
            let end = unifying(project_dir, folders, outputs, keep_taken, maybe_taken, n);
            let classes = origin_classes(
                project_dir,
                folders,
                outputs,
                keep_taken,
                maybe_taken,
                n,
            );
            &&& classes.len() == end.origins.len()
            &&& forall|k: int|
                0 <= k < end.origins.len() ==> (if classes[k] {
                    end.keep_taken.contains((#[trigger] end.origins[k]).0)
                } else {
                    end.maybe_taken.contains(end.origins[k].0)
                })
            &&& forall|a: int, b: int|
                0 <= a < b < end.origins.len() && classes[a] == classes[b] ==> (
                #[trigger] end.origins[a]).0 != (#[trigger] end.origins[b]).0
        }),
    decreases n,
{
    if n > 0 {
        let i = (n - 1) as int;
        let before = unifying(project_dir, folders, outputs, keep_taken, maybe_taken, i as nat);
        let end = unifying(project_dir, folders, outputs, keep_taken, maybe_taken, n);
        let old_classes = origin_classes(
            project_dir,
            folders,
            outputs,
            keep_taken,
            maybe_taken,
            i as nat,
        );
        let classes = origin_classes(project_dir, folders, outputs, keep_taken, maybe_taken, n);
        origins_are_told_apart(project_dir, folders, outputs, keep_taken, maybe_taken, i as nat);
        let kept = folder_keep_gathers(folders, outputs, before.keep_taken, i);
        let maybes = folder_maybe_gathers(folders, outputs, before.maybe_taken, i);
        let id = folders[i].id@;
        let keep_origins = gather_origins(kept, id);
        let maybe_origins = gather_origins(maybes, id);
        let b0 = before.origins.len() as int;
        let b1 = b0 + kept.len();
        if contributes(folders, outputs, i) {
            gathered_names_never_collide(before.keep_taken, outputs[i].keep);
            gathered_names_never_collide(before.maybe_taken, outputs[i].maybe);
        }
        assert(end.origins == before.origins + keep_origins + maybe_origins);
        assert(classes.len() == end.origins.len());
        assert forall|k: int| 0 <= k < end.origins.len() implies (if classes[k] {
            end.keep_taken.contains((#[trigger] end.origins[k]).0)
        } else {
            end.maybe_taken.contains(end.origins[k].0)
        }) by {
            let name = end.origins[k].0;
            contains_of_parts(before.keep_taken, gather_names(kept), name);
            contains_of_parts(before.maybe_taken, gather_names(maybes), name);
            if k < b0 {
                assert(end.origins[k] == before.origins[k]);
                assert(classes[k] == old_classes[k]);
            } else if k < b1 {
                assert(end.origins[k] == keep_origins[k - b0]);
                assert(gather_names(kept)[k - b0] == name);
            } else {
                assert(end.origins[k] == maybe_origins[k - b1]);
                assert(gather_names(maybes)[k - b1] == name);
            }
        }
        assert forall|a: int, b: int|
            0 <= a < b < end.origins.len() && classes[a] == classes[b] implies (
        #[trigger] end.origins[a]).0 != (#[trigger] end.origins[b]).0 by {
            if b < b0 {
                assert(end.origins[a] == before.origins[a]);
                assert(end.origins[b] == before.origins[b]);
                assert(classes[a] == old_classes[a] && classes[b] == old_classes[b]);
            } else if b < b1 {
                assert(end.origins[b] == keep_origins[b - b0]);
                assert(gather_names(kept)[b - b0] == end.origins[b].0);
                if a < b0 {
                    assert(end.origins[a] == before.origins[a]);
                    assert(classes[a] == old_classes[a]);
                    assert(before.keep_taken.contains(before.origins[a].0));
                } else {
                    assert(end.origins[a] == keep_origins[a - b0]);
                    assert(gather_names(kept)[a - b0] == end.origins[a].0);
                }
            } else {
                assert(end.origins[b] == maybe_origins[b - b1]);
                assert(gather_names(maybes)[b - b1] == end.origins[b].0);
                if a < b0 {
                    assert(end.origins[a] == before.origins[a]);
                    assert(classes[a] == old_classes[a]);
                    assert(before.maybe_taken.contains(before.origins[a].0));
                } else if a < b1 {
                    assert(classes[a]);
                } else {
                    assert(end.origins[a] == maybe_origins[a - b1]);
                    assert(gather_names(maybes)[a - b1] == end.origins[a].0);
                }
            }
        }
    }
}

/// The record of a migration gives, below the ceiling, every picture the
/// folder it came from: an origin whose name stands in only one of the two
/// unified directories is what the record says of that name.
pub proof fn unified_migration_records_the_source(
    project_dir: Seq<char>,
    folders: Seq<Folder>,
    outputs: Seq<FolderOutputView>,
    keep_taken: Seq<Seq<char>>,
    maybe_taken: Seq<Seq<char>>,
    n: nat,
    k: int,
)
    requires
        unifying_below_ceiling(project_dir, folders, outputs, keep_taken, maybe_taken, n),
        0 <= k < unifying(project_dir, folders, outputs, keep_taken, maybe_taken, n).origins.len(),
        ({
            let end = unifying(project_dir, folders, outputs, keep_taken, maybe_taken, n);
            !(end.keep_taken.contains(end.origins[k].0) && end.maybe_taken.contains(
                end.origins[k].0,
            ))
        }),
    ensures
        ({
            let end = unifying(project_dir, folders, outputs, keep_taken, maybe_taken, n);
            &&& record_of(end.origins).contains_key(end.origins[k].0)
            &&& record_of(end.origins)[end.origins[k].0] == end.origins[k].1
        }),
{
    let end = unifying(project_dir, folders, outputs, keep_taken, maybe_taken, n);
    let classes = origin_classes(project_dir, folders, outputs, keep_taken, maybe_taken, n);
    let name = end.origins[k].0;
    origins_are_told_apart(project_dir, folders, outputs, keep_taken, maybe_taken, n);
    assert(names_pair(end.origins, name));
    assert forall|j: int| 0 <= j < end.origins.len() && (#[trigger] end.origins[j]).0
        == name implies end.origins[j].1 == end.origins[k].1 by {
        if j != k {
            if classes[j] != classes[k] {
                assert(end.keep_taken.contains(name) && end.maybe_taken.contains(name));
            }
        }
    }
    record_value(end.origins, name, end.origins[k].1);
}

/// What a migration has planned and recorded after some folders stays as
/// it is while further folders follow.
pub proof fn unifying_only_grows(
    project_dir: Seq<char>,
    folders: Seq<Folder>,
    outputs: Seq<FolderOutputView>,
    keep_taken: Seq<Seq<char>>,
    maybe_taken: Seq<Seq<char>>,
    m: nat,
    n: nat,
)
    requires
        m <= n,
    ensures
        ({
            let early = unifying(project_dir, folders, outputs, keep_taken, maybe_taken, m);
            let late = unifying(project_dir, folders, outputs, keep_taken, maybe_taken, n);
            &&& early.origins.len() <= late.origins.len()
            &&& early.steps.len() <= late.steps.len()
            &&& forall|k: int|
                0 <= k < early.origins.len() ==> late.origins[k] == #[trigger] early.origins[k]
            &&& forall|k: int| 0 <= k < early.steps.len() ==> late.steps[k] == #[trigger] early.steps[k]
        }),
    decreases n,
{
    if m < n {
        unifying_only_grows(
            project_dir,
            folders,
            outputs,
            keep_taken,
            maybe_taken,
            m,
            (n - 1) as nat,
        );
    }
}

/// A picture that a migration gathers is recorded with its folder: below
/// the ceiling, the picture that the folder at `i` brings as the `j`-th of
/// its class is moved into the unified directory of the class under its
/// new name, and where that name stands in only one of the two unified
/// directories, the record gives the folder's id for it.
pub proof fn gathered_picture_is_recorded_with_its_folder(
    project_dir: Seq<char>,
    folders: Seq<Folder>,
    outputs: Seq<FolderOutputView>,
    keep_taken: Seq<Seq<char>>,
    maybe_taken: Seq<Seq<char>>,
    i: int,
    keep: bool,
    j: int,
)
    requires
        0 <= i < folders.len(),
        unifying_below_ceiling(
            project_dir,
            folders,
            outputs,
            keep_taken,
            maybe_taken,
            folders.len(),
        ),
        ({
            let before = unifying(project_dir, folders, outputs, keep_taken, maybe_taken, i as nat);
            let end = unifying(
                project_dir,
                folders,
                outputs,
                keep_taken,
                maybe_taken,
                folders.len(),
            );
            let brought = if keep {
                folder_keep_gathers(folders, outputs, before.keep_taken, i)
            } else {
                folder_maybe_gathers(folders, outputs, before.maybe_taken, i)
            };
            &&& 0 <= j < brought.len()
            &&& !(end.keep_taken.contains(brought[j].name) && end.maybe_taken.contains(
                brought[j].name,
            ))
        }),
    ensures
        ({
            let before = unifying(project_dir, folders, outputs, keep_taken, maybe_taken, i as nat);
            let end = unifying(
                project_dir,
                folders,
                outputs,
                keep_taken,
                maybe_taken,
                folders.len(),
            );
            let brought = if keep {
                folder_keep_gathers(folders, outputs, before.keep_taken, i)
            } else {
                folder_maybe_gathers(folders, outputs, before.maybe_taken, i)
            };
            &&& end.steps.contains(
                optional_step(
                    OpView::Move(
                        brought[j].source,
                        joined(joined(project_dir, class_dir(keep)), brought[j].name),
                    ),
                ),
            )
            &&& record_of(end.origins).contains_key(brought[j].name)
            &&& record_of(end.origins)[brought[j].name] == folders[i].id@
        }),
{
    let before = unifying(project_dir, folders, outputs, keep_taken, maybe_taken, i as nat);
    let after = unifying(project_dir, folders, outputs, keep_taken, maybe_taken, (i + 1) as nat);
    let end = unifying(project_dir, folders, outputs, keep_taken, maybe_taken, folders.len());
    let kept = folder_keep_gathers(folders, outputs, before.keep_taken, i);
    let maybes = folder_maybe_gathers(folders, outputs, before.maybe_taken, i);
    let id = folders[i].id@;
    let keep_steps = gather_steps(joined(project_dir, "keep"@), kept);
    let maybe_steps = gather_steps(joined(project_dir, "maybe"@), maybes);
    let at = if keep {
        before.origins.len() + j
    } else {
        before.origins.len() + kept.len() + j
    };
    let step_at = if keep {
        before.steps.len() + j
    } else {
        before.steps.len() + kept.len() + j
    };
    let brought = if keep {
        kept
    } else {
        maybes
    };
    assert(after.origins == before.origins + gather_origins(kept, id) + gather_origins(maybes, id));
    assert(after.origins[at] == (brought[j].name, id));
    let wanted = optional_step(
        OpView::Move(
            brought[j].source,
            joined(joined(project_dir, class_dir(keep)), brought[j].name),
        ),
    );
    if keep {
        assert(keep_steps[j] == wanted);
    } else {
        assert(maybe_steps[j] == wanted);
    }
    assert(after.steps[step_at] == wanted);
    unifying_only_grows(
        project_dir,
        folders,
        outputs,
        keep_taken,
        maybe_taken,
        (i + 1) as nat,
        folders.len(),
    );
    assert(end.origins[at] == after.origins[at]);
    assert(end.steps[step_at] == after.steps[step_at]);
    unified_migration_records_the_source(
        project_dir,
        folders,
        outputs,
        keep_taken,
        maybe_taken,
        folders.len(),
        at,
    );
}

} // verus!
