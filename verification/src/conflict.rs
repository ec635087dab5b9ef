//! Names for files that land in a shared directory: a name that is taken
//! gets a counter between stem and extension, the first one that is free.
use vstd::prelude::*;
use vstd::string::*;
use crate::paths::{extension_of, file_name_of, path_component, split_extension, stem_of};
use crate::text::{
    append_left_cancel, append_right_cancel, decimal, decimal_digits, decimal_digits_injective,
    decimal_digits_nonempty, opt_text, same_text, texts,
};

verus! {

/// The highest counter that is tried; the name with this counter is handed
/// out without a look at the directory.
pub const PROBE_CEILING: u32 = 1000;

/// The stem that counters are attached to: that of the name's final
/// component, or the whole name where it has none.
pub open spec fn conflict_stem(original: Seq<char>) -> Seq<char> {
    match file_name_of(original) {
        Some(name) => stem_of(name),
        None => original,
    }
}

/// The extension that follows the counter; empty where the name has none.
pub open spec fn conflict_extension(original: Seq<char>) -> Seq<char> {
    match file_name_of(original) {
        Some(name) => match extension_of(name) {
            Some(ext) => ext,
            None => Seq::empty(),
        },
        None => Seq::empty(),
    }
}

/// The name with counter `n`: `stem_n`, or `stem_n.ext` where there is an
/// extension.
pub open spec fn candidate_name(stem: Seq<char>, ext: Seq<char>, n: nat) -> Seq<char> {
    if ext.len() == 0 {
        stem + seq!['_'] + decimal_digits(n)
    } else {
        stem + seq!['_'] + decimal_digits(n) + seq!['.'] + ext
    }
}

/// The first counter from `n` on whose name is free in `taken`, or the
/// ceiling where none below it is.
pub open spec fn first_free(taken: Seq<Seq<char>>, stem: Seq<char>, ext: Seq<char>, n: nat) -> nat
    decreases PROBE_CEILING - n,
{
    if n >= PROBE_CEILING {
        PROBE_CEILING as nat
    } else if !taken.contains(candidate_name(stem, ext, n)) {
        n
    } else {
        first_free(taken, stem, ext, n + 1)
    }
}

/// The name a file gets among `taken`, for a given stem and extension: its
/// own where that is free, else the one with the first free counter.
pub open spec fn resolved_with(
    taken: Seq<Seq<char>>,
    original: Seq<char>,
    stem: Seq<char>,
    ext: Seq<char>,
) -> Seq<char> {
    if !taken.contains(original) {
        original
    } else {
        candidate_name(stem, ext, first_free(taken, stem, ext, 1))
    }
}

/// The name a file called `original` gets in a directory that holds the
/// names `taken`.
pub open spec fn resolved_name(taken: Seq<Seq<char>>, original: Seq<char>) -> Seq<char> {
    resolved_with(taken, original, conflict_stem(original), conflict_extension(original))
}

/// Whether a name stands in a list of names.
pub fn contains_text(names: &Vec<String>, name: &str) -> (found: bool)
    ensures
        found == texts(names@).contains(name@),
{
    let mut i: usize = 0;
    while i < names.len()
        invariant
            i <= names.len(),
            forall|k: int| 0 <= k < i ==> texts(names@)[k] != name@,
        decreases names.len() - i,
    {
        if same_text(names[i].as_str(), name) {
            assert(texts(names@)[i as int] == name@);
            return true;
        }
        i += 1;
    }
    false
}

/// Whether the name at `i` occurs before `i` in the list.
pub fn contains_text_before(names: &Vec<String>, i: usize) -> (seen: bool)
    requires
        i < names.len(),
    ensures
        seen == texts(names@).take(i as int).contains(texts(names@)[i as int]),
{
    let ghost all = texts(names@);
    let mut j: usize = 0;
    while j < i
        invariant
            j <= i,
            i < names.len(),
            all == texts(names@),
            forall|k: int| 0 <= k < j ==> all[k] != all[i as int],
        decreases i - j,
    {
        if same_text(names[j].as_str(), names[i].as_str()) {
            assert(all.take(i as int)[j as int] == all[i as int]);
            return true;
        }
        j += 1;
    }
    proof {
        if all.take(i as int).contains(all[i as int]) {
            let k = all.take(i as int).index_of(all[i as int]);
            assert(all[k] == all[i as int]);
        }
    }
    false
}

/// Builds the name with counter `n`.
pub fn candidate(stem: &str, ext: &str, n: u32) -> (name: String)
    ensures
        name@ == candidate_name(stem@, ext@, n as nat),
{
    proof {
        reveal_strlit("_");
        reveal_strlit(".");
        assert("_"@ =~= seq!['_']);
        assert("."@ =~= seq!['.']);
    }
    let mut name = String::from_str(stem);
    name.append("_");
    let digits = decimal(n);
    name.append(digits.as_str());
    if ext.unicode_len() > 0 {
        name.append(".");
        name.append(ext);
    }
    name
}

/// Picks the name for a file among `existing`, with the stem and extension
/// that counters are built around handed in.
pub fn resolve_with_parts(existing: &Vec<String>, original_name: &str, stem: &str, ext: &str) -> (name:
    String)
    ensures
        name@ == resolved_with(texts(existing@), original_name@, stem@, ext@),
{
    if !contains_text(existing, original_name) {
        return String::from_str(original_name);
    }
    let ghost taken = texts(existing@);
    let mut n: u32 = 1;
    while n < PROBE_CEILING
        invariant
            1 <= n <= PROBE_CEILING,
            taken == texts(existing@),
            taken.contains(original_name@),
            first_free(taken, stem@, ext@, 1) == first_free(taken, stem@, ext@, n as nat),
        decreases PROBE_CEILING - n,
    {
        let name = candidate(stem, ext, n);
        if !contains_text(existing, name.as_str()) {
            return name;
        }
        n += 1;
    }
    candidate(stem, ext, PROBE_CEILING)
}

/// The stem and extension that counters for `original_name` are built
/// around, from the final component that was read off it.
pub fn conflict_parts(original_name: &str, component: Option<String>) -> (parts: (String, String))
    ensures
        parts.0@ == match opt_text(component) {
            Some(name) => stem_of(name),
            None => original_name@,
        },
        parts.1@ == match opt_text(component) {
            Some(name) => match extension_of(name) {
                Some(ext) => ext,
                None => Seq::empty(),
            },
            None => Seq::empty(),
        },
{
    match component {
        Some(name) => {
            let (stem, ext) = split_extension(name.as_str());
            match ext {
                Some(e) => (stem, e),
                None => (stem, String::new()),
            }
        },
        None => (String::from_str(original_name), String::new()),
    }
}

/// Picks the name under which a file called `original_name` can be put
/// into a directory that holds the names in `existing`: its own name where
/// that is free, else `stem_1.ext`, `stem_2.ext`, and so on, the first that
/// is free. After 999 taken candidates the one with counter 1000 is handed
/// out unseen.
pub fn resolve_filename_conflict(existing: &Vec<String>, original_name: &str) -> (name: String)
    ensures
        name@ == resolved_name(texts(existing@), original_name@),
{
    let (stem, ext) = conflict_parts(original_name, path_component(original_name));
    resolve_with_parts(existing, original_name, stem.as_str(), ext.as_str())
}

/// Whether some name is still free below the ceiling: the name itself or one
/// of the candidates with a counter under 1000.
pub open spec fn below_ceiling(taken: Seq<Seq<char>>, original: Seq<char>, stem: Seq<char>, ext: Seq<char>) -> bool {
    !taken.contains(original) || first_free(taken, stem, ext, 1) < PROBE_CEILING
}

/// The first free counter lies between where the search began and the
/// ceiling; below the ceiling its name is free, and every counter before
/// it is taken.
pub proof fn first_free_is_first(taken: Seq<Seq<char>>, stem: Seq<char>, ext: Seq<char>, n: nat)
    requires
        n <= PROBE_CEILING,
    ensures
        n <= first_free(taken, stem, ext, n) <= PROBE_CEILING,
        first_free(taken, stem, ext, n) < PROBE_CEILING ==> !taken.contains(
            candidate_name(stem, ext, first_free(taken, stem, ext, n)),
        ),
        forall|j: nat|
            n <= j < first_free(taken, stem, ext, n) ==> taken.contains(
                #[trigger] candidate_name(stem, ext, j),
            ),
    decreases PROBE_CEILING - n,
{
    if n < PROBE_CEILING && taken.contains(candidate_name(stem, ext, n)) {
        first_free_is_first(taken, stem, ext, n + 1);
    }
}

/// Collision-free below the ceiling: the name that is handed out is not
/// among the names that are taken.
pub proof fn resolved_name_is_free(taken: Seq<Seq<char>>, original: Seq<char>)
    requires
        below_ceiling(taken, original, conflict_stem(original), conflict_extension(original)),
    ensures
        !taken.contains(resolved_name(taken, original)),
{
    first_free_is_first(taken, conflict_stem(original), conflict_extension(original), 1);
}

/// Different counters give different names.
pub proof fn candidates_are_distinct(stem: Seq<char>, ext: Seq<char>, i: nat, j: nat)
    requires
        i != j,
    ensures
        candidate_name(stem, ext, i) != candidate_name(stem, ext, j),
{
    if candidate_name(stem, ext, i) == candidate_name(stem, ext, j) {
        let head = stem + seq!['_'];
        let di = decimal_digits(i);
        let dj = decimal_digits(j);
        if ext.len() == 0 {
            append_left_cancel(head, di, dj);
        } else {
            let tail = seq!['.'] + ext;
            assert(candidate_name(stem, ext, i) =~= (head + di) + tail);
            assert(candidate_name(stem, ext, j) =~= (head + dj) + tail);
            append_right_cancel(head + di, head + dj, tail);
            append_left_cancel(head, di, dj);
        }
        decimal_digits_injective(i, j);
    }
}

/// A name with a counter is longer than the file name it was made from.
pub proof fn candidate_is_longer(name: Seq<char>, n: nat)
    ensures
        candidate_name(
            stem_of(name),
            match extension_of(name) {
                Some(ext) => ext,
                None => Seq::empty(),
            },
            n,
        ).len() > name.len(),
{
    decimal_digits_nonempty(n);
    crate::paths::last_dot_is_last(name);
}

/// Determinism: the name depends on the names that are taken, not on the
/// order in which the directory lists them.
pub proof fn resolved_name_ignores_order(a: Seq<Seq<char>>, b: Seq<Seq<char>>, original: Seq<char>)
    requires
        forall|s: Seq<char>| a.contains(s) <==> b.contains(s),
    ensures
        resolved_name(a, original) == resolved_name(b, original),
{
    first_free_ignores_order(a, b, conflict_stem(original), conflict_extension(original), 1);
}

proof fn first_free_ignores_order(a: Seq<Seq<char>>, b: Seq<Seq<char>>, stem: Seq<char>, ext: Seq<char>, n: nat)
    requires
        forall|s: Seq<char>| a.contains(s) <==> b.contains(s),
    ensures
        first_free(a, stem, ext, n) == first_free(b, stem, ext, n),
    decreases PROBE_CEILING - n,
{
    if n < PROBE_CEILING && a.contains(candidate_name(stem, ext, n)) {
        first_free_ignores_order(a, b, stem, ext, n + 1);
    }
}

} // verus!
