//! The lookup: the first candidate path that the probe reports as a regular
//! file, taking the directories of the search path in order.
use vstd::prelude::*;

use crate::path_list::{
    PathConvention,
    join_path,
    join_spec,
    split_on,
    split_path_list,
    views,
};

verus! {

/// The directories to search: none where the search-path variable is unset,
/// else the segments of its value.
pub open spec fn search_dirs(path_var: Option<Seq<char>>, conv: PathConvention) -> Seq<Seq<char>> {
    match path_var {
        Some(v) => split_on(v, conv.delimiter),
        None => Seq::empty(),
    }
}

/// The candidate paths, one per directory, in search order.
pub open spec fn candidates(path_var: Option<Seq<char>>, name: Seq<char>, conv: PathConvention) -> Seq<Seq<char>> {
    search_dirs(path_var, conv).map_values(|d: Seq<char>| join_spec(d, name, conv))
}

/// The first of `cands` that `regular` holds of, if any.
pub open spec fn first_regular(cands: Seq<Seq<char>>, regular: spec_fn(Seq<char>) -> bool) -> Option<Seq<char>>
    decreases cands.len(),
{
    if cands.len() == 0 {
        None
    } else if regular(cands[0]) {
        Some(cands[0])
    } else {
        first_regular(cands.drop_first(), regular)
    }
}

/// The result of a lookup in a file system in which `regular` holds of
/// exactly the paths that name regular files.
pub open spec fn resolve(
    path_var: Option<Seq<char>>,
    name: Seq<char>,
    conv: PathConvention,
    regular: spec_fn(Seq<char>) -> bool,
) -> Option<Seq<char>> {
    first_regular(candidates(path_var, name, conv), regular)
}

/// The probe, called on a path with the characters `p`, may answer `b`.
pub open spec fn may_answer<F: Fn(&str) -> bool>(probe: F, p: Seq<char>, b: bool) -> bool {
    exists|s: &str| s@ == p && #[trigger] probe.ensures((s,), b)
}

/// Every answer of the probe agrees with `regular`.
pub open spec fn answers_by<F: Fn(&str) -> bool>(probe: F, regular: spec_fn(Seq<char>) -> bool) -> bool {
    forall|s: &str, b: bool| #[trigger] probe.ensures((s,), b) ==> b == regular(s@)
}

/// `found` is an outcome of probing `cands` in order and stopping at the first
/// path reported regular: every earlier path was reported not regular, and
/// without a result every path was.
pub open spec fn probed_outcome<F: Fn(&str) -> bool>(
    cands: Seq<Seq<char>>,
    probe: F,
    found: Option<Seq<char>>,
) -> bool {
    match found {
        Some(p) => exists|i: int|
            #![trigger cands[i]]
            0 <= i < cands.len() && cands[i] == p && may_answer(probe, cands[i], true) && forall|j: int|
                0 <= j < i ==> may_answer(probe, #[trigger] cands[j], false),
        None => forall|j: int| 0 <= j < cands.len() ==> may_answer(probe, #[trigger] cands[j], false),
    }
}

/// Probing with a probe that answers by `regular` can only end in the first
/// path that `regular` holds of.
pub proof fn lemma_probed_outcome_is_first_regular<F: Fn(&str) -> bool>(
    cands: Seq<Seq<char>>,
    probe: F,
    regular: spec_fn(Seq<char>) -> bool,
    found: Option<Seq<char>>,
)
    requires
        answers_by(probe, regular),
        probed_outcome(cands, probe, found),
    ensures
        found == first_regular(cands, regular),
    decreases cands.len(),
{
    if cands.len() > 0 {
        let rest = cands.drop_first();
        match found {
            Some(p) => {
                let i = choose|i: int|
                    #![trigger cands[i]]
                    0 <= i < cands.len() && cands[i] == p && may_answer(probe, cands[i], true) && forall|j: int|
                        0 <= j < i ==> may_answer(probe, #[trigger] cands[j], false);
                if i == 0 {
                    assert(regular(cands[0]));
                } else {
                    assert(may_answer(probe, cands[0], false));
                    assert(!regular(cands[0]));
                    assert(rest[i - 1] == cands[i]);
                    assert forall|j: int| 0 <= j < i - 1 implies may_answer(probe, #[trigger] rest[j], false) by {
                        assert(rest[j] == cands[j + 1]);
                    }
                    lemma_probed_outcome_is_first_regular(rest, probe, regular, found);
                }
            },
            None => {
                assert(may_answer(probe, cands[0], false));
                assert(!regular(cands[0]));
                assert forall|j: int| 0 <= j < rest.len() implies may_answer(probe, #[trigger] rest[j], false) by {
                    assert(rest[j] == cands[j + 1]);
                }
                lemma_probed_outcome_is_first_regular(rest, probe, regular, found);
            },
        }
    }
}

/// The first regular candidate is the one returned, whatever follows it.
pub proof fn lemma_first_regular_at(cands: Seq<Seq<char>>, regular: spec_fn(Seq<char>) -> bool, i: int)
    requires
        0 <= i < cands.len(),
        regular(cands[i]),
        forall|j: int| 0 <= j < i ==> !regular(#[trigger] cands[j]),
    ensures
        first_regular(cands, regular) == Some(cands[i]),
    decreases i,
{
    if i > 0 {
        assert(!regular(cands[0]));
        let rest = cands.drop_first();
        assert forall|j: int| 0 <= j < i - 1 implies !regular(#[trigger] rest[j]) by {
            assert(rest[j] == cands[j + 1]);
        }
        lemma_first_regular_at(rest, regular, i - 1);
    }
}

/// Without a regular candidate there is no result.
pub proof fn lemma_first_regular_none(cands: Seq<Seq<char>>, regular: spec_fn(Seq<char>) -> bool)
    requires
        forall|j: int| 0 <= j < cands.len() ==> !regular(#[trigger] cands[j]),
    ensures
        first_regular(cands, regular) == None::<Seq<char>>,
    decreases cands.len(),
{
    if cands.len() > 0 {
        assert(!regular(cands[0]));
        let rest = cands.drop_first();
        assert forall|j: int| 0 <= j < rest.len() implies !regular(#[trigger] rest[j]) by {
            assert(rest[j] == cands[j + 1]);
        }
        lemma_first_regular_none(rest, regular);
    }
}

/// Taking out a candidate that is not a regular file leaves the result as it
/// was.
pub proof fn lemma_first_regular_skips(cands: Seq<Seq<char>>, regular: spec_fn(Seq<char>) -> bool, i: int)
    requires
        0 <= i < cands.len(),
        !regular(cands[i]),
    ensures
        first_regular(cands, regular) == first_regular(cands.remove(i), regular),
    decreases i,
{
    if i == 0 {
        assert(cands.remove(0) =~= cands.drop_first());
    } else {
        let rest = cands.drop_first();
        assert(cands.remove(i)[0] == cands[0]);
        assert(cands.remove(i).drop_first() =~= rest.remove(i - 1));
        lemma_first_regular_skips(rest, regular, i - 1);
    }
}

/// Where some directory of the search path holds a regular file of the
/// requested name, the result is that name joined to the first such
/// directory, even where later directories hold one too.
pub proof fn lemma_first_directory_wins(
    path_var: Option<Seq<char>>,
    name: Seq<char>,
    conv: PathConvention,
    regular: spec_fn(Seq<char>) -> bool,
    i: int,
)
    requires
        0 <= i < search_dirs(path_var, conv).len(),
        regular(join_spec(search_dirs(path_var, conv)[i], name, conv)),
        forall|j: int|
            0 <= j < i ==> !regular(join_spec(#[trigger] search_dirs(path_var, conv)[j], name, conv)),
    ensures
        resolve(path_var, name, conv, regular) == Some(join_spec(search_dirs(path_var, conv)[i], name, conv)),
{
    let cands = candidates(path_var, name, conv);
    assert forall|j: int| 0 <= j < i implies !regular(#[trigger] cands[j]) by {
        assert(cands[j] == join_spec(search_dirs(path_var, conv)[j], name, conv));
    }
    lemma_first_regular_at(cands, regular, i);
}

/// Where no directory of the search path holds a regular file of the
/// requested name, nothing is found.
pub proof fn lemma_absent_not_found(
    path_var: Option<Seq<char>>,
    name: Seq<char>,
    conv: PathConvention,
    regular: spec_fn(Seq<char>) -> bool,
)
    requires
        forall|j: int|
            0 <= j < search_dirs(path_var, conv).len() ==> !regular(
                join_spec(#[trigger] search_dirs(path_var, conv)[j], name, conv),
            ),
    ensures
        resolve(path_var, name, conv, regular) == None::<Seq<char>>,
{
    let cands = candidates(path_var, name, conv);
    assert forall|j: int| 0 <= j < cands.len() implies !regular(#[trigger] cands[j]) by {
        assert(cands[j] == join_spec(search_dirs(path_var, conv)[j], name, conv));
    }
    lemma_first_regular_none(cands, regular);
}

/// With the search-path variable unset nothing is found, whatever the name.
pub proof fn lemma_unset_not_found(name: Seq<char>, conv: PathConvention, regular: spec_fn(Seq<char>) -> bool)
    ensures
        resolve(None, name, conv, regular) == None::<Seq<char>>,
{
}

/// With the search-path variable set but empty, the one directory searched is
/// the empty one, whose candidate is the bare name: nothing is found unless
/// that names a regular file.
pub proof fn lemma_empty_not_found(name: Seq<char>, conv: PathConvention, regular: spec_fn(Seq<char>) -> bool)
    requires
        !regular(name),
    ensures
        resolve(Some(Seq::empty()), name, conv, regular) == None::<Seq<char>>,
{
    let cands = candidates(Some(Seq::empty()), name, conv);
    assert(split_on(Seq::empty(), conv.delimiter) == seq![Seq::<char>::empty()]);
    assert(cands.len() == 1);
    assert(cands[0] == join_spec(Seq::empty(), name, conv));
    lemma_first_regular_none(cands, regular);
}

/// A candidate that is not a regular file (a directory, say) is never the
/// result: it is passed over as if its directory were not in the search path.
pub proof fn lemma_non_regular_passed_over(
    path_var: Option<Seq<char>>,
    name: Seq<char>,
    conv: PathConvention,
    regular: spec_fn(Seq<char>) -> bool,
    i: int,
)
    requires
        0 <= i < search_dirs(path_var, conv).len(),
        !regular(join_spec(search_dirs(path_var, conv)[i], name, conv)),
    ensures
        resolve(path_var, name, conv, regular) == first_regular(
            candidates(path_var, name, conv).remove(i),
            regular,
        ),
        resolve(path_var, name, conv, regular) != Some(join_spec(search_dirs(path_var, conv)[i], name, conv)),
{
    let cands = candidates(path_var, name, conv);
    lemma_first_regular_skips(cands, regular, i);
    lemma_first_regular_is_regular(cands, regular);
}

/// A result is always a regular candidate.
pub proof fn lemma_first_regular_is_regular(cands: Seq<Seq<char>>, regular: spec_fn(Seq<char>) -> bool)
    ensures
        match first_regular(cands, regular) {
            Some(p) => regular(p) && cands.contains(p),
            None => true,
        },
    decreases cands.len(),
{
    if cands.len() > 0 && !regular(cands[0]) {
        let rest = cands.drop_first();
        lemma_first_regular_is_regular(rest, regular);
        if let Some(p) = first_regular(rest, regular) {
            let k = choose|k: int| 0 <= k < rest.len() && rest[k] == p;
            assert(cands[k + 1] == p);
        }
    }
}

/// Two lookups of the same name under the same search path, whose probes both
/// answer by the same file system, give the same result.
pub proof fn lemma_repeated_lookups_agree<F: Fn(&str) -> bool, G: Fn(&str) -> bool>(
    path_var: Option<Seq<char>>,
    name: Seq<char>,
    conv: PathConvention,
    regular: spec_fn(Seq<char>) -> bool,
    probe1: F,
    probe2: G,
    found1: Option<Seq<char>>,
    found2: Option<Seq<char>>,
)
    requires
        answers_by(probe1, regular),
        answers_by(probe2, regular),
        probed_outcome(candidates(path_var, name, conv), probe1, found1),
        probed_outcome(candidates(path_var, name, conv), probe2, found2),
    ensures
        found1 == found2,
{
    lemma_probed_outcome_is_first_regular(candidates(path_var, name, conv), probe1, regular, found1);
    lemma_probed_outcome_is_first_regular(candidates(path_var, name, conv), probe2, regular, found2);
}

/// Probes `join(dirs[0], name)`, `join(dirs[1], name)`, ... in order and
/// returns the first path that `is_regular_file` reports as a regular file.
/// The probe is called at most once per directory and not again after it
/// has reported a regular file.
pub fn first_regular_in<F: Fn(&str) -> bool>(
    dirs: &Vec<String>,
    name: &str,
    conv: PathConvention,
    is_regular_file: F,
) -> (found: Option<String>)
    requires
        forall|p: &str| is_regular_file.requires((p,)),
    ensures
        probed_outcome(
            views(dirs@).map_values(|d: Seq<char>| join_spec(d, name@, conv)),
            is_regular_file,
            found.deep_view(),
        ),
{
    let ghost cands = views(dirs@).map_values(|d: Seq<char>| join_spec(d, name@, conv));
    let mut i: usize = 0;
    while i < dirs.len()
        invariant
            cands == views(dirs@).map_values(|d: Seq<char>| join_spec(d, name@, conv)),
            i <= dirs@.len(),
            forall|p: &str| is_regular_file.requires((p,)),
            forall|j: int| 0 <= j < i ==> may_answer(is_regular_file, #[trigger] cands[j], false),
        decreases dirs@.len() - i,
    {
        let dir = dirs[i].as_str();
        let path = join_path(dir, name, conv);
        assert(cands[i as int] == path@);
        let path_str = path.as_str();
        let hit = is_regular_file(path_str);
        assert(may_answer(is_regular_file, cands[i as int], hit));
        if hit {
            assert(probed_outcome(cands, is_regular_file, Some(path@)));
            return Some(path);
        }
        i = i + 1;
    }
    None
}

/// Looks for `name` in the directories of `path_var`, the value of the
/// search-path variable (`None` where it is unset), and returns the first
/// candidate path that `is_regular_file` reports as a regular file.
///
/// Whatever the probe answers, the result is an outcome of probing the
/// candidates in order; where its answers follow a fixed file system, the
/// result is the one that file system determines.
pub fn locate<F: Fn(&str) -> bool>(
    path_var: Option<&str>,
    name: &str,
    conv: PathConvention,
    is_regular_file: F,
) -> (found: Option<String>)
    requires
        forall|p: &str| is_regular_file.requires((p,)),
    ensures
        probed_outcome(candidates(path_var.deep_view(), name@, conv), is_regular_file, found.deep_view()),
        forall|regular: spec_fn(Seq<char>) -> bool|
            #[trigger] answers_by(is_regular_file, regular) ==> found.deep_view() == resolve(
                path_var.deep_view(),
                name@,
                conv,
                regular,
            ),
{
    let ghost cands = candidates(path_var.deep_view(), name@, conv);
    let found = match path_var {
        None => None,
        Some(list) => {
            let dirs = split_path_list(list, conv.delimiter);
            assert(path_var.deep_view() == Some(list@));
            assert(cands =~= views(dirs@).map_values(|d: Seq<char>| join_spec(d, name@, conv)));
            first_regular_in(&dirs, name, conv, is_regular_file)
        },
    };
    proof {
        assert forall|regular: spec_fn(Seq<char>) -> bool| #[trigger] answers_by(is_regular_file, regular) implies found.deep_view() == resolve(path_var.deep_view(), name@, conv, regular) by {
            lemma_probed_outcome_is_first_regular(cands, is_regular_file, regular, found.deep_view());
        }
    }
    found
}

} // verus!
