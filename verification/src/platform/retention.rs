//! Which installed releases are kept.

use vstd::prelude::*;
use crate::text::same_text;
use crate::text::starts_with;
use crate::text::texts;

verus! {

/// How many releases are kept.
pub const DEFAULT_RETAINED_RELEASES: usize = 3;

/// The name is that of a directory in which a release is put together.
pub open spec fn staging_name(name: Seq<char>) -> bool {
    ".staging."@.is_prefix_of(name)
}

/// Which of the directories called `names` were left behind by an installation that did
/// not finish.
pub fn remove_stale_staging_dirs(names: &[String]) -> (r: Vec<usize>)
    ensures
        forall|k: int|
            0 <= k < r@.len() ==> 0 <= #[trigger] r@[k] < names@.len() && staging_name(
                names@[r@[k] as int]@,
            ),
        forall|i: int|
            0 <= i < names@.len() && staging_name((#[trigger] names@[i])@) ==> r@.contains(
                i as usize,
            ),
        forall|j: int, k: int| 0 <= j < k < r@.len() ==> r@[j] < r@[k],
{
    let mut out: Vec<usize> = Vec::new();
    let mut i: usize = 0;
    while i < names.len()
        invariant
            i <= names@.len(),
            forall|k: int|
                0 <= k < out@.len() ==> 0 <= #[trigger] out@[k] < i && staging_name(
                    names@[out@[k] as int]@,
                ),
            forall|j: int|
                0 <= j < i && staging_name((#[trigger] names@[j])@) ==> out@.contains(j as usize),
            forall|j: int, k: int| 0 <= j < k < out@.len() ==> out@[j] < out@[k],
        decreases names@.len() - i,
    {
        if starts_with(names[i].as_str(), ".staging.") {
            let ghost before = out@;
            out.push(i);
            proof {
                assert(out@[before.len() as int] == i);
                assert forall|j: int|
                    0 <= j <= i && staging_name((#[trigger] names@[j])@) implies out@.contains(
                    j as usize,
                ) by {
                    if j < i {
                        assert(before.contains(j as usize));
                        let k = choose|k: int| 0 <= k < before.len() && before[k] == j as usize;
                        assert(out@[k] == j as usize);
                    }
                }
            }
        }
        i += 1;
    }
    out
}

/// Something in the directory of releases.
pub struct ReleaseEntry {
    pub path: String,
    /// The path with every link in it followed, where that is possible.
    pub canonical: String,
    pub name: String,
    pub is_dir: bool,
    /// When it was last modified, in nanoseconds, where that is known.
    pub modified: Option<i128>,
}

/// A release that may be removed.
pub struct Release {
    pub path: Seq<char>,
    pub canonical: Seq<char>,
    pub modified: i128,
}

/// The entry as a release, where it is one: a directory whose time is known and in which
/// no release is being put together.
pub open spec fn as_release(entry: ReleaseEntry) -> Option<Release> {
    match entry.modified {
        Some(modified) => if entry.is_dir && !staging_name(entry.name@) {
            Some(Release { path: entry.path@, canonical: entry.canonical@, modified })
        } else {
            None
        },
        None => None,
    }
}

/// The releases among `entries`, in order.
pub open spec fn releases(entries: Seq<ReleaseEntry>) -> Seq<Release>
    decreases entries.len(),
{
    if entries.len() == 0 {
        Seq::empty()
    } else {
        match as_release(entries.last()) {
            Some(release) => releases(entries.drop_last()).push(release),
            None => releases(entries.drop_last()),
        }
    }
}

/// `sorted` with `release` behind every release that is as new.
pub open spec fn inserted(sorted: Seq<Release>, release: Release) -> Seq<Release>
    decreases sorted.len(),
{
    if sorted.len() == 0 || sorted.last().modified >= release.modified {
        sorted.push(release)
    } else {
        inserted(sorted.drop_last(), release).push(sorted.last())
    }
}

/// The releases from the newest to the oldest; those that are as new stay in order.
pub open spec fn newest_first(list: Seq<Release>) -> Seq<Release>
    decreases list.len(),
{
    if list.len() == 0 {
        Seq::empty()
    } else {
        inserted(newest_first(list.drop_last()), list.last())
    }
}

/// Which of the releases in `sorted` are removed: those behind the first `keep`, but not
/// the current one.
pub open spec fn removal(sorted: Seq<Release>, current: Seq<char>, keep: nat) -> Seq<bool> {
    Seq::new(sorted.len(), |i: int| i >= keep && sorted[i].canonical != current)
}

/// The paths of the releases in `sorted` that are marked, in order.
pub open spec fn marked_paths(sorted: Seq<Release>, marks: Seq<bool>) -> Seq<Seq<char>>
    decreases sorted.len(),
{
    if sorted.len() == 0 {
        Seq::empty()
    } else {
        let front = marked_paths(sorted.drop_last(), marks.drop_last());
        if marks.last() {
            front.push(sorted.last().path)
        } else {
            front
        }
    }
}

/// What is removed, so that besides the current release only the `keep` newest stay.
/// Nothing, where none are to be kept.
pub open spec fn pruned(entries: Seq<ReleaseEntry>, current: Seq<char>, keep: nat) -> Seq<
    Seq<char>,
> {
    if keep == 0 {
        Seq::empty()
    } else {
        let sorted = newest_first(releases(entries));
        marked_paths(sorted, removal(sorted, current, keep))
    }
}

/// A release in a list that is being sorted.
struct Candidate {
    path: String,
    canonical: String,
    modified: i128,
}

impl Candidate {
    spec fn view(&self) -> Release {
        Release { path: self.path@, canonical: self.canonical@, modified: self.modified }
    }
}

spec fn candidates(list: Seq<Candidate>) -> Seq<Release> {
    list.map_values(|c: Candidate| c@)
}

fn insert_candidate(sorted: &mut Vec<Candidate>, candidate: Candidate)
    ensures
        candidates(final(sorted)@) == inserted(candidates(old(sorted)@), candidate@),
{
    let ghost before = candidates(sorted@);
    let mut place: usize = sorted.len();
    assert(before.take(place as int) =~= before);
    assert(inserted(before, candidate@) =~= inserted(before, candidate@) + before.skip(
        place as int,
    ));
    while place > 0 && sorted[place - 1].modified < candidate.modified
        invariant
            place <= sorted@.len(),
            before == candidates(sorted@),
            inserted(before, candidate@) == inserted(before.take(place as int), candidate@)
                + before.skip(place as int),
        decreases place,
    {
        proof {
            let front = before.take(place as int);
            assert(front.last() == before[place - 1]);
            assert(before[place - 1] == sorted@[place - 1]@);
            assert(front.drop_last() =~= before.take(place - 1));
            assert(inserted(front, candidate@) == inserted(
                before.take(place - 1),
                candidate@,
            ).push(before[place - 1]));
            assert(inserted(before.take(place - 1), candidate@).push(before[place - 1])
                + before.skip(place as int) =~= inserted(before.take(place - 1), candidate@)
                + before.skip(place - 1));
        }
        place -= 1;
    }
    proof {
        let front = before.take(place as int);
        if place > 0 {
            assert(front.last() == before[place - 1]);
            assert(before[place - 1] == sorted@[place - 1]@);
        }
        assert(inserted(front, candidate@) == front.push(candidate@));
    }
    sorted.insert(place, candidate);
    assert(candidates(sorted@) =~= before.take(place as int).push(candidate@) + before.skip(
        place as int,
    ));
}

/// What to remove from the directory of releases, so that besides the current release
/// only the `keep` newest stay.
pub fn prune_old_releases(entries: &[ReleaseEntry], current: &str, keep: usize) -> (r: Vec<String>)
    ensures
        texts(r@) == pruned(entries@, current@, keep as nat),
{
    let mut out: Vec<String> = Vec::new();
    if keep == 0 {
        assert(texts(out@) =~= Seq::<Seq<char>>::empty());
        return out;
    }
    let mut sorted: Vec<Candidate> = Vec::new();
    let mut i: usize = 0;
    assert(entries@.take(0) =~= Seq::<ReleaseEntry>::empty());
    assert(candidates(sorted@) =~= Seq::<Release>::empty());
    while i < entries.len()
        invariant
            i <= entries@.len(),
            candidates(sorted@) == newest_first(releases(entries@.take(i as int))),
        decreases entries@.len() - i,
    {
        proof {
            let list = releases(entries@.take(i + 1));
            let prior = releases(entries@.take(i as int));
            assert(entries@.take(i + 1).drop_last() =~= entries@.take(i as int));
            assert(entries@.take(i + 1).last() == entries@[i as int]);
            if let Some(release) = as_release(entries@[i as int]) {
                assert(list == prior.push(release));
                assert(list.drop_last() =~= prior);
            }
        }
        let entry = &entries[i];
        if entry.is_dir && !starts_with(entry.name.as_str(), ".staging.") {
            if let Some(modified) = entry.modified {
                let candidate = Candidate {
                    path: entry.path.clone(),
                    canonical: entry.canonical.clone(),
                    modified,
                };
                insert_candidate(&mut sorted, candidate);
            }
        }
        i += 1;
    }
    assert(entries@.take(i as int) =~= entries@);
    let ghost all = candidates(sorted@);
    let ghost marks = removal(all, current@, keep as nat);
    let mut kept: usize = 0;
    let mut k: usize = 0;
    assert(all.take(0) =~= Seq::<Release>::empty());
    assert(texts(out@) =~= Seq::<Seq<char>>::empty());
    while k < sorted.len()
        invariant
            k <= sorted@.len(),
            kept <= k,
            kept < keep ==> kept == k,
            k <= keep ==> kept == k,
            all == candidates(sorted@),
            marks == removal(all, current@, keep as nat),
            texts(out@) == marked_paths(all.take(k as int), marks.take(k as int)),
        decreases sorted@.len() - k,
    {
        let ghost before = texts(out@);
        proof {
            assert(all[k as int] == sorted@[k as int]@);
            assert(all.take(k + 1).drop_last() =~= all.take(k as int));
            assert(marks.take(k + 1).drop_last() =~= marks.take(k as int));
            assert(all.take(k + 1).last() == all[k as int]);
            assert(marks.take(k + 1).last() == marks[k as int]);
        }
        if same_text(sorted[k].canonical.as_str(), current) || kept < keep {
            kept += 1;
        } else {
            out.push(sorted[k].path.clone());
            assert(texts(out@) =~= before.push(sorted@[k as int].path@));
        }
        k += 1;
    }
    assert(all.take(k as int) =~= all);
    assert(marks.take(k as int) =~= marks);
    out
}

// ---------------------------------------------------------------------------
// Laws
// ---------------------------------------------------------------------------

/// A release is removed exactly when it is neither the current one nor one of the `keep`
/// newest.
pub proof fn law_current_and_newest_releases_stay(
    sorted: Seq<Release>,
    current: Seq<char>,
    keep: nat,
)
    ensures
        removal(sorted, current, keep).len() == sorted.len(),
        forall|i: int|
            0 <= i < sorted.len() ==> (#[trigger] removal(sorted, current, keep)[i] <==> (i >= keep
                && sorted[i].canonical != current)),
{
}

proof fn lemma_marked_paths(sorted: Seq<Release>, marks: Seq<bool>, k: int)
    requires
        marks.len() == sorted.len(),
        0 <= k < marked_paths(sorted, marks).len(),
    ensures
        exists|i: int|
            0 <= i < sorted.len() && #[trigger] marks[i] && sorted[i].path == marked_paths(
                sorted,
                marks,
            )[k],
    decreases sorted.len(),
{
    if sorted.len() > 0 {
        let front = marked_paths(sorted.drop_last(), marks.drop_last());
        if k < front.len() {
            lemma_marked_paths(sorted.drop_last(), marks.drop_last(), k);
            let i = choose|i: int|
                0 <= i < sorted.drop_last().len() && #[trigger] marks.drop_last()[i]
                    && sorted.drop_last()[i].path == front[k];
            assert(marks[i] && sorted[i].path == front[k]);
        } else {
            assert(marks[sorted.len() - 1]);
        }
    }
}

/// Whatever is removed is a release other than the current one, and at least `keep`
/// releases that stay are as new.
pub proof fn law_only_old_releases_are_removed(
    entries: Seq<ReleaseEntry>,
    current: Seq<char>,
    keep: nat,
    k: int,
)
    requires
        0 <= k < pruned(entries, current, keep).len(),
    ensures
        ({
            let sorted = newest_first(releases(entries));
            exists|i: int| #![trigger sorted[i]]
                {
                    &&& keep <= i < sorted.len()
                    &&& sorted[i].path == pruned(entries, current, keep)[k]
                    &&& sorted[i].canonical != current
                    &&& forall|j: int| #![trigger sorted[j]]
                        0 <= j < keep ==> sorted[j].modified >= sorted[i].modified && !removal(
                            sorted,
                            current,
                            keep,
                        )[j]
                }
        }),
{
    let sorted = newest_first(releases(entries));
    let marks = removal(sorted, current, keep);
    law_current_and_newest_releases_stay(sorted, current, keep);
    law_releases_are_sorted_by_age(releases(entries));
    lemma_marked_paths(sorted, marks, k);
    let i = choose|i: int|
        0 <= i < sorted.len() && #[trigger] marks[i] && sorted[i].path == marked_paths(
            sorted,
            marks,
        )[k];
    assert(marks[i]);
    assert(i >= keep);
    assert forall|j: int| #![trigger sorted[j]] 0 <= j < keep implies sorted[j].modified
        >= sorted[i].modified && !removal(sorted, current, keep)[j] by {
        if removal(sorted, current, keep)[j] {
            assert(j >= keep);
        }
    }
    assert(sorted[i].path == pruned(entries, current, keep)[k]);
}

/// Pruning keeps order by age: the list goes from the newest release to the oldest, and
/// holds the same releases as before.
pub proof fn law_releases_are_sorted_by_age(list: Seq<Release>)
    ensures
        newest_first(list).to_multiset() == list.to_multiset(),
        forall|i: int, j: int|
            0 <= i < j < newest_first(list).len() ==> newest_first(list)[i].modified
                >= newest_first(list)[j].modified,
    decreases list.len(),
{
    if list.len() > 0 {
        let front = list.drop_last();
        law_releases_are_sorted_by_age(front);
        lemma_inserted(newest_first(front), list.last());
        assert(list =~= front.push(list.last()));
        front.to_multiset_ensures();
        assert(list.to_multiset() =~= front.to_multiset().insert(list.last()));
    } else {
        assert(newest_first(list) =~= list);
    }
}

proof fn lemma_inserted(sorted: Seq<Release>, release: Release)
    requires
        forall|i: int, j: int|
            0 <= i < j < sorted.len() ==> sorted[i].modified >= sorted[j].modified,
    ensures
        inserted(sorted, release).len() == sorted.len() + 1,
        inserted(sorted, release).to_multiset() == sorted.to_multiset().insert(release),
        forall|i: int, j: int|
            0 <= i < j < inserted(sorted, release).len() ==> inserted(sorted, release)[i].modified
                >= inserted(sorted, release)[j].modified,
        forall|i: int|
            0 <= i < inserted(sorted, release).len() ==> inserted(sorted, release)[i].modified
                >= release.modified || (sorted.len() > 0 && inserted(sorted, release)[i].modified
                >= sorted.last().modified),
    decreases sorted.len(),
{
    if sorted.len() == 0 || sorted.last().modified >= release.modified {
        sorted.to_multiset_ensures();
    } else {
        let front = sorted.drop_last();
        lemma_inserted(front, release);
        let part = inserted(front, release);
        part.to_multiset_ensures();
        front.to_multiset_ensures();
        assert(sorted =~= front.push(sorted.last()));
        assert(sorted.to_multiset() =~= front.to_multiset().insert(sorted.last()));
        assert(inserted(sorted, release).to_multiset() =~= sorted.to_multiset().insert(release));
        assert forall|i: int| 0 <= i < part.len() implies (#[trigger] part[i]).modified
            >= sorted.last().modified by {
            if front.len() > 0 {
                assert(front.last() == sorted[sorted.len() - 2]);
            }
        }
    }
}

/// A release is a directory whose time is known and that is not called like one in which a
/// release is being put together; it is known by the path, the followed path and the time
/// of its entry.
pub proof fn law_finished_releases_are_considered(entry: ReleaseEntry)
    ensures
        as_release(entry) is Some <==> entry.is_dir && entry.modified is Some && !(
        seq!['.', 's', 't', 'a', 'g', 'i', 'n', 'g', '.'].is_prefix_of(entry.name@)),
        as_release(entry) matches Some(release) ==> release.path == entry.path@
            && release.canonical == entry.canonical@ && entry.modified == Some(release.modified),
{
    reveal_strlit(".staging.");
    assert(".staging."@ =~= seq!['.', 's', 't', 'a', 'g', 'i', 'n', 'g', '.']);
}

/// Every release among the entries is considered, in the order of the entries, and nothing
/// else is.
pub proof fn law_every_release_is_considered(entries: Seq<ReleaseEntry>)
    ensures
        forall|i: int|
            0 <= i < entries.len() && as_release(#[trigger] entries[i]) is Some ==> releases(
                entries,
            ).contains(as_release(entries[i])->0),
        forall|k: int|
            0 <= k < releases(entries).len() ==> exists|i: int|
                0 <= i < entries.len() && as_release(#[trigger] entries[i]) == Some(
                    #[trigger] releases(entries)[k],
                ),
        releases(entries).len() <= entries.len(),
    decreases entries.len(),
{
    if entries.len() > 0 {
        let front = entries.drop_last();
        law_every_release_is_considered(front);
        let all = releases(entries);
        let before = releases(front);
        assert forall|i: int|
            0 <= i < entries.len() && as_release(#[trigger] entries[i]) is Some implies all.contains(
            as_release(entries[i])->0,
        ) by {
            if i < front.len() {
                assert(front[i] == entries[i]);
                let k = choose|k: int|
                    0 <= k < before.len() && before[k] == as_release(front[i])->0;
                assert(all[k] == before[k]);
            } else {
                assert(all[all.len() - 1] == as_release(entries[i])->0);
            }
        }
        assert forall|k: int| 0 <= k < all.len() implies exists|i: int|
            0 <= i < entries.len() && as_release(#[trigger] entries[i]) == Some(
                #[trigger] all[k],
            ) by {
            if k < before.len() {
                let i = choose|i: int|
                    0 <= i < front.len() && as_release(#[trigger] front[i]) == Some(before[k]);
                assert(as_release(entries[i]) == Some(all[k]));
            } else {
                assert(as_release(entries[entries.len() - 1]) == Some(all[k]));
            }
        }
    }
}

/// Every release that is neither current nor one of the newest goes: where any are to be
/// kept, its path is among those that are removed.
pub proof fn law_old_releases_are_removed(
    entries: Seq<ReleaseEntry>,
    current: Seq<char>,
    keep: nat,
    i: int,
)
    requires
        0 < keep <= i < newest_first(releases(entries)).len(),
        newest_first(releases(entries))[i].canonical != current,
    ensures
        pruned(entries, current, keep).contains(newest_first(releases(entries))[i].path),
{
    let sorted = newest_first(releases(entries));
    let marks = removal(sorted, current, keep);
    law_current_and_newest_releases_stay(sorted, current, keep);
    assert(marks[i]);
    lemma_marked_path_is_listed(sorted, marks, i);
}

proof fn lemma_marked_path_is_listed(sorted: Seq<Release>, marks: Seq<bool>, i: int)
    requires
        marks.len() == sorted.len(),
        0 <= i < sorted.len(),
        marks[i],
    ensures
        marked_paths(sorted, marks).contains(sorted[i].path),
    decreases sorted.len(),
{
    let front = marked_paths(sorted.drop_last(), marks.drop_last());
    let all = marked_paths(sorted, marks);
    if i < sorted.len() - 1 {
        lemma_marked_path_is_listed(sorted.drop_last(), marks.drop_last(), i);
        let k = choose|k: int| 0 <= k < front.len() && front[k] == sorted.drop_last()[i].path;
        assert(all[k] == front[k]);
    } else {
        assert(all[all.len() - 1] == sorted[i].path);
    }
}

/// Nothing is removed where none are to be kept, and nothing where there are no more
/// releases than are kept.
pub proof fn law_few_releases_all_stay(entries: Seq<ReleaseEntry>, current: Seq<char>, keep: nat)
    requires
        keep == 0 || releases(entries).len() <= keep,
    ensures
        pruned(entries, current, keep).len() == 0,
{
    if keep > 0 && pruned(entries, current, keep).len() > 0 {
        law_only_old_releases_are_removed(entries, current, keep, 0);
        law_releases_are_sorted_by_age(releases(entries));
        releases(entries).to_multiset_ensures();
        newest_first(releases(entries)).to_multiset_ensures();
    }
}

/// Releases of the same age stay in the order in which they were found.
pub proof fn law_releases_of_one_age_stay_in_order(list: Seq<Release>, modified: i128)
    ensures
        newest_first(list).filter(|r: Release| r.modified == modified) == list.filter(
            |r: Release| r.modified == modified,
        ),
    decreases list.len(),
{
    let same = |r: Release| r.modified == modified;
    reveal(Seq::filter);
    if list.len() > 0 {
        let front = list.drop_last();
        law_releases_of_one_age_stay_in_order(front, modified);
        law_releases_are_sorted_by_age(front);
        lemma_inserted_behind_its_age(newest_first(front), list.last(), modified);
    } else {
        assert(newest_first(list) =~= list);
    }
}

proof fn lemma_inserted_behind_its_age(sorted: Seq<Release>, release: Release, modified: i128)
    requires
        forall|i: int, j: int|
            0 <= i < j < sorted.len() ==> sorted[i].modified >= sorted[j].modified,
    ensures
        inserted(sorted, release).filter(|r: Release| r.modified == modified) == (
        if release.modified == modified {
            sorted.filter(|r: Release| r.modified == modified).push(release)
        } else {
            sorted.filter(|r: Release| r.modified == modified)
        }),
    decreases sorted.len(),
{
    let same = |r: Release| r.modified == modified;
    reveal(Seq::filter);
    if sorted.len() == 0 || sorted.last().modified >= release.modified {
        assert(sorted.push(release).drop_last() =~= sorted);
    } else {
        let front = sorted.drop_last();
        lemma_inserted_behind_its_age(front, release, modified);
        let part = inserted(front, release);
        assert(part.push(sorted.last()).drop_last() =~= part);
        if release.modified == modified {
            assert(!same(sorted.last()));
        }
    }
}

/// What is removed is listed from the newest release to the oldest, each once; and the
/// releases among the entries are taken in the order of the entries, each once.
pub proof fn law_releases_are_taken_in_order(
    entries: Seq<ReleaseEntry>,
    entry: ReleaseEntry,
    sorted: Seq<Release>,
    marks: Seq<bool>,
    release: Release,
    mark: bool,
)
    requires
        marks.len() == sorted.len(),
    ensures
        releases(entries.push(entry)) == match as_release(entry) {
            Some(found) => releases(entries).push(found),
            None => releases(entries),
        },
        releases(Seq::<ReleaseEntry>::empty()) == Seq::<Release>::empty(),
        marked_paths(sorted.push(release), marks.push(mark)) == if mark {
            marked_paths(sorted, marks).push(release.path)
        } else {
            marked_paths(sorted, marks)
        },
        marked_paths(Seq::<Release>::empty(), Seq::<bool>::empty()) == Seq::<Seq<char>>::empty(),
{
    assert(entries.push(entry).drop_last() =~= entries);
    assert(sorted.push(release).drop_last() =~= sorted);
    assert(marks.push(mark).drop_last() =~= marks);
}

} // verus!
