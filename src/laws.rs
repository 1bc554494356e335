//! What holds of whole runs of a session, against a model of the
//! surroundings: the files of the directory, the mapping handles alive, and
//! which mappings cannot be made and which files cannot be removed.
use vstd::prelude::*;

use crate::path::joined;
use crate::session::{
    bridge_start, cleanup_start, next, pending, Action, Event, Failure, Phase, Removal, State,
};

verus! {

/// The surroundings of a session.
pub struct World {
    /// The paths of the files that exist.
    pub disk: Set<Seq<char>>,
    /// How many mapping handles are alive.
    pub live: nat,
    /// The positions whose mapping was ever created.
    pub created: Set<nat>,
    /// The paths whose file cannot be opened.
    pub unopenable: Set<Seq<char>>,
    /// The positions whose mapping cannot be created.
    pub unmappable: Set<nat>,
    /// The paths whose file cannot be removed.
    pub unremovable: Set<Seq<char>>,
}

/// The path of the backing file of each name in `dir`.
pub open spec fn backing_paths(dir: Seq<char>, names: Seq<Seq<char>>) -> Seq<Seq<char>> {
    Seq::new(names.len(), |i: int| joined(dir, names[i]))
}

/// How the surroundings carry out action `a`, and what they answer.
pub open spec fn answer(w: World, paths: Seq<Seq<char>>, a: Action) -> (World, Event) {
    match a {
        Action::OpenBacking { index } => if w.unopenable.contains(paths[index as int]) {
            (w, Event::OpenFailed)
        } else {
            (World { disk: w.disk.insert(paths[index as int]), ..w }, Event::Opened)
        },
        Action::CreateMapping { index } => if w.unmappable.contains(index as nat) {
            (w, Event::MappingFailed)
        } else {
            (
                World { live: w.live + 1, created: w.created.insert(index as nat), ..w },
                Event::MappingCreated,
            )
        },
        Action::Release { count } => (World { live: (w.live - count) as nat, ..w }, Event::Released),
        Action::Suspend => (w, Event::Interrupted),
        Action::Probe { index } => (
            w,
            if w.disk.contains(paths[index as int]) {
                Event::Present
            } else {
                Event::Absent
            },
        ),
        Action::Remove { index } => if w.unremovable.contains(paths[index as int]) {
            (w, Event::RemoveFailed)
        } else {
            (World { disk: w.disk.remove(paths[index as int]), ..w }, Event::Removed)
        },
        Action::Finish | Action::Idle => (w, Event::Released),
    }
}

/// A session in state `s` run against `w` for at most `fuel` actions, or
/// until it exits.
pub open spec fn drive(s: State, w: World, paths: Seq<Seq<char>>, fuel: nat) -> (State, World)
    decreases fuel,
{
    if fuel == 0 || s.phase == Phase::Exited {
        (s, w)
    } else {
        let (w2, e) = answer(w, paths, pending(s));
        drive(next(s, e).0, w2, paths, (fuel - 1) as nat)
    }
}

/// Where startup stands once the mappings before `m` are made.
pub open spec fn started_to(s: State, m: nat) -> State {
    if m < s.count {
        State { phase: Phase::Opening, pos: m, held: m, ..s }
    } else {
        State { phase: Phase::Running, pos: m, held: m, ..s }
    }
}

/// Startup from position `s.pos` up to `m`, where every mapping can be made.
proof fn lemma_startup(s: State, w: World, paths: Seq<Seq<char>>, m: nat, fuel: nat) -> (r: (
    State,
    World,
))
    requires
        s.wf(),
        s.phase == Phase::Opening,
        paths.len() == s.count,
        s.pos <= m <= s.count,
        fuel >= 2 * (m - s.pos),
        forall|j: nat| s.pos <= j < m ==> !w.unmappable.contains(j),
        forall|j: int| s.pos <= j < m ==> !w.unopenable.contains(#[trigger] paths[j]),
    ensures
        r.0 == started_to(s, m),
        drive(s, w, paths, fuel) == drive(r.0, r.1, paths, (fuel - 2 * (m - s.pos)) as nat),
        r.1.live == w.live + (m - s.pos),
        w.disk.subset_of(r.1.disk),
        forall|j: int| s.pos <= j < m ==> r.1.disk.contains(paths[j]),
        forall|j: nat| #[trigger]
            r.1.created.contains(j) <==> (w.created.contains(j) || s.pos <= j < m),
        r.1.unmappable == w.unmappable,
        r.1.unopenable == w.unopenable,
        r.1.unremovable == w.unremovable,
    decreases m - s.pos,
{
    if s.pos == m {
        return (s, w);
    }
    let p = s.pos;
    let (w1, e1) = answer(w, paths, pending(s));
    let s1 = next(s, e1).0;
    assert(!w.unopenable.contains(paths[p as int]));
    assert(e1 == Event::Opened);
    let (w2, e2) = answer(w1, paths, pending(s1));
    assert(e2 == Event::MappingCreated);
    let s2 = next(s1, e2).0;
    assert(drive(s, w, paths, fuel) == drive(s1, w1, paths, (fuel - 1) as nat));
    assert(drive(s1, w1, paths, (fuel - 1) as nat) == drive(s2, w2, paths, (fuel - 2) as nat));
    if p + 1 == m {
        assert(s2 == started_to(s, m));
        assert forall|j: nat| w2.created.contains(j) <==> (w.created.contains(j) || s.pos <= j < m) by {}
        (s2, w2)
    } else {
        let r = lemma_startup(s2, w2, paths, m, (fuel - 2) as nat);
        assert(started_to(s2, m) == started_to(s, m));
        assert(w2.created == w.created.insert(p));
        assert forall|j: nat| r.1.created.contains(j) <==> (w.created.contains(j) || s.pos <= j < m) by {
            assert(r.1.created.contains(j) <==> (w2.created.contains(j) || s2.pos <= j < m));
        }
        r
    }
}

/// Cleanup from position `s.pos` on: it ends, and when no removal failed,
/// none of the remaining backing files exists.
proof fn lemma_cleanup(s: State, w: World, paths: Seq<Seq<char>>, fuel: nat)
    requires
        s.wf(),
        s.phase == Phase::Probing,
        paths.len() == s.count,
        fuel >= 2 * (s.count - s.pos),
    ensures
        ({
            let (s2, w2) = drive(s, w, paths, fuel);
            &&& s2.phase == Phase::Exited
            &&& s2.held == 0
            &&& (forall|j: int| s.pos <= j < s.count ==> !w.unremovable.contains(#[trigger] paths[j]))
                ==> s2.failure is None
            &&& s2.failure is None ==> s2.report.len() == s.count && forall|j: int|
                s.pos <= j < s.count ==> !w2.disk.contains(#[trigger] paths[j])
            &&& w2.disk.subset_of(w.disk)
            &&& w2.live == w.live
            &&& w2.created == w.created
            &&& w2.unmappable == w.unmappable
            &&& w2.unremovable == w.unremovable
        }),
    decreases s.count - s.pos,
{
    let p = s.pos as int;
    let (w1, e1) = answer(w, paths, pending(s));
    let s1 = next(s, e1).0;
    assert(drive(s, w, paths, fuel) == drive(s1, w1, paths, (fuel - 1) as nat));
    if e1 == Event::Absent {
        if s1.phase == Phase::Probing {
            lemma_cleanup(s1, w1, paths, (fuel - 1) as nat);
        }
    } else {
        let (w2, e2) = answer(w1, paths, pending(s1));
        let s2 = next(s1, e2).0;
        assert(drive(s1, w1, paths, (fuel - 1) as nat) == drive(s2, w2, paths, (fuel - 2) as nat));
        if s2.phase == Phase::Probing {
            lemma_cleanup(s2, w2, paths, (fuel - 2) as nat);
        }
    }
}

/// Cleanup from position `s.pos` on, where none of the remaining backing
/// files exists: each is found absent, and nothing else happens.
proof fn lemma_cleanup_absent(s: State, w: World, paths: Seq<Seq<char>>, fuel: nat)
    requires
        s.wf(),
        s.phase == Phase::Probing,
        paths.len() == s.count,
        fuel >= s.count - s.pos,
        forall|j: int| s.pos <= j < s.count ==> !w.disk.contains(#[trigger] paths[j]),
    ensures
        drive(s, w, paths, fuel) == (
            State {
                phase: Phase::Exited,
                pos: s.count,
                report: s.report + Seq::new(
                    (s.count - s.pos) as nat,
                    |i: int| Removal::AlreadyAbsent,
                ),
                ..s
            },
            w,
        ),
    decreases s.count - s.pos,
{
    let (w1, e1) = answer(w, paths, pending(s));
    let s1 = next(s, e1).0;
    assert(e1 == Event::Absent);
    assert(drive(s, w, paths, fuel) == drive(s1, w1, paths, (fuel - 1) as nat));
    let tail = Seq::new((s.count - s.pos) as nat, |i: int| Removal::AlreadyAbsent);
    if s1.phase == Phase::Probing {
        lemma_cleanup_absent(s1, w1, paths, (fuel - 1) as nat);
        let tail1 = Seq::new((s.count - s1.pos) as nat, |i: int| Removal::AlreadyAbsent);
        assert(s1.report + tail1 =~= s.report + tail);
    } else {
        assert(s1.report =~= s.report + tail);
    }
}

/// A bridge run over distinct names with positive sizes, in surroundings
/// where every mapping can be made and every backing file removed, ends
/// after the interrupt without error: every mapping is released, cleanup
/// has handled every name, and none of the backing files exists any more.
pub proof fn bridge_run_leaves_no_backing_file(
    dir: Seq<char>,
    names: Seq<Seq<char>>,
    sizes: Seq<usize>,
    w: World,
)
    requires
        names.len() == sizes.len(),
        names.len() <= usize::MAX,
        forall|i: int, j: int| 0 <= i < j < names.len() ==> names[i] != names[j],
        forall|i: int| 0 <= i < sizes.len() ==> sizes[i] > 0,
        w.live == 0,
        forall|j: nat| j < names.len() ==> !w.unmappable.contains(j),
        forall|j: int|
            0 <= j < names.len() ==> !w.unopenable.contains(
                #[trigger] backing_paths(dir, names)[j],
            ),
        forall|j: int|
            0 <= j < names.len() ==> !w.unremovable.contains(
                #[trigger] backing_paths(dir, names)[j],
            ),
    ensures
        ({
            let paths = backing_paths(dir, names);
            let (s2, w2) = drive(bridge_start(names.len()), w, paths, 4 * names.len() + 2);
            &&& s2.phase == Phase::Exited
            &&& s2.failure is None
            &&& s2.report.len() == names.len()
            &&& w2.live == 0
            &&& forall|j: int| 0 <= j < names.len() ==> !w2.disk.contains(#[trigger] paths[j])
        }),
{
    let n = names.len();
    let paths = backing_paths(dir, names);
    let fuel = 4 * n + 2;
    let s0 = bridge_start(n);
    let (sr, wr) = if n > 0 {
        lemma_startup(s0, w, paths, n, fuel)
    } else {
        (s0, w)
    };
    assert(drive(s0, w, paths, fuel) == drive(sr, wr, paths, (fuel - 2 * n) as nat));
    assert(sr.phase == Phase::Running && sr.held == n && wr.live == n);
    let (w1, e1) = answer(wr, paths, pending(sr));
    let s1 = next(sr, e1).0;
    let (w2, e2) = answer(w1, paths, pending(s1));
    let s2 = next(s1, e2).0;
    assert(drive(sr, wr, paths, (fuel - 2 * n) as nat) == drive(s1, w1, paths, (2 * n + 1) as nat));
    assert(drive(s1, w1, paths, (2 * n + 1) as nat) == drive(s2, w2, paths, (2 * n) as nat));
    assert(w2.live == 0);
    if n > 0 {
        lemma_cleanup(s2, w2, paths, (2 * n) as nat);
    }
}

/// Cleanup run twice in a row over the same names: when the first run ends
/// without error, the second finds every backing file already absent,
/// changes nothing, and ends without error, whichever removals would fail.
pub proof fn cleanup_twice_second_changes_nothing(dir: Seq<char>, names: Seq<Seq<char>>, w: World)
    requires
        names.len() <= usize::MAX,
    ensures
        ({
            let n = names.len();
            let paths = backing_paths(dir, names);
            let (s1, w1) = drive(cleanup_start(n), w, paths, 2 * n);
            &&& s1.phase == Phase::Exited
            &&& s1.failure is None ==> drive(cleanup_start(n), w1, paths, 2 * n) == (
                State {
                    phase: Phase::Exited,
                    pos: n,
                    held: 0,
                    failure: None,
                    report: Seq::new(n, |i: int| Removal::AlreadyAbsent),
                    count: n,
                },
                w1,
            )
        }),
{
    let n = names.len();
    let paths = backing_paths(dir, names);
    let s0 = cleanup_start(n);
    if n > 0 {
        lemma_cleanup(s0, w, paths, 2 * n);
        let (s1, w1) = drive(s0, w, paths, 2 * n);
        if s1.failure is None {
            lemma_cleanup_absent(s0, w1, paths, 2 * n);
            assert(Seq::<Removal>::empty() + Seq::new(n, |i: int| Removal::AlreadyAbsent)
                =~= Seq::new(n, |i: int| Removal::AlreadyAbsent));
        }
    } else {
        assert(Seq::new(n, |i: int| Removal::AlreadyAbsent) =~= Seq::<Removal>::empty());
    }
}

/// When the mapping at position `k` cannot be made and every one before it
/// can, the run ends with the mapping error for `k`: the mappings before
/// `k`, and only those, were ever created; all of them are released; the
/// backing files up to `k` remain; and the ended session does nothing more,
/// whatever it is told.
pub proof fn failed_mapping_releases_and_keeps_files(
    dir: Seq<char>,
    names: Seq<Seq<char>>,
    sizes: Seq<usize>,
    w: World,
    k: nat,
)
    requires
        names.len() == sizes.len(),
        names.len() <= usize::MAX,
        k < names.len(),
        w.unmappable.contains(k),
        forall|j: nat| j < k ==> !w.unmappable.contains(j),
        forall|j: int| 0 <= j <= k ==> !w.unopenable.contains(
            #[trigger] backing_paths(dir, names)[j],
        ),
        w.live == 0,
        w.created == Set::<nat>::empty(),
    ensures
        ({
            let paths = backing_paths(dir, names);
            let (s2, w2) = drive(bridge_start(names.len()), w, paths, 2 * names.len() + 3);
            &&& s2.phase == Phase::Exited
            &&& s2.failure == Some(Failure::MappingCreation { index: k as usize })
            &&& s2.held == 0
            &&& w2.live == 0
            &&& forall|j: nat| w2.created.contains(j) <==> j < k
            &&& w.disk.subset_of(w2.disk)
            &&& forall|j: int| 0 <= j <= k ==> w2.disk.contains(#[trigger] paths[j])
            &&& forall|e: Event| next(s2, e) == (s2, Action::Idle)
        }),
{
    let n = names.len();
    let paths = backing_paths(dir, names);
    let fuel = 2 * n + 3;
    let s0 = bridge_start(n);
    let (sk, wk) = lemma_startup(s0, w, paths, k, fuel);
    let (w1, e1) = answer(wk, paths, pending(sk));
    let s1 = next(sk, e1).0;
    let (w2, e2) = answer(w1, paths, pending(s1));
    let s2 = next(s1, e2).0;
    assert(e2 == Event::MappingFailed);
    let (w3, e3) = answer(w2, paths, pending(s2));
    let s3 = next(s2, e3).0;
    let f = (fuel - 2 * k) as nat;
    assert(drive(sk, wk, paths, f) == drive(s1, w1, paths, (f - 1) as nat));
    assert(drive(s1, w1, paths, (f - 1) as nat) == drive(s2, w2, paths, (f - 2) as nat));
    assert(drive(s2, w2, paths, (f - 2) as nat) == drive(s3, w3, paths, (f - 3) as nat));
    assert(s3.phase == Phase::Exited);
    assert(drive(s3, w3, paths, (f - 3) as nat) == (s3, w3));
    assert(w3.created == wk.created);
    assert forall|j: nat| w3.created.contains(j) <==> j < k by {
        assert(wk.created.contains(j) <==> (w.created.contains(j) || s0.pos <= j < k));
        assert(!w.created.contains(j));
    }
    assert forall|e: Event| next(s3, e) == (s3, Action::Idle) by {}
    assert forall|j: int| 0 <= j <= k implies w3.disk.contains(#[trigger] paths[j]) by {
        if j < k {
            assert(wk.disk.contains(paths[j]));
        }
    }
}

/// When the backing file at position `k` cannot be opened and everything
/// before it can be made, the run ends with the open error for `k`: the
/// mappings before `k`, and only those, were ever created; all of them are
/// released; the backing files before `k` remain; and the ended session
/// does nothing more, whatever it is told.
pub proof fn failed_open_releases_and_keeps_files(
    dir: Seq<char>,
    names: Seq<Seq<char>>,
    sizes: Seq<usize>,
    w: World,
    k: nat,
)
    requires
        names.len() == sizes.len(),
        names.len() <= usize::MAX,
        k < names.len(),
        w.unopenable.contains(backing_paths(dir, names)[k as int]),
        forall|j: nat| j < k ==> !w.unmappable.contains(j),
        forall|j: int| 0 <= j < k ==> !w.unopenable.contains(
            #[trigger] backing_paths(dir, names)[j],
        ),
        w.live == 0,
        w.created == Set::<nat>::empty(),
    ensures
        ({
            let paths = backing_paths(dir, names);
            let (s2, w2) = drive(bridge_start(names.len()), w, paths, 2 * names.len() + 2);
            &&& s2.phase == Phase::Exited
            &&& s2.failure == Some(Failure::IoOpen { index: k as usize })
            &&& s2.held == 0
            &&& w2.live == 0
            &&& forall|j: nat| w2.created.contains(j) <==> j < k
            &&& w.disk.subset_of(w2.disk)
            &&& forall|j: int| 0 <= j < k ==> w2.disk.contains(#[trigger] paths[j])
            &&& forall|e: Event| next(s2, e) == (s2, Action::Idle)
        }),
{
    let n = names.len();
    let paths = backing_paths(dir, names);
    let fuel = 2 * n + 2;
    let s0 = bridge_start(n);
    let (sk, wk) = lemma_startup(s0, w, paths, k, fuel);
    let (w1, e1) = answer(wk, paths, pending(sk));
    let s1 = next(sk, e1).0;
    assert(e1 == Event::OpenFailed);
    let (w2, e2) = answer(w1, paths, pending(s1));
    let s2 = next(s1, e2).0;
    let f = (fuel - 2 * k) as nat;
    assert(drive(sk, wk, paths, f) == drive(s1, w1, paths, (f - 1) as nat));
    assert(drive(s1, w1, paths, (f - 1) as nat) == drive(s2, w2, paths, (f - 2) as nat));
    assert(s2.phase == Phase::Exited);
    assert(drive(s2, w2, paths, (f - 2) as nat) == (s2, w2));
    assert(w2.created == wk.created);
    assert forall|j: nat| w2.created.contains(j) <==> j < k by {
        assert(wk.created.contains(j) <==> (w.created.contains(j) || s0.pos <= j < k));
        assert(!w.created.contains(j));
    }
    assert forall|e: Event| next(s2, e) == (s2, Action::Idle) by {}
}

} // verus!
