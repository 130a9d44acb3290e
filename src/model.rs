//! The entries of a logbook and their mathematical views.

use vstd::prelude::*;

verus! {

/// One text entry of a project.
#[derive(Clone, Debug, PartialEq, Eq)]
pub struct Log {
    /// Position of the entry in its project's sequence.
    pub id: usize,
    /// Creation time in milliseconds since the Unix epoch, in decimal.
    pub timestamp: String,
    pub text: String,
}

/// What a `Log` holds, as mathematical values.
pub struct LogView {
    pub id: nat,
    pub timestamp: Seq<char>,
    pub text: Seq<char>,
}

impl View for Log {
    type V = LogView;

    open spec fn view(&self) -> LogView {
        LogView { id: self.id as nat, timestamp: self.timestamp@, text: self.text@ }
    }
}

/// A named, ordered sequence of entries, oldest first.
#[derive(Clone, Debug, PartialEq, Eq)]
pub struct Project {
    pub name: String,
    pub logs: Vec<Log>,
}

/// The views of a sequence of entries.
pub open spec fn logs_view(logs: Seq<Log>) -> Seq<LogView> {
    logs.map_values(|l: Log| l@)
}

/// Every entry's id equals its position.
pub open spec fn ids_dense(logs: Seq<LogView>) -> bool {
    forall|i: int| 0 <= i < logs.len() ==> #[trigger] logs[i].id == i
}

/// The same entries with each id set to its position.
pub open spec fn renumbered(logs: Seq<LogView>) -> Seq<LogView> {
    Seq::new(
        logs.len(),
        |i: int| LogView { id: i as nat, timestamp: logs[i].timestamp, text: logs[i].text },
    )
}

/// No two projects share a name.
pub open spec fn names_unique(ps: Seq<Project>) -> bool {
    forall|i: int, j: int|
        0 <= i < ps.len() && 0 <= j < ps.len() && i != j ==> #[trigger] ps[i].name@
            != #[trigger] ps[j].name@
}

/// Some project of `ps` is named `k`.
pub open spec fn has_name(ps: Seq<Project>, k: Seq<char>) -> bool {
    exists|i: int| 0 <= i < ps.len() && #[trigger] ps[i].name@ == k
}

/// A position of a project named `k`, where there is one.
pub open spec fn index_of_name(ps: Seq<Project>, k: Seq<char>) -> int {
    choose|i: int| 0 <= i < ps.len() && #[trigger] ps[i].name@ == k
}

/// The projects as a mapping from name to entries.
pub open spec fn projects_map(ps: Seq<Project>) -> Map<Seq<char>, Seq<LogView>> {
    Map::new(|k: Seq<char>| has_name(ps, k), |k: Seq<char>| logs_view(ps[index_of_name(ps, k)].logs@))
}

/// In projects with distinct names, the project named `ps[i].name` is the one at `i`.
pub proof fn lemma_index_of_name(ps: Seq<Project>, i: int)
    requires
        names_unique(ps),
        0 <= i < ps.len(),
    ensures
        has_name(ps, ps[i].name@),
        index_of_name(ps, ps[i].name@) == i,
        projects_map(ps)[ps[i].name@] == logs_view(ps[i].logs@),
{
    let k = ps[i].name@;
    assert(has_name(ps, k));
    let j = index_of_name(ps, k);
    assert(ps[j].name@ == k);
}

/// Replacing the entries of the project at `i` changes only that name's entries.
pub proof fn lemma_update_logs(ps: Seq<Project>, i: int, p: Project)
    requires
        names_unique(ps),
        0 <= i < ps.len(),
        p.name@ == ps[i].name@,
    ensures
        names_unique(ps.update(i, p)),
        projects_map(ps.update(i, p)) == projects_map(ps).insert(p.name@, logs_view(p.logs@)),
{
    let qs = ps.update(i, p);
    assert(names_unique(qs)) by {
        assert forall|a: int, b: int|
            0 <= a < qs.len() && 0 <= b < qs.len() && a != b implies #[trigger] qs[a].name@
            != #[trigger] qs[b].name@ by {
            assert(qs[a].name@ == ps[a].name@);
            assert(qs[b].name@ == ps[b].name@);
        }
    }
    let m = projects_map(ps).insert(p.name@, logs_view(p.logs@));
    assert forall|k: Seq<char>| #[trigger] has_name(qs, k) == m.dom().contains(k) by {
        if has_name(ps, k) {
            let j = index_of_name(ps, k);
            assert(qs[j].name@ == k);
        }
        if has_name(qs, k) {
            let j = index_of_name(qs, k);
            assert(ps[j].name@ == k);
        }
    }
    assert forall|k: Seq<char>| #[trigger] has_name(qs, k) implies projects_map(qs)[k] == m[k] by {
        let j = index_of_name(qs, k);
        lemma_index_of_name(qs, j);
        if j != i {
            lemma_index_of_name(ps, j);
        }
    }
    assert(projects_map(qs) =~= m);
}


/// Adding a project under a fresh name adds that name with the project's entries.
pub proof fn lemma_push_project(ps: Seq<Project>, p: Project)
    requires
        names_unique(ps),
        !has_name(ps, p.name@),
    ensures
        names_unique(ps.push(p)),
        projects_map(ps.push(p)) == projects_map(ps).insert(p.name@, logs_view(p.logs@)),
{
    let qs = ps.push(p);
    let n = ps.len() as int;
    assert(names_unique(qs)) by {
        assert forall|a: int, b: int|
            0 <= a < qs.len() && 0 <= b < qs.len() && a != b implies #[trigger] qs[a].name@
            != #[trigger] qs[b].name@ by {
            if a < n && b < n {
                assert(qs[a] == ps[a] && qs[b] == ps[b]);
            } else if a < n {
                assert(qs[a] == ps[a]);
            } else {
                assert(qs[b] == ps[b]);
            }
        }
    }
    let m = projects_map(ps).insert(p.name@, logs_view(p.logs@));
    assert forall|k: Seq<char>| #[trigger] has_name(qs, k) == m.dom().contains(k) by {
        if has_name(ps, k) {
            let j = index_of_name(ps, k);
            assert(qs[j] == ps[j]);
        }
        if k == p.name@ {
            assert(qs[n] == p);
        }
        if has_name(qs, k) && k != p.name@ {
            let j = index_of_name(qs, k);
            assert(j < n);
            assert(qs[j] == ps[j]);
        }
    }
    assert forall|k: Seq<char>| #[trigger] has_name(qs, k) implies projects_map(qs)[k] == m[k] by {
        let j = index_of_name(qs, k);
        lemma_index_of_name(qs, j);
        if j < n {
            assert(qs[j] == ps[j]);
            lemma_index_of_name(ps, j);
        } else {
            assert(qs[j] == p);
        }
    }
    assert(projects_map(qs) =~= m);
}

/// Taking out the project at `i` takes out its name and nothing else.
pub proof fn lemma_remove_project(ps: Seq<Project>, i: int)
    requires
        names_unique(ps),
        0 <= i < ps.len(),
    ensures
        names_unique(ps.remove(i)),
        projects_map(ps.remove(i)) == projects_map(ps).remove(ps[i].name@),
{
    let qs = ps.remove(i);
    // position in `ps` of the project at `a` in `qs`
    let src = |a: int| if a < i { a } else { a + 1 };
    assert forall|a: int| 0 <= a < qs.len() implies #[trigger] qs[a] == ps[src(a)] by {}
    assert(names_unique(qs)) by {
        assert forall|a: int, b: int|
            0 <= a < qs.len() && 0 <= b < qs.len() && a != b implies #[trigger] qs[a].name@
            != #[trigger] qs[b].name@ by {
            assert(qs[a] == ps[src(a)]);
            assert(qs[b] == ps[src(b)]);
        }
    }
    let name = ps[i].name@;
    let m = projects_map(ps).remove(name);
    assert forall|k: Seq<char>| #[trigger] has_name(qs, k) == m.dom().contains(k) by {
        if has_name(ps, k) && k != name {
            let j = index_of_name(ps, k);
            assert(j != i);
            let a = if j < i { j } else { j - 1 };
            assert(qs[a] == ps[src(a)]);
        }
        if has_name(qs, k) {
            let a = index_of_name(qs, k);
            assert(qs[a] == ps[src(a)]);
        }
    }
    assert forall|k: Seq<char>| #[trigger] has_name(qs, k) implies projects_map(qs)[k] == m[k] by {
        let a = index_of_name(qs, k);
        lemma_index_of_name(qs, a);
        assert(qs[a] == ps[src(a)]);
        lemma_index_of_name(ps, src(a));
    }
    assert(projects_map(qs) =~= m);
}

} // verus!
