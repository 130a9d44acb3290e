//! The logbook document and the operations that change it.

use vstd::prelude::*;

use crate::clock::{decimal, decimal_string, now_millis};
use crate::model::{
    has_name, lemma_index_of_name, lemma_push_project, lemma_remove_project,
    lemma_update_logs, logs_view, names_unique, projects_map, renumbered, Log, LogView, Project,
};

verus! {

/// What can go wrong in the library's own operations.
#[derive(Debug, Clone, Copy, PartialEq, Eq, Structural)]
pub enum LogbookError {
    /// The user's home directory could not be determined.
    Environment,
    /// No project has the given name.
    ProjectNotFound,
    /// A project with the given name already exists.
    DuplicateProject,
}

/// What a `Logbook` holds, as mathematical values: its creation time and
/// each project's entries under the project's name.
pub struct LogbookView {
    pub created_at: Seq<char>,
    pub projects: Map<Seq<char>, Seq<LogView>>,
}

/// `logs` with a new entry at the tail, whose id is the next position.
pub open spec fn with_log(logs: Seq<LogView>, timestamp: Seq<char>, text: Seq<char>) -> Seq<
    LogView,
> {
    logs.push(LogView { id: logs.len(), timestamp, text })
}

/// `logs` without the entry at `k`, the rest renumbered by position.
pub open spec fn without_log(logs: Seq<LogView>, k: int) -> Seq<LogView> {
    renumbered(logs.remove(k))
}

/// The root document: when it was created, and its projects.
///
/// Project names are distinct; each project is stored under its own name.
#[derive(Clone, Debug, PartialEq, Eq)]
pub struct Logbook {
    created_at: String,
    projects: Vec<Project>,
}

impl View for Logbook {
    type V = LogbookView;

    closed spec fn view(&self) -> LogbookView {
        LogbookView { created_at: self.created_at@, projects: projects_map(self.projects@) }
    }
}

impl Logbook {
    /// Project names are distinct.
    pub closed spec fn wf(&self) -> bool {
        names_unique(self.projects@)
    }

    /// An empty logbook created at the current time.
    pub fn new() -> (r: Logbook)
        ensures
            r.wf(),
            r@.projects == Map::<Seq<char>, Seq<LogView>>::empty(),
            exists|ms: u128| r@.created_at == #[trigger] decimal(ms as nat),
    {
        Logbook::new_at(now_millis())
    }

    /// An empty logbook created `created_at_millis` milliseconds after the epoch.
    pub fn new_at(created_at_millis: u128) -> (r: Logbook)
        ensures
            r.wf(),
            r@.created_at == decimal(created_at_millis as nat),
            r@.projects == Map::<Seq<char>, Seq<LogView>>::empty(),
    {
        let r = Logbook { created_at: decimal_string(created_at_millis), projects: Vec::new() };
        assert(projects_map(r.projects@) =~= Map::<Seq<char>, Seq<LogView>>::empty());
        r
    }

    /// A logbook from a creation time and projects, which must have distinct names.
    pub fn from_parts(created_at: String, projects: Vec<Project>) -> (r: Result<
        Logbook,
        LogbookError,
    >)
        ensures
            r is Ok <==> names_unique(projects@),
            r is Err ==> r->Err_0 == LogbookError::DuplicateProject,
            r matches Ok(b) ==> b.wf() && b@ == (LogbookView {
                created_at: created_at@,
                projects: projects_map(projects@),
            }),
    {
        let n = projects.len();
        let mut i: usize = 0;
        while i < n
            invariant
                n == projects.len(),
                i <= n,
                forall|a: int, b: int|
                    0 <= a < i && 0 <= b < n && a != b ==> #[trigger] projects@[a].name@
                        != #[trigger] projects@[b].name@,
            decreases n - i,
        {
            let mut j: usize = 0;
            while j < n
                invariant
                    n == projects.len(),
                    i < n,
                    j <= n,
                    forall|a: int, b: int|
                        0 <= a < i && 0 <= b < n && a != b ==> #[trigger] projects@[a].name@
                            != #[trigger] projects@[b].name@,
                    forall|b: int|
                        0 <= b < j && b != i ==> projects@[i as int].name@
                            != #[trigger] projects@[b].name@,
                decreases n - j,
            {
                if j != i && projects[i].name == projects[j].name {
                    return Err(LogbookError::DuplicateProject);
                }
                j += 1;
            }
            i += 1;
        }
        Ok(Logbook { created_at, projects })
    }

    /// The position of the project named `name`, if there is one.
    fn find(&self, name: &str) -> (r: Option<usize>)
        requires
            self.wf(),
        ensures
            r is None <==> !self@.projects.contains_key(name@),
            r matches Some(i) ==> i < self.projects.len() && self.projects@[i as int].name@
                == name@,
    {
        let key = name.to_owned();
        let mut i: usize = 0;
        while i < self.projects.len()
            invariant
                i <= self.projects.len(),
                key@ == name@,
                forall|a: int| 0 <= a < i ==> #[trigger] self.projects@[a].name@ != name@,
            decreases self.projects.len() - i,
        {
            if self.projects[i].name == key {
                return Some(i);
            }
            i += 1;
        }
        assert(!has_name(self.projects@, name@));
        None
    }

    /// Adds an empty project named `name`; a name already in use is refused.
    pub fn add_project(&mut self, name: &str) -> (r: Result<(), LogbookError>)
        requires
            old(self).wf(),
        ensures
            final(self).wf(),
            final(self)@.created_at == old(self)@.created_at,
            r is Ok <==> !old(self)@.projects.contains_key(name@),
            r is Ok ==> final(self)@.projects == old(self)@.projects.insert(
                name@,
                Seq::<LogView>::empty(),
            ),
            r is Err ==> r->Err_0 == LogbookError::DuplicateProject && final(self)@ == old(
                self,
            )@,
    {
        if self.find(name).is_some() {
            return Err(LogbookError::DuplicateProject);
        }
        let p = Project { name: name.to_owned(), logs: Vec::new() };
        proof {
            lemma_push_project(self.projects@, p);
            assert(logs_view(p.logs@) =~= Seq::<LogView>::empty());
        }
        self.projects.push(p);
        Ok(())
    }

    /// Appends an entry with `text` to the project named `project`, stamped
    /// with the current time; its id is the project's former entry count.
    pub fn add_log(&mut self, project: &str, text: &str) -> (r: Result<(), LogbookError>)
        requires
            old(self).wf(),
        ensures
            final(self).wf(),
            final(self)@.created_at == old(self)@.created_at,
            r is Ok <==> old(self)@.projects.contains_key(project@),
            r is Ok ==> exists|ms: u128|
                final(self)@.projects == old(self)@.projects.insert(
                    project@,
                    with_log(old(self)@.projects[project@], #[trigger] decimal(ms as nat), text@),
                ),
            r is Err ==> r->Err_0 == LogbookError::ProjectNotFound && final(self)@ == old(
                self,
            )@,
    {
        let ms = now_millis();
        self.add_log_at(project, text, ms)
    }

    /// Appends an entry with `text`, stamped `timestamp_millis` milliseconds
    /// after the epoch, to the project named `project`.
    pub fn add_log_at(&mut self, project: &str, text: &str, timestamp_millis: u128) -> (r: Result<
        (),
        LogbookError,
    >)
        requires
            old(self).wf(),
        ensures
            final(self).wf(),
            final(self)@.created_at == old(self)@.created_at,
            r is Ok <==> old(self)@.projects.contains_key(project@),
            r is Ok ==> final(self)@.projects == old(self)@.projects.insert(
                project@,
                with_log(old(self)@.projects[project@], decimal(timestamp_millis as nat), text@),
            ),
            r is Err ==> r->Err_0 == LogbookError::ProjectNotFound && final(self)@ == old(
                self,
            )@,
    {
        let i = match self.find(project) {
            Some(i) => i,
            None => return Err(LogbookError::ProjectNotFound),
        };
        let ghost old_ps = self.projects@;
        let mut p = self.projects.remove(i);
        let ghost old_logs = logs_view(p.logs@);
        let id = p.logs.len();
        p.logs.push(Log { id, timestamp: decimal_string(timestamp_millis), text: text.to_owned() });
        proof {
            lemma_index_of_name(old_ps, i as int);
            lemma_update_logs(old_ps, i as int, p);
            assert(logs_view(p.logs@) =~= with_log(
                old_logs,
                decimal(timestamp_millis as nat),
                text@,
            ));
        }
        self.projects.insert(i, p);
        assert(self.projects@ =~= old_ps.update(i as int, p));
        Ok(())
    }

    /// Removes entry `id` from the project named `project` and renumbers the
    /// rest by position. An `id` past the end changes nothing and gives
    /// `Ok(false)`; `Ok(true)` tells that the entry was removed.
    pub fn delete_log(&mut self, project: &str, id: usize) -> (r: Result<bool, LogbookError>)
        requires
            old(self).wf(),
        ensures
            final(self).wf(),
            final(self)@.created_at == old(self)@.created_at,
            r is Err <==> !old(self)@.projects.contains_key(project@),
            r is Err ==> r->Err_0 == LogbookError::ProjectNotFound,
            r matches Ok(removed) ==> removed == (id < old(self)@.projects[project@].len()),
            r == Ok::<bool, LogbookError>(true) ==> final(self)@.projects == old(
                self,
            )@.projects.insert(project@, without_log(old(self)@.projects[project@], id as int)),
            r != Ok::<bool, LogbookError>(true) ==> final(self)@ == old(self)@,
    {
        let i = match self.find(project) {
            Some(i) => i,
            None => return Err(LogbookError::ProjectNotFound),
        };
        proof {
            lemma_index_of_name(self.projects@, i as int);
        }
        if id >= self.projects[i].logs.len() {
            return Ok(false);
        }
        let ghost old_ps = self.projects@;
        let mut p = self.projects.remove(i);
        let ghost old_logs = logs_view(p.logs@);
        p.logs.remove(id);
        let ghost rest = logs_view(p.logs@);
        assert(rest =~= old_logs.remove(id as int));
        let n = p.logs.len();
        let mut j: usize = 0;
        while j < n
            invariant
                n == p.logs.len(),
                n == rest.len(),
                j <= n,
                i < old_ps.len(),
                p.name@ == old_ps[i as int].name@,
                forall|k: int| 0 <= k < j ==> #[trigger] p.logs@[k]@ == renumbered(rest)[k],
                forall|k: int| j <= k < n ==> #[trigger] p.logs@[k]@ == rest[k],
            decreases n - j,
        {
            let ghost before = p.logs@;
            assert(before[j as int]@ == rest[j as int]);
            p.logs[j].id = j;
            assert(p.logs@ =~= before.update(
                j as int,
                Log { id: j, timestamp: before[j as int].timestamp, text: before[j as int].text },
            ));
            assert(p.logs@[j as int]@ == renumbered(rest)[j as int]);
            j += 1;
        }
        proof {
            assert(logs_view(p.logs@) =~= without_log(old_logs, id as int));
            lemma_update_logs(old_ps, i as int, p);
        }
        self.projects.insert(i, p);
        assert(self.projects@ =~= old_ps.update(i as int, p));
        Ok(true)
    }

    /// Removes the project named `name`; tells whether there was one.
    pub fn delete_project(&mut self, name: &str) -> (r: bool)
        requires
            old(self).wf(),
        ensures
            final(self).wf(),
            final(self)@.created_at == old(self)@.created_at,
            r == old(self)@.projects.contains_key(name@),
            final(self)@.projects == old(self)@.projects.remove(name@),
    {
        match self.find(name) {
            Some(i) => {
                proof {
                    lemma_remove_project(self.projects@, i as int);
                }
                self.projects.remove(i);
                true
            },
            None => {
                assert(self@.projects.remove(name@) =~= self@.projects);
                false
            },
        }
    }

    /// The projects as stored, in no particular order.
    pub closed spec fn project_list(&self) -> Seq<Project> {
        self.projects@
    }

    /// When the logbook was created, in milliseconds since the epoch.
    pub fn created_at(&self) -> (r: &String)
        ensures
            r@ == self@.created_at,
    {
        &self.created_at
    }

    /// The projects, each under its own name.
    pub fn projects(&self) -> (r: &Vec<Project>)
        requires
            self.wf(),
        ensures
            r@ == self.project_list(),
            names_unique(r@),
            projects_map(r@) == self@.projects,
    {
        &self.projects
    }

    /// The entries of the project named `project`, if there is one.
    pub fn logs(&self, project: &str) -> (r: Option<&Vec<Log>>)
        requires
            self.wf(),
        ensures
            r is Some <==> self@.projects.contains_key(project@),
            r matches Some(v) ==> logs_view(v@) == self@.projects[project@],
    {
        match self.find(project) {
            Some(i) => {
                proof {
                    lemma_index_of_name(self.projects@, i as int);
                }
                Some(&self.projects[i].logs)
            },
            None => None,
        }
    }
}

/// Taking a logbook apart into its creation time and projects gives parts
/// from which `Logbook::from_parts` rebuilds the same logbook.
pub proof fn lemma_parts_round_trip(b: Logbook)
    requires
        b.wf(),
    ensures
        names_unique(b.project_list()),
        (LogbookView { created_at: b@.created_at, projects: projects_map(b.project_list()) })
            == b@,
{
}

} // verus!
