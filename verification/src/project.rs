use vstd::prelude::*;
use crate::engine::scan_ids;
use crate::error::ReqError;
use crate::json::Json;
use crate::parse::json_parse;
use crate::paths::valid_name_spec;
use crate::paths::valid_name;
use crate::template::Template;
use crate::text::str_eq;
use crate::variable::Variable;
use crate::variable::all_scalar;
use crate::variable::registered;

verus! {

/// A named group of templates and variables; one directory on disk.
///
/// The selected variable is process-local state: it names which variable
/// parameterizes the next run, and is not persisted.
#[derive(Debug)]
pub struct Project {
    pub name: String,
    pub templates: Vec<Template>,
    pub variables: Vec<Variable>,
    pub selected_variable: Option<usize>,
}

/// The whole store: every project under the root, in listing order.
#[derive(Debug)]
pub struct Root {
    pub projects: Vec<Project>,
}

/// The first project of that name, if one is there.
pub open spec fn project_named(ps: Seq<Project>, n: Seq<char>) -> Option<Project>
    decreases ps.len(),
{
    if ps.len() <= 0 {
        None
    } else if ps[0].name@ == n {
        Some(ps[0])
    } else {
        project_named(ps.drop_first(), n)
    }
}

/// The first template of that name, if one is there.
pub open spec fn template_named(ts: Seq<Template>, n: Seq<char>) -> Option<Template>
    decreases ts.len(),
{
    if ts.len() <= 0 {
        None
    } else if ts[0].name@ == n {
        Some(ts[0])
    } else {
        template_named(ts.drop_first(), n)
    }
}

/// The first variable of that name, if one is there.
pub open spec fn variable_named(vs: Seq<Variable>, n: Seq<char>) -> Option<Variable>
    decreases vs.len(),
{
    if vs.len() <= 0 {
        None
    } else if vs[0].name@ == n {
        Some(vs[0])
    } else {
        variable_named(vs.drop_first(), n)
    }
}

/// No project of that name is there exactly when none carries it.
pub proof fn lemma_project_named_absent(ps: Seq<Project>, n: Seq<char>)
    ensures
        project_named(ps, n) is None <==> (forall|k: int|
            0 <= k < ps.len() ==> (#[trigger] ps[k]).name@ != n),
    decreases ps.len(),
{
    if ps.len() > 0 {
        lemma_project_named_absent(ps.drop_first(), n);
        assert(forall|k: int|
            0 <= k < ps.drop_first().len() ==> ps[k + 1] == #[trigger] ps.drop_first()[k]);
        if ps[0].name@ != n && (forall|k: int|
            0 <= k < ps.drop_first().len() ==> (#[trigger] ps.drop_first()[k]).name@ != n) {
            assert forall|k: int| 0 <= k < ps.len() implies (#[trigger] ps[k]).name@ != n by {
                if k > 0 {
                    assert(ps.drop_first()[k - 1] == ps[k]);
                }
            }
        }
    }
}

/// A present project is found at its first index.
pub proof fn lemma_project_named_at(ps: Seq<Project>, n: Seq<char>, ix: int)
    requires
        0 <= ix < ps.len(),
        ps[ix].name@ == n,
        forall|m: int| 0 <= m < ix ==> (#[trigger] ps[m]).name@ != n,
    ensures
        project_named(ps, n) == Some(ps[ix]),
    decreases ps.len(),
{
    if ix > 0 {
        lemma_project_named_at(ps.drop_first(), n, ix - 1);
        assert(ps.drop_first()[ix - 1] == ps[ix]);
        assert(forall|m: int|
            0 <= m < ix - 1 ==> ps.drop_first()[m] == #[trigger] ps[m + 1]);
    }
}

/// No template of that name is there exactly when none carries it.
pub proof fn lemma_template_named_absent(ts: Seq<Template>, n: Seq<char>)
    ensures
        template_named(ts, n) is None <==> (forall|k: int|
            0 <= k < ts.len() ==> (#[trigger] ts[k]).name@ != n),
    decreases ts.len(),
{
    if ts.len() > 0 {
        lemma_template_named_absent(ts.drop_first(), n);
        assert(forall|k: int|
            0 <= k < ts.drop_first().len() ==> ts[k + 1] == #[trigger] ts.drop_first()[k]);
        if ts[0].name@ != n && (forall|k: int|
            0 <= k < ts.drop_first().len() ==> (#[trigger] ts.drop_first()[k]).name@ != n) {
            assert forall|k: int| 0 <= k < ts.len() implies (#[trigger] ts[k]).name@ != n by {
                if k > 0 {
                    assert(ts.drop_first()[k - 1] == ts[k]);
                }
            }
        }
    }
}

/// A present template is found at its first index.
pub proof fn lemma_template_named_at(ts: Seq<Template>, n: Seq<char>, ix: int)
    requires
        0 <= ix < ts.len(),
        ts[ix].name@ == n,
        forall|m: int| 0 <= m < ix ==> (#[trigger] ts[m]).name@ != n,
    ensures
        template_named(ts, n) == Some(ts[ix]),
    decreases ts.len(),
{
    if ix > 0 {
        lemma_template_named_at(ts.drop_first(), n, ix - 1);
        assert(ts.drop_first()[ix - 1] == ts[ix]);
        assert(forall|m: int|
            0 <= m < ix - 1 ==> ts.drop_first()[m] == #[trigger] ts[m + 1]);
    }
}

/// No variable of that name is there exactly when none carries it.
pub proof fn lemma_variable_named_absent(vs: Seq<Variable>, n: Seq<char>)
    ensures
        variable_named(vs, n) is None <==> (forall|k: int|
            0 <= k < vs.len() ==> (#[trigger] vs[k]).name@ != n),
    decreases vs.len(),
{
    if vs.len() > 0 {
        lemma_variable_named_absent(vs.drop_first(), n);
        assert(forall|k: int|
            0 <= k < vs.drop_first().len() ==> vs[k + 1] == #[trigger] vs.drop_first()[k]);
        if vs[0].name@ != n && (forall|k: int|
            0 <= k < vs.drop_first().len() ==> (#[trigger] vs.drop_first()[k]).name@ != n) {
            assert forall|k: int| 0 <= k < vs.len() implies (#[trigger] vs[k]).name@ != n by {
                if k > 0 {
                    assert(vs.drop_first()[k - 1] == vs[k]);
                }
            }
        }
    }
}

/// A present variable is found at its first index.
pub proof fn lemma_variable_named_at(vs: Seq<Variable>, n: Seq<char>, ix: int)
    requires
        0 <= ix < vs.len(),
        vs[ix].name@ == n,
        forall|m: int| 0 <= m < ix ==> (#[trigger] vs[m]).name@ != n,
    ensures
        variable_named(vs, n) == Some(vs[ix]),
    decreases vs.len(),
{
    if ix > 0 {
        lemma_variable_named_at(vs.drop_first(), n, ix - 1);
        assert(vs.drop_first()[ix - 1] == vs[ix]);
        assert(forall|m: int|
            0 <= m < ix - 1 ==> vs.drop_first()[m] == #[trigger] vs[m + 1]);
    }
}

/// Finds the first project of that name.
pub(crate) fn project_index(ps: &Vec<Project>, n: &str) -> (r: Option<usize>)
    ensures
        match r {
            Some(ix) => {
                &&& ix < ps@.len()
                &&& ps@[ix as int].name@ == n@
                &&& forall|m: int| 0 <= m < ix ==> (#[trigger] ps@[m]).name@ != n@
                &&& project_named(ps@, n@) == Some(ps@[ix as int])
            },
            None => project_named(ps@, n@) is None,
        },
{
    let mut j: usize = 0;
    while j < ps.len()
        invariant
            0 <= j <= ps@.len(),
            forall|m: int| 0 <= m < j ==> (#[trigger] ps@[m]).name@ != n@,
        decreases ps@.len() - j,
    {
        if str_eq(ps[j].name.as_str(), n) {
            proof {
                lemma_project_named_at(ps@, n@, j as int);
            }
            return Some(j);
        }
        j = j + 1;
    }
    proof {
        lemma_project_named_absent(ps@, n@);
    }
    None
}

/// Finds the first template of that name.
pub(crate) fn template_index(ts: &Vec<Template>, n: &str) -> (r: Option<usize>)
    ensures
        match r {
            Some(ix) => {
                &&& ix < ts@.len()
                &&& ts@[ix as int].name@ == n@
                &&& forall|m: int| 0 <= m < ix ==> (#[trigger] ts@[m]).name@ != n@
                &&& template_named(ts@, n@) == Some(ts@[ix as int])
            },
            None => template_named(ts@, n@) is None,
        },
{
    let mut j: usize = 0;
    while j < ts.len()
        invariant
            0 <= j <= ts@.len(),
            forall|m: int| 0 <= m < j ==> (#[trigger] ts@[m]).name@ != n@,
        decreases ts@.len() - j,
    {
        if str_eq(ts[j].name.as_str(), n) {
            proof {
                lemma_template_named_at(ts@, n@, j as int);
            }
            return Some(j);
        }
        j = j + 1;
    }
    proof {
        lemma_template_named_absent(ts@, n@);
    }
    None
}

/// Finds the first variable of that name.
pub(crate) fn variable_index(vs: &Vec<Variable>, n: &str) -> (r: Option<usize>)
    ensures
        match r {
            Some(ix) => {
                &&& ix < vs@.len()
                &&& vs@[ix as int].name@ == n@
                &&& forall|m: int| 0 <= m < ix ==> (#[trigger] vs@[m]).name@ != n@
                &&& variable_named(vs@, n@) == Some(vs@[ix as int])
            },
            None => variable_named(vs@, n@) is None,
        },
{
    let mut j: usize = 0;
    while j < vs.len()
        invariant
            0 <= j <= vs@.len(),
            forall|m: int| 0 <= m < j ==> (#[trigger] vs@[m]).name@ != n@,
        decreases vs@.len() - j,
    {
        if str_eq(vs[j].name.as_str(), n) {
            proof {
                lemma_variable_named_at(vs@, n@, j as int);
            }
            return Some(j);
        }
        j = j + 1;
    }
    proof {
        lemma_variable_named_absent(vs@, n@);
    }
    None
}

impl Project {
    /// A project is sound when its selection is in range, its variables
    /// hold only scalars, and no name repeats among its templates or
    /// among its variables.
    pub open spec fn wf(&self) -> bool {
        &&& (self.selected_variable matches Some(i) ==> i < self.variables@.len())
        &&& (forall|k: int| 0 <= k < self.variables@.len() ==> (#[trigger] self.variables@[k]).wf())
        &&& (forall|k1: int, k2: int|
            0 <= k1 < k2 < self.variables@.len() ==> self.variables@[k1].name@
                != self.variables@[k2].name@)
        &&& (forall|k1: int, k2: int|
            0 <= k1 < k2 < self.templates@.len() ==> self.templates@[k1].name@
                != self.templates@[k2].name@)
    }

    /// A fresh project with nothing in it.
    pub fn empty(project_name: &str) -> (p: Project)
        ensures
            p.name@ == project_name@,
            p.templates@.len() == 0,
            p.variables@.len() == 0,
            p.selected_variable is None,
            p.wf(),
    {
        Project {
            name: project_name.to_owned(),
            templates: Vec::new(),
            variables: Vec::new(),
            selected_variable: None,
        }
    }

    /// Creates a project under the root. The name must be path-safe and
    /// free; the new project is appended empty.
    pub fn create(root: &mut Root, project_name: &str) -> (r: Result<(), ReqError>)
        requires
            old(root).wf(),
        ensures
            final(root).wf(),
            !valid_name_spec(project_name@) ==> r == Err::<(), ReqError>(ReqError::InvalidName)
                && *final(root) == *old(root),
            valid_name_spec(project_name@) && project_named(
                old(root).projects@,
                project_name@,
            ) is Some ==> r == Err::<(), ReqError>(ReqError::AlreadyExists) && *final(root) == *old(root),
            valid_name_spec(project_name@) && project_named(
                old(root).projects@,
                project_name@,
            ) is None ==> {
                &&& r == Ok::<(), ReqError>(())
                &&& final(root).projects@.len() == old(root).projects@.len() + 1
                &&& final(root).projects@.take(old(root).projects@.len() as int) == old(root).projects@
                &&& final(root).projects@.last().name@ == project_name@
                &&& final(root).projects@.last().templates@.len() == 0
                &&& final(root).projects@.last().variables@.len() == 0
                &&& final(root).projects@.last().selected_variable is None
            },
    {
        if !valid_name(project_name) {
            return Err(ReqError::InvalidName);
        }
        if project_index(&root.projects, project_name).is_some() {
            return Err(ReqError::AlreadyExists);
        }
        let ghost prev = root.projects@;
        let p = Project::empty(project_name);
        root.projects.push(p);
        proof {
            assert(root.projects@.take(prev.len() as int) =~= prev);
            lemma_project_named_absent(prev, project_name@);
            assert forall|k1: int, k2: int|
                0 <= k1 < k2 < root.projects@.len() implies root.projects@[k1].name@
                != root.projects@[k2].name@ by {
                if k2 < prev.len() {
                    assert(root.projects@[k1] == prev[k1] && root.projects@[k2] == prev[k2]);
                } else {
                    assert(root.projects@[k1] == prev[k1]);
                }
            }
        }
        Ok(())
    }

    /// Looks a project up by name.
    pub fn get<'a>(root: &'a Root, project_name: &str) -> (r: Result<&'a Project, ReqError>)
        ensures
            !valid_name_spec(project_name@) ==> (r matches Err(e) && e == ReqError::InvalidName),
            valid_name_spec(project_name@) ==> match r {
                Ok(p) => project_named(root.projects@, project_name@) == Some(*p),
                Err(e) => {
                    &&& e == ReqError::NotFound
                    &&& project_named(root.projects@, project_name@) is None
                },
            },
    {
        if !valid_name(project_name) {
            return Err(ReqError::InvalidName);
        }
        match project_index(&root.projects, project_name) {
            Some(ix) => Ok(&root.projects[ix]),
            None => Err(ReqError::NotFound),
        }
    }

    /// All projects under the root, in listing order.
    pub fn list(root: &Root) -> (r: &Vec<Project>)
        ensures
            r@ == root.projects@,
    {
        &root.projects
    }

    /// Renames a project in place: its templates, variables and
    /// selection stay; the old name is gone and the new one is taken.
    pub fn rename(root: &mut Root, project_name: &str, new_project_name: &str) -> (r: Result<
        (),
        ReqError,
    >)
        requires
            old(root).wf(),
        ensures
            final(root).wf(),
            !valid_name_spec(new_project_name@) ==> r == Err::<(), ReqError>(ReqError::InvalidName)
                && *final(root) == *old(root),
            valid_name_spec(new_project_name@) && project_named(
                old(root).projects@,
                project_name@,
            ) is None ==> r == Err::<(), ReqError>(ReqError::NotFound) && *final(root) == *old(root),
            valid_name_spec(new_project_name@) && project_named(
                old(root).projects@,
                project_name@,
            ) is Some && project_named(old(root).projects@, new_project_name@) is Some ==> r
                == Err::<(), ReqError>(ReqError::AlreadyExists) && *final(root) == *old(root),
            valid_name_spec(new_project_name@) && project_named(
                old(root).projects@,
                project_name@,
            ) is Some && project_named(old(root).projects@, new_project_name@) is None ==> {
                &&& r == Ok::<(), ReqError>(())
                &&& final(root).projects@.len() == old(root).projects@.len()
                &&& (exists|ix: int|
                    {
                        &&& 0 <= ix < old(root).projects@.len()
                        &&& (#[trigger] old(root).projects@[ix]).name@ == project_name@
                        &&& (forall|m: int|
                            0 <= m < old(root).projects@.len() && m != ix ==> final(root).projects@[m] == #[trigger] old(root).projects@[m])
                        &&& final(root).projects@[ix].name@ == new_project_name@
                        &&& final(root).projects@[ix].templates@ == old(root).projects@[ix].templates@
                        &&& final(root).projects@[ix].variables@ == old(root).projects@[ix].variables@
                        &&& final(root).projects@[ix].selected_variable == old(root).projects@[ix].selected_variable
                    })
            },
    {
        if !valid_name(new_project_name) {
            return Err(ReqError::InvalidName);
        }
        let ix = match project_index(&root.projects, project_name) {
            Some(ix) => ix,
            None => {
                return Err(ReqError::NotFound);
            },
        };
        if project_index(&root.projects, new_project_name).is_some() {
            return Err(ReqError::AlreadyExists);
        }
        let ghost prev = root.projects@;
        let mut p = root.projects.remove(ix);
        p.name = new_project_name.to_owned();
        let ghost renamed = p;
        root.projects.insert(ix, p);
        proof {
            assert(root.projects@ =~= prev.update(ix as int, renamed));
            lemma_project_named_absent(prev, new_project_name@);
            assert forall|k1: int, k2: int|
                0 <= k1 < k2 < root.projects@.len() implies root.projects@[k1].name@
                != root.projects@[k2].name@ by {
                if k1 != ix && k2 != ix {
                    assert(root.projects@[k1] == prev[k1] && root.projects@[k2] == prev[k2]);
                } else if k1 == ix {
                    assert(root.projects@[k2] == prev[k2]);
                } else {
                    assert(root.projects@[k1] == prev[k1]);
                }
            }
            assert(0 <= ix < prev.len() && prev[ix as int].name@ == project_name@
                && root.projects@[ix as int].name@ == new_project_name@);
        }
        Ok(())
    }

    /// Deletes a project with everything in it: its templates and
    /// variables go with it.
    pub fn delete(root: &mut Root, project_name: &str) -> (r: Result<(), ReqError>)
        requires
            old(root).wf(),
        ensures
            final(root).wf(),
            !valid_name_spec(project_name@) ==> r == Err::<(), ReqError>(ReqError::InvalidName)
                && *final(root) == *old(root),
            valid_name_spec(project_name@) && project_named(
                old(root).projects@,
                project_name@,
            ) is None ==> r == Err::<(), ReqError>(ReqError::NotFound) && *final(root) == *old(
                root,
            ),
            valid_name_spec(project_name@) && project_named(
                old(root).projects@,
                project_name@,
            ) is Some ==> {
                &&& r == Ok::<(), ReqError>(())
                &&& (exists|ix: int|
                    {
                        &&& 0 <= ix < old(root).projects@.len()
                        &&& (#[trigger] old(root).projects@[ix]).name@ == project_name@
                        &&& final(root).projects@ == old(root).projects@.remove(ix)
                    })
            },
    {
        if !valid_name(project_name) {
            return Err(ReqError::InvalidName);
        }
        let ix = match project_index(&root.projects, project_name) {
            Some(ix) => ix,
            None => {
                return Err(ReqError::NotFound);
            },
        };
        let ghost prev = root.projects@;
        root.projects.remove(ix);
        proof {
            assert forall|k1: int, k2: int|
                0 <= k1 < k2 < root.projects@.len() implies root.projects@[k1].name@
                != root.projects@[k2].name@ by {
                let m1: int = if k1 < ix { k1 } else { k1 + 1 };
                let m2: int = if k2 < ix { k2 } else { k2 + 1 };
                assert(root.projects@[k1] == prev[m1] && root.projects@[k2] == prev[m2]);
            }
        }
        Ok(())
    }

    /// Creates an empty variable in the project and selects it.
    pub fn create_variable(&mut self, variable_name: &str) -> (r: Result<(), ReqError>)
        requires
            old(self).wf(),
        ensures
            final(self).wf(),
            final(self).name@ == old(self).name@,
            final(self).templates@ == old(self).templates@,
            !valid_name_spec(variable_name@) ==> r == Err::<(), ReqError>(ReqError::InvalidName)
                && *final(self) == *old(self),
            valid_name_spec(variable_name@) && variable_named(
                old(self).variables@,
                variable_name@,
            ) is Some ==> r == Err::<(), ReqError>(ReqError::AlreadyExists) && *final(self) == *old(self),
            valid_name_spec(variable_name@) && variable_named(
                old(self).variables@,
                variable_name@,
            ) is None ==> {
                &&& r == Ok::<(), ReqError>(())
                &&& final(self).variables@.len() == old(self).variables@.len() + 1
                &&& final(self).variables@.take(old(self).variables@.len() as int) == old(self).variables@
                &&& final(self).variables@.last().name@ == variable_name@
                &&& final(self).variables@.last().contents@.len() == 0
                &&& final(self).selected_variable == Some(old(self).variables@.len() as usize)
            },
    {
        if !valid_name(variable_name) {
            return Err(ReqError::InvalidName);
        }
        if variable_index(&self.variables, variable_name).is_some() {
            return Err(ReqError::AlreadyExists);
        }
        let ghost prev = self.variables@;
        let v = Variable::create(variable_name);
        let new_index = self.variables.len();
        self.variables.push(v);
        self.selected_variable = Some(new_index);
        proof {
            assert(self.variables@.take(prev.len() as int) =~= prev);
            lemma_variable_named_absent(prev, variable_name@);
            assert forall|k1: int, k2: int|
                0 <= k1 < k2 < self.variables@.len() implies self.variables@[k1].name@
                != self.variables@[k2].name@ by {
                if k2 < prev.len() {
                    assert(self.variables@[k1] == prev[k1] && self.variables@[k2] == prev[k2]);
                } else {
                    assert(self.variables@[k1] == prev[k1]);
                }
            }
            assert(forall|k: int|
                0 <= k < prev.len() ==> self.variables@[k] == #[trigger] prev[k]);
        }
        Ok(())
    }

    /// Selects the named variable for the coming operations.
    pub fn select_variable(&mut self, variable_name: &str) -> (r: Result<(), ReqError>)
        ensures
            final(self).name@ == old(self).name@,
            final(self).templates@ == old(self).templates@,
            final(self).variables@ == old(self).variables@,
            match r {
                Ok(()) => {
                    &&& final(self).selected_variable matches Some(ix)
                    &&& ix < old(self).variables@.len()
                    &&& old(self).variables@[ix as int].name@ == variable_name@
                    &&& variable_named(old(self).variables@, variable_name@) == Some(
                        old(self).variables@[ix as int],
                    )
                },
                Err(e) => {
                    &&& e == ReqError::NotFound
                    &&& variable_named(old(self).variables@, variable_name@) is None
                    &&& *final(self) == *old(self)
                },
            },
    {
        match variable_index(&self.variables, variable_name) {
            Some(ix) => {
                self.selected_variable = Some(ix);
                Ok(())
            },
            None => Err(ReqError::NotFound),
        }
    }

    /// The variable selected for the coming operations.
    pub fn current_variable(&self) -> (r: Result<&Variable, ReqError>)
        requires
            self.wf(),
        ensures
            match r {
                Ok(v) => {
                    &&& self.selected_variable matches Some(ix)
                    &&& *v == self.variables@[ix as int]
                },
                Err(e) => e == ReqError::NoSelection && self.selected_variable is None,
            },
    {
        match self.selected_variable {
            Some(ix) => Ok(&self.variables[ix]),
            None => Err(ReqError::NoSelection),
        }
    }

    /// All variables of the project, in listing order.
    pub fn variables(&self) -> (r: &Vec<Variable>)
        ensures
            r@ == self.variables@,
    {
        &self.variables
    }

    /// Replaces the contents of the selected variable with the edited
    /// document; any failure leaves the project unchanged.
    pub fn edit_current_variable(&mut self, edited: &str) -> (r: Result<(), ReqError>)
        requires
            old(self).wf(),
        ensures
            final(self).wf(),
            final(self).name@ == old(self).name@,
            final(self).templates@ == old(self).templates@,
            final(self).selected_variable == old(self).selected_variable,
            match r {
                Ok(()) => {
                    &&& old(self).selected_variable matches Some(ix)
                    &&& final(self).variables@.len() == old(self).variables@.len()
                    &&& (forall|m: int|
                        0 <= m < old(self).variables@.len() && m != ix ==> final(self).variables@[m] == #[trigger] old(self).variables@[m])
                    &&& final(self).variables@[ix as int].name@ == old(self).variables@[ix as int].name@
                    &&& (json_parse(edited@) matches Some(jj) && jj matches Json::Obj(ff) && final(self).variables@[ix as int].contents.deep_view() == ff.deep_view())
                },
                Err(e) => {
                    &&& final(self).variables@ == old(self).variables@
                    &&& (e == ReqError::NoSelection <==> old(self).selected_variable is None)
                    &&& (old(self).selected_variable is Some ==> match json_parse(edited@) {
                        None => e == ReqError::MalformedDocument,
                        Some(jj) => match jj {
                            Json::Obj(ff) => e == ReqError::InvalidVariableValue && !all_scalar(
                                ff.deep_view(),
                            ),
                            _ => e == ReqError::MalformedDocument,
                        },
                    })
                },
            },
    {
        let ix = match self.selected_variable {
            Some(ix) => ix,
            None => {
                return Err(ReqError::NoSelection);
            },
        };
        let ghost prev = self.variables@;
        let mut v = self.variables.remove(ix);
        let ghost taken = v;
        match v.edit(edited) {
            Ok(()) => {
                self.variables.insert(ix, v);
                proof {
                    assert(self.variables@ =~= prev.update(ix as int, self.variables@[ix as int]));
                    assert forall|k1: int, k2: int|
                        0 <= k1 < k2 < self.variables@.len() implies self.variables@[k1].name@
                        != self.variables@[k2].name@ by {
                        if k1 != ix && k2 != ix {
                            assert(self.variables@[k1] == prev[k1] && self.variables@[k2]
                                == prev[k2]);
                        } else if k1 == ix {
                            assert(self.variables@[k2] == prev[k2]);
                        } else {
                            assert(self.variables@[k1] == prev[k1]);
                        }
                    }
                    assert forall|k: int|
                        0 <= k < self.variables@.len() implies (
                    #[trigger] self.variables@[k]).wf() by {
                        if k != ix {
                            assert(self.variables@[k] == prev[k]);
                        } else {
                            assert(self.variables@[k] == v);
                        }
                    }
                    assert(forall|m: int|
                        0 <= m < prev.len() && m != ix ==> self.variables@[m] == #[trigger] prev[m]);
                    assert(self.variables@[ix as int] == v);
                }
                Ok(())
            },
            Err(e) => {
                self.variables.insert(ix, v);
                proof {
                    assert(v == taken);
                    assert(self.variables@ =~= prev);
                }
                Err(e)
            },
        }
    }

    /// Registers every input placeholder of the text in every variable
    /// of the project, with the empty string for new entries.
    pub fn update_variables(&mut self, template_json: &str)
        requires
            old(self).wf(),
        ensures
            final(self).wf(),
            final(self).name@ == old(self).name@,
            final(self).templates@ == old(self).templates@,
            final(self).selected_variable == old(self).selected_variable,
            final(self).variables@.len() == old(self).variables@.len(),
            forall|k: int|
                0 <= k < old(self).variables@.len() ==> {
                    &&& (#[trigger] final(self).variables@[k]).name@ == old(self).variables@[k].name@
                    &&& registered(
                        old(self).variables@[k].contents.deep_view(),
                        final(self).variables@[k].contents.deep_view(),
                        scan_ids(template_json@, 0, false),
                    )
                },
    {
        let ghost orig = self.variables@;
        let mut k: usize = 0;
        while k < self.variables.len()
            invariant
                self.wf(),
                self.name@ == old(self).name@,
                self.templates@ == old(self).templates@,
                self.selected_variable == old(self).selected_variable,
                self.variables@.len() == orig.len(),
                orig == old(self).variables@,
                0 <= k <= orig.len(),
                forall|m: int|
                    k <= m < orig.len() ==> #[trigger] self.variables@[m] == orig[m],
                forall|m: int|
                    0 <= m < k ==> {
                        &&& (#[trigger] self.variables@[m]).name@ == orig[m].name@
                        &&& registered(
                            orig[m].contents.deep_view(),
                            self.variables@[m].contents.deep_view(),
                            scan_ids(template_json@, 0, false),
                        )
                    },
            decreases orig.len() - k,
        {
            let ghost prev = self.variables@;
            let mut v = self.variables.remove(k);
            v.update_from_template_string(template_json);
            self.variables.insert(k, v);
            proof {
                assert(self.variables@ =~= prev.update(k as int, self.variables@[k as int]));
                assert forall|k1: int, k2: int|
                    0 <= k1 < k2 < self.variables@.len() implies self.variables@[k1].name@
                    != self.variables@[k2].name@ by {
                    if k1 != k && k2 != k {
                        assert(self.variables@[k1] == prev[k1] && self.variables@[k2] == prev[k2]);
                    } else if k1 == k {
                        assert(self.variables@[k2] == prev[k2]);
                    } else {
                        assert(self.variables@[k1] == prev[k1]);
                    }
                }
            }
            k = k + 1;
        }
    }

    /// Registers every input placeholder of a response body in every
    /// variable of the project, under the same rule as for templates:
    /// only literal input placeholders, never generated ones.
    pub fn update_variables_from_response_body(&mut self, response_body: &str)
        requires
            old(self).wf(),
        ensures
            final(self).wf(),
            final(self).name@ == old(self).name@,
            final(self).templates@ == old(self).templates@,
            final(self).selected_variable == old(self).selected_variable,
            final(self).variables@.len() == old(self).variables@.len(),
            forall|k: int|
                0 <= k < old(self).variables@.len() ==> {
                    &&& (#[trigger] final(self).variables@[k]).name@ == old(self).variables@[k].name@
                    &&& registered(
                        old(self).variables@[k].contents.deep_view(),
                        final(self).variables@[k].contents.deep_view(),
                        scan_ids(response_body@, 0, false),
                    )
                },
    {
        self.update_variables(response_body)
    }
}

impl Root {
    /// Every project is sound and no project name repeats.
    pub open spec fn wf(&self) -> bool {
        &&& (forall|k: int| 0 <= k < self.projects@.len() ==> (#[trigger] self.projects@[k]).wf())
        &&& (forall|k1: int, k2: int|
            0 <= k1 < k2 < self.projects@.len() ==> self.projects@[k1].name@
                != self.projects@[k2].name@)
    }

    /// A store with no projects yet.
    pub fn new() -> (r: Root)
        ensures
            r.projects@.len() == 0,
            r.wf(),
    {
        Root { projects: Vec::new() }
    }
}

} // verus!
