use vstd::prelude::*;
use crate::project::Project;
use crate::project::lemma_project_named_absent;
use crate::project::lemma_project_named_at;
use crate::project::project_named;

verus! {

/// Creating a project and then looking its name up yields the project
/// just created: it carries that name and holds no templates and no
/// variables yet. The premises are what creation guarantees.
pub proof fn lemma_create_then_get(ps: Seq<Project>, ps2: Seq<Project>, n: Seq<char>)
    requires
        project_named(ps, n) is None,
        ps2.len() == ps.len() + 1,
        ps2.take(ps.len() as int) == ps,
        ps2.last().name@ == n,
        ps2.last().variables@.len() == 0,
        ps2.last().templates@.len() == 0,
    ensures
        project_named(ps2, n) matches Some(q) && q.name@ == n && q.variables@.len() == 0
            && q.templates@.len() == 0,
{
    lemma_project_named_absent(ps, n);
    assert forall|m: int| 0 <= m < ps.len() implies (#[trigger] ps2[m]).name@ != n by {
        assert(ps2.take(ps.len() as int)[m] == ps2[m]);
        assert(ps2[m] == ps[m]);
    }
    lemma_project_named_at(ps2, n, ps.len() as int);
}

/// After renaming a project, the old name answers nothing, and the new
/// name yields the project with its variables intact. The premises are
/// what renaming guarantees, with the store's names unique.
pub proof fn lemma_rename_then_get(
    ps: Seq<Project>,
    ps2: Seq<Project>,
    a: Seq<char>,
    b: Seq<char>,
    ix: int,
)
    requires
        a != b,
        forall|k1: int, k2: int| 0 <= k1 < k2 < ps.len() ==> ps[k1].name@ != ps[k2].name@,
        0 <= ix < ps.len(),
        ps[ix].name@ == a,
        project_named(ps, b) is None,
        ps2.len() == ps.len(),
        forall|m: int| 0 <= m < ps.len() && m != ix ==> ps2[m] == #[trigger] ps[m],
        ps2[ix].name@ == b,
        ps2[ix].variables@ == ps[ix].variables@,
    ensures
        project_named(ps2, a) is None,
        project_named(ps2, b) matches Some(q) && q.variables@ == ps[ix].variables@,
{
    assert forall|k: int| 0 <= k < ps2.len() implies (#[trigger] ps2[k]).name@ != a by {
        if k != ix {
            assert(ps2[k] == ps[k]);
            if ps[k].name@ == a {
                if k < ix {
                    assert(ps[k].name@ != ps[ix].name@);
                } else {
                    assert(ps[ix].name@ != ps[k].name@);
                }
            }
        }
    }
    lemma_project_named_absent(ps2, a);
    lemma_project_named_absent(ps, b);
    assert forall|m: int| 0 <= m < ix implies (#[trigger] ps2[m]).name@ != b by {
        assert(ps2[m] == ps[m]);
    }
    lemma_project_named_at(ps2, b, ix);
}

/// After deleting a project, its name answers nothing: everything it
/// held, templates and variables alike, went with it. The premises are
/// what deletion guarantees, with the store's names unique.
pub proof fn lemma_delete_then_list(ps: Seq<Project>, a: Seq<char>, ix: int)
    requires
        forall|k1: int, k2: int| 0 <= k1 < k2 < ps.len() ==> ps[k1].name@ != ps[k2].name@,
        0 <= ix < ps.len(),
        ps[ix].name@ == a,
    ensures
        project_named(ps.remove(ix), a) is None,
{
    let ps2 = ps.remove(ix);
    assert forall|k: int| 0 <= k < ps2.len() implies (#[trigger] ps2[k]).name@ != a by {
        let m: int = if k < ix {
            k
        } else {
            k + 1
        };
        assert(ps2[k] == ps[m]);
        if ps[m].name@ == a && m != ix {
            if m < ix {
                assert(ps[m].name@ != ps[ix].name@);
            } else {
                assert(ps[ix].name@ != ps[m].name@);
            }
        }
    }
    lemma_project_named_absent(ps2, a);
}

} // verus!
