use vstd::prelude::*;
use vstd::string::StrSliceExecFns;
use vstd::string::StringExecFns;

verus! {

/// True of the characters that act as path separators and are therefore
/// forbidden in project, template and variable names.
pub open spec fn is_path_sep(c: char) -> bool {
    c == '/' || c == '\\'
}

/// A name may stand for a directory or file under the root: it must be
/// non-empty and free of path separators, else it could escape the root.
pub open spec fn valid_name_spec(s: Seq<char>) -> bool {
    &&& s.len() > 0
    &&& forall|i: int| 0 <= i < s.len() ==> !is_path_sep(#[trigger] s[i])
}

/// Checks that a user-supplied name is safe to embed in a path.
pub fn valid_name(s: &str) -> (r: bool)
    ensures
        r == valid_name_spec(s@),
{
    let n = s.unicode_len();
    if n == 0 {
        return false;
    }
    let mut i: usize = 0;
    while i < n
        invariant
            n == s@.len(),
            0 <= i <= n,
            forall|j: int| 0 <= j < i ==> !is_path_sep(#[trigger] s@[j]),
        decreases n - i,
    {
        let c = s.get_char(i);
        if c == '/' || c == '\\' {
            return false;
        }
        i = i + 1;
    }
    true
}

/// The directory of a project: `root/{project}`.
pub fn project_dir(root: &str, project: &str) -> (r: String)
    ensures
        r@ == root@ + seq!['/'] + project@,
{
    proof {
        reveal_strlit("/");
    }
    let mut s = root.to_owned();
    s.append("/");
    s.append(project);
    proof {
        assert(s@ =~= root@ + seq!['/'] + project@);
    }
    s
}

/// The directory that holds a project's variables: `root/{project}/variables`.
pub fn variables_dir(root: &str, project: &str) -> (r: String)
    ensures
        r@ == root@ + seq!['/'] + project@ + "/variables"@,
{
    proof {
        reveal_strlit("/variables");
    }
    let mut s = project_dir(root, project);
    s.append("/variables");
    proof {
        assert(s@ =~= root@ + seq!['/'] + project@ + "/variables"@);
    }
    s
}

/// The file of a template: `root/{project}/{template}.json`.
pub fn template_file(root: &str, project: &str, template: &str) -> (r: String)
    ensures
        r@ == root@ + seq!['/'] + project@ + seq!['/'] + template@ + ".json"@,
{
    proof {
        reveal_strlit("/");
        reveal_strlit(".json");
    }
    let mut s = project_dir(root, project);
    s.append("/");
    s.append(template);
    s.append(".json");
    proof {
        assert(s@ =~= root@ + seq!['/'] + project@ + seq!['/'] + template@ + ".json"@);
    }
    s
}

/// The file of a variable: `root/{project}/variables/{variable}.json`.
pub fn variable_file(root: &str, project: &str, variable: &str) -> (r: String)
    ensures
        r@ == root@ + seq!['/'] + project@ + "/variables/"@ + variable@ + ".json"@,
{
    proof {
        reveal_strlit("/variables/");
        reveal_strlit(".json");
    }
    let mut s = project_dir(root, project);
    s.append("/variables/");
    s.append(variable);
    s.append(".json");
    proof {
        assert(s@ =~= root@ + seq!['/'] + project@ + "/variables/"@ + variable@ + ".json"@);
    }
    s
}

} // verus!
