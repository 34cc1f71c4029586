use vstd::prelude::*;
use crate::order::{insert_sorted, rows, search_sorted, sorted};
use crate::text::chars_of;

verus! {

/// The texts of a list of string slices, in order.
pub open spec fn slice_texts(list: Seq<&'static str>) -> Seq<Seq<char>> {
    list.map_values(|s: &'static str| s@)
}

/// Names of directories that hold dependencies, build output, caches or virtual
/// environments: vast subtrees in which no repository is looked for.
pub open spec fn fast_skip_names_spec() -> Seq<&'static str> {
    seq![
        // package managers and dependencies
        "Pods",
        "node_modules",
        "site-packages",
        "vendor",
        // build outputs and artifacts
        "Debug",
        "Release",
        "_build",
        "bazel-bin",
        "bazel-out",
        "bin",
        "build",
        "cmake-build-debug",
        "cmake-build-release",
        "dist",
        "obj",
        "out",
        "target",
        // caches and temporary files
        ".cache",
        ".cargo",
        ".ccls-cache",
        ".clangd",
        ".coverage",
        ".gradle",
        ".ivy2",
        ".jest",
        ".m2",
        ".mypy_cache",
        ".npm",
        ".nyc_output",
        ".pytest_cache",
        ".ruff_cache",
        ".sbt",
        ".yarn",
        "__pycache__",
        "coverage",
        // virtual environments
        ".env",
        ".venv",
        "anaconda3",
        "env",
        "miniconda3",
        "venv",
        "virtualenv",
        // editors
        ".idea",
        ".vs",
        ".vscode",
        "DerivedData",
        // frameworks
        ".angular",
        ".next",
        ".nuxt",
        ".solid",
        ".svelte-kit",
        ".turbo",
        // infrastructure
        ".docker",
        ".terraform",
        ".terragrunt-cache",
        "terraform.tfstate.d",
        // language tooling
        ".go",
        ".nodenv",
        ".pyenv",
        ".rbenv",
        ".rustup",
        // logs and runtime data
        ".log",
        ".tmp",
        "logs",
        "temp",
        "tmp",
        // operating system
        "$RECYCLE.BIN",
        ".DS_Store",
        ".Trash",
        "System Volume Information",
    ]
}

/// The names of `fast_skip_names_spec`, as a list.
pub fn fast_skip_names() -> (names: Vec<&'static str>)
    ensures
        names@ == fast_skip_names_spec(),
{
    let names = vec![
        // package managers and dependencies
        "Pods",
        "node_modules",
        "site-packages",
        "vendor",
        // build outputs and artifacts
        "Debug",
        "Release",
        "_build",
        "bazel-bin",
        "bazel-out",
        "bin",
        "build",
        "cmake-build-debug",
        "cmake-build-release",
        "dist",
        "obj",
        "out",
        "target",
        // caches and temporary files
        ".cache",
        ".cargo",
        ".ccls-cache",
        ".clangd",
        ".coverage",
        ".gradle",
        ".ivy2",
        ".jest",
        ".m2",
        ".mypy_cache",
        ".npm",
        ".nyc_output",
        ".pytest_cache",
        ".ruff_cache",
        ".sbt",
        ".yarn",
        "__pycache__",
        "coverage",
        // virtual environments
        ".env",
        ".venv",
        "anaconda3",
        "env",
        "miniconda3",
        "venv",
        "virtualenv",
        // editors
        ".idea",
        ".vs",
        ".vscode",
        "DerivedData",
        // frameworks
        ".angular",
        ".next",
        ".nuxt",
        ".solid",
        ".svelte-kit",
        ".turbo",
        // infrastructure
        ".docker",
        ".terraform",
        ".terragrunt-cache",
        "terraform.tfstate.d",
        // language tooling
        ".go",
        ".nodenv",
        ".pyenv",
        ".rbenv",
        ".rustup",
        // logs and runtime data
        ".log",
        ".tmp",
        "logs",
        "temp",
        "tmp",
        // operating system
        "$RECYCLE.BIN",
        ".DS_Store",
        ".Trash",
        "System Volume Information",
    ];
    assert(names@ =~= fast_skip_names_spec());
    names
}

/// A set of directory names, kept sorted so that a name is found by binary search.
pub struct SkipList {
    names: Vec<Vec<char>>,
}

impl SkipList {
    /// The names, in dictionary order.
    pub closed spec fn names(&self) -> Seq<Seq<char>> {
        rows(self.names@)
    }

    /// The names stand in dictionary order.
    pub closed spec fn wf(&self) -> bool {
        sorted(rows(self.names@))
    }

    /// `name` is one of the names.
    pub open spec fn holds(&self, name: Seq<char>) -> bool {
        self.names().contains(name)
    }

    /// The skip list that holds exactly the given names.
    pub fn from_names(names: &Vec<&'static str>) -> (list: SkipList)
        ensures
            list.wf(),
            forall|name: Seq<char>| list.holds(name) <==> slice_texts(names@).contains(name),
    {
        let ghost wanted = slice_texts(names@);
        let mut sorted_names: Vec<Vec<char>> = Vec::new();
        let mut i: usize = 0;
        while i < names.len()
            invariant
                i <= names.len(),
                wanted == slice_texts(names@),
                sorted(rows(sorted_names@)),
                forall|name: Seq<char>|
                    rows(sorted_names@).contains(name) <==> wanted.take(i as int).contains(name),
            decreases names.len() - i,
        {
            let ghost before = rows(sorted_names@);
            let row = chars_of(names[i]);
            let at = insert_sorted(&mut sorted_names, row);
            proof {
                let after = rows(sorted_names@);
                let added = wanted[i as int];
                let prev = wanted.take(i as int);
                let next = wanted.take(i + 1);
                assert(after == before.insert(at as int, added));
                assert forall|name: Seq<char>| after.contains(name) <==> next.contains(name) by {
                    if after.contains(name) {
                        let k = choose|k: int| 0 <= k < after.len() && after[k] == name;
                        if k < at {
                            assert(before[k] == name);
                        } else if k == at {
                            assert(next[i as int] == name);
                        } else {
                            assert(before[k - 1] == name);
                        }
                        if before.contains(name) {
                            let j = choose|j: int| 0 <= j < prev.len() && prev[j] == name;
                            assert(next[j] == name);
                        }
                    }
                    if next.contains(name) {
                        let j = choose|j: int| 0 <= j < next.len() && next[j] == name;
                        if j < i {
                            assert(prev[j] == name);
                            assert(before.contains(name));
                            let k = choose|k: int| 0 <= k < before.len() && before[k] == name;
                            if k < at {
                                assert(after[k] == name);
                            } else {
                                assert(after[k + 1] == name);
                            }
                        } else {
                            assert(after[at as int] == name);
                        }
                    }
                }
            }
            i += 1;
        }
        assert(wanted.take(names.len() as int) =~= wanted);
        SkipList { names: sorted_names }
    }

    /// Whether `name` is one of the names.
    pub fn contains(&self, name: &str) -> (held: bool)
        requires
            self.wf(),
        ensures
            held == self.holds(name@),
    {
        let key = chars_of(name);
        match search_sorted(&self.names, &key) {
            Some(i) => {
                assert(rows(self.names@)[i as int] == key@);
                true
            },
            None => false,
        }
    }
}

} // verus!
