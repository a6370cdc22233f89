//! Editor catalogue and the selection rules over it.
//!
//! Which editors are present on a machine, or installed in an
//! environment, is decided by probing the system; the probing itself
//! happens outside this library. Here live the catalogue and the pure
//! rules: picking the executable word of a command line, filtering the
//! catalogue by a presence mask, and subtracting the already-available
//! editors from the installable ones.

use vstd::prelude::*;
use vstd::string::StrSliceExecFns;

verus! {

/// One known editor: the command that launches it in a workspace, its
/// display name and blurb, and the package that provides it where it is
/// installable inside an environment.
#[derive(Clone, Copy, Debug, PartialEq, Eq)]
pub struct Editor {
    pub command: &'static str,
    pub name: &'static str,
    pub description: &'static str,
    pub package_name: Option<&'static str>,
}

/// Whitespace for the purpose of splitting a command line.
pub open spec fn is_space(c: char) -> bool {
    c == ' ' || c == '\t' || c == '\r' || c == '\n'
}

/// The package a given editor is provided by, if any.
pub open spec fn pkg_of(e: Editor) -> Option<Seq<char>> {
    match e.package_name {
        Some(p) => Some(p@),
        None => None,
    }
}

/// Whether some editor in `editors` is provided by package `p`.
pub open spec fn has_pkg(editors: Seq<Editor>, p: Option<Seq<char>>) -> bool {
    exists|i: int| 0 <= i < editors.len() && pkg_of(editors[i]) == p
}

/// The editors selected by a presence mask, in catalogue order.
pub open spec fn masked(editors: Seq<Editor>, mask: Seq<bool>) -> Seq<Editor>
    decreases editors.len(),
{
    if editors.len() == 0 {
        Seq::empty()
    } else {
        (if mask[0] {
            seq![editors[0]]
        } else {
            Seq::empty()
        }) + masked(editors.drop_first(), mask.drop_first())
    }
}

/// The editors of `candidates` whose package is not yet represented in
/// `available`, in catalogue order.
pub open spec fn not_yet_available(candidates: Seq<Editor>, available: Seq<Editor>) -> Seq<
    Editor,
>
    decreases candidates.len(),
{
    if candidates.len() == 0 {
        Seq::empty()
    } else {
        (if has_pkg(available, pkg_of(candidates[0])) {
            Seq::empty()
        } else {
            seq![candidates[0]]
        }) + not_yet_available(candidates.drop_first(), available)
    }
}

/// Editors detected through the system search path.
pub fn known_system_editors() -> (r: Vec<Editor>)
    ensures
        r@.len() == 8,
        forall|i: int| 0 <= i < r@.len() ==> (#[trigger] r@[i]).package_name is None,
{
    let mut r: Vec<Editor> = Vec::new();
    r.push(
        Editor {
            command: "code .",
            name: "Visual Studio Code",
            description: "Code editing. Redefined.",
            package_name: None,
        },
    );
    r.push(
        Editor {
            command: "cursor .",
            name: "Cursor",
            description: "The AI Code Editor",
            package_name: None,
        },
    );
    r.push(
        Editor {
            command: "zed .",
            name: "Zed",
            description: "Code at the speed of thought",
            package_name: None,
        },
    );
    r.push(
        Editor {
            command: "subl .",
            name: "Sublime Text",
            description: "Text Editing, Done Right",
            package_name: None,
        },
    );
    r.push(
        Editor {
            command: "charm .",
            name: "PyCharm",
            description: "The Python IDE for Professional Developers",
            package_name: None,
        },
    );
    r.push(
        Editor {
            command: "idea .",
            name: "IntelliJ IDEA",
            description: "The IDE for Professional Java Development",
            package_name: None,
        },
    );
    r.push(
        Editor {
            command: "webstorm .",
            name: "WebStorm",
            description: "The JavaScript and TypeScript IDE",
            package_name: None,
        },
    );
    r.push(
        Editor {
            command: "rustrover .",
            name: "RustRover",
            description: "The Rust IDE by JetBrains",
            package_name: None,
        },
    );
    r
}

/// Editors that can be installed into an environment.
pub fn installable_editors() -> (r: Vec<Editor>)
    ensures
        r@.len() == 2,
        forall|i: int| 0 <= i < r@.len() ==> (#[trigger] r@[i]).package_name is Some,
{
    let mut r: Vec<Editor> = Vec::new();
    r.push(
        Editor {
            command: "jupyter lab",
            name: "Jupyter Lab",
            description: "Web-based interactive development environment",
            package_name: Some("jupyter"),
        },
    );
    r.push(
        Editor {
            command: "spyder -p .",
            name: "Spyder",
            description: "The Scientific Python Development Environment",
            package_name: Some("spyder"),
        },
    );
    r
}

/// The executable word of a command line: the first maximal run of
/// non-whitespace characters, or empty if there is none.
pub fn executable_of(command: &str) -> (r: String)
    ensures
        exists|a: int, b: int|
            {
                &&& 0 <= a <= b <= command@.len()
                &&& r@ == command@.subrange(a, b)
                &&& (forall|j: int| 0 <= j < a ==> is_space(#[trigger] command@[j]))
                &&& (forall|j: int| a <= j < b ==> !is_space(#[trigger] command@[j]))
                &&& (b == command@.len() || is_space(command@[b]))
            },
{
    let n = command.unicode_len();
    let mut a: usize = 0;
    while a < n && is_space_char(command.get_char(a))
        invariant
            a <= n,
            n == command@.len(),
            forall|j: int| 0 <= j < a ==> is_space(#[trigger] command@[j]),
        decreases n - a,
    {
        a = a + 1;
    }
    let mut b: usize = a;
    while b < n && !is_space_char(command.get_char(b))
        invariant
            a <= b <= n,
            n == command@.len(),
            forall|j: int| a <= j < b ==> !is_space(#[trigger] command@[j]),
        decreases n - b,
    {
        b = b + 1;
    }
    let word = command.substring_char(a, b);
    word.to_owned()
}

/// Whether `c` counts as whitespace when splitting a command line.
fn is_space_char(c: char) -> (r: bool)
    ensures
        r == is_space(c),
{
    c == ' ' || c == '\t' || c == '\r' || c == '\n'
}

/// Selects the editors marked present, keeping catalogue order.
pub fn filter_by_mask(editors: &Vec<Editor>, present: &Vec<bool>) -> (r: Vec<Editor>)
    requires
        editors@.len() == present@.len(),
    ensures
        r@ == masked(editors@, present@),
{
    let mut r: Vec<Editor> = Vec::new();
    let n = editors.len();
    let mut i: usize = 0;
    while i < n
        invariant
            i <= n,
            n == editors@.len(),
            editors@.len() == present@.len(),
            r@ == masked(editors@.take(i as int), present@.take(i as int)),
        decreases n - i,
    {
        if present[i] {
            r.push(editors[i]);
        }
        proof {
            lemma_masked_snoc(editors@, present@, i as int);
        }
        i = i + 1;
    }
    proof {
        assert(editors@.take(n as int) =~= editors@);
        assert(present@.take(n as int) =~= present@);
    }
    r
}

/// Subtracts the already-available editors from `candidates`, matching
/// on the providing package.
pub fn not_in(candidates: &Vec<Editor>, available: &Vec<Editor>) -> (r: Vec<Editor>)
    ensures
        r@ == not_yet_available(candidates@, available@),
{
    let mut r: Vec<Editor> = Vec::new();
    let n = candidates.len();
    let mut i: usize = 0;
    while i < n
        invariant
            i <= n,
            n == candidates@.len(),
            r@ == not_yet_available(candidates@.take(i as int), available@),
        decreases n - i,
    {
        if !contains_pkg(available, &candidates[i]) {
            r.push(candidates[i]);
        }
        proof {
            lemma_not_yet_available_snoc(candidates@, available@, i as int);
        }
        i = i + 1;
    }
    proof {
        assert(candidates@.take(n as int) =~= candidates@);
    }
    r
}

/// Whether any editor of `available` is provided by the same package as
/// `candidate`.
fn contains_pkg(available: &Vec<Editor>, candidate: &Editor) -> (r: bool)
    ensures
        r == has_pkg(available@, pkg_of(*candidate)),
{
    let n = available.len();
    let mut i: usize = 0;
    while i < n
        invariant
            i <= n,
            n == available@.len(),
            forall|j: int| 0 <= j < i ==> pkg_of(#[trigger] available@[j]) != pkg_of(*candidate),
        decreases n - i,
    {
        if same_pkg(&available[i], candidate) {
            return true;
        }
        i = i + 1;
    }
    false
}

/// Whether two editors are provided by the same package.
fn same_pkg(x: &Editor, y: &Editor) -> (r: bool)
    ensures
        r == (pkg_of(*x) == pkg_of(*y)),
{
    match (x.package_name, y.package_name) {
        (Some(p), Some(q)) => crate::text::str_eq(p, q),
        (None, None) => true,
        _ => false,
    }
}

proof fn lemma_masked_snoc(editors: Seq<Editor>, mask: Seq<bool>, i: int)
    requires
        0 <= i < editors.len(),
        editors.len() == mask.len(),
    ensures
        masked(editors.take(i + 1), mask.take(i + 1)) == masked(editors.take(i), mask.take(i))
            + (if mask[i] {
            seq![editors[i]]
        } else {
            Seq::<Editor>::empty()
        }),
    decreases i,
{
    if i == 0 {
        assert(editors.take(1).drop_first() =~= Seq::<Editor>::empty());
        assert(mask.take(1).drop_first() =~= Seq::<bool>::empty());
        assert(editors.take(0) =~= Seq::<Editor>::empty());
        assert(mask.take(0) =~= Seq::<bool>::empty());
        assert(masked(editors.take(1), mask.take(1)) =~= masked(editors.take(0), mask.take(0))
            + (if mask[0] {
            seq![editors[0]]
        } else {
            Seq::<Editor>::empty()
        }));
    } else {
        assert(editors.take(i + 1).drop_first() =~= editors.drop_first().take(i));
        assert(mask.take(i + 1).drop_first() =~= mask.drop_first().take(i));
        assert(editors.take(i).drop_first() =~= editors.drop_first().take(i - 1));
        assert(mask.take(i).drop_first() =~= mask.drop_first().take(i - 1));
        lemma_masked_snoc(editors.drop_first(), mask.drop_first(), i - 1);
        assert(masked(editors.take(i + 1), mask.take(i + 1)) =~= masked(
            editors.take(i),
            mask.take(i),
        ) + (if mask[i] {
            seq![editors[i]]
        } else {
            Seq::<Editor>::empty()
        }));
    }
}

proof fn lemma_not_yet_available_snoc(candidates: Seq<Editor>, available: Seq<Editor>, i: int)
    requires
        0 <= i < candidates.len(),
    ensures
        not_yet_available(candidates.take(i + 1), available) == not_yet_available(
            candidates.take(i),
            available,
        ) + (if has_pkg(available, pkg_of(candidates[i])) {
            Seq::<Editor>::empty()
        } else {
            seq![candidates[i]]
        }),
    decreases i,
{
    if i == 0 {
        assert(candidates.take(1).drop_first() =~= Seq::<Editor>::empty());
        assert(candidates.take(0) =~= Seq::<Editor>::empty());
        assert(not_yet_available(candidates.take(1), available) =~= not_yet_available(
            candidates.take(0),
            available,
        ) + (if has_pkg(available, pkg_of(candidates[0])) {
            Seq::<Editor>::empty()
        } else {
            seq![candidates[0]]
        }));
    } else {
        assert(candidates.take(i + 1).drop_first() =~= candidates.drop_first().take(i));
        assert(candidates.take(i).drop_first() =~= candidates.drop_first().take(i - 1));
        lemma_not_yet_available_snoc(candidates.drop_first(), available, i - 1);
        assert(not_yet_available(candidates.take(i + 1), available) =~= not_yet_available(
            candidates.take(i),
            available,
        ) + (if has_pkg(available, pkg_of(candidates[i])) {
            Seq::<Editor>::empty()
        } else {
            seq![candidates[i]]
        }));
    }
}

} // verus!
