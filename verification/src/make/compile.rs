//! What the name of a file says about its contents.

use crate::ast::name::ModuleName;
use crate::result::Warning;
use vstd::prelude::*;
use vstd::string::StringExecFns;

verus! {

/// The extension of syntax trees.
pub const EXTENSION_AST: &'static str = "ast";

/// The extension of the exports of syntax trees.
pub const EXTENSION_AST_EXPORTS: &'static str = "ast-exports";

/// The extension of source files.
pub const EXTENSION_DITTO: &'static str = "ditto";

/// The extension of generated JavaScript.
pub const EXTENSION_JS: &'static str = "js";

/// The extension of the checker's warnings.
pub const EXTENSION_CHECKER_WARNINGS: &'static str = "checker-warnings";

/// `i` is the place of the first dot in `name`.
pub open spec fn first_dot_at(name: Seq<char>, i: int) -> bool {
    &&& 0 <= i < name.len()
    &&& name[i] == '.'
    &&& forall|j: int| 0 <= j < i ==> name[j] != '.'
}

/// Returns everything after the first dot in a file's name.
///
/// Useful for extensions like `.d.ts`, of which the part after the last dot
/// is only `ts`.
pub fn full_extension(file_name: &str) -> (extension: Option<&str>)
    ensures
        extension is None <==> forall|j: int| 0 <= j < file_name@.len() ==> file_name@[j] != '.',
        extension matches Some(found) ==> exists|i: int|
            first_dot_at(file_name@, i) && found@ == file_name@.subrange(
                i + 1,
                file_name@.len() as int,
            ),
{
    let n = file_name.unicode_len();
    let mut i: usize = 0;
    while i < n
        invariant
            n == file_name@.len(),
            i <= n,
            forall|j: int| 0 <= j < i ==> file_name@[j] != '.',
        decreases n - i,
    {
        if file_name.get_char(i) == '.' {
            assert(first_dot_at(file_name@, i as int));
            return Some(file_name.substring_char(i + 1, n));
        }
        i += 1;
    }
    None
}

/// What a file holds, going by the full extension of its name.
#[derive(Debug, Clone, Copy, PartialEq, Eq, Structural)]
pub enum FileKind {
    /// A source file.
    Ditto,
    /// A checked syntax tree.
    Ast,
    /// The exports of a checked module.
    AstExports,
    /// Generated JavaScript.
    Js,
    /// The warnings of the checker.
    CheckerWarnings,
    /// Anything else.
    Other,
}

/// The kind of file that an extension stands for.
pub open spec fn kind_of_extension(extension: Seq<char>) -> FileKind {
    if extension == EXTENSION_DITTO@ {
        FileKind::Ditto
    } else if extension == EXTENSION_AST@ {
        FileKind::Ast
    } else if extension == EXTENSION_AST_EXPORTS@ {
        FileKind::AstExports
    } else if extension == EXTENSION_JS@ {
        FileKind::Js
    } else if extension == EXTENSION_CHECKER_WARNINGS@ {
        FileKind::CheckerWarnings
    } else {
        FileKind::Other
    }
}

/// Are the two texts the same?
pub fn same_text(a: &str, b: &str) -> (same: bool)
    ensures
        same == (a@ == b@),
{
    let n = a.unicode_len();
    if n != b.unicode_len() {
        return false;
    }
    let mut i: usize = 0;
    while i < n
        invariant
            n == a@.len(),
            n == b@.len(),
            i <= n,
            forall|j: int| 0 <= j < i ==> a@[j] == b@[j],
        decreases n - i,
    {
        if a.get_char(i) != b.get_char(i) {
            return false;
        }
        i += 1;
    }
    assert(a@ =~= b@);
    true
}

/// What the file of the given name holds: the kind that its full extension
/// stands for, and `Other` where the name has no dot.
pub fn file_kind(file_name: &str) -> (kind: FileKind)
    ensures
        (forall|j: int| 0 <= j < file_name@.len() ==> file_name@[j] != '.') ==> kind
            == FileKind::Other,
        forall|i: int|
            first_dot_at(file_name@, i) ==> kind == kind_of_extension(
                file_name@.subrange(i + 1, file_name@.len() as int),
            ),
{
    match full_extension(file_name) {
        Some(extension) => {
            proof {
                let found = choose|i: int|
                    first_dot_at(file_name@, i) && extension@ == file_name@.subrange(
                        i + 1,
                        file_name@.len() as int,
                    );
                assert forall|i: int| first_dot_at(file_name@, i) implies i == found by {
                    if i < found {
                        assert(file_name@[i] != '.');
                    }
                    if found < i {
                        assert(file_name@[found] != '.');
                    }
                }
            }
            if same_text(extension, EXTENSION_DITTO) {
                FileKind::Ditto
            } else if same_text(extension, EXTENSION_AST) {
                FileKind::Ast
            } else if same_text(extension, EXTENSION_AST_EXPORTS) {
                FileKind::AstExports
            } else if same_text(extension, EXTENSION_JS) {
                FileKind::Js
            } else if same_text(extension, EXTENSION_CHECKER_WARNINGS) {
                FileKind::CheckerWarnings
            } else {
                FileKind::Other
            }
        },
        None => {
            proof {
                assert forall|i: int| first_dot_at(file_name@, i) implies false by {
                    assert(file_name@[i] != '.');
                }
            }
            FileKind::Other
        },
    }
}

/// The warnings of one module, with what is needed to show them.
#[derive(Debug, Clone, PartialEq, Eq)]
pub struct WarningsBundle {
    /// The name of the file that the module was read from.
    pub name: String,
    /// The text of the module.
    pub source: String,
    /// The warnings.
    pub warnings: Vec<Warning>,
}

impl WarningsBundle {
    /// The bundle for a module, where the module has any warning.
    pub fn collect(name: String, source: String, warnings: Vec<Warning>) -> (bundle: Option<
        WarningsBundle,
    >)
        ensures
            bundle is None <==> warnings@.len() == 0,
            bundle matches Some(b) ==> b.name == name && b.source == source && b.warnings
                == warnings,
    {
        if warnings.len() == 0 {
            None
        } else {
            Some(WarningsBundle { name, source, warnings })
        }
    }
}

/// The first `n` parts of a module's name, with `separator` between them.
pub open spec fn joined(parts: Seq<Seq<char>>, separator: Seq<char>, n: nat) -> Seq<char>
    decreases n,
{
    if n == 0 || n > parts.len() {
        Seq::empty()
    } else if n == 1 {
        parts[0]
    } else {
        joined(parts, separator, (n - 1) as nat) + separator + parts[n - 1]
    }
}

/// The parts of a module's name, with `separator` between them.
pub fn module_name_into_string(module_name: &ModuleName, separator: &str) -> (text: String)
    ensures
        text@ == joined(module_name@, separator@, module_name@.len()),
{
    let mut text = String::new();
    let mut i: usize = 0;
    while i < module_name.0.len()
        invariant
            i <= module_name.0.len(),
            module_name@.len() == module_name.0.len(),
            text@ == joined(module_name@, separator@, i as nat),
        decreases module_name.0.len() - i,
    {
        if i > 0 {
            text.append(separator);
        }
        text.append(module_name.0[i].0.as_str());
        proof {
            assert(module_name@[i as int] == module_name.0@[i as int]@);
            if i == 0 {
                assert(Seq::<char>::empty() + module_name@[0] =~= module_name@[0]);
            }
        }
        i += 1;
    }
    text
}

/// The stem of the files of a module: the parts of its name with dots between them.
pub fn module_name_to_file_stem(module_name: &ModuleName) -> (stem: String)
    ensures
        stem@ == joined(module_name@, "."@, module_name@.len()),
{
    module_name_into_string(module_name, ".")
}

/// Where the JavaScript of a module lies, as a module that imports it sees
/// it: in the directory of its package, or beside the importing module.
pub open spec fn javascript_path(package_name: Option<Seq<char>>, stem: Seq<char>) -> Seq<char> {
    match package_name {
        Some(package_name) => package_name + "/"@ + stem + "."@ + EXTENSION_JS@,
        None => "./"@ + stem + "."@ + EXTENSION_JS@,
    }
}

/// See [`javascript_path`].
pub fn module_name_to_path(package_name: Option<&str>, module_name: &ModuleName) -> (path: String)
    ensures
        path@ == javascript_path(
            match package_name {
                Some(package_name) => Some(package_name@),
                None => None,
            },
            joined(module_name@, "."@, module_name@.len()),
        ),
{
    let stem = module_name_to_file_stem(module_name);
    let mut path = String::new();
    match package_name {
        Some(package_name) => {
            path.append(package_name);
            path.append("/");
            assert(path@ =~= package_name@ + "/"@);
        },
        None => {
            // Assume that JS files from the same ditto project are always going to be generated
            // into a flat directory
            path.append("./");
            assert(path@ =~= "./"@);
        },
    }
    path.append(stem.as_str());
    path.append(".");
    path.append(EXTENSION_JS);
    path
}

} // verus!
