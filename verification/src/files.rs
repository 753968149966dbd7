//! The rules of the plain file helpers: which directory entries a folder
//! scan skips, which files count as readable text, the size caps, and the
//! choice of the models storage directory. The walking itself is I/O and
//! stays with the shell; these are the decisions it applies.
use vstd::prelude::*;
use crate::events::BridgeError;
use crate::events::StorageInfo;
use crate::events::StorageInfoV;

verus! {

/// Files above this many bytes are left out of a folder scan.
pub const FOLDER_FILE_SIZE_CAP: u64 = 1048576;

/// Files above this many bytes are refused by the single-file reader.
pub const READ_FILE_SIZE_CAP: u64 = 10485760;

/// How deep below the scanned folder the walk descends.
pub const FOLDER_SCAN_DEPTH_CAP: usize = 5;

/// The text the engine-independent lowercasing makes of some characters;
/// it depends on the characters alone.
pub uninterp spec fn lower_of(text: Seq<char>) -> Seq<char>;

/// Relies on str::to_lowercase: the result depends on the characters
/// alone.
#[verifier::external_body]
fn to_lowercase_text(text: &str) -> (r: String)
    ensures
        r@ == lower_of(text@),
{
    text.to_lowercase()
}

/// A directory entry a folder scan passes over: hidden entries and the
/// usual build and dependency directories.
pub open spec fn skip_entry_spec(name: Seq<char>) -> bool {
    ||| (name.len() > 0 && name[0] == '.')
    ||| name == "node_modules"@
    ||| name == "target"@
    ||| name == "dist"@
}

/// Whether a folder scan passes this entry over entirely.
pub fn is_skipped_entry(name: &String) -> (r: bool)
    ensures
        r == skip_entry_spec(name@),
{
    if !name.as_str().is_empty() {
        if name.as_str().get_char(0) == '.' {
            return true;
        }
    }
    *name == String::from_str("node_modules") || *name == String::from_str("target") || *name
        == String::from_str("dist")
}

/// Whether the walk may enter a subdirectory this deep.
pub fn may_descend(depth: usize) -> (r: bool)
    ensures
        r == (depth <= FOLDER_SCAN_DEPTH_CAP),
{
    depth <= FOLDER_SCAN_DEPTH_CAP
}

/// A lowercased file extension the folder scan reads as text.
pub open spec fn text_extension(ext: Seq<char>) -> bool {
    ||| ext == "txt"@
    ||| ext == "md"@
    ||| ext == "json"@
    ||| ext == "csv"@
    ||| ext == "xml"@
    ||| ext == "yaml"@
    ||| ext == "yml"@
    ||| ext == "toml"@
    ||| ext == "ini"@
    ||| ext == "cfg"@
    ||| ext == "log"@
    ||| ext == "js"@
    ||| ext == "ts"@
    ||| ext == "tsx"@
    ||| ext == "jsx"@
    ||| ext == "py"@
    ||| ext == "rs"@
    ||| ext == "go"@
    ||| ext == "java"@
    ||| ext == "c"@
    ||| ext == "cpp"@
    ||| ext == "h"@
    ||| ext == "hpp"@
    ||| ext == "css"@
    ||| ext == "html"@
    ||| ext == "sql"@
    ||| ext == "sh"@
    ||| ext == "bash"@
    ||| ext == "zsh"@
    ||| ext == "swift"@
    ||| ext == "kt"@
    ||| ext == "rb"@
    ||| ext == "php"@
    ||| ext == "env"@
    ||| ext == "gitignore"@
    ||| ext == "dockerfile"@
    ||| ext == "makefile"@
}

fn is_listed_extension(ext: &String) -> (r: bool)
    ensures
        r == text_extension(ext@),
{
    *ext == String::from_str("txt") || *ext == String::from_str("md") || *ext == String::from_str(
        "json",
    ) || *ext == String::from_str("csv") || *ext == String::from_str("xml") || *ext
        == String::from_str("yaml") || *ext == String::from_str("yml") || *ext == String::from_str(
        "toml",
    ) || *ext == String::from_str("ini") || *ext == String::from_str("cfg") || *ext
        == String::from_str("log") || *ext == String::from_str("js") || *ext == String::from_str(
        "ts",
    ) || *ext == String::from_str("tsx") || *ext == String::from_str("jsx") || *ext
        == String::from_str("py") || *ext == String::from_str("rs") || *ext == String::from_str(
        "go",
    ) || *ext == String::from_str("java") || *ext == String::from_str("c") || *ext
        == String::from_str("cpp") || *ext == String::from_str("h") || *ext == String::from_str(
        "hpp",
    ) || *ext == String::from_str("css") || *ext == String::from_str("html") || *ext
        == String::from_str("sql") || *ext == String::from_str("sh") || *ext == String::from_str(
        "bash",
    ) || *ext == String::from_str("zsh") || *ext == String::from_str("swift") || *ext
        == String::from_str("kt") || *ext == String::from_str("rb") || *ext == String::from_str(
        "php",
    ) || *ext == String::from_str("env") || *ext == String::from_str("gitignore") || *ext
        == String::from_str("dockerfile") || *ext == String::from_str("makefile")
}

/// A file the folder scan collects: small enough, and either its
/// lowercased extension is a text extension or its lowercased name is one
/// of the two classic extensionless build files.
pub open spec fn folder_file_selected(
    name_lower: Seq<char>,
    ext_lower: Seq<char>,
    size: u64,
) -> bool {
    &&& size <= FOLDER_FILE_SIZE_CAP
    &&& {
        ||| text_extension(ext_lower)
        ||| name_lower == "makefile"@
        ||| name_lower == "dockerfile"@
    }
}

/// Whether the folder scan collects a file of this name, extension and
/// byte size.
pub fn folder_file_wanted(name: &String, extension: &String, size: u64) -> (r: bool)
    ensures
        r == folder_file_selected(lower_of(name@), lower_of(extension@), size),
{
    if size > FOLDER_FILE_SIZE_CAP {
        return false;
    }
    let ext_lower = to_lowercase_text(extension.as_str());
    let name_lower = to_lowercase_text(name.as_str());
    is_listed_extension(&ext_lower) || name_lower == String::from_str("makefile") || name_lower
        == String::from_str("dockerfile")
}

/// Admits a file to the single-file reader only under the fixed size cap.
pub fn check_readable_size(len: u64) -> (r: Result<(), BridgeError>)
    ensures
        r is Ok <==> len <= READ_FILE_SIZE_CAP,
        r is Err ==> (r matches Err(e) && e is FileTooLarge),
{
    if len <= READ_FILE_SIZE_CAP {
        Ok(())
    } else {
        Err(BridgeError::FileTooLarge)
    }
}

/// Chooses what to report as the models storage: the application's own
/// models directory whenever anything is in it, else the engine's default
/// directory where one can be named, else the application directory shown
/// as empty.
pub fn choose_storage(
    app_models_path: String,
    app_models_size: u64,
    fallback: Option<StorageInfo>,
) -> (r: StorageInfo)
    ensures
        app_models_size > 0 ==> r@ == (StorageInfoV {
            path: app_models_path@,
            size_bytes: app_models_size,
        }),
        app_models_size == 0 ==> match fallback {
            Some(f) => r@ == f@,
            None => r@ == (StorageInfoV { path: app_models_path@, size_bytes: 0u64 }),
        },
{
    if app_models_size > 0 {
        StorageInfo { path: app_models_path, size_bytes: app_models_size }
    } else {
        match fallback {
            Some(f) => f,
            None => StorageInfo { path: app_models_path, size_bytes: 0 },
        }
    }
}

/// Adds one directory entry's size into a running total without wrapping:
/// a total past the counter's range pins at its top instead.
pub fn add_entry_size(total: u64, len: u64) -> (r: u64)
    ensures
        total + len <= u64::MAX ==> r == total + len,
        total + len > u64::MAX ==> r == u64::MAX,
{
    if len <= u64::MAX - total {
        total + len
    } else {
        u64::MAX
    }
}

/// The file a stored key lives in: the key with the JSON suffix.
pub fn store_file_name(key: &str) -> (r: String)
    ensures
        r@ == key@ + ".json"@,
{
    let mut name = String::from_str(key);
    name.append(".json");
    name
}

} // verus!
