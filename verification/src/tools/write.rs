//! The write tool's rules: which writes are refused before touching the
//! disk, and how the outcome is reported.
use vstd::prelude::*;

use crate::text::{decimal, decimal_string, has_infix, owned, push_str};
use crate::tools::{is_protected_file, texts, PROTECTED_FILES};

verus! {

/// The largest content the tool writes, in bytes (1 MiB).
pub const MAX_WRITE_SIZE: usize = 1048576;

/// The length of a text in UTF-8 bytes.
pub open spec fn byte_len(s: &str) -> nat {
    s.len() as nat
}

/// Why a write is refused, checked in this order: no path, a protected file
/// name, a `..` in the path, content over the size limit.
pub open spec fn refusal(file_path: &str, file_name: Option<&str>, content: &str) -> Option<Seq<char>> {
    if file_path@.len() == 0 {
        Some("Error: 'file_path' is required"@)
    } else if file_name matches Some(n) && texts(PROTECTED_FILES@).contains(n@) {
        Some("Cannot write to protected file: "@ + file_name->0@)
    } else if has_infix(file_path@, seq!['.', '.']) {
        Some("Path traversal not allowed"@)
    } else if byte_len(content) > MAX_WRITE_SIZE {
        Some("Content too large ("@ + decimal(byte_len(content)) + " bytes, limit is 1048576)"@)
    } else {
        None
    }
}

/// The message that refuses a write, if the write is refused. `file_name`
/// is the last component of the path, where it has one.
pub fn write_refusal(file_path: &str, file_name: Option<&str>, content: &str) -> (r: Option<String>)
    ensures
        match refusal(file_path, file_name, content) {
            None => r is None,
            Some(m) => r matches Some(t) && t@ == m,
        },
{
    if file_path.is_empty() {
        return Some(owned("Error: 'file_path' is required"));
    }
    if let Some(name) = file_name {
        if is_protected_file(name) {
            let mut m = owned("Cannot write to protected file: ");
            push_str(&mut m, name);
            return Some(m);
        }
    }
    proof {
        reveal_strlit("..");
        assert(".."@ == seq!['.', '.']);
    }
    if crate::text::contains(file_path, "..") {
        return Some(owned("Path traversal not allowed"));
    }
    let len = content.len();
    if len > MAX_WRITE_SIZE {
        let mut m = owned("Content too large (");
        push_str(&mut m, decimal_string(len as u64).as_str());
        push_str(&mut m, " bytes, limit is 1048576)");
        return Some(m);
    }
    None
}

/// The report of a write: an empty file created, or how many bytes were
/// written; or why the write failed.
pub fn write_report(file_path: &str, content: &str, outcome: Result<(), String>) -> (r: String)
    ensures
        match outcome {
            Err(e) => r@ == "Error writing file: "@ + e@,
            Ok(()) => if content@.len() == 0 {
                r@ == "Created empty file: "@ + file_path@
            } else {
                r@ == "Wrote "@ + decimal(byte_len(content)) + " bytes to "@ + file_path@
            },
        },
{
    match outcome {
        Err(e) => {
            let mut m = owned("Error writing file: ");
            push_str(&mut m, e.as_str());
            assert(m@ == "Error writing file: "@ + e@);
            m
        },
        Ok(()) => {
            if content.is_empty() {
                let mut m = owned("Created empty file: ");
                push_str(&mut m, file_path);
                m
            } else {
                let mut m = owned("Wrote ");
                push_str(&mut m, decimal_string(content.len() as u64).as_str());
                push_str(&mut m, " bytes to ");
                push_str(&mut m, file_path);
                m
            }
        },
    }
}

/// The report when the parent directory could not be created.
pub fn parent_dir_failure(error: &str) -> (r: String)
    ensures
        r@ == "Cannot create parent directory: "@ + error@,
{
    let mut m = owned("Cannot create parent directory: ");
    push_str(&mut m, error);
    m
}

} // verus!
