//! Decides, for one directory entry, whether to descend into it, scan it,
//! pass it over, or report it as a fault.

use vstd::prelude::*;

verus! {

/// What is known of one directory entry before any repository query: its
/// path, and whether it is a directory (or why that could not be read).
#[derive(Debug)]
pub struct EntryInfo {
    pub path: String,
    pub is_dir: Result<bool, String>,
}

/// What the walk does with one directory entry.
#[derive(Debug)]
pub enum DirAction {
    /// A directory that is not ignored: descend into it.
    Enter(String),
    /// A file in the index that is not ignored: scan it.
    Check(String),
    /// Ignored, or a file absent from the index: pass over it.
    Skip,
    /// The entry could not be examined; the message says why.
    Fault(String),
}

/// The action for an entry, from the answers to the three questions asked of
/// it: is it a directory, is it ignored, is it in the index. An answer that
/// failed carries its message instead.
///
/// The answers are consulted in that order, and a later answer is only
/// consulted where the earlier ones leave the matter open: `indexed` plays no
/// part for a directory or an ignored entry.
pub open spec fn classify_spec(
    path: String,
    is_dir: Result<bool, String>,
    ignored: Result<bool, String>,
    indexed: Result<bool, String>,
) -> DirAction {
    match is_dir {
        Err(message) => DirAction::Fault(message),
        Ok(dir) => match ignored {
            Err(message) => DirAction::Fault(message),
            Ok(true) => DirAction::Skip,
            Ok(false) => if dir {
                DirAction::Enter(path)
            } else {
                match indexed {
                    Err(message) => DirAction::Fault(message),
                    Ok(true) => DirAction::Check(path),
                    Ok(false) => DirAction::Skip,
                }
            },
        },
    }
}

/// Whether the index has to be consulted to classify an entry.
pub open spec fn needs_index(is_dir: Result<bool, String>, ignored: Result<bool, String>) -> bool {
    is_dir == Ok::<bool, String>(false) && ignored == Ok::<bool, String>(false)
}

/// Classifies an entry from the answers gathered for it.
pub fn classify(
    path: String,
    is_dir: Result<bool, String>,
    ignored: Result<bool, String>,
    indexed: Result<bool, String>,
) -> (action: DirAction)
    ensures
        action == classify_spec(path, is_dir, ignored, indexed),
{
    match is_dir {
        Err(message) => DirAction::Fault(message),
        Ok(dir) => match ignored {
            Err(message) => DirAction::Fault(message),
            Ok(true) => DirAction::Skip,
            Ok(false) => {
                if dir {
                    DirAction::Enter(path)
                } else {
                    match indexed {
                        Err(message) => DirAction::Fault(message),
                        Ok(true) => DirAction::Check(path),
                        Ok(false) => DirAction::Skip,
                    }
                }
            },
        },
    }
}

/// An entry is scanned exactly when it is known to be a file, known not to be
/// ignored, and known to be in the index. In particular an ignored file, and
/// a file on disk that the index lacks, are never scanned.
pub proof fn lemma_check_iff_tracked_file(
    path: String,
    is_dir: Result<bool, String>,
    ignored: Result<bool, String>,
    indexed: Result<bool, String>,
)
    ensures
        classify_spec(path, is_dir, ignored, indexed) is Check <==> (is_dir == Ok::<bool, String>(
            false,
        ) && ignored == Ok::<bool, String>(false) && indexed == Ok::<bool, String>(true)),
        classify_spec(path, is_dir, ignored, indexed) is Check ==> classify_spec(
            path,
            is_dir,
            ignored,
            indexed,
        ) == DirAction::Check(path),
        ignored == Ok::<bool, String>(true) && is_dir is Ok ==> classify_spec(
            path,
            is_dir,
            ignored,
            indexed,
        ) is Skip,
{
}

/// Where the index need not be consulted, its answer does not matter.
pub proof fn lemma_index_only_when_needed(
    path: String,
    is_dir: Result<bool, String>,
    ignored: Result<bool, String>,
    indexed_a: Result<bool, String>,
    indexed_b: Result<bool, String>,
)
    requires
        !needs_index(is_dir, ignored),
    ensures
        classify_spec(path, is_dir, ignored, indexed_a) == classify_spec(
            path,
            is_dir,
            ignored,
            indexed_b,
        ),
{
}

} // verus!
