//! The repository a scan runs in: which paths it ignores, which it has in
//! its index, and which revision last touched a line.
//!
//! The answers come from `git2`. Nothing is claimed of what they hold, since
//! they depend on the repository on disk; what is proved is what the scan
//! does with each answer it may get. Paths are taken apart by the standard
//! library, which reads no disk for it: those results have names, and the
//! contracts say over them which paths are put to the repository at all.

use vstd::prelude::*;
use vstd::utf8::encode_utf8;
use crate::classify::classify;
use crate::classify::classify_spec;
use crate::classify::DirAction;
use crate::classify::EntryInfo;

verus! {

/// `git2::Repository`, an open repository. Opaque: it is only handed on.
#[verifier::external_type_specification]
#[verifier::external_body]
pub struct ExRepository(git2::Repository);

/// `git2::Error`, the error of a repository call. Opaque: only its text is
/// taken from it.
#[verifier::external_type_specification]
#[verifier::external_body]
pub struct ExGitError(git2::Error);

/// `git2::Index`, the index of a repository. Opaque: it is only queried.
#[verifier::external_type_specification]
#[verifier::external_body]
pub struct ExIndex(git2::Index);

/// `git2::Blame`, the blame of one file: the runs of lines it covers, each
/// with the revision that last changed it. Opaque: it is only queried.
#[verifier::external_type_specification]
#[verifier::external_body]
pub struct ExBlame<'repo>(git2::Blame<'repo>);

/// No byte of `bytes` is NUL.
pub open spec fn no_nul(bytes: Seq<u8>) -> bool {
    forall|i: int| 0 <= i < bytes.len() ==> bytes[i] != 0
}

/// Whether no byte of `bytes` is NUL.
pub fn free_of_nul(bytes: &[u8]) -> (free: bool)
    ensures
        free == no_nul(bytes@),
{
    let n: usize = bytes.len();
    let mut i: usize = 0;
    while i < n
        invariant
            n == bytes@.len(),
            i <= n,
            forall|j: int| 0 <= j < i ==> bytes@[j] != 0,
        decreases n - i,
    {
        if bytes[i] == 0 {
            return false;
        }
        i = i + 1;
    }
    true
}

/// The text of an optional string.
pub open spec fn text_of(text: Option<String>) -> Option<Seq<char>> {
    match text {
        Some(held) => Some(held@),
        None => None,
    }
}

/// `path` without its last component, or `None` where `path` ends in a root
/// or is empty.
///
/// This is the result of `std::path::Path::parent`. It is settled by the
/// path alone: the call reads nothing from the disk or the environment. How
/// a path is cut into components is the platform's affair, so nothing is
/// said here of the result on a given path.
pub uninterp spec fn parent_of(path: Seq<char>) -> Option<Seq<char>>;

/// What is left of `path` once the leading components that make up `base`
/// are taken off it, or `None` where `base` is not a prefix of `path`.
///
/// This is the result of `std::path::Path::strip_prefix`. It is settled by
/// the two paths alone: the call compares components and reads nothing from
/// the disk or the environment. How a path is cut into components is the
/// platform's affair, so nothing is said here of the result on given paths.
pub uninterp spec fn stripped(path: Seq<char>, base: Seq<char>) -> Option<Seq<char>>;

/// Whether `path` starts with an ordinary component: it has a first
/// component, and that is neither a prefix, nor the root, nor `.`, nor `..`.
///
/// This is what `std::path::Path::components` gives first. It is settled by
/// the path alone, cut into components as the platform does it, so nothing
/// is said here of the result on a given path.
pub uninterp spec fn first_component_is_normal(path: Seq<char>) -> bool;

/// `path` can name an entry of the index: it starts with an ordinary
/// component and holds no NUL.
pub open spec fn index_path(path: Seq<char>) -> bool {
    first_component_is_normal(path) && no_nul(encode_utf8(path))
}

/// `path` does not lie under `root`.
pub open spec fn lies_outside(path: Seq<char>, root: Seq<char>) -> bool {
    stripped(path, root) is None
}

/// `path` lies under `root`, and what is left of it once `root` is taken
/// off can name an entry of the index.
pub open spec fn has_index_path(path: Seq<char>, root: Seq<char>) -> bool {
    match stripped(path, root) {
        Some(rest) => index_path(rest),
        None => false,
    }
}

/// The text of a repository error.
///
/// Trusted: renders a `git2::Error` through its `Display` impl.
#[verifier::external_body]
fn error_text(error: &git2::Error) -> (text: String) {
    error.to_string()
}

/// Looks for a repository at or above `start`.
///
/// Trusted: calls `git2::Repository::discover`. What it finds depends on the
/// disk, so nothing is claimed of the result.
#[verifier::external_body]
fn discover_repository(start: &str) -> (found: Result<git2::Repository, git2::Error>) {
    git2::Repository::discover(start)
}

/// The repository's own directory, if its path is Unicode.
///
/// Trusted: calls `git2::Repository::path` and hands the path on as a string.
#[verifier::external_body]
fn git_dir(repo: &git2::Repository) -> (dir: Option<String>) {
    repo.path().to_str().map(String::from)
}

/// The directory that holds `path`, if there is one.
///
/// Trusted: calls `std::path::Path::parent` and hands the result on as a
/// string; the contract gives that result its name and claims no more.
#[verifier::external_body]
fn parent_dir(path: &str) -> (parent: Option<String>)
    ensures
        text_of(parent) == parent_of(path@),
{
    std::path::Path::new(path).parent().and_then(std::path::Path::to_str).map(String::from)
}

/// `path` relative to `base`, if `base` is a prefix of it.
///
/// Trusted: calls `std::path::Path::strip_prefix` and hands the result on as
/// a string; the contract gives that result its name and claims no more.
#[verifier::external_body]
fn strip_prefix(path: &str, base: &str) -> (rest: Option<String>)
    ensures
        text_of(rest) == stripped(path@, base@),
{
    std::path::Path::new(path).strip_prefix(base).ok().and_then(std::path::Path::to_str).map(
        String::from,
    )
}

/// Whether `path` starts with an ordinary component.
///
/// Trusted: calls `std::path::Path::components` and looks at the first
/// component it gives; the contract gives that answer its name and claims no
/// more.
#[verifier::external_body]
fn starts_ordinary(path: &str) -> (ordinary: bool)
    ensures
        ordinary == first_component_is_normal(path@),
{
    match std::path::Path::new(path).components().next() {
        Some(std::path::Component::Normal(_)) => true,
        _ => false,
    }
}

/// Whether the repository's ignore rules apply to `path`.
///
/// Trusted: calls `git2::Repository::is_path_ignored`, which fails rather
/// than panics on a path it cannot take.
#[verifier::external_body]
fn path_is_ignored(repo: &git2::Repository, path: &str) -> (ignored: Result<bool, git2::Error>) {
    repo.is_path_ignored(std::path::Path::new(path))
}

/// The repository's index.
///
/// Trusted: calls `git2::Repository::index`.
#[verifier::external_body]
fn open_index(repo: &git2::Repository) -> (index: Result<git2::Index, git2::Error>) {
    repo.index()
}

/// Whether the index has an entry for `path` at stage 0.
///
/// Trusted: calls `git2::Index::get_path`. That call panics where the path
/// cannot be made a repository path: where its first component is not an
/// ordinary one, which covers the empty path, or where it holds a NUL. The
/// precondition leaves those paths out.
#[verifier::external_body]
fn index_has_path(index: &git2::Index, path: &str) -> (present: bool)
    requires
        index_path(path@),
{
    index.get_path(std::path::Path::new(path), 0).is_some()
}

/// The blame of the file at `path`, with the default options.
///
/// Trusted: calls `git2::Repository::blame_file`, which fails rather than
/// panics on a path it cannot take.
#[verifier::external_body]
fn blame_file<'repo>(repo: &'repo git2::Repository, path: &str) -> (blame: Result<
    git2::Blame<'repo>,
    git2::Error,
>) {
    let mut options = git2::BlameOptions::new();
    repo.blame_file(std::path::Path::new(path), Some(&mut options))
}

/// What a blame holds: for each line that it covers, counted from 1, the
/// revision in which that line was last changed, in hex.
pub uninterp spec fn line_revisions(blame: git2::Blame) -> Map<nat, Seq<char>>;

/// The entry of `revisions` for `line`, if it has one.
pub open spec fn revision_of(revisions: Map<nat, Seq<char>>, line: nat) -> Option<Seq<char>> {
    if revisions.contains_key(line) {
        Some(revisions[line])
    } else {
        None
    }
}

/// The revision that a blame holds for line `line`, if it covers that line.
///
/// Trusted: calls `git2::Blame::get_line` for the run of lines that covers
/// `line`, and hands out the revision of that run, `final_commit_id`, in the
/// hex that its `Display` impl gives. The contract says that this is the
/// blame's entry for that very line, and no other.
#[verifier::external_body]
fn revision_at(blame: &git2::Blame<'_>, line: usize) -> (revision: Option<String>)
    ensures
        text_of(revision) == revision_of(line_revisions(*blame), line as nat),
{
    match blame.get_line(line) {
        Some(hunk) => Some(hunk.final_commit_id().to_string()),
        None => None,
    }
}

/// Why the index could not be asked for a path, or gave no answer.
#[derive(Debug)]
pub enum IndexFault {
    /// The path does not lie under the working tree's root.
    OutsideRepository,
    /// What is left of the path under the root cannot name an entry of the
    /// index: it does not start with an ordinary component, or holds a NUL.
    NotAnIndexPath,
    /// The index could not be opened; the message says why.
    Index(String),
}

impl IndexFault {
    /// The fault in words; for an index that could not be opened, the
    /// repository's own message.
    pub open spec fn message_spec(self) -> Seq<char> {
        match self {
            IndexFault::OutsideRepository => "the path does not lie in the repository"@,
            IndexFault::NotAnIndexPath => "the path cannot name an entry of the index"@,
            IndexFault::Index(reason) => reason@,
        }
    }

    /// The fault in words.
    pub fn message(&self) -> (text: String)
        ensures
            text@ == self.message_spec(),
    {
        match self {
            IndexFault::OutsideRepository => "the path does not lie in the repository".to_string(),
            IndexFault::NotAnIndexPath => "the path cannot name an entry of the index".to_string(),
            IndexFault::Index(reason) => reason.clone(),
        }
    }
}

/// Why no revision could be given for a line.
#[derive(Debug)]
pub enum AttributionFault {
    /// The file does not lie under the working tree's root.
    OutsideRepository,
    /// The blame of the file could not be computed; the message says why.
    Blame(String),
    /// The blame covers no such line.
    NoSuchLine,
}

/// The revision of `line` in `revisions`, or the fault that there is none.
pub open spec fn revision_result(revisions: Map<nat, Seq<char>>, line: nat) -> Result<
    Seq<char>,
    AttributionFault,
> {
    match revision_of(revisions, line) {
        Some(revision) => Ok(revision),
        None => Err(AttributionFault::NoSuchLine),
    }
}

/// The text of a revision, or the fault in its place.
pub open spec fn revision_text(revision: Result<String, AttributionFault>) -> Result<
    Seq<char>,
    AttributionFault,
> {
    match revision {
        Ok(text) => Ok(text@),
        Err(fault) => Err(fault),
    }
}

impl AttributionFault {
    /// A copy of the fault.
    pub fn duplicate(&self) -> (copy: AttributionFault)
        ensures
            copy == *self,
    {
        match self {
            AttributionFault::OutsideRepository => AttributionFault::OutsideRepository,
            AttributionFault::Blame(reason) => AttributionFault::Blame(reason.clone()),
            AttributionFault::NoSuchLine => AttributionFault::NoSuchLine,
        }
    }

    /// The fault in words; for a failed blame, the repository's own message.
    pub fn message(&self) -> (text: String)
        ensures
            match *self {
                AttributionFault::OutsideRepository => text@
                    == "the file does not lie in the repository"@,
                AttributionFault::Blame(reason) => text@ == reason@,
                AttributionFault::NoSuchLine => text@ == "the blame has no such line"@,
            },
    {
        match self {
            AttributionFault::OutsideRepository => "the file does not lie in the repository".to_string(),
            AttributionFault::Blame(reason) => reason.clone(),
            AttributionFault::NoSuchLine => "the blame has no such line".to_string(),
        }
    }
}

/// Whether `path` can name an entry of the index.
pub fn is_index_path(path: &str) -> (ok: bool)
    ensures
        ok == index_path(path@),
{
    starts_ordinary(path) && free_of_nul(path.as_bytes())
}

/// The path to put to the index for a path whose remainder under the root is
/// `local`: that remainder, where there is one and it can name an entry of
/// the index; else the fault that says which of the two is amiss.
pub fn index_query(local: Option<String>) -> (query: Result<String, IndexFault>)
    ensures
        match local {
            None => query == Err::<String, IndexFault>(IndexFault::OutsideRepository),
            Some(rest) => if index_path(rest@) {
                query == Ok::<String, IndexFault>(rest)
            } else {
                query == Err::<String, IndexFault>(IndexFault::NotAnIndexPath)
            },
        },
{
    match local {
        None => Err(IndexFault::OutsideRepository),
        Some(rest) => {
            if is_index_path(rest.as_str()) {
                Ok(rest)
            } else {
                Err(IndexFault::NotAnIndexPath)
            }
        },
    }
}

/// The answer of the index as the classifier takes it: a fault by its
/// message.
fn index_answer(answer: Result<bool, IndexFault>) -> (told: Result<bool, String>)
    ensures
        match answer {
            Ok(present) => told == Ok::<bool, String>(present),
            Err(fault) => told matches Err(text) && text@ == fault.message_spec(),
        },
{
    match answer {
        Ok(present) => Ok(present),
        Err(fault) => Err(fault.message()),
    }
}

/// The blame of one file: which revision last changed each of its lines.
pub struct FileBlame<'repo> {
    blame: git2::Blame<'repo>,
}

impl<'repo> FileBlame<'repo> {
    /// The revision of each line that the blame covers, by the line's number.
    pub closed spec fn revisions(&self) -> Map<nat, Seq<char>> {
        line_revisions(self.blame)
    }

    /// The revision that last changed line `line_number`, or the fault that
    /// the blame covers no such line.
    pub fn revision(&self, line_number: usize) -> (revision: Result<String, AttributionFault>)
        ensures
            revision_text(revision) == revision_result(self.revisions(), line_number as nat),
    {
        match revision_at(&self.blame, line_number) {
            Some(text) => Ok(text),
            None => Err(AttributionFault::NoSuchLine),
        }
    }
}

/// A repository, together with its own directory and the root of its
/// working tree. The root is resolved once, when the repository is found.
pub struct RepositoryContext {
    repo: git2::Repository,
    git_dir: String,
    root: String,
}

/// The context of a repository that has been found, from the path of its
/// own directory: the root of the working tree is the directory that holds
/// it. Fails with a message where that path is not Unicode, and where it has
/// no parent.
pub fn context_of(repo: git2::Repository, git_dir: Option<String>) -> (found: Result<
    RepositoryContext,
    String,
>)
    ensures
        match git_dir {
            None => found matches Err(message) && message@
                == "the repository's path is not Unicode"@,
            Some(dir) => match parent_of(dir@) {
                None => found matches Err(message) && message@
                    == "the repository has no parent directory"@,
                Some(root) => found matches Ok(context) && context.repository() == repo
                    && context.git_dir_spec()@ == dir@ && context.root_spec()@ == root,
            },
        },
{
    match git_dir {
        None => Err("the repository's path is not Unicode".to_string()),
        Some(dir) => match parent_dir(dir.as_str()) {
            None => Err("the repository has no parent directory".to_string()),
            Some(root) => Ok(RepositoryContext { repo, git_dir: dir, root }),
        },
    }
}

impl RepositoryContext {
    /// The repository held.
    pub closed spec fn repository(&self) -> git2::Repository {
        self.repo
    }

    /// The repository's own directory.
    pub closed spec fn git_dir_spec(&self) -> String {
        self.git_dir
    }

    /// The root of the working tree.
    pub closed spec fn root_spec(&self) -> String {
        self.root
    }

    /// The root of the working tree is the directory that holds the
    /// repository's own directory.
    pub open spec fn rooted(&self) -> bool {
        parent_of(self.git_dir_spec()@) == Some(self.root_spec()@)
    }

    /// Finds the repository at or above `start` and resolves the root of its
    /// working tree: the directory that holds the repository's own directory.
    /// Fails with a message where there is no repository, or no such root.
    ///
    /// Whether a repository is found is for the disk to say. Where one is,
    /// [`context_of`] says what becomes of it.
    pub fn discover(start: &str) -> (found: Result<RepositoryContext, String>)
        ensures
            found matches Ok(context) ==> context.rooted(),
    {
        match discover_repository(start) {
            Err(error) => Err(error_text(&error)),
            Ok(repo) => {
                let dir = git_dir(&repo);
                context_of(repo, dir)
            },
        }
    }

    /// The repository's own directory.
    pub fn git_dir(&self) -> (dir: &str)
        ensures
            dir@ == self.git_dir_spec()@,
    {
        self.git_dir.as_str()
    }

    /// The root of the working tree.
    pub fn root(&self) -> (root: &str)
        ensures
            root@ == self.root_spec()@,
    {
        self.root.as_str()
    }

    /// `path` relative to the root of the working tree: what is left of it
    /// once the root is taken off, which is the empty path for the root
    /// itself; `None` where `path` does not lie under the root.
    pub fn path_to_repository_local(&self, path: &str) -> (local: Option<String>)
        ensures
            text_of(local) == stripped(path@, self.root_spec()@),
    {
        strip_prefix(path, self.root.as_str())
    }

    /// Whether the ignore rules apply to `path`, or why that cannot be told.
    pub fn ignored(&self, path: &str) -> (answer: Result<bool, String>) {
        match path_is_ignored(&self.repo, path) {
            Ok(ignored) => Ok(ignored),
            Err(error) => Err(error_text(&error)),
        }
    }

    /// Whether the index has `path`, or why that cannot be told.
    ///
    /// The index is asked for `path` relative to the root. It is not asked
    /// at all for a path that does not lie under the root, nor for one whose
    /// remainder cannot name an entry of the index: each is answered with
    /// the fault of its own, and with no other. For every other path the
    /// answer is the index's, or the fault that it could not be opened.
    pub fn indexed(&self, path: &str) -> (answer: Result<bool, IndexFault>)
        ensures
            answer matches Err(IndexFault::OutsideRepository) <==> lies_outside(
                path@,
                self.root_spec()@,
            ),
            answer matches Err(IndexFault::NotAnIndexPath) <==> !lies_outside(
                path@,
                self.root_spec()@,
            ) && !has_index_path(path@, self.root_spec()@),
    {
        match index_query(self.path_to_repository_local(path)) {
            Err(fault) => Err(fault),
            Ok(local) => match open_index(&self.repo) {
                Err(error) => Err(IndexFault::Index(error_text(&error))),
                Ok(index) => Ok(index_has_path(&index, local.as_str())),
            },
        }
    }

    /// Classifies one directory entry: asks whether it is ignored and, only
    /// for a file that is not, whether the index has it.
    ///
    /// Whatever the repository answers, the action is the one that
    /// [`classify_spec`] gives for the entry and those answers. A file is
    /// only ever checked where it lies under the root and what is left of
    /// its path can name an entry of the index.
    pub fn generate_action(&self, entry: EntryInfo) -> (action: DirAction)
        ensures
            exists|ignored: Result<bool, String>, indexed: Result<bool, String>|
                action == #[trigger] classify_spec(entry.path, entry.is_dir, ignored, indexed),
            action is Check ==> has_index_path(entry.path@, self.root_spec()@),
    {
        let EntryInfo { path, is_dir } = entry;
        let ignored = self.ignored(path.as_str());
        let file = match &is_dir {
            Ok(dir) => !*dir,
            Err(_) => false,
        };
        let kept = match &ignored {
            Ok(out) => !*out,
            Err(_) => false,
        };
        let indexed = if file && kept {
            index_answer(self.indexed(path.as_str()))
        } else {
            Ok(false)
        };
        let action = classify(path, is_dir, ignored, indexed);
        proof {
            assert(action == classify_spec(entry.path, entry.is_dir, ignored, indexed));
        }
        action
    }

    /// The blame of the file at `path`.
    ///
    /// The repository is asked for `path` relative to the root. The fault is
    /// `OutsideRepository` exactly where `path` does not lie under the root;
    /// any other fault is the repository's.
    pub fn blame(&self, path: &str) -> (blame: Result<FileBlame<'_>, AttributionFault>)
        ensures
            blame matches Err(AttributionFault::OutsideRepository) <==> lies_outside(
                path@,
                self.root_spec()@,
            ),
            !(blame matches Err(AttributionFault::NoSuchLine)),
    {
        match self.path_to_repository_local(path) {
            None => Err(AttributionFault::OutsideRepository),
            Some(local) => match blame_file(&self.repo, local.as_str()) {
                Err(error) => Err(AttributionFault::Blame(error_text(&error))),
                Ok(blame) => Ok(FileBlame { blame }),
            },
        }
    }

    /// The revision that last touched line `line_number` of the file at
    /// `path`, in hex. The blame is computed afresh on every call.
    ///
    /// The fault is `OutsideRepository` exactly where `path` does not lie
    /// under the root. Where the blame is had, the answer is its entry for
    /// `line_number`, as [`FileBlame::revision`] gives it.
    pub fn attribute(&self, path: &str, line_number: usize) -> (revision: Result<
        String,
        AttributionFault,
    >)
        ensures
            revision matches Err(AttributionFault::OutsideRepository) <==> lies_outside(
                path@,
                self.root_spec()@,
            ),
    {
        match self.blame(path) {
            Err(fault) => Err(fault),
            Ok(blame) => blame.revision(line_number),
        }
    }
}

} // verus!
