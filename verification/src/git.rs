//! Access to repositories through `git2`.
//!
//! Everything here but the two functions at the end is taken on trust: the
//! types are opaque, and what is stated of a function is what its source
//! in `git2` and `libgit2` shows. Most of these functions read or change a
//! repository on disk, and of their results nothing is stated. The
//! identifier of a commit and the text of an identifier depend on the
//! commit and the identifier alone; each has a name, [`commit_oid`] and
//! [`oid_digits`], so that a pin can be said to hold the identifier of the
//! very commit that was found.

use vstd::prelude::*;
use crate::identifier::{is_canonical_identifier, is_identifier_text};

verus! {

/// `git2::Repository`: an open repository.
#[verifier::external_type_specification]
#[verifier::external_body]
pub struct ExRepository(git2::Repository);

/// `git2::Error`: why a call into `git2` failed.
#[verifier::external_type_specification]
#[verifier::external_body]
pub struct ExError(git2::Error);

/// `git2::Reference`: a reference of a repository, such as its `HEAD`.
#[verifier::external_type_specification]
#[verifier::external_body]
pub struct ExReference<'repo>(git2::Reference<'repo>);

/// `git2::Object`: an object of a repository's store, of any kind.
#[verifier::external_type_specification]
#[verifier::external_body]
pub struct ExObject<'repo>(git2::Object<'repo>);

/// `git2::Commit`: a commit of a repository's store.
#[verifier::external_type_specification]
#[verifier::external_body]
pub struct ExCommit<'repo>(git2::Commit<'repo>);

/// `git2::Oid`: the identifier of an object.
#[verifier::external_type_specification]
#[verifier::external_body]
pub struct ExOid(git2::Oid);

/// `std::path::PathBuf`: a path of the file system.
#[verifier::external_type_specification]
#[verifier::external_body]
pub struct ExPathBuf(std::path::PathBuf);

/// `Path::join`: the path of the entry `name` beneath `root`. Nothing is
/// stated of the result, which goes to [`open_repository`] as it is.
#[verifier::external_body]
pub(crate) fn child_path(root: &str, name: &str) -> (path: std::path::PathBuf) {
    std::path::Path::new(root).join(name)
}

/// `git2::Repository::open`: opens the repository at `path`. Whether it
/// succeeds depends on what is on disk, so nothing is stated of the result.
#[verifier::external_body]
pub(crate) fn open_repository(path: &std::path::PathBuf) -> (r: Result<
    git2::Repository,
    git2::Error,
>) {
    git2::Repository::open(path)
}

/// `git2::Repository::head`: the reference that `HEAD` resolves to. It
/// fails where `HEAD` names a branch without commits; nothing is stated of
/// the result.
pub assume_specification[ git2::Repository::head ](repo: &git2::Repository) -> (r: Result<
    git2::Reference<'_>,
    git2::Error,
>)
;

/// `git2::Reference::name`: the full name of a reference, or an error
/// where the name is not UTF-8. Nothing is stated of the result.
pub assume_specification<'repo, 'a>[ git2::Reference::<'repo>::name ](
    reference: &'a git2::Reference<'repo>,
) -> (r: Result<&'a str, git2::Error>)
;

/// `git2::Repository::revparse_single`: the object that the revision
/// `spec` names. Nothing is stated of the result.
pub assume_specification<'a>[ git2::Repository::revparse_single ](
    repo: &'a git2::Repository,
    spec: &str,
) -> (r: Result<git2::Object<'a>, git2::Error>)
;

/// `git2::Object::peel_to_commit`: follows tags from `object` until a
/// commit is reached, and fails where none is. Nothing is stated of the
/// result.
pub assume_specification<'repo>[ git2::Object::<'repo>::peel_to_commit ](
    object: &git2::Object<'repo>,
) -> (r: Result<git2::Commit<'repo>, git2::Error>)
;

/// The identifier of `commit`: what `git2::Commit::id` gives for it.
pub uninterp spec fn commit_oid(commit: git2::Commit<'_>) -> git2::Oid;

/// The text of `oid`: what `Oid`'s `to_string` gives for it.
pub uninterp spec fn oid_digits(oid: git2::Oid) -> Seq<char>;

/// Whether `text` is the text of the identifier of a commit.
pub open spec fn names_a_commit(text: Seq<char>) -> bool {
    exists|commit: git2::Commit<'_>| text == oid_digits(#[trigger] commit_oid(commit))
}

/// `git2::Commit::id`: the identifier of a commit, which is held in the
/// commit and is the same whenever it is asked for.
pub assume_specification<'repo>[ git2::Commit::<'repo>::id ](
    commit: &git2::Commit<'repo>,
) -> (r: git2::Oid)
    ensures
        r == commit_oid(*commit),
;

/// `git2::Oid::from_str`: reads an identifier from hexadecimal text. It
/// succeeds exactly on text of one to forty hexadecimal digits: `libgit2`
/// refuses empty text, text of more than forty bytes, and any byte that is
/// not a hexadecimal digit.
pub assume_specification[ git2::Oid::from_str ](s: &str) -> (r: Result<git2::Oid, git2::Error>)
    ensures
        r is Ok <==> is_identifier_text(s@),
;

/// `git2::Repository::set_head_detached`: points `HEAD` directly at the
/// commit `commitish`, and leaves `HEAD` as it was where the repository
/// holds no such commit. Nothing is stated of the result.
pub assume_specification[ git2::Repository::set_head_detached ](
    repo: &git2::Repository,
    commitish: git2::Oid,
) -> (r: Result<(), git2::Error>)
;

/// `Oid`'s `to_string`: the identifier as text. The text depends on the
/// identifier alone, and `libgit2` writes all forty digits of it, each
/// from `0123456789abcdef`.
#[verifier::external_body]
pub(crate) fn oid_text(oid: &git2::Oid) -> (text: String)
    ensures
        text@ == oid_digits(*oid),
        is_canonical_identifier(text@),
{
    oid.to_string()
}

/// The identifier of the commit that `repo` is at.
///
/// `HEAD` is followed to the reference it stands for, that reference is
/// looked up, and tags are followed to the commit beneath them. The first
/// step that fails gives the error. What is given on success is the
/// identifier of the commit that was reached, as canonical text.
pub fn resolve_current_commit(repo: &git2::Repository) -> (r: Result<String, git2::Error>)
    ensures
        r matches Ok(identifier) ==> names_a_commit(identifier@) && is_canonical_identifier(
            identifier@,
        ),
{
    let head = match repo.head() {
        Ok(head) => head,
        Err(cause) => return Err(cause),
    };
    let name = match head.name() {
        Ok(name) => name,
        Err(cause) => return Err(cause),
    };
    let object = match repo.revparse_single(name) {
        Ok(object) => object,
        Err(cause) => return Err(cause),
    };
    identifier_of_commit(object.peel_to_commit())
}

/// What the search for a commit comes to: the identifier of the commit
/// where one was found, as canonical text, and the refusal as it is where
/// none was.
///
/// A commit always has an identifier, so a commit that was found never
/// fails here, and the text is that of its own identifier.
pub fn identifier_of_commit(found: Result<git2::Commit<'_>, git2::Error>) -> (r: Result<
    String,
    git2::Error,
>)
    ensures
        match found {
            Ok(commit) => r matches Ok(identifier) && identifier@ == oid_digits(
                commit_oid(commit),
            ) && is_canonical_identifier(identifier@),
            Err(cause) => r == Err::<String, git2::Error>(cause),
        },
{
    match found {
        Ok(commit) => {
            let oid = commit.id();
            Ok(oid_text(&oid))
        },
        Err(cause) => Err(cause),
    }
}

} // verus!
