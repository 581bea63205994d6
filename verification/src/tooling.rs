//! What follows the tools that gitp2p runs: the outcome of a git command,
//! checks on a repository path and on removable media.
use vstd::prelude::*;

use crate::error::AppError;
use crate::layout::{join_path, path_join};
use crate::text::{copy_str, trim, trim_seq};

verus! {

/// The detail of a failed command: its error output, trimmed, or its
/// standard output, trimmed, when the error output is blank.
pub open spec fn failure_detail(stderr: Seq<char>, stdout: Seq<char>) -> Seq<char> {
    if trim_seq(stderr).len() > 0 {
        trim_seq(stderr)
    } else {
        trim_seq(stdout)
    }
}

/// The message for a failed command: `<program> failed: <detail>`.
pub fn command_error(program: &str, stderr: &str, stdout: &str) -> (res: String)
    ensures
        res@ == program@ + " failed: "@ + failure_detail(stderr@, stdout@),
{
    let err = trim(stderr);
    let detail = if !err.as_str().is_empty() {
        err
    } else {
        trim(stdout)
    };
    let mut msg = copy_str(program);
    msg.append(" failed: ");
    msg.append(detail.as_str());
    msg
}

/// The outcome of a command that ran: its standard output when it
/// succeeded, otherwise the error that describes its failure.
pub fn command_result(program: &str, success: bool, stdout: String, stderr: &str) -> (res: Result<
    String,
    AppError,
>)
    ensures
        success ==> res == Ok::<String, AppError>(stdout),
        !success ==> (res matches Err(e) && e@ == program@ + " failed: "@ + failure_detail(
            stderr@,
            stdout@,
        )),
{
    if success {
        Ok(stdout)
    } else {
        Err(AppError::from_string(command_error(program, stderr, stdout.as_str())))
    }
}

/// Checks that `path` holds a git repository: it must exist, and then the
/// outcome of `git rev-parse --git-dir` in it decides.
pub fn ensure_git_repo(path: &str, exists: bool, git_check: Result<(), AppError>) -> (res: Result<
    (),
    AppError,
>)
    ensures
        !exists ==> (res matches Err(e) && e@ == "path '"@ + path@ + "' does not exist"@),
        exists ==> res == git_check,
{
    if !exists {
        let mut msg = copy_str("path '");
        msg.append(path);
        msg.append("' does not exist");
        return Err(AppError::from_string(msg));
    }
    git_check
}

/// Checks a removable media path: it must exist, and then its canonical
/// form, or the error of finding it, is the result.
pub fn validate_media_path(path: &str, exists: bool, canonical: Result<String, AppError>) -> (res:
    Result<String, AppError>)
    ensures
        !exists ==> (res matches Err(e) && e@ == "media path '"@ + path@ + "' does not exist"@),
        exists ==> res == canonical,
{
    if !exists {
        let mut msg = copy_str("media path '");
        msg.append(path);
        msg.append("' does not exist");
        return Err(AppError::from_string(msg));
    }
    canonical
}

/// The artifact `name` on the validated media root, when it exists there.
pub fn media_import(media_root: &str, name: &str, artifact_exists: bool) -> (res: Result<
    String,
    AppError,
>)
    ensures
        artifact_exists ==> (res matches Ok(p) && p@ == path_join(media_root@, name@)),
        !artifact_exists ==> (res matches Err(e) && e@ == "media artifact '"@ + path_join(
            media_root@,
            name@,
        ) + "' not found on removable media"@),
{
    let path = join_path(media_root, name);
    if !artifact_exists {
        let mut msg = copy_str("media artifact '");
        msg.append(path.as_str());
        msg.append("' not found on removable media");
        return Err(AppError::from_string(msg));
    }
    Ok(path)
}

} // verus!
