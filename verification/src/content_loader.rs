//! Loader-script handling: the sandbox invocation a loader script runs
//! under, and the classification of what came back from the child process.
//!
//! The process spawn itself happens outside this crate; the caller hands
//! back what it observed and [`load_content_from_script`] decides the
//! outcome exactly as the contract states.

use vstd::prelude::*;
use vstd::string::*;

verus! {

/// Why loading content from a script failed.
#[derive(Clone, Debug)]
pub enum ContentLoaderError {
    /// The child process could not be spawned or awaited; carries the
    /// reported reason.
    IOError(String),
    /// The captured standard output was not valid text.
    StringConversionError,
    /// The script ran but exited non-zero.
    ScriptError,
    /// The script path does not exist.
    PathNotFound,
}

/// Model of [`ContentLoaderError`]: messages as character sequences.
pub enum ContentLoaderErrorModel {
    IOError(Seq<char>),
    StringConversionError,
    ScriptError,
    PathNotFound,
}

impl View for ContentLoaderError {
    type V = ContentLoaderErrorModel;

    open spec fn view(&self) -> ContentLoaderErrorModel {
        match self {
            ContentLoaderError::IOError(m) => ContentLoaderErrorModel::IOError(m@),
            ContentLoaderError::StringConversionError => ContentLoaderErrorModel::StringConversionError,
            ContentLoaderError::ScriptError => ContentLoaderErrorModel::ScriptError,
            ContentLoaderError::PathNotFound => ContentLoaderErrorModel::PathNotFound,
        }
    }
}

/// What the caller observed when it ran a loader script.
#[derive(Clone, Debug)]
pub enum ScriptRun {
    /// The sandboxed child ran to completion. `success` is whether it
    /// exited zero; `stdout_text` is its captured standard output decoded
    /// as text, or `None` if the bytes were not valid text.
    Completed { success: bool, stdout_text: Option<String> },
    /// The child could not be spawned or awaited; carries the reason.
    LaunchFailed(String),
}

/// Exactly one character sequence per sandbox argument, in order: the
/// arguments the loader script is run under. Read-only bind of the root
/// filesystem, a fresh `/dev` and `/proc`, an empty writable `/tmp`, full
/// namespace isolation, a fresh session, death with the parent, then the
/// script path itself as the command to run.
pub fn sandbox_args(script_path: &String) -> (args: Vec<String>)
    ensures
        args@.len() == 14,
        args@[0]@ == "--ro-bind"@,
        args@[1]@ == "/"@,
        args@[2]@ == "/"@,
        args@[3]@ == "--dev-bind"@,
        args@[4]@ == "/dev"@,
        args@[5]@ == "/dev"@,
        args@[6]@ == "--proc"@,
        args@[7]@ == "/proc"@,
        args@[8]@ == "--tmpfs"@,
        args@[9]@ == "/tmp"@,
        args@[10]@ == "--unshare-all"@,
        args@[11]@ == "--new-session"@,
        args@[12]@ == "--die-with-parent"@,
        args@[13]@ == script_path@,
{
    let mut args: Vec<String> = Vec::new();
    args.push(String::from_str("--ro-bind"));
    args.push(String::from_str("/"));
    args.push(String::from_str("/"));
    args.push(String::from_str("--dev-bind"));
    args.push(String::from_str("/dev"));
    args.push(String::from_str("/dev"));
    args.push(String::from_str("--proc"));
    args.push(String::from_str("/proc"));
    args.push(String::from_str("--tmpfs"));
    args.push(String::from_str("/tmp"));
    args.push(String::from_str("--unshare-all"));
    args.push(String::from_str("--new-session"));
    args.push(String::from_str("--die-with-parent"));
    args.push(script_path.clone());
    args
}

/// The program the sandbox is provided by.
pub fn sandbox_program() -> (r: String)
    ensures
        r@ == "bwrap"@,
{
    String::from_str("bwrap")
}

/// Decide the result of a loader-script invocation from what the caller
/// observed: a missing path fails with `PathNotFound` before anything runs;
/// a spawn failure surfaces its reason; a non-zero exit is `ScriptError`;
/// output that is not text is `StringConversionError`; otherwise the
/// captured standard output is the payload.
pub fn load_content_from_script(script_exists: bool, run: ScriptRun) -> (r: Result<
    String,
    ContentLoaderError,
>)
    ensures
        !script_exists ==> (r matches Err(e) && e@ is PathNotFound),
        script_exists ==> (run matches ScriptRun::LaunchFailed(m) ==> (r matches Err(e)
            && e@ matches ContentLoaderErrorModel::IOError(mm) && mm == m@)),
        script_exists ==> (run matches ScriptRun::Completed { success: false, .. } ==> (r matches Err(e)
            && e@ is ScriptError)),
        script_exists ==> (run matches ScriptRun::Completed { success: true, stdout_text: None } ==> (r matches Err(e)
            && e@ is StringConversionError)),
        script_exists ==> (run matches ScriptRun::Completed { success: true, stdout_text: Some(t) } ==> (r matches Ok(out)
            && out@ == t@)),
{
    if !script_exists {
        return Err(ContentLoaderError::PathNotFound);
    }
    match run {
        ScriptRun::LaunchFailed(m) => Err(ContentLoaderError::IOError(m)),
        ScriptRun::Completed { success: false, stdout_text: _ } => Err(
            ContentLoaderError::ScriptError,
        ),
        ScriptRun::Completed { success: true, stdout_text: None } => Err(
            ContentLoaderError::StringConversionError,
        ),
        ScriptRun::Completed { success: true, stdout_text: Some(t) } => Ok(t),
    }
}

} // verus!
