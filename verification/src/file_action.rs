//! What happens to a saved screenshot after capture.
use vstd::prelude::*;

use crate::paths::{parent_text, path_parent, portable_path};
use crate::text::{push_str, string_from_chars};

verus! {

/// An action on a saved file.
#[derive(Clone, Copy, Debug, PartialEq, Eq, Structural)]
pub enum PostCaptureAction {
    Open,
    Reveal,
}

/// Why a file could not be opened or revealed.
#[derive(Debug)]
pub enum FileActionError {
    Open { path: String, reason: String },
    Reveal { path: String, reason: String },
    OpenUnsupported,
    RevealUnsupported,
}

/// The actions that the `--open` and `--reveal` flags ask for, in the order they run.
pub open spec fn post_capture_plan(open: bool, reveal: bool) -> Seq<PostCaptureAction> {
    (if reveal { seq![PostCaptureAction::Reveal] } else { Seq::empty() }) + (if open {
        seq![PostCaptureAction::Open]
    } else {
        Seq::empty()
    })
}

/// The actions to run after a capture: revealing comes before opening.
pub fn post_capture_actions(open: bool, reveal: bool) -> (actions: Vec<PostCaptureAction>)
    ensures
        actions@ == post_capture_plan(open, reveal),
{
    let mut actions: Vec<PostCaptureAction> = Vec::new();
    if reveal {
        actions.push(PostCaptureAction::Reveal);
    }
    if open {
        actions.push(PostCaptureAction::Open);
    }
    assert(actions@ =~= post_capture_plan(open, reveal));
    actions
}

impl FileActionError {
    /// The text shown for the error.
    pub fn message(&self) -> (s: String)
        ensures
            s@ == match *self {
                FileActionError::Open { path, reason } => "failed to open "@ + path@ + ": "@ + reason@,
                FileActionError::Reveal { path, reason } => "failed to reveal "@ + path@ + ": "@ + reason@,
                FileActionError::OpenUnsupported => "open is not supported on this platform"@,
                FileActionError::RevealUnsupported => "reveal is not supported on this platform"@,
            },
    {
        let mut out: Vec<char> = Vec::new();
        match self {
            FileActionError::Open { path, reason } => {
                push_str(&mut out, "failed to open ");
                push_str(&mut out, path.as_str());
                push_str(&mut out, ": ");
                push_str(&mut out, reason.as_str());
            },
            FileActionError::Reveal { path, reason } => {
                push_str(&mut out, "failed to reveal ");
                push_str(&mut out, path.as_str());
                push_str(&mut out, ": ");
                push_str(&mut out, reason.as_str());
            },
            FileActionError::OpenUnsupported => push_str(&mut out, "open is not supported on this platform"),
            FileActionError::RevealUnsupported => push_str(&mut out, "reveal is not supported on this platform"),
        }
        string_from_chars(&out)
    }
}

/// The desktop family whose file manager and opener are used.
#[derive(Clone, Copy, Debug, PartialEq, Eq, Structural)]
pub enum Platform {
    Windows,
    MacOs,
    Unix,
    Other,
}

/// A program to start, with its arguments.
#[derive(Debug)]
pub struct LaunchCommand {
    pub program: String,
    pub args: Vec<String>,
}

impl LaunchCommand {
    /// The arguments as text.
    pub open spec fn arg_texts(&self) -> Seq<Seq<char>> {
        self.args@.map_values(|a: String| a@)
    }
}

/// The program and arguments that open `path` with its default application.
pub open spec fn open_launch(platform: Platform, path: Seq<char>) -> Option<(Seq<char>, Seq<Seq<char>>)> {
    match platform {
        Platform::Windows => Some(("cmd"@, seq!["/C"@, "start"@, ""@, path])),
        Platform::MacOs => Some(("open"@, seq![path])),
        Platform::Unix => Some(("xdg-open"@, seq![path])),
        Platform::Other => None,
    }
}

/// The program and arguments that show `path` in the file manager; on other
/// Unix desktops the folder is opened, `folder` being the path's parent
/// directory.
pub open spec fn reveal_launch(platform: Platform, path: Seq<char>, folder: Seq<char>) -> Option<(Seq<char>, Seq<Seq<char>>)> {
    match platform {
        Platform::Windows => Some(("explorer"@, seq!["/select,"@ + path])),
        Platform::MacOs => Some(("open"@, seq!["-R"@, path])),
        Platform::Unix => Some(("xdg-open"@, seq![folder])),
        Platform::Other => None,
    }
}

/// The folder that is opened to reveal `path` on a desktop with no
/// selection support: a leading part of the path (its parent), or `.` when
/// the path has no parent.
pub open spec fn reveal_folder(path: Seq<char>, folder: Seq<char>) -> bool {
    folder == "."@ || (folder.len() <= path.len() && folder == path.subrange(0, folder.len() as int))
}

fn owned(text: &str) -> (s: String)
    ensures
        s@ == text@,
{
    text.to_owned()
}

/// The command that opens `path` with its default application.
pub fn open_command(platform: Platform, path: &str) -> (r: Result<LaunchCommand, FileActionError>)
    ensures
        match open_launch(platform, path@) {
            Some((program, args)) => r matches Ok(c) && c.program@ == program && c.arg_texts() == args,
            None => r matches Err(FileActionError::OpenUnsupported),
        },
{
    proof {
        reveal_strlit("cmd");
        reveal_strlit("/C");
        reveal_strlit("start");
        reveal_strlit("");
        reveal_strlit("open");
        reveal_strlit("xdg-open");
    }
    let mut args: Vec<String> = Vec::new();
    let program = match platform {
        Platform::Windows => {
            args.push(owned("/C"));
            args.push(owned("start"));
            args.push(owned(""));
            args.push(owned(path));
            owned("cmd")
        },
        Platform::MacOs => {
            args.push(owned(path));
            owned("open")
        },
        Platform::Unix => {
            args.push(owned(path));
            owned("xdg-open")
        },
        Platform::Other => {
            return Err(FileActionError::OpenUnsupported);
        },
    };
    let command = LaunchCommand { program, args };
    assert(command.arg_texts() =~= open_launch(platform, path@).unwrap().1);
    Ok(command)
}

/// The command that shows `path` in the file manager.
pub fn reveal_command(platform: Platform, path: &str) -> (r: Result<LaunchCommand, FileActionError>)
    ensures
        match platform {
            Platform::Other => r matches Err(FileActionError::RevealUnsupported),
            _ => r matches Ok(c) && exists|folder: Seq<char>| #[trigger] reveal_folder(path@, folder)
                && reveal_launch(platform, path@, folder) == Some((c.program@, c.arg_texts())),
        },
        platform == Platform::Unix && portable_path(path@) ==> (r matches Ok(c) && c.arg_texts() == seq![parent_text(path@)]),
{
    proof {
        reveal_strlit("explorer");
        reveal_strlit("/select,");
        reveal_strlit("open");
        reveal_strlit("-R");
        reveal_strlit("xdg-open");
        reveal_strlit(".");
    }
    let mut args: Vec<String> = Vec::new();
    let ghost mut folder: Seq<char> = "."@;
    let program = match platform {
        Platform::Windows => {
            let mut selector: Vec<char> = Vec::new();
            push_str(&mut selector, "/select,");
            push_str(&mut selector, path);
            args.push(string_from_chars(&selector));
            owned("explorer")
        },
        Platform::MacOs => {
            args.push(owned("-R"));
            args.push(owned(path));
            owned("open")
        },
        Platform::Unix => {
            let parent = match path_parent(path) {
                Some(p) => p,
                None => owned("."),
            };
            proof {
                folder = parent@;
            }
            args.push(parent);
            owned("xdg-open")
        },
        Platform::Other => {
            return Err(FileActionError::RevealUnsupported);
        },
    };
    let command = LaunchCommand { program, args };
    assert(reveal_folder(path@, folder));
    assert(command.arg_texts() =~= reveal_launch(platform, path@, folder).unwrap().1);
    Ok(command)
}

/// What to do next while running the post-capture actions.
#[derive(Debug)]
pub enum PostCaptureStep {
    /// Start this program; then ask again with one more action launched.
    Launch(LaunchCommand),
    /// All actions are through, or one failed.
    Done(Result<(), FileActionError>),
}

/// `e` is the error for an action whose program could not be started.
pub open spec fn is_launch_failure(e: FileActionError, action: PostCaptureAction, path: Seq<char>, reason: Seq<char>) -> bool {
    match action {
        PostCaptureAction::Open => e matches FileActionError::Open { path: p, reason: r } && p@ == path && r@ == reason,
        PostCaptureAction::Reveal => e matches FileActionError::Reveal { path: p, reason: r } && p@ == path && r@ == reason,
    }
}

/// Runs the actions in order and stops at the first that fails: given that
/// `launched` of them have been started and, if the last start failed, why,
/// says what comes next.
pub fn post_capture_step(
    platform: Platform,
    path: &str,
    actions: &[PostCaptureAction],
    launched: usize,
    failure: Option<String>,
) -> (step: PostCaptureStep)
    requires
        launched <= actions@.len(),
        failure is Some ==> launched > 0,
    ensures
        match failure {
            Some(reason) => step matches PostCaptureStep::Done(Err(e))
                && is_launch_failure(e, actions@[launched - 1], path@, reason@),
            None => if launched == actions@.len() {
                step matches PostCaptureStep::Done(Ok(()))
            } else {
                match actions@[launched as int] {
                    PostCaptureAction::Open => match open_launch(platform, path@) {
                        Some((program, args)) => step matches PostCaptureStep::Launch(c) && c.program@ == program && c.arg_texts() == args,
                        None => step matches PostCaptureStep::Done(Err(FileActionError::OpenUnsupported)),
                    },
                    PostCaptureAction::Reveal => match platform {
                        Platform::Other => step matches PostCaptureStep::Done(Err(FileActionError::RevealUnsupported)),
                        _ => step matches PostCaptureStep::Launch(c) && exists|folder: Seq<char>| #[trigger] reveal_folder(path@, folder)
                            && reveal_launch(platform, path@, folder) == Some((c.program@, c.arg_texts())),
                    },
                }
            },
        },
        failure is None && launched < actions@.len() && actions@[launched as int] == PostCaptureAction::Reveal
            && platform == Platform::Unix && portable_path(path@) ==> (step matches PostCaptureStep::Launch(c)
            && c.arg_texts() == seq![parent_text(path@)]),
{
    match failure {
        Some(reason) => {
            let failed = actions[launched - 1];
            let error = match failed {
                PostCaptureAction::Open => FileActionError::Open { path: owned(path), reason },
                PostCaptureAction::Reveal => FileActionError::Reveal { path: owned(path), reason },
            };
            PostCaptureStep::Done(Err(error))
        },
        None => {
            if launched == actions.len() {
                return PostCaptureStep::Done(Ok(()));
            }
            let command = match actions[launched] {
                PostCaptureAction::Open => open_command(platform, path),
                PostCaptureAction::Reveal => reveal_command(platform, path),
            };
            match command {
                Ok(c) => PostCaptureStep::Launch(c),
                Err(e) => PostCaptureStep::Done(Err(e)),
            }
        },
    }
}

} // verus!
