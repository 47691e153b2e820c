//! Finding and starting the Codex command line.

use crate::collections::{lemma_pushed_text, text_views};
use crate::paths::{
    directory_of, extension, extension_of, join, joined, parent, paths_equal, same_path,
    trimmed_path, PathStyle,
};
use crate::text::{lowercase, same_text, to_lowercase, trim_text, trimmed};
use vstd::prelude::*;
use vstd::string::*;

verus! {

/// The directories that the surroundings name.
#[derive(Debug, PartialEq, Eq)]
pub struct SearchSurroundings {
    /// The user's home directory.
    pub home: Option<String>,
    /// Where Windows programs keep roaming data.
    pub app_data: Option<String>,
    /// Where Windows programs keep local data.
    pub local_app_data: Option<String>,
    /// Where Windows programs keep shared data.
    pub program_data: Option<String>,
    /// The directories of installed Node versions.
    pub node_bins: Vec<String>,
}

/// Where the command line is usually found on a system with slashes only.
pub open spec fn posix_extras(home: Option<Seq<char>>, node_bins: Seq<Seq<char>>) -> Seq<Seq<char>> {
    let style = PathStyle::Posix;
    seq![
        "/opt/homebrew/bin"@,
        "/usr/local/bin"@,
        "/usr/bin"@,
        "/bin"@,
        "/usr/sbin"@,
        "/sbin"@,
    ] + (match home {
        Some(h) => seq![
            joined(style, h, ".local/bin"@),
            joined(style, h, ".local/share/mise/shims"@),
            joined(style, h, ".cargo/bin"@),
            joined(style, h, ".bun/bin"@),
        ] + node_bins,
        None => seq![],
    })
}

/// `path` where there is one.
pub open spec fn optional(path: Option<Seq<char>>) -> Seq<Seq<char>> {
    match path {
        Some(p) => seq![p],
        None => seq![],
    }
}

/// Where the command line is usually found on Windows.
pub open spec fn windows_extras(
    app_data: Option<Seq<char>>,
    local_app_data: Option<Seq<char>>,
    home: Option<Seq<char>>,
    program_data: Option<Seq<char>>,
) -> Seq<Seq<char>> {
    let style = PathStyle::Windows;
    optional(
        match app_data {
            Some(p) => Some(joined(style, p, "npm"@)),
            None => None,
        },
    ) + optional(
        match local_app_data {
            Some(p) => Some(joined(style, joined(style, p, "Microsoft"@), "WindowsApps"@)),
            None => None,
        },
    ) + (match home {
        Some(h) => seq![
            joined(style, joined(style, h, ".cargo"@), "bin"@),
            joined(style, joined(style, h, "scoop"@), "shims"@),
        ],
        None => seq![],
    }) + optional(
        match program_data {
            Some(p) => Some(joined(style, joined(style, p, "chocolatey"@), "bin"@)),
            None => None,
        },
    )
}

/// The directory of the command line that the settings name.
pub open spec fn bin_directory(style: PathStyle, codex_bin: Option<Seq<char>>) -> Seq<Seq<char>> {
    match codex_bin {
        Some(bin) => if trimmed(bin).len() > 0 && trimmed_path(style, bin).len() > 0 {
            seq![directory_of(style, bin)]
        } else {
            seq![]
        },
        None => seq![],
    }
}

/// Whether one of the paths is the same as `path`.
pub open spec fn has_path(style: PathStyle, paths: Seq<Seq<char>>, path: Seq<char>) -> bool {
    exists|i: int| 0 <= i < paths.len() && same_path(style, #[trigger] paths[i], path)
}

/// `paths` with each of `extras` that is not among them at the end.
pub open spec fn merged(style: PathStyle, paths: Seq<Seq<char>>, extras: Seq<Seq<char>>) -> Seq<
    Seq<char>,
>
    decreases extras.len(),
{
    if extras.len() == 0 {
        paths
    } else {
        let before = merged(style, paths, extras.drop_last());
        if has_path(style, before, extras.last()) {
            before
        } else {
            before.push(extras.last())
        }
    }
}

/// Where the command line may be found, apart from the search path.
pub open spec fn search_extras(
    style: PathStyle,
    surroundings: SearchSurroundings,
    codex_bin: Option<Seq<char>>,
) -> Seq<Seq<char>> {
    let home = crate::model::text_view(surroundings.home);
    (match style {
        PathStyle::Posix => posix_extras(home, text_views(surroundings.node_bins@)),
        PathStyle::Windows => windows_extras(
            crate::model::text_view(surroundings.app_data),
            crate::model::text_view(surroundings.local_app_data),
            home,
            crate::model::text_view(surroundings.program_data),
        ),
    }) + bin_directory(style, codex_bin)
}

fn push_text(out: &mut Vec<String>, text: String)
    ensures
        text_views(final(out)@) == text_views(old(out)@).push(text@),
{
    proof {
        lemma_pushed_text(out@, text);
    }
    out.push(text);
}

fn collect_posix_extras(surroundings: &SearchSurroundings) -> (out: Vec<String>)
    ensures
        text_views(out@) == posix_extras(
            crate::model::text_view(surroundings.home),
            text_views(surroundings.node_bins@),
        ),
{
    let style = PathStyle::Posix;
    let mut out: Vec<String> = Vec::new();
    push_text(&mut out, "/opt/homebrew/bin".to_owned());
    push_text(&mut out, "/usr/local/bin".to_owned());
    push_text(&mut out, "/usr/bin".to_owned());
    push_text(&mut out, "/bin".to_owned());
    push_text(&mut out, "/usr/sbin".to_owned());
    push_text(&mut out, "/sbin".to_owned());
    let ghost fixed = seq![
        "/opt/homebrew/bin"@,
        "/usr/local/bin"@,
        "/usr/bin"@,
        "/bin"@,
        "/usr/sbin"@,
        "/sbin"@,
    ];
    assert(text_views(out@) =~= fixed);
    if let Some(home) = &surroundings.home {
        push_text(&mut out, join(style, home.as_str(), ".local/bin"));
        push_text(&mut out, join(style, home.as_str(), ".local/share/mise/shims"));
        push_text(&mut out, join(style, home.as_str(), ".cargo/bin"));
        push_text(&mut out, join(style, home.as_str(), ".bun/bin"));
        let ghost own = seq![
            joined(style, home@, ".local/bin"@),
            joined(style, home@, ".local/share/mise/shims"@),
            joined(style, home@, ".cargo/bin"@),
            joined(style, home@, ".bun/bin"@),
        ];
        assert(text_views(out@) =~= fixed + own);
        let ghost nodes = text_views(surroundings.node_bins@);
        let mut i: usize = 0;
        assert(text_views(out@) =~= fixed + own + nodes.take(0));
        while i < surroundings.node_bins.len()
            invariant
                i <= surroundings.node_bins@.len(),
                nodes == text_views(surroundings.node_bins@),
                text_views(out@) == fixed + own + nodes.take(i as int),
            decreases surroundings.node_bins@.len() - i,
        {
            push_text(&mut out, surroundings.node_bins[i].clone());
            assert(text_views(out@) =~= fixed + own + nodes.take(i + 1));
            i += 1;
        }
        assert(nodes.take(nodes.len() as int) =~= nodes);
        assert(text_views(out@) =~= fixed + (own + nodes));
    } else {
        assert(text_views(out@) =~= fixed + Seq::<Seq<char>>::empty());
    }
    out
}

fn collect_windows_extras(surroundings: &SearchSurroundings) -> (out: Vec<String>)
    ensures
        text_views(out@) == windows_extras(
            crate::model::text_view(surroundings.app_data),
            crate::model::text_view(surroundings.local_app_data),
            crate::model::text_view(surroundings.home),
            crate::model::text_view(surroundings.program_data),
        ),
{
    let style = PathStyle::Windows;
    let mut out: Vec<String> = Vec::new();
    assert(text_views(out@) =~= Seq::<Seq<char>>::empty());
    if let Some(path) = &surroundings.app_data {
        push_text(&mut out, join(style, path.as_str(), "npm"));
    }
    if let Some(path) = &surroundings.local_app_data {
        let microsoft = join(style, path.as_str(), "Microsoft");
        push_text(&mut out, join(style, microsoft.as_str(), "WindowsApps"));
    }
    if let Some(path) = &surroundings.home {
        let cargo = join(style, path.as_str(), ".cargo");
        push_text(&mut out, join(style, cargo.as_str(), "bin"));
        let scoop = join(style, path.as_str(), "scoop");
        push_text(&mut out, join(style, scoop.as_str(), "shims"));
    }
    if let Some(path) = &surroundings.program_data {
        let chocolatey = join(style, path.as_str(), "chocolatey");
        push_text(&mut out, join(style, chocolatey.as_str(), "bin"));
    }
    assert(text_views(out@) =~= windows_extras(
        crate::model::text_view(surroundings.app_data),
        crate::model::text_view(surroundings.local_app_data),
        crate::model::text_view(surroundings.home),
        crate::model::text_view(surroundings.program_data),
    ));
    out
}

fn is_among(style: PathStyle, paths: &Vec<String>, path: &str) -> (r: bool)
    ensures
        r == has_path(style, text_views(paths@), path@),
{
    let ghost all = text_views(paths@);
    let mut i: usize = 0;
    while i < paths.len()
        invariant
            i <= paths@.len(),
            all == text_views(paths@),
            forall|k: int| 0 <= k < i ==> !same_path(style, #[trigger] all[k], path@),
        decreases paths@.len() - i,
    {
        assert(all[i as int] == paths@[i as int]@);
        if paths_equal(style, paths[i].as_str(), path) {
            return true;
        }
        i += 1;
    }
    false
}

/// The directories to search for the command line: those of the search path, and behind them
/// each usual one that is not among them; none where there is no directory at all.
pub fn build_codex_path_env(
    style: PathStyle,
    search_path: Vec<String>,
    surroundings: &SearchSurroundings,
    codex_bin: Option<&str>,
) -> (r: Option<Vec<String>>)
    ensures
        ({
            let expected = merged(
                style,
                text_views(search_path@),
                search_extras(
                    style,
                    *surroundings,
                    match codex_bin {
                        Some(bin) => Some(bin@),
                        None => None,
                    },
                ),
            );
            match r {
                Some(paths) => expected.len() > 0 && text_views(paths@) == expected,
                None => expected.len() == 0,
            }
        }),
{
    let ghost given = text_views(search_path@);
    let mut extras = match style {
        PathStyle::Posix => collect_posix_extras(surroundings),
        PathStyle::Windows => collect_windows_extras(surroundings),
    };
    let ghost usual = text_views(extras@);
    if let Some(bin) = codex_bin {
        if trim_text(bin).as_str().unicode_len() > 0 {
            if let Some(directory) = parent(style, bin) {
                push_text(&mut extras, directory);
            }
        }
    }
    let ghost all = text_views(extras@);
    assert(all =~= usual + bin_directory(
        style,
        match codex_bin {
            Some(bin) => Some(bin@),
            None => None,
        },
    ));
    let mut paths = search_path;
    let mut i: usize = 0;
    assert(all.take(0) =~= Seq::<Seq<char>>::empty());
    while i < extras.len()
        invariant
            i <= extras@.len(),
            all == text_views(extras@),
            text_views(paths@) == merged(style, given, all.take(i as int)),
        decreases extras@.len() - i,
    {
        proof {
            assert(all.take(i + 1).drop_last() =~= all.take(i as int));
            assert(all.take(i + 1).last() == extras@[i as int]@);
        }
        if !is_among(style, &paths, extras[i].as_str()) {
            push_text(&mut paths, extras[i].clone());
        }
        i += 1;
    }
    assert(all.take(all.len() as int) =~= all);
    assert(text_views(paths@).len() == paths@.len());
    if paths.len() == 0 {
        None
    } else {
        Some(paths)
    }
}

/// A program and its arguments.
#[derive(Debug, PartialEq, Eq)]
pub struct CodexCommand {
    pub program: String,
    pub args: Vec<String>,
}

/// The program that the settings name, or the usual one.
pub open spec fn codex_program(codex_bin: Option<Seq<char>>) -> Seq<char> {
    match codex_bin {
        Some(bin) => if trimmed(bin).len() > 0 { trimmed(bin) } else { "codex"@ },
        None => "codex"@,
    }
}

/// The command to run: the program, then the arguments that the settings name, then `args`.
pub fn build_codex_command_with_bin(
    codex_bin: Option<&str>,
    codex_args: Vec<String>,
    args: Vec<String>,
) -> (r: CodexCommand)
    ensures
        r.program@ == codex_program(
            match codex_bin {
                Some(bin) => Some(bin@),
                None => None,
            },
        ),
        r.args@ == codex_args@ + args@,
{
    let program = match codex_bin {
        Some(bin) => {
            let short = trim_text(bin);
            if short.as_str().unicode_len() > 0 {
                short
            } else {
                "codex".to_owned()
            }
        },
        None => "codex".to_owned(),
    };
    let mut all = codex_args;
    let mut rest = args;
    all.append(&mut rest);
    CodexCommand { program, args: all }
}

/// Whether a program has to be run through the Windows command interpreter: it is a script of
/// that interpreter.
pub fn needs_command_interpreter(resolved: &str) -> (r: bool)
    ensures
        r == ({
            let kind = lowercase(extension_of(PathStyle::Windows, resolved@));
            kind == "cmd"@ || kind == "bat"@
        }),
{
    let kind = extension(PathStyle::Windows, resolved);
    let low = to_lowercase(kind.as_str());
    same_text(low.as_str(), "cmd") || same_text(low.as_str(), "bat")
}

/// What came of asking the command line for its version.
#[derive(Debug, PartialEq, Eq)]
pub enum VersionCheck {
    NotFound,
    SpawnFailed { error: String },
    TimedOut,
    Exited { success: bool, stdout: String, stderr: String },
}

/// What an installation that is missing is reported as.
pub const CODEX_NOT_FOUND: &'static str = "Codex CLI not found. Install Codex and ensure `codex` is on your PATH.";

/// What an installation that stays silent is reported as.
pub const CODEX_TIMED_OUT: &'static str = "Timed out while checking Codex CLI. Make sure `codex --version` runs in Terminal.";

/// What an installation that fails without a word is reported as.
pub const CODEX_FAILED: &'static str = "Codex CLI failed to start. Try running `codex --version` in Terminal.";

/// What a failing command line said: what it wrote to its error output, or else to its output.
pub open spec fn failure_detail(stdout: Seq<char>, stderr: Seq<char>) -> Seq<char> {
    if trimmed(stderr).len() > 0 {
        trimmed(stderr)
    } else {
        trimmed(stdout)
    }
}

/// The version of the installed command line, where it says one; or why it cannot be used.
pub open spec fn installation(check: VersionCheck) -> Result<Option<Seq<char>>, Seq<char>> {
    match check {
        VersionCheck::NotFound => Err(CODEX_NOT_FOUND@),
        VersionCheck::SpawnFailed { error } => Err(error@),
        VersionCheck::TimedOut => Err(CODEX_TIMED_OUT@),
        VersionCheck::Exited { success, stdout, stderr } => if success {
            if trimmed(stdout@).len() > 0 {
                Ok(Some(trimmed(stdout@)))
            } else {
                Ok(None)
            }
        } else if failure_detail(stdout@, stderr@).len() == 0 {
            Err(CODEX_FAILED@)
        } else {
            Err(
                "Codex CLI failed to start: "@ + failure_detail(stdout@, stderr@)
                    + ". Try running `codex --version` in Terminal."@,
            )
        },
    }
}

/// The version of the installed command line, where it says one; or why it cannot be used.
pub fn check_codex_installation(check: VersionCheck) -> (r: Result<Option<String>, String>)
    ensures
        match r {
            Ok(version) => installation(check) == Ok::<Option<Seq<char>>, Seq<char>>(
                crate::model::text_view(version),
            ),
            Err(message) => installation(check) == Err::<Option<Seq<char>>, Seq<char>>(message@),
        },
{
    match check {
        VersionCheck::NotFound => Err(CODEX_NOT_FOUND.to_owned()),
        VersionCheck::SpawnFailed { error } => Err(error),
        VersionCheck::TimedOut => Err(CODEX_TIMED_OUT.to_owned()),
        VersionCheck::Exited { success, stdout, stderr } => {
            let out = trim_text(stdout.as_str());
            if success {
                if out.as_str().unicode_len() > 0 {
                    return Ok(Some(out));
                }
                return Ok(None);
            }
            let err = trim_text(stderr.as_str());
            let detail = if err.as_str().unicode_len() > 0 { err } else { out };
            if detail.as_str().unicode_len() == 0 {
                return Err(CODEX_FAILED.to_owned());
            }
            let mut message = "Codex CLI failed to start: ".to_owned();
            message.append(detail.as_str());
            message.append(". Try running `codex --version` in Terminal.");
            Err(message)
        },
    }
}

/// The search path keeps what it holds, in its order, and gains only what it lacks.
pub proof fn merging_only_appends(style: PathStyle, paths: Seq<Seq<char>>, extras: Seq<Seq<char>>)
    ensures
        paths.is_prefix_of(merged(style, paths, extras)),
    decreases extras.len(),
{
    if extras.len() > 0 {
        merging_only_appends(style, paths, extras.drop_last());
        let before = merged(style, paths, extras.drop_last());
        assert(before.push(extras.last()).take(paths.len() as int) =~= before.take(
            paths.len() as int,
        ));
    }
}

} // verus!
