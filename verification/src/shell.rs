//! The tray icon, and starting at login.

use crate::paths::{join, joined, PathStyle};
use crate::text::{same_text, str_view, trim_text, trimmed};
use vstd::prelude::*;
use vstd::string::*;

verus! {

/// The colors of the system.
#[derive(Debug, Clone, Copy, PartialEq, Eq, Structural)]
pub enum TrayTheme {
    Light,
    Dark,
}

/// An icon of the tray.
#[derive(Debug, Clone, Copy, PartialEq, Eq, Structural)]
pub enum TrayIcon {
    /// The limiter has tripped.
    Gold,
    /// A dark icon, for light colors.
    Dark,
    /// A light icon, for dark colors.
    Light,
}

/// The colors that a name stands for: any other than the name of dark ones stands for light.
pub fn tray_theme(name: &str) -> (r: TrayTheme)
    ensures
        r == if name@ == "dark"@ { TrayTheme::Dark } else { TrayTheme::Light },
{
    if same_text(name, "dark") {
        TrayTheme::Dark
    } else {
        TrayTheme::Light
    }
}

/// The icon to show. That of a tripped limiter wins over the colors.
pub fn tray_icon(theme: TrayTheme, tripped: bool) -> (r: TrayIcon)
    ensures
        r == if tripped {
            TrayIcon::Gold
        } else {
            match theme {
                TrayTheme::Light => TrayIcon::Dark,
                TrayTheme::Dark => TrayIcon::Light,
            }
        },
{
    if tripped {
        TrayIcon::Gold
    } else {
        match theme {
            TrayTheme::Light => TrayIcon::Dark,
            TrayTheme::Dark => TrayIcon::Light,
        }
    }
}

/// The program to start at login: that of the AppImage where there is one, since the running
/// program then lies in a place that goes away.
pub fn launch_path(app_image: Option<&str>, current_exe: Result<String, String>) -> (r: Result<
    String,
    String,
>)
    ensures
        if str_view(app_image) matches Some(path) && path.len() > 0 {
            r is Ok && r->Ok_0@ == app_image->0@
        } else {
            r == current_exe
        },
{
    if let Some(path) = app_image {
        if path.unicode_len() > 0 {
            return Ok(path.to_owned());
        }
    }
    current_exe
}

/// The text of a desktop entry that starts the program.
pub fn desktop_entry(exe: &str) -> (r: String)
    ensures
        r@ == "[Desktop Entry]\nType=Application\nName=Codex Usage Limiter\nExec=\""@ + exe@
            + "\"\nX-GNOME-Autostart-enabled=true\n"@,
{
    let mut out = "[Desktop Entry]\nType=Application\nName=Codex Usage Limiter\nExec=\"".to_owned();
    out.append(exe);
    out.append("\"\nX-GNOME-Autostart-enabled=true\n");
    out
}

/// What stands before the program in a launch agent.
pub const LAUNCH_AGENT_HEAD: &'static str = "<?xml version=\"1.0\" encoding=\"UTF-8\"?>\n<!DOCTYPE plist PUBLIC \"-//Apple//DTD PLIST 1.0//EN\" \"http://www.apple.com/DTDs/PropertyList-1.0.dtd\">\n<plist version=\"1.0\">\n<dict>\n    <key>Label</key>\n    <string>com.codexusagelimiter.desktop</string>\n    <key>ProgramArguments</key>\n    <array>\n        <string>";

/// What stands behind the program in a launch agent.
pub const LAUNCH_AGENT_TAIL: &'static str = "</string>\n    </array>\n    <key>RunAtLoad</key>\n    <true/>\n</dict>\n</plist>\n";

/// The text of a launch agent that starts the program.
pub fn launch_agent(exe: &str) -> (r: String)
    ensures
        r@ == LAUNCH_AGENT_HEAD@ + exe@ + LAUNCH_AGENT_TAIL@,
{
    let mut out = LAUNCH_AGENT_HEAD.to_owned();
    out.append(exe);
    out.append(LAUNCH_AGENT_TAIL);
    out
}

/// Where the desktop entry belongs: under the directory for settings, or else under the home
/// directory.
pub fn desktop_entry_path(config_home: Option<&str>, home: Option<&str>) -> (r: Option<String>)
    ensures
        crate::model::text_view(r) == match (str_view(config_home), str_view(home)) {
            (Some(base), _) => Some(
                joined(PathStyle::Posix, base, "autostart/codex-usage-limiter.desktop"@),
            ),
            (None, Some(h)) => Some(
                joined(
                    PathStyle::Posix,
                    joined(PathStyle::Posix, h, ".config"@),
                    "autostart/codex-usage-limiter.desktop"@,
                ),
            ),
            (None, None) => None,
        },
{
    let style = PathStyle::Posix;
    match (config_home, home) {
        (Some(base), _) => Some(join(style, base, "autostart/codex-usage-limiter.desktop")),
        (None, Some(h)) => {
            let base = join(style, h, ".config");
            Some(join(style, base.as_str(), "autostart/codex-usage-limiter.desktop"))
        },
        (None, None) => None,
    }
}

/// Where the launch agent belongs.
pub fn launch_agent_path(home: &str) -> (r: String)
    ensures
        r@ == joined(
            PathStyle::Posix,
            home@,
            "Library/LaunchAgents/com.codexusagelimiter.desktop.plist"@,
        ),
{
    join(
        PathStyle::Posix,
        home,
        "Library/LaunchAgents/com.codexusagelimiter.desktop.plist",
    )
}

/// What came of setting the start at login in the Windows registry. Taking away what is not
/// there is no failure.
pub fn registry_outcome(enabled: bool, success: bool, stderr: &str) -> (r: Result<(), String>)
    ensures
        match r {
            Ok(()) => !enabled || success,
            Err(message) => enabled && !success && message@ == trimmed(stderr@),
        },
{
    if enabled && !success {
        return Err(trim_text(stderr));
    }
    Ok(())
}

/// The program as the registry holds it: between quotation marks.
pub fn registry_value(exe: &str) -> (r: String)
    ensures
        r@ == "\""@ + exe@ + "\""@,
{
    let mut out = "\"".to_owned();
    out.append(exe);
    out.append("\"");
    out
}

} // verus!
