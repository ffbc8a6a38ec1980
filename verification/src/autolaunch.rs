//! Auto-launch on OS login.
//!
//! - Windows: the value `VOCA` under
//!   `HKCU\Software\Microsoft\Windows\CurrentVersion\Run`.
//! - macOS: a LaunchAgent plist at
//!   `~/Library/LaunchAgents/com.b3mlabs.voca.plist`.
//! - Linux: an XDG autostart entry at `~/.config/autostart/voca.desktop`.
//!
//! This module decides what enabling or disabling takes on each platform
//! and writes the file contents; the shell touches the registry and the
//! file system.
use vstd::prelude::*;

verus! {

/// The operating system the shell runs on.
#[derive(Clone, Copy, Debug, PartialEq, Eq, Structural)]
pub enum Platform {
    Windows,
    MacOs,
    Linux,
    Other,
}

/// The directory a launch file is relative to.
#[derive(Clone, Copy, Debug, PartialEq, Eq, Structural)]
pub enum BaseDir {
    /// The user's home directory.
    Home,
    /// The user's configuration directory.
    Config,
}

/// What the shell must do to enable or disable auto-launch.
#[derive(Debug)]
pub enum LaunchAction {
    /// Set the `Run` registry value `name` to `value`.
    SetRunValue { name: String, value: String },
    /// Delete the `Run` registry value `name` (absent is fine).
    DeleteRunValue { name: String },
    /// Write `contents` to `base/relative`, creating its parent directories.
    WriteFile { base: BaseDir, relative: String, contents: String },
    /// Remove `base/relative` if it exists.
    RemoveFile { base: BaseDir, relative: String },
}

/// Where the shell finds out whether auto-launch is enabled.
#[derive(Debug)]
pub enum LaunchProbe {
    /// The `Run` registry value `name` exists.
    RunValue { name: String },
    /// The file `base/relative` exists.
    File { base: BaseDir, relative: String },
    /// Auto-launch is not supported: never enabled.
    Unsupported,
}

/// A place where the OS records a login item.
pub enum LaunchPlace {
    /// A value of the `Run` registry key.
    RunValue(Seq<char>),
    /// A file relative to a base directory.
    File(BaseDir, Seq<char>),
}

/// Where auto-launch is recorded on `platform`, if it is supported.
pub open spec fn launch_place(platform: Platform) -> Option<LaunchPlace> {
    match platform {
        Platform::Windows => Some(LaunchPlace::RunValue("VOCA"@)),
        Platform::Other => None,
        _ => Some(LaunchPlace::File(launch_file(platform).0, launch_file(platform).1)),
    }
}

/// The place an action writes or removes.
pub open spec fn action_place(a: LaunchAction) -> LaunchPlace {
    match a {
        LaunchAction::SetRunValue { name, .. } => LaunchPlace::RunValue(name@),
        LaunchAction::DeleteRunValue { name } => LaunchPlace::RunValue(name@),
        LaunchAction::WriteFile { base, relative, .. } => LaunchPlace::File(base, relative@),
        LaunchAction::RemoveFile { base, relative } => LaunchPlace::File(base, relative@),
    }
}

/// Whether an action records (rather than removes) a login item.
pub open spec fn action_enables(a: LaunchAction) -> bool {
    match a {
        LaunchAction::SetRunValue { .. } => true,
        LaunchAction::WriteFile { .. } => true,
        _ => false,
    }
}

/// The place a probe looks at.
pub open spec fn probe_place(p: LaunchProbe) -> Option<LaunchPlace> {
    match p {
        LaunchProbe::RunValue { name } => Some(LaunchPlace::RunValue(name@)),
        LaunchProbe::File { base, relative } => Some(LaunchPlace::File(base, relative@)),
        LaunchProbe::Unsupported => None,
    }
}

/// The login items recorded after the shell carries out `a` on `store`.
pub open spec fn apply_action(store: Set<LaunchPlace>, a: LaunchAction) -> Set<LaunchPlace> {
    if action_enables(a) {
        store.insert(action_place(a))
    } else {
        store.remove(action_place(a))
    }
}

/// What a probe answers on the recorded login items `store`.
pub open spec fn probe_answer(store: Set<LaunchPlace>, p: LaunchProbe) -> bool {
    match probe_place(p) {
        Some(place) => store.contains(place),
        None => false,
    }
}

/// Enabling or disabling and then probing round-trips: on a supported
/// platform, after carrying out the action that `set(enable, ..)` returns
/// on any recorded login items, the probe that `enabled_probe` returns
/// answers `enable`.  (The premises are what `set` and `enabled_probe`
/// ensure of their results.)
pub proof fn lemma_set_then_probe(
    enable: bool,
    platform: Platform,
    a: LaunchAction,
    pr: LaunchProbe,
    store: Set<LaunchPlace>,
)
    requires
        launch_place(platform) == Some(action_place(a)),
        action_enables(a) == enable,
        probe_place(pr) == launch_place(platform),
    ensures
        probe_answer(apply_action(store, a), pr) == enable,
{
}

/// The registry key that holds per-user login items.
pub fn run_key() -> (k: &'static str)
    ensures
        k@ == "Software\\Microsoft\\Windows\\CurrentVersion\\Run"@,
{
    "Software\\Microsoft\\Windows\\CurrentVersion\\Run"
}

/// The XDG autostart entry that launches `exe_path`.
pub open spec fn desktop_entry_spec(exe_path: Seq<char>) -> Seq<char> {
    "[Desktop Entry]\nType=Application\nName=VOCA\nExec="@ + exe_path
        + "\nHidden=false\nNoDisplay=false\nX-GNOME-Autostart-enabled=true\n"@
}

/// The LaunchAgent plist that launches `exe_path` at login.
pub open spec fn launch_agent_spec(exe_path: Seq<char>) -> Seq<char> {
    "<?xml version=\"1.0\" encoding=\"UTF-8\"?>\n<!DOCTYPE plist PUBLIC \"-//Apple//DTD PLIST 1.0//EN\"\n  \"http://www.apple.com/DTDs/PropertyList-1.0.dtd\">\n<plist version=\"1.0\">\n<dict>\n    <key>Label</key>             <string>com.b3mlabs.voca</string>\n    <key>ProgramArguments</key>  <array><string>"@
        + exe_path
        + "</string></array>\n    <key>RunAtLoad</key>         <true/>\n    <key>KeepAlive</key>         <false/>\n</dict>\n</plist>\n"@
}

/// Whether `pat` occurs in `s` at position `i`.
pub open spec fn text_at(s: Seq<char>, pat: Seq<char>, i: int) -> bool {
    0 <= i && i + pat.len() <= s.len() && s.subrange(i, i + pat.len()) == pat
}

/// The LaunchAgent written to enable auto-launch has launchd run the
/// program at login (`RunAtLoad` is true), and names the executable as the
/// program to run.
pub proof fn lemma_launch_agent_runs_at_load(exe_path: Seq<char>)
    ensures
        exists|i: int|
            text_at(
                launch_agent_spec(exe_path),
                "<key>RunAtLoad</key>         <true/>"@,
                i,
            ),
        exists|i: int|
            text_at(
                launch_agent_spec(exe_path),
                "<array><string>"@ + exe_path + "</string></array>"@,
                i,
            ),
{
    let head = "<?xml version=\"1.0\" encoding=\"UTF-8\"?>\n<!DOCTYPE plist PUBLIC \"-//Apple//DTD PLIST 1.0//EN\"\n  \"http://www.apple.com/DTDs/PropertyList-1.0.dtd\">\n<plist version=\"1.0\">\n<dict>\n    <key>Label</key>             <string>com.b3mlabs.voca</string>\n    <key>ProgramArguments</key>  <array><string>"@;
    let tail = "</string></array>\n    <key>RunAtLoad</key>         <true/>\n    <key>KeepAlive</key>         <false/>\n</dict>\n</plist>\n"@;
    let run = "<key>RunAtLoad</key>         <true/>"@;
    let open_tag = "<array><string>"@;
    let close_tag = "</string></array>"@;
    reveal_strlit(
        "<?xml version=\"1.0\" encoding=\"UTF-8\"?>\n<!DOCTYPE plist PUBLIC \"-//Apple//DTD PLIST 1.0//EN\"\n  \"http://www.apple.com/DTDs/PropertyList-1.0.dtd\">\n<plist version=\"1.0\">\n<dict>\n    <key>Label</key>             <string>com.b3mlabs.voca</string>\n    <key>ProgramArguments</key>  <array><string>",
    );
    reveal_strlit(
        "</string></array>\n    <key>RunAtLoad</key>         <true/>\n    <key>KeepAlive</key>         <false/>\n</dict>\n</plist>\n",
    );
    reveal_strlit("<key>RunAtLoad</key>         <true/>");
    reveal_strlit("<array><string>");
    reveal_strlit("</string></array>");
    let doc = launch_agent_spec(exe_path);
    assert(doc == head + exe_path + tail);
    let a: int = head.len() + exe_path.len() + 22int;
    let r: int = run.len() as int;
    assert(tail.subrange(22, 22 + r) =~= run);
    assert(doc.subrange(a, a + r) =~= tail.subrange(22, 22 + r));
    assert(text_at(doc, run, a));
    let b: int = head.len() - open_tag.len();
    assert(head.subrange(b, head.len() as int) =~= open_tag);
    assert(tail.subrange(0, close_tag.len() as int) =~= close_tag);
    let prog = open_tag + exe_path + close_tag;
    assert(doc.subrange(b, b + prog.len()) =~= prog);
    assert(text_at(doc, prog, b));
}

/// The autostart entry written to enable auto-launch on Linux runs the
/// executable and is enabled for GNOME autostart.
pub proof fn lemma_desktop_entry_runs_exe(exe_path: Seq<char>)
    ensures
        exists|i: int| text_at(desktop_entry_spec(exe_path), "Exec="@ + exe_path + "\n"@, i),
        exists|i: int|
            text_at(desktop_entry_spec(exe_path), "X-GNOME-Autostart-enabled=true"@, i),
{
    let head = "[Desktop Entry]\nType=Application\nName=VOCA\nExec="@;
    let tail = "\nHidden=false\nNoDisplay=false\nX-GNOME-Autostart-enabled=true\n"@;
    let exec = "Exec="@;
    let nl = "\n"@;
    let en = "X-GNOME-Autostart-enabled=true"@;
    reveal_strlit("[Desktop Entry]\nType=Application\nName=VOCA\nExec=");
    reveal_strlit("\nHidden=false\nNoDisplay=false\nX-GNOME-Autostart-enabled=true\n");
    reveal_strlit("Exec=");
    reveal_strlit("\n");
    reveal_strlit("X-GNOME-Autostart-enabled=true");
    let doc = desktop_entry_spec(exe_path);
    assert(doc == head + exe_path + tail);
    let b: int = head.len() - exec.len();
    let line = exec + exe_path + nl;
    assert(head.subrange(b, head.len() as int) =~= exec);
    assert(tail.subrange(0, 1) =~= nl);
    assert(doc.subrange(b, b + line.len()) =~= line);
    assert(text_at(doc, line, b));
    let c: int = head.len() + exe_path.len() + (tail.len() - 1 - en.len());
    assert(tail.subrange(tail.len() - 1 - en.len(), tail.len() - 1) =~= en);
    assert(doc.subrange(c, c + en.len()) =~= tail.subrange(
        tail.len() - 1 - en.len(),
        tail.len() - 1,
    ));
    assert(text_at(doc, en, c));
}

/// The contents of the XDG autostart entry for `exe_path`.
pub fn desktop_entry(exe_path: &str) -> (s: String)
    ensures
        s@ == desktop_entry_spec(exe_path@),
{
    let mut s = String::from_str("[Desktop Entry]\nType=Application\nName=VOCA\nExec=");
    s.append(exe_path);
    s.append("\nHidden=false\nNoDisplay=false\nX-GNOME-Autostart-enabled=true\n");
    s
}

/// The contents of the LaunchAgent plist for `exe_path`.
pub fn launch_agent_plist(exe_path: &str) -> (s: String)
    ensures
        s@ == launch_agent_spec(exe_path@),
{
    let mut s = String::from_str(
        "<?xml version=\"1.0\" encoding=\"UTF-8\"?>\n<!DOCTYPE plist PUBLIC \"-//Apple//DTD PLIST 1.0//EN\"\n  \"http://www.apple.com/DTDs/PropertyList-1.0.dtd\">\n<plist version=\"1.0\">\n<dict>\n    <key>Label</key>             <string>com.b3mlabs.voca</string>\n    <key>ProgramArguments</key>  <array><string>",
    );
    s.append(exe_path);
    s.append(
        "</string></array>\n    <key>RunAtLoad</key>         <true/>\n    <key>KeepAlive</key>         <false/>\n</dict>\n</plist>\n",
    );
    s
}

/// The launch file of `platform`, relative to its base directory.
pub open spec fn launch_file(platform: Platform) -> (BaseDir, Seq<char>) {
    match platform {
        Platform::MacOs => (BaseDir::Home, "Library/LaunchAgents/com.b3mlabs.voca.plist"@),
        _ => (BaseDir::Config, "autostart/voca.desktop"@),
    }
}

/// The error on platforms without auto-launch support.
pub open spec fn unsupported() -> Seq<char> {
    "auto-launch not supported on this platform"@
}

/// Enable or disable auto-launch of `exe_path` (the absolute path of the
/// executable) on `platform`: the action that does it, or an error on
/// unsupported platforms.
pub fn set(enable: bool, exe_path: &str, platform: Platform) -> (r: Result<LaunchAction, String>)
    ensures
        platform == Platform::Other <==> r is Err,
        r matches Err(e) ==> e@ == unsupported(),
        r matches Ok(a) ==> launch_place(platform) == Some(action_place(a)) && action_enables(a)
            == enable,
        platform == Platform::Windows && enable ==> (r matches Ok(
            LaunchAction::SetRunValue { name, value },
        ) && name@ == "VOCA"@ && value@ == exe_path@),
        platform == Platform::Windows && !enable ==> (r matches Ok(
            LaunchAction::DeleteRunValue { name },
        ) && name@ == "VOCA"@),
        platform == Platform::MacOs && enable ==> (r matches Ok(
            LaunchAction::WriteFile { base, relative, contents },
        ) && (base, relative@) == launch_file(platform) && contents@ == launch_agent_spec(
            exe_path@,
        )),
        platform == Platform::Linux && enable ==> (r matches Ok(
            LaunchAction::WriteFile { base, relative, contents },
        ) && (base, relative@) == launch_file(platform) && contents@ == desktop_entry_spec(
            exe_path@,
        )),
        (platform == Platform::MacOs || platform == Platform::Linux) && !enable ==> (r matches Ok(
            LaunchAction::RemoveFile { base, relative },
        ) && (base, relative@) == launch_file(platform)),
{
    match platform {
        Platform::Windows => {
            if enable {
                Ok(
                    LaunchAction::SetRunValue {
                        name: String::from_str("VOCA"),
                        value: String::from_str(exe_path),
                    },
                )
            } else {
                Ok(LaunchAction::DeleteRunValue { name: String::from_str("VOCA") })
            }
        },
        Platform::MacOs => {
            let relative = String::from_str("Library/LaunchAgents/com.b3mlabs.voca.plist");
            if enable {
                Ok(
                    LaunchAction::WriteFile {
                        base: BaseDir::Home,
                        relative,
                        contents: launch_agent_plist(exe_path),
                    },
                )
            } else {
                Ok(LaunchAction::RemoveFile { base: BaseDir::Home, relative })
            }
        },
        Platform::Linux => {
            let relative = String::from_str("autostart/voca.desktop");
            if enable {
                Ok(
                    LaunchAction::WriteFile {
                        base: BaseDir::Config,
                        relative,
                        contents: desktop_entry(exe_path),
                    },
                )
            } else {
                Ok(LaunchAction::RemoveFile { base: BaseDir::Config, relative })
            }
        },
        Platform::Other => Err(String::from_str("auto-launch not supported on this platform")),
    }
}

/// Where to look to find out whether auto-launch is active on `platform`.
pub fn enabled_probe(platform: Platform) -> (p: LaunchProbe)
    ensures
        platform == Platform::Windows ==> (p matches LaunchProbe::RunValue { name } && name@
            == "VOCA"@),
        platform == Platform::MacOs || platform == Platform::Linux ==> (p matches LaunchProbe::File {
            base,
            relative,
        } && (base, relative@) == launch_file(platform)),
        platform == Platform::Other ==> p is Unsupported,
        probe_place(p) == launch_place(platform),
{
    match platform {
        Platform::Windows => LaunchProbe::RunValue { name: String::from_str("VOCA") },
        Platform::MacOs => LaunchProbe::File {
            base: BaseDir::Home,
            relative: String::from_str("Library/LaunchAgents/com.b3mlabs.voca.plist"),
        },
        Platform::Linux => LaunchProbe::File {
            base: BaseDir::Config,
            relative: String::from_str("autostart/voca.desktop"),
        },
        Platform::Other => LaunchProbe::Unsupported,
    }
}

} // verus!
