use voca::autolaunch::{
    desktop_entry, enabled_probe, launch_agent_plist, run_key, BaseDir, LaunchAction,
    LaunchProbe, Platform,
};
use voca::history::like_pattern;
use voca::stt::{transcribe, SttConfig};

#[test]
fn linux_enable_writes_desktop_entry() {
    match voca::autolaunch::set(true, "/usr/bin/voca", Platform::Linux).unwrap() {
        LaunchAction::WriteFile { base, relative, contents } => {
            assert_eq!(base, BaseDir::Config);
            assert_eq!(relative, "autostart/voca.desktop");
            assert_eq!(
                contents,
                "[Desktop Entry]\nType=Application\nName=VOCA\nExec=/usr/bin/voca\nHidden=false\nNoDisplay=false\nX-GNOME-Autostart-enabled=true\n"
            );
        }
        other => panic!("unexpected {other:?}"),
    }
}

#[test]
fn macos_enable_writes_launch_agent() {
    match voca::autolaunch::set(true, "/Applications/VOCA.app/voca", Platform::MacOs).unwrap() {
        LaunchAction::WriteFile { base, relative, contents } => {
            assert_eq!(base, BaseDir::Home);
            assert_eq!(relative, "Library/LaunchAgents/com.b3mlabs.voca.plist");
            assert!(contents.contains("<string>/Applications/VOCA.app/voca</string>"));
            assert!(contents.starts_with("<?xml version=\"1.0\" encoding=\"UTF-8\"?>\n"));
            assert!(contents.ends_with("</plist>\n"));
        }
        other => panic!("unexpected {other:?}"),
    }
    assert_eq!(launch_agent_plist("x"), launch_agent_plist("x"));
}

#[test]
fn disable_removes_the_file_or_value() {
    assert!(matches!(
        voca::autolaunch::set(false, "x", Platform::Linux).unwrap(),
        LaunchAction::RemoveFile { base: BaseDir::Config, .. }
    ));
    match voca::autolaunch::set(false, "x", Platform::Windows).unwrap() {
        LaunchAction::DeleteRunValue { name } => assert_eq!(name, "VOCA"),
        other => panic!("unexpected {other:?}"),
    }
}

#[test]
fn windows_enable_sets_run_value() {
    match voca::autolaunch::set(true, "C:\\voca.exe", Platform::Windows).unwrap() {
        LaunchAction::SetRunValue { name, value } => {
            assert_eq!(name, "VOCA");
            assert_eq!(value, "C:\\voca.exe");
        }
        other => panic!("unexpected {other:?}"),
    }
    assert_eq!(run_key(), "Software\\Microsoft\\Windows\\CurrentVersion\\Run");
}

#[test]
fn unsupported_platform_is_an_error() {
    assert_eq!(
        voca::autolaunch::set(true, "x", Platform::Other).err().unwrap(),
        "auto-launch not supported on this platform"
    );
    assert!(matches!(enabled_probe(Platform::Other), LaunchProbe::Unsupported));
}

#[test]
fn probe_looks_where_set_writes() {
    match enabled_probe(Platform::Linux) {
        LaunchProbe::File { base, relative } => {
            assert_eq!(base, BaseDir::Config);
            assert_eq!(relative, "autostart/voca.desktop");
        }
        other => panic!("unexpected {other:?}"),
    }
    assert!(desktop_entry("e").contains("Exec=e\n"));
}

#[test]
fn like_pattern_wraps_query() {
    assert_eq!(like_pattern("hello"), "%hello%");
    assert_eq!(like_pattern(""), "%%");
}

#[test]
fn transcribe_is_not_bound_yet() {
    let r = transcribe(&[0.0f32; 4], &SttConfig::default());
    assert_eq!(
        r.err().unwrap(),
        "STT not yet implemented — add whisper-rs and implement transcribe()"
    );
}

#[test]
fn audio_start_stop_do_nothing() {
    voca::audio::start();
    voca::audio::stop();
}

#[test]
fn set_and_probe_name_the_same_place() {
    match (voca::autolaunch::set(true, "x", Platform::MacOs).unwrap(), enabled_probe(Platform::MacOs)) {
        (LaunchAction::WriteFile { base, relative, .. }, LaunchProbe::File { base: b2, relative: r2 }) => {
            assert_eq!(base, b2);
            assert_eq!(relative, r2);
        }
        other => panic!("unexpected {other:?}"),
    }
}
