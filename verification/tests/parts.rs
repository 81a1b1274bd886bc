//! The parts that need no script: texts, errors, settings, sessions, listings
//! and the watcher.

use rx_script::ctx::Ctx;
use rx_script::discovery::{discover, entry_point_of, plugin_file_name, DirEntry, EntryKind};
use rx_script::engine::{build_outcome, diagnostics_text, name_of_path, unreadable};
use rx_script::error::{first_line, IoError, IoErrorKind, ScriptError};
use rx_script::journal::Report;
use rx_script::platform::{init, GraphicsContext};
use rx_script::session::{MessageType, Mode, Selection, Session};
use rx_script::settings::{SettingValue, Settings};
use rx_script::text::{blank, headline_of, text_not_after};
use rx_script::value::ScriptValue;
use rx_script::watcher::{FileEvent, ReloadWatcher};
use std::time::Duration;

#[test]
fn headlines() {
    assert_eq!(headline_of(""), "");
    assert_eq!(headline_of("  \n\t\n"), "");
    assert_eq!(headline_of("one"), "one");
    assert_eq!(headline_of("  one two \nthree"), "one two");
    assert_eq!(headline_of("\n\n  two\r\n"), "two");
    assert_eq!(headline_of("\u{3000}wide\u{a0}\nnext"), "wide");
    assert!(blank(' ') && blank('\u{2003}') && !blank('x'));
}

#[test]
fn error_texts() {
    let compile = ScriptError::Compile("\nerror: no\n at 1".to_string());
    assert_eq!(compile.to_string(), "script compile error: \nerror: no\n at 1");
    assert_eq!(first_line(&compile), "script compile error:");
    assert_eq!(ScriptError::Vm("oops".to_string()).to_string(), "script error: oops");
    assert_eq!(
        ScriptError::MissingFn("draw".to_string()).to_string(),
        "script function not found: draw"
    );
    let io = IoError { kind: IoErrorKind::Other, message: "gone".to_string() };
    assert_eq!(ScriptError::from(io).to_string(), "script i/o error: gone");
}

#[test]
fn unreadable_names_the_path() {
    assert_eq!(
        unreadable("a/b.rune", "denied").to_string(),
        "script i/o error: a/b.rune: denied"
    );
}

#[test]
fn scripts_without_a_stem_go_by_their_path() {
    assert_eq!(name_of_path(Some("foo.bar".to_string()), "d/foo.bar.rune"), "foo.bar");
    assert_eq!(name_of_path(None, "d/.."), "d/..");
}

#[test]
fn reports_are_told_in_full() {
    let e = ScriptError::Compile("one\ntwo".to_string());
    let failed = Report::LoadFailed("p".to_string(), e);
    assert!(failed.is_failure());
    assert_eq!(failed.to_string(), "plugin `p`: script compile error: one\ntwo");
    let e = ScriptError::Vm("oops".to_string());
    let hook = Report::HookFailed("p".to_string(), "update".to_string(), e);
    assert_eq!(hook.to_string(), "plugin `p` update: script error: oops");
    let loaded = Report::Loaded("p".to_string(), "d/p.rune".to_string());
    assert!(!loaded.is_failure());
    assert_eq!(loaded.to_string(), "plugin `p` loaded from d/p.rune");
}

#[test]
fn diagnostics_are_text() {
    assert_eq!(diagnostics_text(Some(b"error".to_vec())), "error");
    assert_eq!(diagnostics_text(Some(vec![b'a', 0xff, b'b'])), "a\u{fffd}b");
    assert_eq!(diagnostics_text(None), "unknown compile error");
}

#[test]
fn reported_errors_come_first() {
    match build_outcome(Some("reported".to_string()), Err("failed".to_string())) {
        Err(ScriptError::Compile(text)) => assert_eq!(text, "reported"),
        _ => panic!("expected a compile error"),
    }
    match build_outcome(None, Err("failed".to_string())) {
        Err(ScriptError::Compile(text)) => assert_eq!(text, "failed"),
        _ => panic!("expected a compile error"),
    }
}

#[test]
fn texts_are_ordered_by_code_point() {
    assert!(text_not_after("", ""));
    assert!(text_not_after("", "a"));
    assert!(!text_not_after("a", ""));
    assert!(text_not_after("a", "ab"));
    assert!(text_not_after("Z", "a"));
    assert!(!text_not_after("b", "ab"));
    assert!(text_not_after("z", "é"));
}

fn file(name: &str) -> DirEntry {
    DirEntry { name: Some(name.to_string()), kind: EntryKind::File }
}

fn dir(name: &str, entry_point: bool) -> DirEntry {
    DirEntry { name: Some(name.to_string()), kind: EntryKind::Directory(entry_point) }
}

fn paths(entries: Vec<DirEntry>) -> Vec<String> {
    discover(&entries).iter().map(|p| p.relative_path()).collect()
}

#[test]
fn discovery_sorts_files_and_packages() {
    assert_eq!(
        paths(vec![
            file("zeta.rune"),
            dir("beta", true),
            dir("assets", false),
            file("README.md"),
            file("alpha.rune"),
            file("beta.rune"),
        ]),
        vec!["alpha.rune", "beta/beta.rune", "beta.rune", "zeta.rune"]
    );
}

#[test]
fn discovery_ignores_the_order_of_a_listing() {
    let a = paths(vec![file("b.rune"), file("a.rune"), dir("a", true), dir("c", true)]);
    let b = paths(vec![dir("c", true), dir("a", true), file("a.rune"), file("b.rune")]);
    assert_eq!(a, b);
    assert_eq!(a, vec!["a/a.rune", "a.rune", "b.rune", "c/c.rune"]);
}

#[test]
fn not_every_name_is_a_plugin() {
    assert!(entry_point_of(&file(".rune")).is_none());
    assert!(entry_point_of(&file("rune")).is_none());
    assert!(entry_point_of(&file("p.RUNE")).is_none());
    assert!(entry_point_of(&DirEntry { name: None, kind: EntryKind::Directory(true) }).is_none());
    assert_eq!(entry_point_of(&file("a.b.rune")).unwrap().name, "a.b");
    assert_eq!(plugin_file_name("p"), "p.rune");
    assert!(discover(&Vec::new()).is_empty());
}

#[test]
fn watcher_reports_changes() {
    let mut watcher = ReloadWatcher::new(Ok(())).unwrap();
    assert!(!watcher.changed());

    assert!(
        watcher.wait_changed(&vec![FileEvent::Create, FileEvent::Modify]),
        "watcher should observe the write"
    );
    assert!(!watcher.changed(), "queue should be drained");
}

#[test]
fn watcher_ignores_what_changes_nothing() {
    let mut watcher = ReloadWatcher::new(Ok(())).unwrap();
    watcher.observe(FileEvent::Access);
    watcher.observe(FileEvent::Other);
    assert!(!watcher.changed());
    assert!(!watcher.wait_changed(&vec![FileEvent::Access]));
    assert!(!watcher.wait_changed(&vec![]));
}

#[test]
fn a_burst_reports_once() {
    let mut watcher = ReloadWatcher::new(Ok(())).unwrap();
    for event in [FileEvent::Remove, FileEvent::Access, FileEvent::Modify, FileEvent::Create] {
        watcher.observe(event);
    }
    assert!(watcher.changed());
    assert!(!watcher.changed());
    watcher.observe(FileEvent::Remove);
    assert!(watcher.wait_changed(&vec![]));
    assert!(!watcher.changed());
}

#[test]
fn a_watch_that_fails_is_an_io_error() {
    match ReloadWatcher::new(Err("limit reached".to_string())) {
        Err(ScriptError::Io(e)) => {
            assert_eq!(e.kind, IoErrorKind::Other);
            assert_eq!(e.message, "limit reached");
        }
        _ => panic!("expected an i/o error"),
    }
}

fn session() -> Session {
    let mut settings = Settings::new();
    assert!(settings.declare("debug", SettingValue::Bool(false)));
    assert!(settings.declare("height", SettingValue::U32(3)));
    Session::new(settings)
}

#[test]
fn settings_keep_their_type() {
    let mut settings = Settings::new();
    assert!(settings.declare("a", SettingValue::U32(1)));
    assert!(!settings.declare("a", SettingValue::U32(2)));
    assert!(matches!(settings.get("a"), Some(SettingValue::U32(1))));
    assert!(settings.set("a", SettingValue::U32(5)));
    assert!(!settings.set("a", SettingValue::Bool(true)));
    assert!(!settings.set("b", SettingValue::U32(5)));
    assert!(matches!(settings.get("a"), Some(SettingValue::U32(5))));
    assert!(settings.get("b").is_none());
}

#[test]
fn applied_sets_are_visible() {
    let mut session = session();
    let mut ctx = Ctx::new(&mut session);
    assert!(ctx.apply_setting("height", ScriptValue::Int(7)));
    assert!(matches!(ctx.setting("height"), ScriptValue::Int(7)));
    assert!(!ctx.apply_setting("height", ScriptValue::Bool(true)));
    assert!(!ctx.apply_setting("none", ScriptValue::Int(7)));
    assert!(matches!(ctx.setting("height"), ScriptValue::Int(7)));
    assert!(matches!(ctx.setting("debug"), ScriptValue::Bool(false)));
    assert!(matches!(ctx.setting("none"), ScriptValue::Unit));
}

#[test]
fn large_integers_are_cut_down() {
    let mut session = session();
    let mut ctx = Ctx::new(&mut session);
    assert!(ctx.apply_setting("height", ScriptValue::Int(-1)));
    assert!(matches!(ctx.setting("height"), ScriptValue::Int(4294967295)));
    ctx.set_selection(4294967296, 0, 4294967297, 1);
    assert_eq!(ctx.selection(), Some((0, 0, 1, 1)));
}

#[test]
fn bounds_are_normalized() {
    for s in [
        Selection::new(1, 2, 11, 22),
        Selection::new(11, 2, 1, 22),
        Selection::new(1, 22, 11, 2),
        Selection::new(11, 22, 1, 2),
    ] {
        let b = s.bounds();
        assert_eq!((b.x1, b.y1, b.x2, b.y2), (1, 2, 11, 22));
    }
}

#[test]
fn normal_mode_has_no_selection() {
    let mut session = session();
    session.switch_mode(Mode::Visual);
    session.selection = Some(Selection::new(0, 0, 4, 4));
    session.switch_mode(Mode::Help);
    assert!(session.selection.is_some());
    session.switch_mode(Mode::Normal);
    assert!(session.selection.is_none());
    assert_eq!(session.prev_mode, Some(Mode::Help));
    session.switch_mode(Mode::Normal);
    assert_eq!(session.prev_mode, Some(Mode::Help));
}

#[test]
fn modes_have_names() {
    let names: Vec<String> =
        [Mode::Normal, Mode::Visual, Mode::Command, Mode::Present, Mode::Help]
            .iter()
            .map(|m| m.to_string())
            .collect();
    assert_eq!(names, vec!["normal", "visual", "command", "present", "help"]);
}

#[test]
fn messages_replace_one_another() {
    let mut session = session();
    session.message("one", MessageType::Info);
    session.message("two", MessageType::Error);
    assert_eq!(session.message.to_string(), "two");
    assert_eq!(session.message.message_type, MessageType::Error);
}

#[test]
fn the_headless_platform_is_quiet() {
    let (window, mut events) = init("rx", 640, 480, &[], GraphicsContext::Headless).unwrap();
    events.wait();
    events.wait_timeout(Duration::from_secs(60));
    assert!(events.flush().is_empty());
    assert_eq!(window.handle().size(), window.size());
}
