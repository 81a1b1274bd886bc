//! The plugin host: loading, hooks, unloading and reloading.

use rune::runtime::{Object, VmResult};
use rune::{ContextError, Module, Ref, Value};
use rx_script::ctx::{script_value, Ctx};
use rx_script::discovery::{DirEntry, EntryKind};
use rx_script::error::ScriptError;
use rx_script::hooks::Lender;
use rx_script::host::{Plugin, PluginHost};
use rx_script::loading::ScriptFile;
use rx_script::session::{Effect, MessageType, Mode, Session, ViewId};
use rx_script::settings::{SettingValue, Settings};
use rx_script::value::ScriptValue;
use rx_script::watcher::FileEvent;
use std::path::PathBuf;
use std::sync::{Arc, Mutex};

type Door = Arc<Mutex<Option<Session>>>;

fn at<T>(door: &Door, f: impl FnOnce(&mut Ctx) -> T) -> VmResult<T> {
    match door.lock().unwrap().as_mut() {
        Some(session) => VmResult::Ok(f(&mut Ctx::new(session))),
        None => VmResult::panic("the context has been revoked"),
    }
}

fn value_of(value: ScriptValue) -> Value {
    match value {
        ScriptValue::Float(bits) => rune::to_value(f64::from_bits(bits)).unwrap(),
        ScriptValue::FloatPair(a, b) => {
            rune::to_value((f32::from_bits(a) as f64, f32::from_bits(b) as f64)).unwrap()
        }
        other => script_value(other).unwrap(),
    }
}

fn set_setting(ctx: &mut Ctx, name: &str, value: Value) -> bool {
    let float = rune::from_value::<f64>(value.clone()).ok().map(f64::to_bits);
    ctx.set_setting(name, value, float)
}

fn view_objects(ctx: &mut Ctx) -> Vec<Object> {
    ctx.views()
        .iter()
        .map(|v| {
            let mut object = Object::new();
            let fields: Vec<(&str, Value)> = vec![
                ("id", rune::to_value(v.id).unwrap()),
                ("width", rune::to_value(v.width).unwrap()),
                ("height", rune::to_value(v.height).unwrap()),
                ("offset_x", rune::to_value(f32::from_bits(v.offset_x) as f64).unwrap()),
                ("offset_y", rune::to_value(f32::from_bits(v.offset_y) as f64).unwrap()),
                ("zoom", rune::to_value(f32::from_bits(v.zoom) as f64).unwrap()),
            ];
            for (name, value) in fields {
                object.insert(rune::alloc::String::try_from(name).unwrap(), value).unwrap();
            }
            object
        })
        .collect()
}

fn module(door: &Door) -> Result<Module, ContextError> {
    let mut m = Module::with_crate("rx")?;
    let d = door.clone();
    m.associated_function("mode", move |_: Ref<Object>| at(&d, |c| c.mode()))?;
    let d = door.clone();
    m.associated_function("prev_mode", move |_: Ref<Object>| at(&d, |c| c.prev_mode()))?;
    let d = door.clone();
    m.associated_function("message", move |_: Ref<Object>, text: Ref<str>| {
        at(&d, |c| c.message(&text))
    })?;
    let d = door.clone();
    m.associated_function("active_view_id", move |_: Ref<Object>| {
        at(&d, |c| c.active_view_id())
    })?;
    let d = door.clone();
    m.associated_function("views", move |_: Ref<Object>| at(&d, view_objects))?;
    let d = door.clone();
    m.associated_function("setting", move |_: Ref<Object>, name: Ref<str>| {
        at(&d, |c| value_of(c.setting(&name)))
    })?;
    let d = door.clone();
    m.associated_function(
        "set_setting",
        move |_: Ref<Object>, name: Ref<str>, value: Value| {
            at(&d, |c| set_setting(c, &name, value))
        },
    )?;
    let d = door.clone();
    m.associated_function("selection", move |_: Ref<Object>| at(&d, |c| c.selection()))?;
    let d = door.clone();
    m.associated_function(
        "set_selection",
        move |_: Ref<Object>, x1: i64, y1: i64, x2: i64, y2: i64| {
            at(&d, |c| c.set_selection(x1, y1, x2, y2))
        },
    )?;
    let d = door.clone();
    m.associated_function("clear_selection", move |_: Ref<Object>| {
        at(&d, |c| c.clear_selection())
    })?;
    Ok(m)
}

/// A bare headless session for script tests.
fn test_session() -> Session {
    let mut settings = Settings::new();
    assert!(settings.declare("debug", SettingValue::Bool(false)));
    assert!(settings.declare("scale", SettingValue::F64(1.0f64.to_bits())));
    assert!(settings.declare("grid/spacing", SettingValue::U32Tuple(8, 8)));
    assert!(settings.declare("p/height", SettingValue::U32(16)));
    assert!(settings.declare("input/mouse", SettingValue::Ident("on".to_string())));
    assert!(settings.declare("background", SettingValue::Rgba8("#000000".to_string())));
    Session::new(settings)
}

/// A plugin directory in memory: each file by its path, with its text.
struct Dir {
    files: Vec<(String, String)>,
}

impl Dir {
    fn new() -> Dir {
        Dir { files: Vec::new() }
    }

    fn write(&mut self, path: &str, text: &str) {
        self.files.retain(|(p, _)| p != path);
        self.files.push((path.to_string(), text.to_string()));
    }

    fn list(&self) -> Vec<DirEntry> {
        let mut entries = Vec::new();
        for (path, _) in &self.files {
            match path.split_once('/') {
                Some((dir, file)) => entries.push(DirEntry {
                    name: Some(dir.to_string()),
                    kind: EntryKind::Directory(file == format!("{}.rune", dir)),
                }),
                None => entries.push(DirEntry {
                    name: Some(path.clone()),
                    kind: EntryKind::File,
                }),
            }
        }
        // Listings come in no particular order.
        entries.reverse();
        entries
    }

    fn read(&self, path: String) -> ScriptFile {
        ScriptFile {
            path: PathBuf::from("plugins").join(&path),
            text: self
                .files
                .iter()
                .find(|(p, _)| *p == path)
                .map(|(_, text)| text.clone())
                .ok_or("no such file".to_string()),
        }
    }
}

/// Everything that a host test needs.
struct Bench {
    dir: Dir,
    door: Door,
    host: PluginHost,
    session: Session,
}

fn watched_bench(dir: Dir, at: Option<&str>, watch: Option<Result<(), String>>) -> Bench {
    let door: Door = Arc::new(Mutex::new(None));
    let host = match PluginHost::new(module(&door), at.map(PathBuf::from), watch) {
        Ok(host) => host,
        Err(e) => panic!("{}", e.to_string()),
    };
    Bench { dir, door, host, session: test_session() }
}

fn bench(dir: Dir) -> Bench {
    watched_bench(dir, Some("plugins"), None)
}

fn lender(door: &Door) -> Lender<impl Fn(Session) -> Value, impl Fn(&Result<Value, ScriptError>) -> Session> {
    let lent = door.clone();
    let taken = door.clone();
    Lender {
        lend: move |session: Session| {
            *lent.lock().unwrap() = Some(session);
            rune::to_value(Object::new()).unwrap()
        },
        revoke: move |_: &Result<Value, ScriptError>| taken.lock().unwrap().take().unwrap(),
    }
}

impl Bench {
    fn load(&mut self) {
        let dir = &self.dir;
        self.host.load(&lender(&self.door), &mut self.session, || dir.list(), &|p: String| {
            dir.read(p)
        });
    }

    fn reload(&mut self) {
        let dir = &self.dir;
        self.host.reload(&lender(&self.door), &mut self.session, || dir.list(), &|p: String| {
            dir.read(p)
        });
    }

    fn reload_if_changed(&mut self) -> bool {
        let dir = &self.dir;
        self.host.reload_if_changed(
            &lender(&self.door),
            &mut self.session,
            || dir.list(),
            &|p: String| dir.read(p),
        )
    }

    fn update(&mut self) {
        self.host.dispatch_update(&lender(&self.door), &mut self.session);
    }

    fn reports(&mut self) -> Vec<String> {
        self.host.take_reports().iter().map(|r| r.to_string()).collect()
    }

    fn names(&self) -> Vec<String> {
        self.host.plugins().iter().map(|p| p.name.clone()).collect()
    }

    fn message(&self) -> String {
        self.session.message.to_string()
    }
}

#[test]
fn host_loads_plugins_in_order() {
    let mut dir = Dir::new();
    // Flat file plugin.
    dir.write("alpha.rune", r#"pub fn init(rx) { rx.message("alpha up"); #{} }"#);
    // Directory-package plugin.
    dir.write("beta/beta.rune", r#"pub fn init(rx) { rx.message("beta up"); #{} }"#);

    let mut b = bench(dir);
    b.load();

    assert_eq!(b.names(), vec!["alpha", "beta"]);
    // beta loaded last; its message is the visible one.
    assert_eq!(b.message(), "beta up");
}

#[test]
fn broken_plugin_does_not_block_siblings() {
    let mut dir = Dir::new();
    dir.write("broken.rune", "pub fn init(rx) { let }");
    dir.write("crashy.rune", r#"pub fn init(rx) { None.unwrap() }"#);
    dir.write("good.rune", r#"pub fn init(rx) { #{} }"#);

    let mut b = bench(dir);
    b.load();

    assert_eq!(b.names(), vec!["good"]);
}

#[test]
fn unload_hook_runs_on_reload() {
    let mut dir = Dir::new();
    dir.write(
        "p.rune",
        r#"
            pub fn init(rx) { #{} }
            pub fn unload(state, rx) { rx.message("p unloaded"); }
            "#,
    );

    let mut b = bench(dir);
    b.load();
    assert_eq!(b.host.plugins().len(), 1);

    // Change the plugin and force a reload: unload runs, new code lands.
    b.dir.write("p.rune", r#"pub fn init(rx) { rx.message("p v2"); #{} }"#);
    b.reload();
    assert_eq!(b.host.plugins().len(), 1);
    // The reload banner is posted last; v2's init ran before it.
    assert_eq!(b.message(), "Plugins reloaded");
    assert_eq!(b.session.message.message_type, MessageType::Execution);
}

fn bench_with(name: &str, body: &str) -> Bench {
    let mut dir = Dir::new();
    dir.write(&format!("{}.rune", name), body);
    let mut b = bench(dir);
    b.load();
    assert_eq!(b.host.plugins().len(), 1, "fixture plugin must load");
    b
}

#[test]
fn input_hooks_fire_before_builtins_via_update() {
    let mut b = bench_with(
        "p",
        r#"
            pub fn init(rx) { #{} }
            pub fn cursor_moved(state, rx, x, y) {
                rx.message(`cursor ${x} ${y}`);
            }
            pub fn mouse_input(state, rx, button, input) {
                rx.message(`mouse ${button} ${input}`);
            }
            "#,
    );
    b.session = b.session.with_blank(32, 32);

    let x = rune::to_value(5.0f64).unwrap();
    let y = rune::to_value(6.0f64).unwrap();
    b.host.dispatch_cursor_moved(&lender(&b.door), &mut b.session, x, y);
    assert_eq!(b.message(), "cursor 5.0 6.0");

    b.host.dispatch_mouse_input(&lender(&b.door), &mut b.session, "left", "pressed");
    assert_eq!(b.message(), "mouse left pressed");
}

#[test]
fn switch_mode_hook_fires_on_edges_only() {
    let mut b = bench_with(
        "p",
        r#"
            pub fn init(rx) { #{ switches: 0 } }
            pub fn switch_mode(state, rx) {
                state.switches += 1;
                rx.message(`switched to ${rx.mode()} (#${state.switches})`);
            }
            "#,
    );

    // First dispatch observes the initial mode as an edge.
    b.update();
    assert_eq!(b.message(), "switched to normal (#1)");

    // Same mode: no edge, no hook.
    b.session.message("sentinel", MessageType::Info);
    b.update();
    assert_eq!(b.message(), "sentinel");

    b.session.switch_mode(Mode::Help);
    b.update();
    assert_eq!(b.message(), "switched to help (#2)");
}

#[test]
fn view_lifecycle_hooks() {
    let mut b = bench_with(
        "p",
        r#"
            pub fn init(rx) { #{} }
            pub fn view_added(state, rx, id) { rx.message(`added ${id}`); }
            pub fn view_removed(state, rx, id) { rx.message(`removed ${id}`); }
            "#,
    );
    b.session = b.session.with_blank(32, 32);
    let id = b.session.views.active_id;

    b.host.dispatch_effects(&lender(&b.door), &mut b.session, &[Effect::ViewAdded(id)]);
    assert_eq!(b.message(), "added 1");
    b.host.dispatch_effects(&lender(&b.door), &mut b.session, &[Effect::ViewRemoved(id)]);
    assert_eq!(b.message(), "removed 1");
}

#[test]
fn erroring_hook_disables_only_that_plugin() {
    let mut dir = Dir::new();
    dir.write(
        "bad.rune",
        r#"
            pub fn init(rx) { #{} }
            pub fn update(state, rx) { None.unwrap() }
            "#,
    );
    dir.write(
        "good.rune",
        r#"
            pub fn init(rx) { #{ ticks: 0 } }
            pub fn update(state, rx) {
                state.ticks += 1;
                rx.message(`tick ${state.ticks}`);
            }
            "#,
    );

    let mut b = bench(dir);
    b.load();
    assert_eq!(b.host.plugins().len(), 2);

    b.update();
    // `bad` errored and was disabled; `good` still ran (it runs after
    // `bad` alphabetically, so its message is the last one).
    assert_eq!(b.message(), "tick 1");

    b.update();
    assert_eq!(b.message(), "tick 2");
    assert_eq!(
        b.host.plugins().iter().filter(|p| p.is_enabled()).count(),
        1,
        "bad plugin must be disabled"
    );
}

#[test]
fn load_failures_are_reported() {
    let mut dir = Dir::new();
    dir.write("broken.rune", "pub fn init(rx) { let }");
    let mut b = bench(dir);
    b.load();
    assert!(b.message().starts_with("Error loading plugin `broken`: script compile error: "));
    assert_eq!(b.session.message.message_type, MessageType::Error);
    assert!(!b.message().contains('\n'));

    let mut dir = Dir::new();
    dir.write("empty.rune", "pub fn update(state, rx) {}");
    let mut b = bench(dir);
    b.load();
    assert_eq!(
        b.message(),
        "Error initializing plugin `empty`: script function not found: init"
    );
    assert!(b.names().is_empty());

    let mut dir = Dir::new();
    dir.write("crashy.rune", "pub fn init(rx) { rx.message(\"so far\"); None.unwrap() }");
    let mut b = bench(dir);
    b.load();
    assert!(b.message().starts_with("Error initializing plugin `crashy`: script error: "));
}

#[test]
fn unreadable_plugins_are_reported() {
    let mut b = bench(Dir::new());
    let dir = Dir::new();
    b.host.load(
        &lender(&b.door),
        &mut b.session,
        || vec![DirEntry { name: Some("gone.rune".to_string()), kind: EntryKind::File }],
        &|p: String| dir.read(p),
    );
    assert_eq!(
        b.message(),
        "Error loading plugin `gone`: script i/o error: plugins/gone.rune: no such file"
    );
}

#[test]
fn hook_failures_are_reported() {
    let mut b = bench_with(
        "p",
        r#"
        pub fn init(rx) { #{} }
        pub fn mouse_input(state, rx, button, input) { rx.message("so far"); None.unwrap() }
        pub fn update(state, rx) { rx.message("update"); }
        "#,
    );
    b.host.dispatch_mouse_input(&lender(&b.door), &mut b.session, "left", "pressed");
    assert!(b.message().starts_with("Plugin `p` disabled: script error: "));
    assert_eq!(b.session.message.message_type, MessageType::Error);
    assert!(!b.host.plugins()[0].is_enabled());

    // A disabled plugin receives no hooks.
    b.session.message("sentinel", MessageType::Info);
    b.update();
    assert_eq!(b.message(), "sentinel");
}

#[test]
fn everything_is_told() {
    let mut dir = Dir::new();
    dir.write("a.rune", "pub fn init(rx) { #{} }  pub fn unload(state, rx) { None.unwrap() }");
    dir.write("b/b.rune", "pub fn init(rx) { None.unwrap() }");
    dir.write("c.rune", "pub fn init(rx) { let }");
    dir.write("d.rune", "pub fn init(rx) { 1 }  pub fn update(state, rx) { None.unwrap() }");
    dir.write("e.rune", "pub fn update(state, rx) {}");
    let mut b = bench(dir);
    b.load();
    let reports = b.host.take_reports();
    let failures: Vec<bool> = reports.iter().map(|r| r.is_failure()).collect();
    assert_eq!(failures, vec![false, true, true, false, true]);
    let texts: Vec<String> = reports.iter().map(|r| r.to_string()).collect();
    assert_eq!(texts[0], "plugin `a` loaded from plugins/a.rune");
    assert!(texts[1].starts_with("plugin `b` init: script error: "));
    assert!(texts[2].starts_with("plugin `c`: script compile error: "));
    // The whole error is told, not just its first line.
    assert!(texts[2].contains('\n') && texts[2].contains("plugins/c.rune"));
    assert_eq!(texts[3], "plugin `d` loaded from plugins/d.rune");
    assert_eq!(texts[4], "plugin `e` init: script function not found: init");
    assert!(b.reports().is_empty());

    b.update();
    b.update();
    let texts = b.reports();
    assert_eq!(texts.len(), 1);
    assert!(texts[0].starts_with("plugin `d` update: script error: "));

    b.host.unload(&lender(&b.door), &mut b.session);
    let texts = b.reports();
    assert_eq!(texts.len(), 1);
    assert!(texts[0].starts_with("plugin `a` unload: script error: "));
}

#[test]
fn each_hook_is_called_once() {
    let mut b = bench_with(
        "p",
        r#"
        pub fn init(rx) { let (x, y, z, w) = rx.selection().unwrap_or((0, 0, 0, 0));
                          rx.set_selection(0, 0, z + 1, 0); #{ updates: 0 } }
        pub fn update(state, rx) { state.updates += 1; }
        pub fn unload(state, rx) { rx.message(`${state.updates} updates`); }
        "#,
    );
    assert_eq!(b.session.selection.unwrap().to_x, 1);
    b.update();
    b.update();
    b.update();
    b.host.unload(&lender(&b.door), &mut b.session);
    assert_eq!(b.message(), "3 updates");
    assert_eq!(b.session.selection.unwrap().to_x, 1);
}

#[test]
fn the_session_is_taken_back_after_the_call() {
    let mut b = bench_with(
        "p",
        "pub fn init(rx) { 1 }  pub fn update(state, rx) { rx.message(\"seen\"); 77 }",
    );
    let lent = b.door.clone();
    let taken = b.door.clone();
    let told: Arc<Mutex<Vec<i64>>> = Arc::new(Mutex::new(Vec::new()));
    let seen = told.clone();
    let lender = Lender {
        lend: move |session: Session| {
            *lent.lock().unwrap() = Some(session);
            rune::to_value(Object::new()).unwrap()
        },
        revoke: move |outcome: &Result<Value, ScriptError>| {
            let value = outcome.as_ref().ok().unwrap().clone();
            seen.lock().unwrap().push(rune::from_value(value).unwrap());
            taken.lock().unwrap().take().unwrap()
        },
    };
    b.host.dispatch_update(&lender, &mut b.session);
    assert_eq!(b.message(), "seen");
    assert_eq!(*told.lock().unwrap(), vec![77]);
}

#[test]
fn disabled_plugins_are_unloaded_too() {
    let mut b = bench_with(
        "p",
        r#"
        pub fn init(rx) { #{} }
        pub fn update(state, rx) { None.unwrap() }
        pub fn unload(state, rx) { rx.message("p unloaded"); }
        "#,
    );
    b.update();
    assert!(!b.host.plugins()[0].is_enabled());
    b.host.unload(&lender(&b.door), &mut b.session);
    assert_eq!(b.message(), "p unloaded");
    assert!(b.host.plugins().is_empty());
}

#[test]
fn failing_unloads_are_passed_over() {
    let mut dir = Dir::new();
    dir.write(
        "a.rune",
        "pub fn init(rx) { #{} }  pub fn unload(state, rx) { None.unwrap() }",
    );
    dir.write("b.rune", "pub fn init(rx) { #{} }");
    dir.write(
        "c.rune",
        "pub fn init(rx) { #{ n: 3 } }  pub fn unload(state, rx) { rx.message(`bye ${state.n}`); }",
    );
    let mut b = bench(dir);
    b.load();
    b.host.unload(&lender(&b.door), &mut b.session);
    assert_eq!(b.message(), "bye 3");
    assert!(b.host.plugins().is_empty());
}

#[test]
fn reload_starts_plugins_afresh() {
    let mut b = bench_with(
        "p",
        r#"
        pub fn init(rx) { #{ ticks: 0 } }
        pub fn update(state, rx) { state.ticks += 1; rx.message(`tick ${state.ticks}`); }
        "#,
    );
    b.update();
    b.update();
    assert_eq!(b.message(), "tick 2");
    b.reload();
    b.update();
    assert_eq!(b.message(), "tick 1");
}

#[test]
fn a_plugin_comes_as_file_and_as_package() {
    let mut dir = Dir::new();
    dir.write("p.rune", r#"pub fn init(rx) { rx.message("file"); #{} }"#);
    dir.write("p/p.rune", r#"pub fn init(rx) { rx.message("package"); #{} }"#);
    let mut b = bench(dir);
    b.load();
    assert_eq!(b.names(), vec!["p", "p"]);
    assert_eq!(b.message(), "file");
}

#[test]
fn loading_again_adds() {
    let mut b = bench_with("q", "pub fn init(rx) { 1 }");
    b.dir.write("p.rune", "pub fn init(rx) { 2 }");
    b.load();
    assert_eq!(b.names(), vec!["q", "p", "q"]);
}

#[test]
fn unheard_hooks_change_nothing() {
    let mut b = bench_with("p", "pub fn init(rx) { rx.message(\"up\"); 1 }");
    b.host.dispatch_mouse_input(&lender(&b.door), &mut b.session, "left", "pressed");
    b.update();
    assert_eq!(b.message(), "up");
    assert!(b.host.plugins()[0].is_enabled());
}

#[test]
fn no_directory_no_plugins() {
    let mut dir = Dir::new();
    dir.write("p.rune", r#"pub fn init(rx) { rx.message("up"); #{} }"#);
    let mut b = watched_bench(dir, None, Some(Ok(())));
    assert_eq!(b.host.plugin_dir(), None);
    b.load();
    assert!(b.names().is_empty());
    assert_eq!(b.message(), "");
    b.host.observe(FileEvent::Create);
    assert!(!b.reload_if_changed());
    b.reload();
    assert_eq!(b.message(), "Plugins reloaded");
}

#[test]
fn reload_follows_the_watcher() {
    let mut dir = Dir::new();
    dir.write("p.rune", r#"pub fn init(rx) { #{} }"#);
    let mut b = watched_bench(dir, Some("plugins"), Some(Ok(())));
    assert_eq!(b.host.plugin_dir(), Some(&PathBuf::from("plugins")));
    b.load();
    assert!(!b.reload_if_changed());
    b.host.observe(FileEvent::Access);
    assert!(!b.reload_if_changed());

    b.dir.write("q.rune", r#"pub fn init(rx) { #{} }"#);
    b.host.observe(FileEvent::Create);
    b.host.observe(FileEvent::Modify);
    assert!(b.reload_if_changed());
    assert_eq!(b.names(), vec!["p", "q"]);
    assert_eq!(b.message(), "Plugins reloaded");
    // The burst reports once.
    assert!(!b.reload_if_changed());
}

#[test]
fn a_directory_that_cannot_be_watched_is_no_obstacle() {
    let mut dir = Dir::new();
    dir.write("p.rune", r#"pub fn init(rx) { #{} }"#);
    let mut b = watched_bench(dir, Some("plugins"), Some(Err("no inotify".to_string())));
    b.load();
    assert_eq!(b.names(), vec!["p"]);
    b.host.observe(FileEvent::Modify);
    assert!(!b.reload_if_changed());
}

#[test]
fn hooks_run_in_plugin_order_with_their_own_state() {
    let mut dir = Dir::new();
    dir.write(
        "b.rune",
        "pub fn init(rx) { 2 }  pub fn view_added(n, rx, id) { rx.set_selection(n, n, id, id); }",
    );
    dir.write(
        "a.rune",
        "pub fn init(rx) { 1 }  pub fn view_added(n, rx, id) { rx.set_selection(n, n, 9, 9); }",
    );
    dir.write("c.rune", "pub fn init(rx) { 3 }");
    let mut b = bench(dir);
    b.load();
    b.host.dispatch_effects(
        &lender(&b.door),
        &mut b.session,
        &[Effect::ViewActivated(ViewId(4)), Effect::ViewAdded(ViewId(7)), Effect::ViewDamaged(ViewId(4))],
    );
    // `b` runs last, with its own state and the view's id.
    let s = b.session.selection.unwrap();
    assert_eq!((s.from_x, s.from_y, s.to_x, s.to_y), (2, 2, 7, 7));
}

#[test]
fn settling_a_hook() {
    let door: Door = Arc::new(Mutex::new(None));
    let mut engine = rx_script::engine::ScriptEngine::new(module(&door)).ok().unwrap();
    let script = engine.compile_str("p", "pub fn init() { 5 }").ok().unwrap();
    let mut session = test_session();
    let state = script.call(&mut engine, "init", vec![]);
    let mut plugin = Plugin::start("p".to_string(), script, state, &mut session).ok().unwrap();
    assert!(plugin.is_enabled());
    assert_eq!(session.message.to_string(), "");

    plugin.settle(&mut session, &Ok(rune::to_value(1i64).unwrap()));
    assert!(plugin.is_enabled());
    plugin.settle(&mut session, &Err(ScriptError::Vm("\n  oh no \n more".to_string())));
    assert!(!plugin.is_enabled());
    assert_eq!(session.message.to_string(), "Plugin `p` disabled: script error:");
}

#[test]
fn a_host_needs_its_module() {
    let door: Door = Arc::new(Mutex::new(None));
    let mut m = module(&door).unwrap();
    let twice = m.associated_function("mode", |_: Ref<Object>| 1i64).err().unwrap();
    assert!(matches!(
        PluginHost::new(Err(twice), None, None),
        Err(ScriptError::Compile(_))
    ));
}
