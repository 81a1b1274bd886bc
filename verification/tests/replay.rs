//! Headless runs: the platform without a window, a session, and a plugin host.

use rune::runtime::{Object, VmResult};
use rune::{ContextError, Module, Ref, Value};
use rx_script::ctx::{script_value, Ctx};
use rx_script::discovery::{DirEntry, EntryKind};
use rx_script::error::ScriptError;
use rx_script::hooks::Lender;
use rx_script::host::PluginHost;
use rx_script::loading::ScriptFile;
use rx_script::platform::{init, GraphicsContext, LogicalSize};
use rx_script::session::{Effect, MessageType, Mode, Session};
use rx_script::settings::{SettingValue, Settings};
use rx_script::value::ScriptValue;
use std::path::PathBuf;
use std::sync::{Arc, Mutex};

type Door = Arc<Mutex<Option<Session>>>;

fn at<T>(door: &Door, f: impl FnOnce(&mut Ctx) -> T) -> VmResult<T> {
    match door.lock().unwrap().as_mut() {
        Some(session) => VmResult::Ok(f(&mut Ctx::new(session))),
        None => VmResult::panic("the context has been revoked"),
    }
}

fn value_of(value: ScriptValue) -> Value {
    match value {
        ScriptValue::Float(bits) => rune::to_value(f64::from_bits(bits)).unwrap(),
        ScriptValue::FloatPair(a, b) => {
            rune::to_value((f32::from_bits(a) as f64, f32::from_bits(b) as f64)).unwrap()
        }
        other => script_value(other).unwrap(),
    }
}

fn set_setting(ctx: &mut Ctx, name: &str, value: Value) -> bool {
    let float = rune::from_value::<f64>(value.clone()).ok().map(f64::to_bits);
    ctx.set_setting(name, value, float)
}

fn view_objects(ctx: &mut Ctx) -> Vec<Object> {
    ctx.views()
        .iter()
        .map(|v| {
            let mut object = Object::new();
            let fields: Vec<(&str, Value)> = vec![
                ("id", rune::to_value(v.id).unwrap()),
                ("width", rune::to_value(v.width).unwrap()),
                ("height", rune::to_value(v.height).unwrap()),
                ("offset_x", rune::to_value(f32::from_bits(v.offset_x) as f64).unwrap()),
                ("offset_y", rune::to_value(f32::from_bits(v.offset_y) as f64).unwrap()),
                ("zoom", rune::to_value(f32::from_bits(v.zoom) as f64).unwrap()),
            ];
            for (name, value) in fields {
                object.insert(rune::alloc::String::try_from(name).unwrap(), value).unwrap();
            }
            object
        })
        .collect()
}

fn module(door: &Door) -> Result<Module, ContextError> {
    let mut m = Module::with_crate("rx")?;
    let d = door.clone();
    m.associated_function("mode", move |_: Ref<Object>| at(&d, |c| c.mode()))?;
    let d = door.clone();
    m.associated_function("prev_mode", move |_: Ref<Object>| at(&d, |c| c.prev_mode()))?;
    let d = door.clone();
    m.associated_function("message", move |_: Ref<Object>, text: Ref<str>| {
        at(&d, |c| c.message(&text))
    })?;
    let d = door.clone();
    m.associated_function("active_view_id", move |_: Ref<Object>| {
        at(&d, |c| c.active_view_id())
    })?;
    let d = door.clone();
    m.associated_function("views", move |_: Ref<Object>| at(&d, view_objects))?;
    let d = door.clone();
    m.associated_function("setting", move |_: Ref<Object>, name: Ref<str>| {
        at(&d, |c| value_of(c.setting(&name)))
    })?;
    let d = door.clone();
    m.associated_function(
        "set_setting",
        move |_: Ref<Object>, name: Ref<str>, value: Value| {
            at(&d, |c| set_setting(c, &name, value))
        },
    )?;
    let d = door.clone();
    m.associated_function("selection", move |_: Ref<Object>| at(&d, |c| c.selection()))?;
    let d = door.clone();
    m.associated_function(
        "set_selection",
        move |_: Ref<Object>, x1: i64, y1: i64, x2: i64, y2: i64| {
            at(&d, |c| c.set_selection(x1, y1, x2, y2))
        },
    )?;
    let d = door.clone();
    m.associated_function("clear_selection", move |_: Ref<Object>| {
        at(&d, |c| c.clear_selection())
    })?;
    Ok(m)
}

/// A bare headless session for script tests.
fn test_session() -> Session {
    let mut settings = Settings::new();
    assert!(settings.declare("debug", SettingValue::Bool(false)));
    assert!(settings.declare("scale", SettingValue::F64(1.0f64.to_bits())));
    assert!(settings.declare("grid/spacing", SettingValue::U32Tuple(8, 8)));
    assert!(settings.declare("p/height", SettingValue::U32(16)));
    assert!(settings.declare("input/mouse", SettingValue::Ident("on".to_string())));
    assert!(settings.declare("background", SettingValue::Rgba8("#000000".to_string())));
    Session::new(settings)
}

/// A plugin that follows everything that it is told.
const FOLLOWER: &str = r#"
pub fn init(rx) { #{ frames: 0 } }
pub fn update(state, rx) { state.frames += 1; }
pub fn switch_mode(state, rx) { rx.message(`mode ${rx.mode()}`); }
pub fn mouse_input(state, rx, button, input) { rx.message(`${button} ${input}`); }
pub fn cursor_moved(state, rx, x, y) { rx.message(`${x},${y}`); }
pub fn view_added(state, rx, id) { rx.message(`view ${id} of ${rx.views().len()}`); }
pub fn view_removed(state, rx, id) { rx.message(`view ${id} gone after ${state.frames} frames`); }
"#;

/// A headless run of a scenario.
struct Run {
    door: Door,
    host: PluginHost,
    session: Session,
}

impl Run {
    fn lender(&self) -> Lender<impl Fn(Session) -> Value, impl Fn(&Result<Value, ScriptError>) -> Session> {
        let lent = self.door.clone();
        let taken = self.door.clone();
        Lender {
            lend: move |session: Session| {
                *lent.lock().unwrap() = Some(session);
                rune::to_value(Object::new()).unwrap()
            },
            revoke: move |_: &Result<Value, ScriptError>| taken.lock().unwrap().take().unwrap(),
        }
    }

    fn frame(&mut self) {
        let lender = self.lender();
        self.host.dispatch_update(&lender, &mut self.session);
    }

    fn blank(mut self, w: u32, h: u32) -> Run {
        self.session = self.session.with_blank(w, h);
        let id = self.session.views.active_id;
        let lender = self.lender();
        self.host.dispatch_effects(&lender, &mut self.session, &[Effect::ViewAdded(id)]);
        self
    }

    fn message(&self) -> String {
        self.session.message.to_string()
    }
}

/// Starts a scenario in a window of the given size, with the follower as its
/// one plugin.
fn test(name: &str, w: u32, h: u32) -> Run {
    let (mut window, mut events) = match init(name, w, h, &[], GraphicsContext::Headless) {
        Ok(opened) => opened,
        Err(e) => panic!("test '{}' failed with: {}", name, e.message),
    };
    assert_eq!(window.size(), LogicalSize { width: w, height: h });
    assert!(window.is_focused());
    assert!(!window.is_closing());
    assert_eq!(window.clipboard(), None);
    window.set_cursor_visible(false);
    events.poll();
    assert!(events.flush().is_empty());
    window.request_redraw();
    window.present();

    let door: Door = Arc::new(Mutex::new(None));
    let dir = format!("tests/{}/plugins", name);
    let host = match PluginHost::new(module(&door), Some(PathBuf::from(&dir)), None) {
        Ok(host) => host,
        Err(e) => panic!("test '{}' failed with: {}", name, e.to_string()),
    };
    assert_eq!(host.plugin_dir(), Some(&PathBuf::from(&dir)));
    let mut run = Run { door, host, session: test_session() };
    let lender = run.lender();
    run.host.load(
        &lender,
        &mut run.session,
        || vec![DirEntry { name: Some("follower.rune".to_string()), kind: EntryKind::File }],
        &|path: String| ScriptFile {
            path: PathBuf::from(&dir).join(path),
            text: Ok(FOLLOWER.to_string()),
        },
    );
    assert_eq!(run.host.plugins().len(), 1);
    assert_eq!(run.message(), "");
    run
}

#[test]
fn simple() {
    let mut run = test("simple", 1280, 720);
    run.frame();
    assert_eq!(run.message(), "mode normal");
}

#[test]
fn resize() {
    for (w, h) in [(0, 0), (1, 1), (640, 480), (u32::MAX, u32::MAX)] {
        test("resize", w, h);
    }
}

#[test]
fn visual() {
    let mut run = test("visual", 640, 480);
    run.session.switch_mode(Mode::Visual);
    run.frame();
    assert_eq!(run.message(), "mode visual");
    run.session.switch_mode(Mode::Normal);
    run.frame();
    assert_eq!(run.message(), "mode normal");
    assert!(run.session.selection.is_none());
}

#[test]
fn palette() {
    let mut run = test("palette", 640, 480);
    run.frame();
    match run.session.settings.get("p/height") {
        Some(SettingValue::U32(n)) => assert_eq!(*n, 16),
        _ => panic!("the palette height must be an integer"),
    }
}

#[test]
fn snapshots() {
    let mut run = test("snapshots", 640, 480).blank(128, 96);
    let views = Ctx::new(&mut run.session).views();
    assert_eq!(views.len(), 1);
    assert_eq!((views[0].id, views[0].width, views[0].height), (1, 128, 96));
    assert_eq!(f32::from_bits(views[0].zoom), 1.0);
    assert_eq!(f32::from_bits(views[0].offset_x), 0.0);
}

#[test]
fn saving() {
    let mut run = test("saving", 640, 480);
    run.session.message("saved", MessageType::Info);
    run.frame();
    run.session.message("saved", MessageType::Info);
    run.frame();
    assert_eq!(run.message(), "saved");
}

#[test]
fn views() {
    let mut run = test("views", 640, 480).blank(32, 32).blank(16, 16);
    assert_eq!(run.message(), "view 2 of 2");
    let id = run.session.views.list[0].id;
    run.frame();
    run.frame();
    let lender = run.lender();
    run.host.dispatch_effects(&lender, &mut run.session, &[Effect::ViewRemoved(id)]);
    assert_eq!(run.message(), "view 1 gone after 2 frames");
}

#[test]
fn yank_paste() {
    let mut run = test("yank-paste", 640, 480);
    Ctx::new(&mut run.session).set_selection(4, 4, 12, 12);
    run.frame();
    assert_eq!(Ctx::new(&mut run.session).selection(), Some((4, 4, 12, 12)));
}

#[test]
fn brush_basic() {
    let mut run = test("brush-basic", 640, 480).blank(64, 64);
    let lender = run.lender();
    run.host.dispatch_mouse_input(&lender, &mut run.session, "left", "pressed");
    assert_eq!(run.message(), "left pressed");
}

#[test]
fn brush_advanced() {
    let mut run = test("brush-advanced", 640, 480).blank(64, 64);
    let lender = run.lender();
    for input in ["pressed", "released"] {
        run.host.dispatch_mouse_input(&lender, &mut run.session, "left", input);
        assert_eq!(run.message(), format!("left {}", input));
    }
}

#[test]
fn frames() {
    let mut run = test("frames", 640, 480).blank(8, 8);
    for _ in 0..5 {
        run.frame();
    }
    let id = run.session.views.active_id;
    let lender = run.lender();
    run.host.dispatch_effects(&lender, &mut run.session, &[Effect::ViewRemoved(id)]);
    assert_eq!(run.message(), "view 1 gone after 5 frames");
}

#[test]
fn ui() {
    let mut run = test("ui", 640, 480);
    for (mode, name) in [
        (Mode::Command, "mode command"),
        (Mode::Present, "mode present"),
        (Mode::Help, "mode help"),
    ] {
        run.session.switch_mode(mode);
        run.frame();
        assert_eq!(run.message(), name);
    }
}

#[test]
fn grid() {
    let mut run = test("grid", 640, 480);
    let shown = Ctx::new(&mut run.session).setting("grid/spacing");
    assert!(matches!(shown, ScriptValue::IntPair(8, 8)));
}

#[test]
fn flood() {
    let mut run = test("flood", 640, 480).blank(16, 16);
    let id = run.session.views.active_id;
    let before = run.message();
    let lender = run.lender();
    run.host.dispatch_effects(&lender, &mut run.session, &[Effect::ViewDamaged(id)]);
    assert_eq!(run.message(), before);
}

#[test]
fn plugin_load() {
    let run = test("plugin-load", 640, 480);
    assert_eq!(run.host.plugins()[0].name, "follower");
    assert!(run.host.plugins()[0].is_enabled());
}

#[test]
fn source() {
    let mut run = test("source", 640, 480);
    assert!(Ctx::new(&mut run.session).apply_setting("debug", ScriptValue::Bool(true)));
    run.frame();
    assert!(run.session.settings.get("debug").unwrap().is_set());
}

#[test]
fn mouse() {
    let mut run = test("mouse", 640, 480).blank(32, 32);
    let lender = run.lender();
    let x = rune::to_value(12.0f64).unwrap();
    let y = rune::to_value(34.5f64).unwrap();
    run.host.dispatch_cursor_moved(&lender, &mut run.session, x, y);
    assert_eq!(run.message(), "12.0,34.5");
}

#[test]
fn visual_mouse() {
    let mut run = test("visual-mouse", 640, 480);
    run.session.switch_mode(Mode::Visual);
    run.frame();
    // A selection that is drawn backwards.
    Ctx::new(&mut run.session).set_selection(20, 30, 10, 5);
    let lender = run.lender();
    run.host.dispatch_mouse_input(&lender, &mut run.session, "left", "released");
    assert_eq!(run.message(), "left released");
    assert_eq!(Ctx::new(&mut run.session).selection(), Some((10, 5, 20, 30)));
}

#[test]
fn organize_views() {
    let mut run = test("organize-views", 640, 480).blank(8, 8).blank(16, 16).blank(32, 32);
    let ids: Vec<i64> = Ctx::new(&mut run.session).views().iter().map(|v| v.id).collect();
    assert_eq!(ids, vec![1, 2, 3]);
    assert_eq!(Ctx::new(&mut run.session).active_view_id(), 3);
}
