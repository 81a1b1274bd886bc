//! Scripts against a session: what they read, what they change, and what
//! becomes of their errors.

use rune::runtime::{Object, VmError, VmResult};
use rune::{Context, ContextError, Module, Ref, Value};
use rx_script::ctx::{script_value, value_or_unit, Ctx};
use rx_script::engine::{CompiledScript, ScriptEngine};
use rx_script::error::{first_line, IoErrorKind, ScriptError};
use rx_script::session::{MessageType, Mode, Session};
use rx_script::settings::{SettingValue, Settings};
use rx_script::value::{CallArg, ScriptValue};
use std::path::PathBuf;
use std::sync::{Arc, Mutex};

type Door = Arc<Mutex<Option<Session>>>;

fn at<T>(door: &Door, f: impl FnOnce(&mut Ctx) -> T) -> VmResult<T> {
    match door.lock().unwrap().as_mut() {
        Some(session) => VmResult::Ok(f(&mut Ctx::new(session))),
        None => VmResult::panic("the context has been revoked"),
    }
}

fn value_of(value: ScriptValue) -> Value {
    match value {
        ScriptValue::Float(bits) => rune::to_value(f64::from_bits(bits)).unwrap(),
        ScriptValue::FloatPair(a, b) => {
            rune::to_value((f32::from_bits(a) as f64, f32::from_bits(b) as f64)).unwrap()
        }
        other => script_value(other).unwrap(),
    }
}

fn set_setting(ctx: &mut Ctx, name: &str, value: Value) -> bool {
    let float = rune::from_value::<f64>(value.clone()).ok().map(f64::to_bits);
    ctx.set_setting(name, value, float)
}

fn view_objects(ctx: &mut Ctx) -> Vec<Object> {
    ctx.views()
        .iter()
        .map(|v| {
            let mut object = Object::new();
            let fields: Vec<(&str, Value)> = vec![
                ("id", rune::to_value(v.id).unwrap()),
                ("width", rune::to_value(v.width).unwrap()),
                ("height", rune::to_value(v.height).unwrap()),
                ("offset_x", rune::to_value(f32::from_bits(v.offset_x) as f64).unwrap()),
                ("offset_y", rune::to_value(f32::from_bits(v.offset_y) as f64).unwrap()),
                ("zoom", rune::to_value(f32::from_bits(v.zoom) as f64).unwrap()),
            ];
            for (name, value) in fields {
                object.insert(rune::alloc::String::try_from(name).unwrap(), value).unwrap();
            }
            object
        })
        .collect()
}

fn module(door: &Door) -> Result<Module, ContextError> {
    let mut m = Module::with_crate("rx")?;
    let d = door.clone();
    m.associated_function("mode", move |_: Ref<Object>| at(&d, |c| c.mode()))?;
    let d = door.clone();
    m.associated_function("prev_mode", move |_: Ref<Object>| at(&d, |c| c.prev_mode()))?;
    let d = door.clone();
    m.associated_function("message", move |_: Ref<Object>, text: Ref<str>| {
        at(&d, |c| c.message(&text))
    })?;
    let d = door.clone();
    m.associated_function("active_view_id", move |_: Ref<Object>| {
        at(&d, |c| c.active_view_id())
    })?;
    let d = door.clone();
    m.associated_function("views", move |_: Ref<Object>| at(&d, view_objects))?;
    let d = door.clone();
    m.associated_function("setting", move |_: Ref<Object>, name: Ref<str>| {
        at(&d, |c| value_of(c.setting(&name)))
    })?;
    let d = door.clone();
    m.associated_function(
        "set_setting",
        move |_: Ref<Object>, name: Ref<str>, value: Value| {
            at(&d, |c| set_setting(c, &name, value))
        },
    )?;
    let d = door.clone();
    m.associated_function("selection", move |_: Ref<Object>| at(&d, |c| c.selection()))?;
    let d = door.clone();
    m.associated_function(
        "set_selection",
        move |_: Ref<Object>, x1: i64, y1: i64, x2: i64, y2: i64| {
            at(&d, |c| c.set_selection(x1, y1, x2, y2))
        },
    )?;
    let d = door.clone();
    m.associated_function("clear_selection", move |_: Ref<Object>| {
        at(&d, |c| c.clear_selection())
    })?;
    Ok(m)
}

fn engine() -> (ScriptEngine, Door) {
    let door: Door = Arc::new(Mutex::new(None));
    let engine = match ScriptEngine::new(module(&door)) {
        Ok(engine) => engine,
        Err(e) => panic!("{}", e.to_string()),
    };
    (engine, door)
}

fn compiled(engine: &ScriptEngine, text: &str) -> CompiledScript {
    match engine.compile_str("t", text) {
        Ok(script) => script,
        Err(e) => panic!("{}", e.to_string()),
    }
}

fn context() -> CallArg {
    CallArg::Value(rune::to_value(Object::new()).unwrap())
}

/// Calls a function with the session lent to it for the duration of the call.
fn call_with(
    engine: &mut ScriptEngine,
    door: &Door,
    script: &CompiledScript,
    name: &str,
    session: &mut Session,
) -> Value {
    let taken = std::mem::replace(session, Session::new(Settings::new()));
    *door.lock().unwrap() = Some(taken);
    let result = script.call(engine, name, vec![context()]);
    *session = door.lock().unwrap().take().unwrap();
    match result {
        Ok(value) => value,
        Err(e) => panic!("{}", e.to_string()),
    }
}

/// A bare headless session for script tests.
fn test_session() -> Session {
    let mut settings = Settings::new();
    assert!(settings.declare("debug", SettingValue::Bool(false)));
    assert!(settings.declare("scale", SettingValue::F64(1.0f64.to_bits())));
    assert!(settings.declare("grid/spacing", SettingValue::U32Tuple(8, 8)));
    assert!(settings.declare("p/height", SettingValue::U32(16)));
    assert!(settings.declare("input/mouse", SettingValue::Ident("on".to_string())));
    assert!(settings.declare("background", SettingValue::Rgba8("#000000".to_string())));
    Session::new(settings)
}

#[test]
fn compile_and_call() {
    let (mut engine, _) = engine();
    let script = compiled(&engine, "pub fn init() { 41 + 1 }");
    let v = script.call(&mut engine, "init", vec![]).unwrap();
    let n: i64 = rune::from_value(v).unwrap();
    assert_eq!(n, 42);
}

#[test]
fn compile_error_reports_diagnostics() {
    let (engine, _) = engine();
    let err = engine.compile_str("bad", "pub fn init() { let }").err().unwrap();
    match err {
        ScriptError::Compile(msg) => {
            assert!(!msg.is_empty(), "diagnostics should not be empty");
        }
        other => panic!("expected compile error, got: {}", other.to_string()),
    }
}

#[test]
fn missing_function_is_distinguished() {
    let (mut engine, _) = engine();
    let script = compiled(&engine, "pub fn init() {}");
    assert!(script.has_fn("init"));
    assert!(!script.has_fn("draw"));
    match script.call(&mut engine, "draw", vec![]) {
        Err(ScriptError::MissingFn(name)) => assert_eq!(name, "draw"),
        other => panic!("expected MissingFn, got: {:?}", other.map(|_| ())),
    }
}

#[test]
fn runtime_error_is_reported() {
    let (mut engine, _) = engine();
    let script = compiled(&engine, "pub fn init() { None.unwrap() }");
    match script.call(&mut engine, "init", vec![]) {
        Err(ScriptError::Vm(_)) => {}
        other => panic!("expected Vm error, got: {:?}", other.map(|_| ())),
    }
}

#[test]
fn state_value_round_trip() {
    let (mut engine, _) = engine();
    let script = compiled(
        &engine,
        r#"
                struct State { count }
                pub fn init() { State { count: 0 } }
                pub fn bump(state) { state.count += 1; state.count }
                "#,
    );
    let state = script.call(&mut engine, "init", vec![]).unwrap();
    let v = script.call(&mut engine, "bump", vec![CallArg::Value(state.clone())]).unwrap();
    let n: i64 = rune::from_value(v).unwrap();
    assert_eq!(n, 1);
    let v = script.call(&mut engine, "bump", vec![CallArg::Value(state)]).unwrap();
    let n: i64 = rune::from_value(v).unwrap();
    assert_eq!(n, 2, "state mutations must persist across calls");
}

#[test]
fn ctx_reads_and_mutates_session() {
    let mut session = test_session();
    let (mut engine, door) = engine();
    let script = compiled(
        &engine,
        r#"
                pub fn init(rx) {
                    rx.message("hello from rune");
                    rx.mode()
                }
                "#,
    );

    let v = call_with(&mut engine, &door, &script, "init", &mut session);

    let mode: String = rune::from_value(v).unwrap();
    assert_eq!(mode, "normal");
    assert_eq!(session.message.to_string(), "hello from rune");
    assert_eq!(session.message.message_type, MessageType::Echo);
}

#[test]
fn stored_ctx_is_revoked_after_the_call() {
    let mut session = test_session();
    let (mut engine, door) = engine();
    let script = compiled(
        &engine,
        r#"
                struct State { rx }
                pub fn init(rx) { State { rx } }
                pub fn later(state) { state.rx.mode() }
                "#,
    );

    let state = call_with(&mut engine, &door, &script, "init", &mut session);
    // The session was taken back when `init` returned; using the smuggled
    // context must be a clean runtime error.
    match script.call(&mut engine, "later", vec![CallArg::Value(state)]) {
        Err(ScriptError::Vm(_)) => {}
        other => panic!("expected Vm error, got: {:?}", other.map(|_| ())),
    }
}

#[test]
fn session_view_api() {
    let mut session = test_session().with_blank(128, 96);
    let (mut engine, door) = engine();
    let script = compiled(
        &engine,
        r#"
                pub fn probe(rx) {
                    let views = rx.views();
                    let v = views[0];
                    (rx.active_view_id(), views.len(), v.width, v.height)
                }
                "#,
    );

    let v = call_with(&mut engine, &door, &script, "probe", &mut session);
    let (id, count, w, h): (i64, i64, i64, i64) = rune::from_value(v).unwrap();
    assert_eq!(count, 1);
    assert_eq!(id, 1);
    assert_eq!((w, h), (128, 96));
}

#[test]
fn settings_get_set() {
    let mut session = test_session();
    let (mut engine, door) = engine();
    let script = compiled(
        &engine,
        r#"
                pub fn probe(rx) {
                    let before = rx.setting("debug");
                    let ok = rx.set_setting("debug", true);
                    let bad_type = rx.set_setting("debug", 3.5);
                    let missing = rx.set_setting("no/such/setting", 1);
                    (before, ok, bad_type, missing, rx.setting("debug"))
                }
                "#,
    );

    let v = call_with(&mut engine, &door, &script, "probe", &mut session);
    let (before, ok, bad_type, missing, after): (bool, bool, bool, bool, bool) =
        rune::from_value(v).unwrap();
    assert!(!before);
    assert!(ok);
    assert!(!bad_type, "type-mismatched set must be rejected");
    assert!(!missing, "unknown setting must be rejected");
    assert!(after, "the set must be visible");
    assert!(session.settings.get("debug").unwrap().is_set());
}

#[test]
fn selection_round_trip() {
    let mut session = test_session();
    let (mut engine, door) = engine();
    let script = compiled(
        &engine,
        r#"
                pub fn probe(rx) {
                    let empty = rx.selection();
                    rx.set_selection(1, 2, 11, 22);
                    let some = rx.selection();
                    (empty, some)
                }
                "#,
    );

    let v = call_with(&mut engine, &door, &script, "probe", &mut session);
    let (empty, some): (Option<(i64, i64, i64, i64)>, Option<(i64, i64, i64, i64)>) =
        rune::from_value(v).unwrap();
    assert_eq!(empty, None);
    assert_eq!(some, Some((1, 2, 11, 22)));
    assert!(session.selection.is_some());
}

#[test]
fn prev_mode_tracks_switches() {
    let mut session = test_session();
    session.switch_mode(Mode::Help);

    let (mut engine, door) = engine();
    let script = compiled(&engine, "pub fn probe(rx) { (rx.mode(), rx.prev_mode()) }");

    let v = call_with(&mut engine, &door, &script, "probe", &mut session);
    let (mode, prev): (String, Option<String>) = rune::from_value(v).unwrap();
    assert_eq!(mode, "help");
    assert_eq!(prev.as_deref(), Some("normal"));
}

#[test]
fn settings_of_every_type_reach_scripts() {
    let mut session = test_session();
    let (mut engine, door) = engine();
    let script = compiled(
        &engine,
        r#"
        pub fn probe(rx) {
            (rx.setting("p/height"), rx.setting("grid/spacing"), rx.setting("input/mouse"),
             rx.setting("background"), rx.setting("scale"))
        }
        pub fn absent(rx) { rx.setting("no/such/setting") == () }
        "#,
    );
    let v = call_with(&mut engine, &door, &script, "probe", &mut session);
    let (height, spacing, mouse, background, scale): (i64, (i64, i64), String, String, f64) =
        rune::from_value(v).unwrap();
    assert_eq!(height, 16);
    assert_eq!(spacing, (8, 8));
    assert_eq!(mouse, "on");
    assert_eq!(background, "#000000");
    assert_eq!(scale, 1.0);
    let v = call_with(&mut engine, &door, &script, "absent", &mut session);
    assert!(rune::from_value::<bool>(v).unwrap());
}

#[test]
fn scripts_set_settings_by_type_only() {
    let mut session = test_session();
    let (mut engine, door) = engine();
    let script = compiled(
        &engine,
        r#"
        pub fn probe(rx) {
            [rx.set_setting("p/height", 24), rx.set_setting("p/height", true),
             rx.set_setting("p/height", "24"), rx.set_setting("scale", 2.5),
             rx.set_setting("scale", 2), rx.set_setting("input/mouse", "off"),
             rx.set_setting("input/mouse", 7), rx.set_setting("background", "red"),
             rx.set_setting("grid/spacing", (4, 4)), rx.set_setting("debug", 1)]
        }
        "#,
    );
    let v = call_with(&mut engine, &door, &script, "probe", &mut session);
    let applied: Vec<bool> = rune::from_value(v).unwrap();
    assert_eq!(
        applied,
        vec![true, false, false, true, false, true, false, false, false, false]
    );
    assert!(matches!(session.settings.get("p/height"), Some(SettingValue::U32(24))));
    assert!(matches!(session.settings.get("grid/spacing"), Some(SettingValue::U32Tuple(8, 8))));
    match session.settings.get("scale") {
        Some(SettingValue::F64(bits)) => assert_eq!(f64::from_bits(*bits), 2.5),
        _ => panic!("the setting must keep its type"),
    }
    match session.settings.get("input/mouse") {
        Some(SettingValue::Ident(text)) => assert_eq!(text, "off"),
        _ => panic!("the setting must keep its type"),
    }
}

#[test]
fn clearing_the_selection_from_a_script() {
    let mut session = test_session();
    let (mut engine, door) = engine();
    let script = compiled(
        &engine,
        "pub fn probe(rx) { rx.set_selection(9, 8, 1, 2); let s = rx.selection(); rx.clear_selection(); s }",
    );
    let v = call_with(&mut engine, &door, &script, "probe", &mut session);
    let bounds: Option<(i64, i64, i64, i64)> = rune::from_value(v).unwrap();
    assert_eq!(bounds, Some((1, 2, 9, 8)));
    assert!(session.selection.is_none());
}

#[test]
fn calls_hand_over_integers_and_texts() {
    let (mut engine, _) = engine();
    let script = compiled(&engine, "pub fn show(n, text) { `${n}/${text}` }");
    let v = script
        .call(&mut engine, "show", vec![CallArg::Int(-7), CallArg::Text("left".to_string())])
        .unwrap();
    assert_eq!(rune::from_value::<String>(v).unwrap(), "-7/left");
}

#[test]
fn wrong_argument_counts_are_runtime_errors() {
    let (mut engine, _) = engine();
    let script = compiled(&engine, "pub fn one(x) { x }");
    assert!(matches!(script.call(&mut engine, "one", vec![]), Err(ScriptError::Vm(_))));
}

#[test]
fn scripts_go_by_the_name_of_their_file() {
    let (engine, _) = engine();
    let text = "pub fn init() { 1 }".to_string();
    let script = engine
        .compile_path(&PathBuf::from("plugins/hello.rune"), Ok(text.clone()))
        .ok()
        .unwrap();
    assert_eq!(script.name, "hello");
    assert_eq!(script.to_string(), "CompiledScript(hello)");
    let script = engine.compile_path(&PathBuf::from("d/foo.bar.rune"), Ok(text.clone()));
    assert_eq!(script.ok().unwrap().name, "foo.bar");
    let script = engine.compile_path(&PathBuf::from("/"), Ok(text.clone())).ok().unwrap();
    assert_eq!(script.name, "/");
    for path in [
        "a", "d/a", "d/a/", "d/a.x/.", ".rune", "d/.rune", "a.", "a..", "...", "..", "d/..", ".",
        "d.e/f", "./a.rune", "\u{e9}.rune",
    ] {
        let path = PathBuf::from(path);
        let expected = match path.file_stem() {
            Some(stem) => stem.to_str().unwrap().to_string(),
            None => path.display().to_string(),
        };
        let script = engine.compile_path(&path, Ok(text.clone())).ok().unwrap();
        assert_eq!(script.name, expected);
    }
}

#[test]
fn a_file_is_compiled_as_its_text() {
    let (mut engine, _) = engine();
    let text = "pub fn init() { 41 + 1 }  pub fn place() { file!() }";
    let path = PathBuf::from("d/foo.rune");
    let from_file = engine.compile_path(&path, Ok(text.to_string())).ok().unwrap();
    let from_text = engine.compile_str("foo", text).ok().unwrap();
    assert_eq!(from_file.name, from_text.name);
    for name in ["init", "place", "draw"] {
        assert_eq!(from_file.has_fn(name), from_text.has_fn(name));
    }
    for script in [&from_file, &from_text] {
        let n: i64 = rune::from_value(script.call(&mut engine, "init", vec![]).unwrap()).unwrap();
        assert_eq!(n, 42);
    }
    // A script can tell where it came from.
    let mut place = |script: &CompiledScript| -> String {
        rune::from_value(script.call(&mut engine, "place", vec![]).unwrap()).unwrap()
    };
    assert_eq!(place(&from_file), "d/foo.rune");
    assert_eq!(place(&from_text), "<memory>");

    let bad = "pub fn init() { let }";
    assert!(matches!(
        engine.compile_path(&path, Ok(bad.to_string())),
        Err(ScriptError::Compile(_))
    ));
    assert!(matches!(engine.compile_str("foo", bad), Err(ScriptError::Compile(_))));
}

#[test]
fn unreadable_files_are_io_errors() {
    let (engine, _) = engine();
    let e = engine
        .compile_path(&PathBuf::from("plugins/gone.rune"), Err("no such file".to_string()))
        .err()
        .unwrap();
    match &e {
        ScriptError::Io(io) => {
            assert_eq!(io.kind, IoErrorKind::NotFound);
            assert_eq!(io.message, "plugins/gone.rune: no such file");
        }
        other => panic!("expected i/o error, got: {}", other.to_string()),
    }
    assert_eq!(e.to_string(), "script i/o error: plugins/gone.rune: no such file");
}

#[test]
fn conversions_fall_back_to_unit() {
    let made = value_or_unit(Ok(rune::to_value(7i64).unwrap()));
    assert_eq!(rune::from_value::<i64>(made).unwrap(), 7);
    let failed = value_or_unit(Err(VmError::panic("no")));
    assert!(rune::from_value::<()>(failed).is_ok());
}

#[test]
fn compile_errors_show_the_place() {
    let (engine, _) = engine();
    let e = engine
        .compile_path(
            &PathBuf::from("plugins/bad.rune"),
            Ok("pub fn init(rx) { let }".to_string()),
        )
        .err()
        .unwrap();
    assert!(e.to_string().starts_with("script compile error: "));
    assert!(e.to_string().contains("plugins/bad.rune"));
    assert!(!e.to_string().contains("unknown compile error"));
    assert!(!e.to_string().contains('\u{1b}'), "diagnostics carry no colour");
    let line = first_line(&e);
    assert!(!line.is_empty());
    assert!(!line.contains('\n'));
    assert_eq!(line, line.trim());
}

#[test]
fn engines_are_made_of_a_context_and_a_module() {
    let door: Door = Arc::new(Mutex::new(None));
    // The module's functions are those of a type that a bare context lacks.
    assert!(matches!(
        ScriptEngine::assemble(Ok(Context::new()), module(&door)),
        Err(ScriptError::Compile(_))
    ));
    let bare = ScriptEngine::assemble(Ok(Context::new()), Ok(Module::new())).ok().unwrap();
    assert!(bare.compile_str("t", "pub fn init() { Some(1) }").is_err());
    assert!(bare.compile_str("t", "pub fn init() { 1 }").is_ok());

    let mut m = module(&door).unwrap();
    let first = m.associated_function("mode", |_: Ref<Object>| 1i64).err().unwrap();
    let second = m.associated_function("views", |_: Ref<Object>| 1i64).err().unwrap();
    let shown = first.to_string();
    match ScriptEngine::assemble(Err(first), Err(second)) {
        Err(ScriptError::Compile(text)) => assert_eq!(text, shown),
        _ => panic!("expected a compile error"),
    }
}

#[test]
fn an_engine_needs_its_module() {
    let door: Door = Arc::new(Mutex::new(None));
    let mut m = module(&door).unwrap();
    let twice = m.associated_function("mode", |_: Ref<Object>| 1i64).err().unwrap();
    let shown = twice.to_string();
    match ScriptEngine::new(Err(twice)) {
        Err(ScriptError::Compile(text)) => assert_eq!(text, shown),
        _ => panic!("expected a compile error"),
    }
}
