//! The plugin host: it loads plugins, hands events to their hooks, and unloads
//! them.

use crate::discovery::{
    discover, discovered, entry_views, point_views, DirEntry, EntryPointView,
};
use crate::engine::{called, makes_engine, CompiledScript, ScriptEngine};
use crate::error::{first_line, joined, ScriptError};
use crate::hooks::{
    call_hook, dispatched, failed, hook_called, hook_record, hook_records, hook_report,
    hook_reports,
    hooks_reach_their_subscribers,
    lemma_called_places, lemma_one_more_call, lemma_one_more_turn, places, plugins_after,
    session_after, settled, subscribed, HookCall, Lender, PluginView,
};
use crate::journal::{note, noted, report_views, Report, ReportView};
use crate::loading::{
    lemma_one_more_loading, load_calls, load_reports, loaded_plugins, loaded_session, loads_points,
    plugins_load_in_order, started, LoadStep, Loading, ScriptFile,
};
use crate::session::{
    mode_name, mode_names_differ, Effect, MessageType, MessageView, Session, SessionView,
};
use crate::text::text_le;
use crate::value::{arg_views, ArgView, CallArg};
use crate::vm::{shown_path, CallRecord};
use crate::watcher::{observed, FileEvent, ReloadWatcher};
use rune::runtime::RuntimeContext;
use rune::{Context, ContextError, Module, Value};
use std::path::PathBuf;
use vstd::prelude::*;
use vstd::string::*;

verus! {

/// A loaded plugin: compiled script + the state value its `init` returned.
pub struct Plugin {
    pub name: String,
    script: CompiledScript,
    state: Value,
    enabled: bool,
}

impl View for Plugin {
    type V = PluginView;

    closed spec fn view(&self) -> PluginView {
        PluginView {
            name: self.name@,
            script: self.script@,
            state: self.state,
            enabled: self.enabled,
        }
    }
}

/// Plugins as mathematical values.
pub open spec fn plugin_views(plugins: Seq<Plugin>) -> Seq<PluginView> {
    plugins.map_values(|p: Plugin| p@)
}

/// What handing a hook to all plugins makes of the host and the session.
pub open spec fn dispatches<A: Fn(Session) -> Value, B: Fn(&Result<Value, ScriptError>) -> Session>(
    lender: Lender<A, B>,
    host: HostView,
    session: SessionView,
    hook: Seq<char>,
    extra: Seq<ArgView>,
    host_after: HostView,
    after: SessionView,
) -> bool {
    exists|calls: Seq<HookCall>|
        {
            &&& #[trigger] dispatched(
                lender,
                host.plugins,
                session,
                hook,
                extra,
                calls,
                host.plugins.len(),
            )
            &&& host_after == HostView {
                plugins: plugins_after(host.plugins, calls),
                journal: host.journal + hook_reports(host.plugins, hook, calls),
                calls: host.calls + hook_records(host.plugins, hook, extra, calls),
                ..host
            }
            &&& after == session_after(host.plugins, session, calls)
        }
}

/// What the end-of-update dispatch makes of the host and the session: where
/// the mode is not the one that was last reported, `switch_mode` goes first.
pub open spec fn updates<A: Fn(Session) -> Value, B: Fn(&Result<Value, ScriptError>) -> Session>(
    lender: Lender<A, B>,
    host: HostView,
    session: SessionView,
    host_after: HostView,
    after: SessionView,
) -> bool {
    let mode = Some(mode_name(session.mode));
    if host.last_mode == mode {
        dispatches(lender, host, session, "update"@, Seq::empty(), host_after, after)
    } else {
        let noted = HostView { last_mode: mode, ..host };
        exists|host_between: HostView, between: SessionView|
            {
                &&& #[trigger] dispatches(
                    lender,
                    noted,
                    session,
                    "switch_mode"@,
                    Seq::empty(),
                    host_between,
                    between,
                )
                &&& dispatches(
                    lender,
                    host_between,
                    between,
                    "update"@,
                    Seq::empty(),
                    host_after,
                    after,
                )
            }
    }
}

/// The hook that an effect of the session is reported to, if any, and the view
/// that it is about.
pub open spec fn effect_hook(effect: Effect) -> Option<(Seq<char>, i64)> {
    match effect {
        Effect::ViewAdded(id) => Some(("view_added"@, id.0 as i64)),
        Effect::ViewRemoved(id) => Some(("view_removed"@, id.0 as i64)),
        _ => None,
    }
}

/// What one effect makes of the host and the session.
pub open spec fn reports_effect<A: Fn(Session) -> Value, B: Fn(&Result<Value, ScriptError>) -> Session>(
    lender: Lender<A, B>,
    host: HostView,
    session: SessionView,
    effect: Effect,
    host_after: HostView,
    after: SessionView,
) -> bool {
    match effect_hook(effect) {
        Some((hook, id)) => dispatches(
            lender,
            host,
            session,
            hook,
            seq![ArgView::Int(id)],
            host_after,
            after,
        ),
        None => host_after == host && after == session,
    }
}

/// What effects make, one after the other, of the host and the session.
pub open spec fn reports_effects<A: Fn(Session) -> Value, B: Fn(&Result<Value, ScriptError>) -> Session>(
    lender: Lender<A, B>,
    host: HostView,
    session: SessionView,
    effects: Seq<Effect>,
    host_after: HostView,
    after: SessionView,
) -> bool
    decreases effects.len(),
{
    if effects.len() == 0 {
        host_after == host && after == session
    } else {
        exists|host_between: HostView, between: SessionView|
            {
                &&& reports_effects(
                    lender,
                    host,
                    session,
                    effects.drop_last(),
                    host_between,
                    between,
                )
                &&& #[trigger] reports_effect(
                    lender,
                    host_between,
                    between,
                    effects.last(),
                    host_after,
                    after,
                )
            }
    }
}

/// What loading makes of the host and the session: the plugins that the
/// directory's entry points come to are added, in the order of the entry
/// points. Without a directory there is nothing to load.
pub open spec fn loads<
    A: Fn(Session) -> Value,
    B: Fn(&Result<Value, ScriptError>) -> Session,
    D: FnOnce() -> Vec<DirEntry>,
    R: Fn(String) -> ScriptFile,
>(
    lender: Lender<A, B>,
    list: D,
    read: R,
    host: HostView,
    session: SessionView,
    host_after: HostView,
    after: SessionView,
) -> bool {
    if host.dir is None {
        host_after == host && after == session
    } else {
        exists|entries: Vec<DirEntry>, points: Seq<EntryPointView>, loadings: Seq<Loading>|
            {
                &&& #[trigger] list.ensures((), entries)
                &&& discovered(entry_views(entries@), points)
                &&& loadings.len() == points.len()
                &&& #[trigger] loads_points(
                    lender,
                    read,
                    host.context,
                    host.runtime,
                    points,
                    session,
                    loadings,
                )
                &&& host_after == HostView {
                    plugins: host.plugins + loaded_plugins(points, loadings),
                    journal: host.journal + load_reports(points, loadings),
                    calls: host.calls + load_calls(loadings),
                    ..host
                }
                &&& after == loaded_session(points, session, loadings)
            }
    }
}

/// What unloading one plugin makes of the session, what there is to tell of it,
/// and the calls that it makes: its `unload`, where it has one, is called, and a
/// failure is told of, but makes no other difference.
pub open spec fn unloads_plugin<A: Fn(Session) -> Value, B: Fn(&Result<Value, ScriptError>) -> Session>(
    lender: Lender<A, B>,
    plugin: PluginView,
    session: SessionView,
    report: Option<ReportView>,
    made: Seq<CallRecord>,
    after: SessionView,
) -> bool {
    if plugin.script.defines("unload"@) {
        exists|call: HookCall|
            {
                &&& #[trigger] hook_called(
                    lender,
                    plugin.script,
                    "unload"@,
                    Some(plugin.state),
                    Seq::empty(),
                    call,
                )
                &&& call.lent@ == session
                &&& call.returned@ == after
                &&& report == hook_report(plugin.name, "unload"@, call.outcome)
                &&& made == seq![hook_record(plugin, "unload"@, Seq::empty(), call)]
            }
    } else {
        after == session && report is None && made.len() == 0
    }
}

/// What unloading plugins, one after the other, makes of the session, what
/// there is to tell of it, and the calls that it makes.
pub open spec fn unloads_plugins<A: Fn(Session) -> Value, B: Fn(&Result<Value, ScriptError>) -> Session>(
    lender: Lender<A, B>,
    plugins: Seq<PluginView>,
    session: SessionView,
    reports: Seq<ReportView>,
    made: Seq<CallRecord>,
    after: SessionView,
) -> bool
    decreases plugins.len(),
{
    if plugins.len() == 0 {
        after == session && reports.len() == 0 && made.len() == 0
    } else {
        exists|
            between: SessionView,
            earlier: Seq<ReportView>,
            report: Option<ReportView>,
            before: Seq<CallRecord>,
            last: Seq<CallRecord>,
        |
            {
                &&& unloads_plugins(lender, plugins.drop_last(), session, earlier, before, between)
                &&& #[trigger] unloads_plugin(lender, plugins.last(), between, report, last, after)
                &&& reports == #[trigger] noted(earlier, report)
                &&& made == #[trigger] (before + last)
            }
    }
}

/// What unloading makes of the host and the session: no plugin is left.
pub open spec fn unloads<A: Fn(Session) -> Value, B: Fn(&Result<Value, ScriptError>) -> Session>(
    lender: Lender<A, B>,
    host: HostView,
    session: SessionView,
    host_after: HostView,
    after: SessionView,
) -> bool {
    exists|reports: Seq<ReportView>, made: Seq<CallRecord>|
        {
            &&& #[trigger] unloads_plugins(lender, host.plugins, session, reports, made, after)
            &&& host_after == HostView {
                plugins: Seq::empty(),
                journal: host.journal + reports,
                calls: host.calls + made,
                ..host
            }
        }
}

/// What reloading makes of the host and the session: everything is unloaded,
/// then loaded, and that is reported last.
pub open spec fn reloads<
    A: Fn(Session) -> Value,
    B: Fn(&Result<Value, ScriptError>) -> Session,
    D: FnOnce() -> Vec<DirEntry>,
    R: Fn(String) -> ScriptFile,
>(
    lender: Lender<A, B>,
    list: D,
    read: R,
    host: HostView,
    session: SessionView,
    host_after: HostView,
    after: SessionView,
) -> bool {
    exists|emptied: HostView, unloaded: SessionView, loaded: SessionView|
        {
            &&& #[trigger] unloads(lender, host, session, emptied, unloaded)
            &&& #[trigger] loads(lender, list, read, emptied, unloaded, host_after, loaded)
            &&& after == loaded.with_message("Plugins reloaded"@, MessageType::Execution)
        }
}

impl Plugin {
    /// A plugin whose `init` came to an outcome: the state of the plugin, or a
    /// failure, which is reported to the message line and handed back.
    pub fn start(
        name: String,
        script: CompiledScript,
        outcome: Result<Value, ScriptError>,
        session: &mut Session,
    ) -> (r: Result<Plugin, ScriptError>)
        ensures
            match called(outcome) {
                Ok(state) => r is Ok && r->Ok_0@ == (PluginView {
                    name: name@,
                    script: script@,
                    state,
                    enabled: true,
                }),
                Err(e) => r is Err && r->Err_0@ == e,
            },
            final(session)@ == started(old(session)@, name@, called(outcome)),
    {
        match outcome {
            Ok(state) => Ok(Plugin { name, script, state, enabled: true }),
            Err(e) => {
                let text = joined(
                    joined(
                        joined("Error initializing plugin `", name.as_str()).as_str(),
                        "`: ",
                    ).as_str(),
                    first_line(&e).as_str(),
                );
                session.message(text.as_str(), MessageType::Error);
                Err(e)
            },
        }
    }

    /// Whether the plugin receives hooks.
    pub fn is_enabled(&self) -> (r: bool)
        ensures
            r == self@.enabled,
    {
        self.enabled
    }

    /// Takes note of what a hook came to: a plugin whose hook failed is
    /// disabled, and that is reported to the message line.
    pub fn settle(&mut self, session: &mut Session, outcome: &Result<Value, ScriptError>)
        ensures
            final(self)@ == (PluginView {
                enabled: old(self)@.enabled && *outcome is Ok,
                ..old(self)@
            }),
            final(session)@ == settled(old(session)@, old(self)@.name, called(*outcome)),
    {
        if let Err(e) = outcome {
            self.enabled = false;
            let text = joined(
                joined(joined("Plugin `", self.name.as_str()).as_str(), "` disabled: ").as_str(),
                first_line(e).as_str(),
            );
            session.message(text.as_str(), MessageType::Error);
        }
    }
}

/// Owns all plugins. It stands apart from the session, so that hooks can have
/// the session while the host calls them.
pub struct PluginHost {
    engine: ScriptEngine,
    plugins: Vec<Plugin>,
    dir: Option<PathBuf>,
    watcher: Option<ReloadWatcher>,
    last_mode: Option<String>,
    journal: Vec<Report>,
}

/// A plugin host as a mathematical value.
#[verifier::ext_equal]
pub struct HostView {
    /// What plugins are compiled against.
    pub context: Context,
    /// What plugins run against.
    pub runtime: RuntimeContext,
    pub plugins: Seq<PluginView>,
    /// The plugin directory, if there is one.
    pub dir: Option<PathBuf>,
    /// Whether a change of the directory waits to be reported, where the
    /// directory is watched.
    pub watcher: Option<bool>,
    /// Last mode reported to `switch_mode` hooks.
    pub last_mode: Option<Seq<char>>,
    /// What there is to tell that nobody has asked for yet.
    pub journal: Seq<ReportView>,
    /// Every call that was made into a plugin's script.
    pub calls: Seq<CallRecord>,
}

impl View for PluginHost {
    type V = HostView;

    closed spec fn view(&self) -> HostView {
        HostView {
            context: self.engine.context(),
            runtime: self.engine.runtime(),
            plugins: plugin_views(self.plugins@),
            dir: self.dir,
            watcher: match self.watcher {
                Some(watcher) => Some(watcher@),
                None => None,
            },
            last_mode: match self.last_mode {
                Some(mode) => Some(mode@),
                None => None,
            },
            journal: report_views(self.journal@),
            calls: self.engine.calls_made(),
        }
    }
}

impl PluginHost {
    /// A host rooted at the given plugin directory (`None` = no plugins), whose
    /// plugins see the given native module. `watch` says how watching the
    /// directory began, where it is a directory; one that cannot be watched is
    /// none the worse for it.
    pub fn new(
        module: Result<Module, ContextError>,
        dir: Option<PathBuf>,
        watch: Option<Result<(), String>>,
    ) -> (r: Result<PluginHost, ScriptError>)
        ensures
            match r {
                Ok(host) => {
                    &&& makes_engine(module, Ok((host@.context, host@.runtime)))
                    &&& host@.plugins == Seq::<PluginView>::empty()
                    &&& host@.dir == dir
                    &&& host@.watcher == if dir is Some && watch is Some
                        && watch->Some_0 is Ok {
                        Some(false)
                    } else {
                        None
                    }
                    &&& host@.last_mode is None
                    &&& host@.journal == Seq::<ReportView>::empty()
                    &&& host@.calls == Seq::<CallRecord>::empty()
                },
                Err(e) => makes_engine(module, Err(e@)),
            },
    {
        let engine = match ScriptEngine::new(module) {
            Ok(engine) => engine,
            Err(e) => return Err(e),
        };
        let watcher = match (&dir, watch) {
            (Some(_), Some(started)) => match ReloadWatcher::new(started) {
                Ok(watcher) => Some(watcher),
                Err(_) => None,
            },
            _ => None,
        };
        let host = PluginHost {
            engine,
            plugins: Vec::new(),
            dir,
            watcher,
            last_mode: None,
            journal: Vec::new(),
        };
        assert(host@.plugins =~= Seq::empty());
        assert(host@.journal =~= Seq::empty());
        Ok(host)
    }

    /// The plugin directory, if there is one.
    pub fn plugin_dir(&self) -> (r: Option<&PathBuf>)
        ensures
            match self@.dir {
                Some(dir) => r == Some(&dir),
                None => r is None,
            },
    {
        match &self.dir {
            Some(dir) => Some(dir),
            None => None,
        }
    }

    /// Takes what there is to tell of the plugins: what was loaded, and every
    /// failure, in full, in the order in which it came about.
    pub fn take_reports(&mut self) -> (r: Vec<Report>)
        ensures
            report_views(r@) == old(self)@.journal,
            final(self)@ == (HostView { journal: Seq::empty(), ..old(self)@ }),
    {
        let mut reports: Vec<Report> = Vec::new();
        std::mem::swap(&mut self.journal, &mut reports);
        assert(self@.journal =~= Seq::empty());
        reports
    }

    /// The plugins, in the order in which they were loaded.
    pub fn plugins(&self) -> (r: &Vec<Plugin>)
        ensures
            plugin_views(r@) == self@.plugins,
    {
        &self.plugins
    }

    /// Takes note of an event in the plugin directory, where it is watched.
    pub fn observe(&mut self, event: FileEvent)
        ensures
            final(self)@ == (HostView {
                watcher: match old(self)@.watcher {
                    Some(pending) => Some(observed(pending, seq![event])),
                    None => None,
                },
                ..old(self)@
            }),
    {
        if let Some(watcher) = &mut self.watcher {
            watcher.observe(event);
        }
    }

    /// Loads all plugins from the plugin directory. `list` lists the directory,
    /// and `read` reads a file below it. A plugin that fails to compile or
    /// whose `init` errors is reported to the message line and skipped; it
    /// never affects its siblings.
    pub fn load<
        A: Fn(Session) -> Value,
        B: Fn(&Result<Value, ScriptError>) -> Session,
        D: FnOnce() -> Vec<DirEntry>,
        R: Fn(String) -> ScriptFile,
    >(&mut self, lender: &Lender<A, B>, session: &mut Session, list: D, read: &R)
        requires
            lender.ready(),
            list.requires(()),
            forall|path: String| #[trigger] read.requires((path,)),
        ensures
            loads(
                *lender,
                list,
                *read,
                old(self)@,
                old(session)@,
                final(self)@,
                final(session)@,
            ),
    {
        if self.dir.is_none() {
            return;
        }
        let ghost host = self@;
        let ghost before = session@;
        let nothing: Vec<CallArg> = Vec::new();
        assert(arg_views(nothing@) =~= Seq::empty());
        let entries = list();
        let found = discover(&entries);
        let ghost points = point_views(found@);
        let ghost mut loadings: Seq<Loading> = Seq::empty();
        let mut i: usize = 0;
        assert(host.plugins + loaded_plugins(points, loadings) =~= host.plugins);
        assert(host.journal + load_reports(points, loadings) =~= host.journal);
        assert(host.calls + load_calls(loadings) =~= host.calls);
        while i < found.len()
            invariant
                lender.ready(),
                forall|path: String| #[trigger] read.requires((path,)),
                arg_views(nothing@) == Seq::<ArgView>::empty(),
                points == point_views(found@),
                i == loadings.len(),
                i <= found.len(),
                self@ == (HostView {
                    plugins: host.plugins + loaded_plugins(points, loadings),
                    journal: host.journal + load_reports(points, loadings),
                    calls: host.calls + load_calls(loadings),
                    ..host
                }),
                session@ == loaded_session(points, before, loadings),
                loads_points(
                    *lender,
                    *read,
                    host.context,
                    host.runtime,
                    points,
                    before,
                    loadings,
                ),
            decreases found.len() - i,
        {
            let ghost point = points[i as int];
            assert(point == found@[i as int]@);
            let asked = found[i].relative_path();
            let ghost path_asked = asked;
            let file = read(asked);
            let ghost file_read = file;
            let path = shown_path(&file.path);
            let name = found[i].name.clone();
            let ghost mut step: LoadStep = arbitrary();
            match self.engine.compile_path(&file.path, file.text) {
                Err(e) => {
                    let text = joined(
                        joined(
                            joined("Error loading plugin `", name.as_str()).as_str(),
                            "`: ",
                        ).as_str(),
                        first_line(&e).as_str(),
                    );
                    session.message(text.as_str(), MessageType::Error);
                    proof {
                        step = LoadStep::CompileFailed(e@);
                    }
                    note(&mut self.journal, Report::LoadFailed(name, e));
                },
                Ok(script) => {
                    let ghost compiled_script = script@;
                    let outcome = if script.has_fn("init") {
                        let (outcome, call) = call_hook(
                            &mut self.engine,
                            lender,
                            session,
                            &script,
                            "init",
                            None,
                            &nothing,
                        );
                        proof {
                            step = LoadStep::InitCalled(compiled_script, call@);
                        }
                        outcome
                    } else {
                        proof {
                            step = LoadStep::InitMissing(compiled_script);
                        }
                        script.call(&mut self.engine, "init", Vec::new())
                    };
                    match Plugin::start(name.clone(), script, outcome, session) {
                        Ok(plugin) => {
                            let ghost held = self.plugins@;
                            self.plugins.push(plugin);
                            assert(plugin_views(self.plugins@) =~= plugin_views(held).push(
                                plugin@,
                            ));
                            note(&mut self.journal, Report::Loaded(name, path));
                        },
                        Err(e) => {
                            let hook = "init".to_owned();
                            note(&mut self.journal, Report::HookFailed(name, hook, e));
                        },
                    }
                },
            }
            proof {
                let loading = Loading { asked: path_asked, file: file_read, step };
                lemma_one_more_loading(
                    *lender,
                    *read,
                    host.context,
                    host.runtime,
                    points,
                    before,
                    loadings,
                    loading,
                );
                loadings = loadings.push(loading);
                assert(self@.plugins =~= host.plugins + loaded_plugins(points, loadings));
                assert(self@.journal =~= host.journal + load_reports(points, loadings));
                assert(self@.calls =~= host.calls + load_calls(loadings));
            }
            i = i + 1;
        }
    }

    /// Calls `unload` on every plugin that defines it, then drops them all.
    pub fn unload<A: Fn(Session) -> Value, B: Fn(&Result<Value, ScriptError>) -> Session>(
        &mut self,
        lender: &Lender<A, B>,
        session: &mut Session,
    )
        requires
            lender.ready(),
        ensures
            unloads(*lender, old(self)@, old(session)@, final(self)@, final(session)@),
    {
        let ghost host = self@;
        let ghost before = session@;
        let nothing: Vec<CallArg> = Vec::new();
        assert(arg_views(nothing@) =~= Seq::empty());
        let ghost mut reports: Seq<ReportView> = Seq::empty();
        let ghost mut made: Seq<CallRecord> = Seq::empty();
        assert(host.journal + reports =~= host.journal);
        assert(host.calls + made =~= host.calls);
        let mut i: usize = 0;
        while i < self.plugins.len()
            invariant
                lender.ready(),
                arg_views(nothing@) == Seq::<ArgView>::empty(),
                i <= self.plugins.len(),
                self@ == (HostView {
                    journal: host.journal + reports,
                    calls: host.calls + made,
                    ..host
                }),
                unloads_plugins(
                    *lender,
                    host.plugins.take(i as int),
                    before,
                    reports,
                    made,
                    session@,
                ),
            decreases self.plugins.len() - i,
        {
            let ghost between = session@;
            let ghost earlier = reports;
            let ghost mut report: Option<ReportView> = None;
            let ghost calls_before = made;
            let ghost mut last: Seq<CallRecord> = Seq::empty();
            assert(self.plugins@[i as int]@ == host.plugins[i as int]);
            if self.plugins[i].script.has_fn("unload") {
                let (outcome, call) = call_hook(
                    &mut self.engine,
                    lender,
                    session,
                    &self.plugins[i].script,
                    "unload",
                    Some(&self.plugins[i].state),
                    &nothing,
                );
                assert(hook_called(
                    *lender,
                    host.plugins[i as int].script,
                    "unload"@,
                    Some(host.plugins[i as int].state),
                    Seq::empty(),
                    call@,
                ));
                proof {
                    report = hook_report(host.plugins[i as int].name, "unload"@, call@.outcome);
                    last = seq![
                        hook_record(host.plugins[i as int], "unload"@, Seq::empty(), call@),
                    ];
                }
                if let Err(e) = outcome {
                    let name = self.plugins[i].name.clone();
                    note(&mut self.journal, Report::HookFailed(name, "unload".to_owned(), e));
                }
            }
            proof {
                let done = host.plugins.take(i + 1);
                assert(done.drop_last() =~= host.plugins.take(i as int));
                assert(unloads_plugin(*lender, done.last(), between, report, last, session@));
                reports = noted(earlier, report);
                made = calls_before + last;
                assert(self@.journal =~= host.journal + reports);
                assert(self@.calls =~= host.calls + made);
            }
            i = i + 1;
        }
        assert(host.plugins.take(host.plugins.len() as int) =~= host.plugins);
        self.plugins = Vec::new();
        assert(self@.plugins =~= Seq::empty());
    }

    /// Unconditional reload: unload everything and load fresh.
    pub fn reload<
        A: Fn(Session) -> Value,
        B: Fn(&Result<Value, ScriptError>) -> Session,
        D: FnOnce() -> Vec<DirEntry>,
        R: Fn(String) -> ScriptFile,
    >(&mut self, lender: &Lender<A, B>, session: &mut Session, list: D, read: &R)
        requires
            lender.ready(),
            list.requires(()),
            forall|path: String| #[trigger] read.requires((path,)),
        ensures
            reloads(
                *lender,
                list,
                *read,
                old(self)@,
                old(session)@,
                final(self)@,
                final(session)@,
            ),
    {
        self.unload(lender, session);
        self.load(lender, session, list, read);
        session.message("Plugins reloaded", MessageType::Execution);
    }

    /// Reloads all plugins if the watcher saw a change. Returns whether a
    /// reload happened.
    pub fn reload_if_changed<
        A: Fn(Session) -> Value,
        B: Fn(&Result<Value, ScriptError>) -> Session,
        D: FnOnce() -> Vec<DirEntry>,
        R: Fn(String) -> ScriptFile,
    >(&mut self, lender: &Lender<A, B>, session: &mut Session, list: D, read: &R) -> (r: bool)
        requires
            lender.ready(),
            list.requires(()),
            forall|path: String| #[trigger] read.requires((path,)),
        ensures
            r == (old(self)@.watcher == Some(true)),
            if r {
                reloads(
                    *lender,
                    list,
                    *read,
                    HostView { watcher: Some(false), ..old(self)@ },
                    old(session)@,
                    final(self)@,
                    final(session)@,
                )
            } else {
                final(self)@ == old(self)@ && final(session)@ == old(session)@
            },
    {
        let changed = match &mut self.watcher {
            Some(watcher) => watcher.changed(),
            None => false,
        };
        if changed {
            self.reload(lender, session, list, read);
        }
        changed
    }

    /// Hands a hook to all plugins that receive it. A plugin whose hook fails
    /// is disabled; its siblings are unaffected.
    fn dispatch<A: Fn(Session) -> Value, B: Fn(&Result<Value, ScriptError>) -> Session>(
        &mut self,
        lender: &Lender<A, B>,
        session: &mut Session,
        hook: &str,
        extra: &Vec<CallArg>,
    )
        requires
            lender.ready(),
        ensures
            dispatches(
                *lender,
                old(self)@,
                old(session)@,
                hook@,
                arg_views(extra@),
                final(self)@,
                final(session)@,
            ),
    {
        let ghost host = self@;
        let ghost before = session@;
        let ghost mut calls: Seq<HookCall> = Seq::empty();
        let mut i: usize = 0;
        proof {
            assert(plugins_after(host.plugins, calls) =~= host.plugins);
            assert(host.journal + hook_reports(host.plugins, hook@, calls) =~= host.journal);
            assert(host.calls + hook_records(host.plugins, hook@, arg_views(extra@), calls)
                =~= host.calls);
            assert(dispatched(*lender, host.plugins, before, hook@, arg_views(extra@), calls, 0));
        }
        while i < self.plugins.len()
            invariant
                lender.ready(),
                i <= self.plugins.len(),
                self.plugins.len() == host.plugins.len(),
                self@ == (HostView {
                    plugins: plugins_after(host.plugins, calls),
                    journal: host.journal + hook_reports(host.plugins, hook@, calls),
                    calls: host.calls + hook_records(
                        host.plugins,
                        hook@,
                        arg_views(extra@),
                        calls,
                    ),
                    ..host
                }),
                session@ == session_after(host.plugins, before, calls),
                dispatched(
                    *lender,
                    host.plugins,
                    before,
                    hook@,
                    arg_views(extra@),
                    calls,
                    i as nat,
                ),
            decreases self.plugins.len() - i,
        {
            proof {
                lemma_called_places(
                    *lender,
                    host.plugins,
                    before,
                    hook@,
                    arg_views(extra@),
                    calls,
                    i as nat,
                );
                assert(self@.plugins[i as int] == self.plugins@[i as int]@);
                assert(!failed(calls, i as int));
                assert(self.plugins@[i as int]@ == host.plugins[i as int]);
            }
            if self.plugins[i].enabled && self.plugins[i].script.has_fn(hook) {
                let (outcome, call) = call_hook(
                    &mut self.engine,
                    lender,
                    session,
                    &self.plugins[i].script,
                    hook,
                    Some(&self.plugins[i].state),
                    extra,
                );
                self.plugins[i].settle(session, &outcome);
                if let Err(e) = outcome {
                    let name = self.plugins[i].name.clone();
                    note(&mut self.journal, Report::HookFailed(name, hook.to_owned(), e));
                }
                proof {
                    let call = HookCall { index: i as int, ..call@ };
                    lemma_one_more_turn(
                        *lender,
                        host.plugins,
                        before,
                        hook@,
                        arg_views(extra@),
                        calls,
                        call,
                        i as nat,
                    );
                    lemma_one_more_call(host.plugins, calls, call);
                    assert(calls.push(call).drop_last() =~= calls);
                    calls = calls.push(call);
                    assert(self@.plugins =~= plugins_after(host.plugins, calls));
                    assert(self@.journal =~= host.journal + hook_reports(
                        host.plugins,
                        hook@,
                        calls,
                    ));
                    assert(self@.calls =~= host.calls + hook_records(
                        host.plugins,
                        hook@,
                        arg_views(extra@),
                        calls,
                    ));
                }
            }
            i = i + 1;
        }
    }

    /// Cursor moved (window logical coordinates, as script values). Runs before
    /// builtin event handling.
    pub fn dispatch_cursor_moved<A: Fn(Session) -> Value, B: Fn(&Result<Value, ScriptError>) -> Session>(
        &mut self,
        lender: &Lender<A, B>,
        session: &mut Session,
        x: Value,
        y: Value,
    )
        requires
            lender.ready(),
        ensures
            dispatches(
                *lender,
                old(self)@,
                old(session)@,
                "cursor_moved"@,
                seq![ArgView::Value(x), ArgView::Value(y)],
                final(self)@,
                final(session)@,
            ),
    {
        let mut extra: Vec<CallArg> = Vec::new();
        extra.push(CallArg::Value(x));
        extra.push(CallArg::Value(y));
        assert(arg_views(extra@) =~= seq![ArgView::Value(x), ArgView::Value(y)]);
        self.dispatch(lender, session, "cursor_moved", &extra);
    }

    /// Mouse button input. Runs before builtin event handling.
    pub fn dispatch_mouse_input<A: Fn(Session) -> Value, B: Fn(&Result<Value, ScriptError>) -> Session>(
        &mut self,
        lender: &Lender<A, B>,
        session: &mut Session,
        button: &str,
        input: &str,
    )
        requires
            lender.ready(),
        ensures
            dispatches(
                *lender,
                old(self)@,
                old(session)@,
                "mouse_input"@,
                seq![ArgView::Text(button@), ArgView::Text(input@)],
                final(self)@,
                final(session)@,
            ),
    {
        let mut extra: Vec<CallArg> = Vec::new();
        extra.push(CallArg::Text(button.to_owned()));
        extra.push(CallArg::Text(input.to_owned()));
        assert(arg_views(extra@) =~= seq![ArgView::Text(button@), ArgView::Text(input@)]);
        self.dispatch(lender, session, "mouse_input", &extra);
    }

    /// End-of-update dispatch: fires `switch_mode` on mode edges, then
    /// `update`.
    pub fn dispatch_update<A: Fn(Session) -> Value, B: Fn(&Result<Value, ScriptError>) -> Session>(
        &mut self,
        lender: &Lender<A, B>,
        session: &mut Session,
    )
        requires
            lender.ready(),
        ensures
            updates(*lender, old(self)@, old(session)@, final(self)@, final(session)@),
    {
        let nothing: Vec<CallArg> = Vec::new();
        assert(arg_views(nothing@) =~= Seq::empty());
        let mode = session.mode.to_string();
        let seen = match &self.last_mode {
            Some(last) => *last == mode,
            None => false,
        };
        if !seen {
            self.last_mode = Some(mode);
            self.dispatch(lender, session, "switch_mode", &nothing);
        }
        self.dispatch(lender, session, "update", &nothing);
    }

    /// View lifecycle hooks, driven from the session's effects.
    pub fn dispatch_effects<A: Fn(Session) -> Value, B: Fn(&Result<Value, ScriptError>) -> Session>(
        &mut self,
        lender: &Lender<A, B>,
        session: &mut Session,
        effects: &[Effect],
    )
        requires
            lender.ready(),
        ensures
            reports_effects(
                *lender,
                old(self)@,
                old(session)@,
                effects@,
                final(self)@,
                final(session)@,
            ),
    {
        let ghost host = self@;
        let ghost before = session@;
        let mut i: usize = 0;
        while i < effects.len()
            invariant
                lender.ready(),
                i <= effects@.len(),
                reports_effects(
                    *lender,
                    host,
                    before,
                    effects@.take(i as int),
                    self@,
                    session@,
                ),
            decreases effects.len() - i,
        {
            let ghost host_between = self@;
            let ghost between = session@;
            let effect = effects[i];
            let hook = match effect {
                Effect::ViewAdded(id) => Some(("view_added", id)),
                Effect::ViewRemoved(id) => Some(("view_removed", id)),
                _ => None,
            };
            if let Some((hook, id)) = hook {
                let mut extra: Vec<CallArg> = Vec::new();
                extra.push(CallArg::Int(id.0 as i64));
                assert(arg_views(extra@) =~= seq![ArgView::Int(id.0 as i64)]);
                self.dispatch(lender, session, hook, &extra);
            }
            proof {
                let reported = effects@.take(i + 1);
                assert(reported.drop_last() =~= effects@.take(i as int));
                assert(reported.last() == effect);
                assert(reports_effect(
                    *lender,
                    host_between,
                    between,
                    effect,
                    self@,
                    session@,
                ));
            }
            i = i + 1;
        }
        proof {
            assert(effects@.take(effects@.len() as int) =~= effects@);
        }
    }
}

/// Handing out a hook changes nothing of the host but which plugins are
/// enabled, what there is to tell, and the calls made. It only ever disables: a plugin that is
/// disabled stays so, and no plugin comes or goes.
pub proof fn hooks_only_disable<A: Fn(Session) -> Value, B: Fn(&Result<Value, ScriptError>) -> Session>(
    lender: Lender<A, B>,
    host: HostView,
    session: SessionView,
    hook: Seq<char>,
    extra: Seq<ArgView>,
    host_after: HostView,
    after: SessionView,
)
    requires
        dispatches(lender, host, session, hook, extra, host_after, after),
    ensures
        host_after == (HostView {
            plugins: host_after.plugins,
            journal: host_after.journal,
            calls: host_after.calls,
            ..host
        }),
        host_after.plugins.len() == host.plugins.len(),
        forall|i: int|
            0 <= i < host.plugins.len() ==> #[trigger] host_after.plugins[i] == (PluginView {
                enabled: host_after.plugins[i].enabled,
                ..host.plugins[i]
            }),
        forall|i: int|
            0 <= i < host.plugins.len() && !host.plugins[i].enabled
                ==> !(#[trigger] host_after.plugins[i]).enabled,
{
}

/// Handing out a hook calls that hook and nothing else, once for each plugin
/// that receives it, in the order of the plugins.
pub proof fn hooks_make_no_other_calls<
    A: Fn(Session) -> Value,
    B: Fn(&Result<Value, ScriptError>) -> Session,
>(
    lender: Lender<A, B>,
    host: HostView,
    session: SessionView,
    hook: Seq<char>,
    extra: Seq<ArgView>,
    host_after: HostView,
    after: SessionView,
)
    requires
        dispatches(lender, host, session, hook, extra, host_after, after),
    ensures
        ({
            let receivers = places(host.plugins, subscribed(hook), host.plugins.len());
            let n = host.calls.len() as int;
            &&& host_after.calls.len() == n + receivers.len()
            &&& host_after.calls.take(n) == host.calls
            &&& forall|k: int|
                0 <= k < receivers.len() ==> {
                    let script = host.plugins[receivers[k]].script;
                    let call = #[trigger] host_after.calls[n + k];
                    call.name == hook && call.unit == script.unit && call.runtime == script.runtime
                }
        }),
{
    let calls = choose|calls: Seq<HookCall>|
        {
            &&& #[trigger] dispatched(
                lender,
                host.plugins,
                session,
                hook,
                extra,
                calls,
                host.plugins.len(),
            )
            &&& host_after == HostView {
                plugins: plugins_after(host.plugins, calls),
                journal: host.journal + hook_reports(host.plugins, hook, calls),
                calls: host.calls + hook_records(host.plugins, hook, extra, calls),
                ..host
            }
            &&& after == session_after(host.plugins, session, calls)
        };
    let n = host.calls.len() as int;
    lemma_called_places(lender, host.plugins, session, hook, extra, calls, host.plugins.len());
    let receivers = places(host.plugins, subscribed(hook), host.plugins.len());
    assert(host_after.calls.take(n) =~= host.calls);
    assert forall|k: int| 0 <= k < receivers.len() implies {
        let script = host.plugins[receivers[k]].script;
        let call = #[trigger] host_after.calls[n + k];
        call.name == hook && call.unit == script.unit && call.runtime == script.runtime
    } by {
        assert(calls[k].index == receivers[k]);
    }
}

/// A hook that no plugin receives changes nothing.
pub proof fn unheard_hooks_change_nothing<A: Fn(Session) -> Value, B: Fn(&Result<Value, ScriptError>) -> Session>(
    lender: Lender<A, B>,
    host: HostView,
    session: SessionView,
    hook: Seq<char>,
    extra: Seq<ArgView>,
    host_after: HostView,
    after: SessionView,
)
    requires
        dispatches(lender, host, session, hook, extra, host_after, after),
        forall|i: int|
            0 <= i < host.plugins.len() ==> !((#[trigger] host.plugins[i]).enabled
                && host.plugins[i].script.defines(hook)),
    ensures
        host_after == host,
        after == session,
{
    let calls = choose|calls: Seq<HookCall>|
        {
            &&& #[trigger] dispatched(
                lender,
                host.plugins,
                session,
                hook,
                extra,
                calls,
                host.plugins.len(),
            )
            &&& host_after == HostView {
                plugins: plugins_after(host.plugins, calls),
                journal: host.journal + hook_reports(host.plugins, hook, calls),
                calls: host.calls + hook_records(host.plugins, hook, extra, calls),
                ..host
            }
            &&& after == session_after(host.plugins, session, calls)
        };
    hooks_reach_their_subscribers(lender, host.plugins, session, hook, extra, calls);
    if calls.len() > 0 {
        assert(host.plugins[calls[0].index].enabled);
    }
    assert(host_after.plugins =~= host.plugins);
    assert(host_after.journal =~= host.journal);
    assert(host_after.calls =~= host.calls);
}

/// Mode edges are reported once: after an update the mode counts as reported,
/// so that the next update in the same mode hands out `update` alone, and one
/// in another mode hands out `switch_mode` first. A host that has reported no
/// mode yet takes the first one for an edge.
pub proof fn mode_edges_are_reported_once<A: Fn(Session) -> Value, B: Fn(&Result<Value, ScriptError>) -> Session>(
    lender: Lender<A, B>,
    host: HostView,
    session: SessionView,
    host_after: HostView,
    after: SessionView,
    next: SessionView,
    host_next: HostView,
    after_next: SessionView,
)
    requires
        updates(lender, host, session, host_after, after),
        updates(lender, host_after, next, host_next, after_next),
    ensures
        host_after.last_mode == Some(mode_name(session.mode)),
        next.mode == session.mode ==> dispatches(
            lender,
            host_after,
            next,
            "update"@,
            Seq::empty(),
            host_next,
            after_next,
        ),
        next.mode != session.mode ==> exists|host_between: HostView, between: SessionView|
            {
                &&& #[trigger] dispatches(
                    lender,
                    HostView { last_mode: Some(mode_name(next.mode)), ..host_after },
                    next,
                    "switch_mode"@,
                    Seq::empty(),
                    host_between,
                    between,
                )
                &&& dispatches(
                    lender,
                    host_between,
                    between,
                    "update"@,
                    Seq::empty(),
                    host_next,
                    after_next,
                )
            },
        host.last_mode is None ==> exists|host_between: HostView, between: SessionView| #[trigger]
            dispatches(
                lender,
                HostView { last_mode: Some(mode_name(session.mode)), ..host },
                session,
                "switch_mode"@,
                Seq::empty(),
                host_between,
                between,
            ),
{
    mode_names_differ(session.mode, next.mode);
}

/// Effects that are not about a view's coming or going reach no hook.
pub proof fn other_effects_are_ignored<A: Fn(Session) -> Value, B: Fn(&Result<Value, ScriptError>) -> Session>(
    lender: Lender<A, B>,
    host: HostView,
    session: SessionView,
    effects: Seq<Effect>,
    host_after: HostView,
    after: SessionView,
)
    requires
        reports_effects(lender, host, session, effects, host_after, after),
        forall|i: int|
            0 <= i < effects.len() ==> !(#[trigger] effects[i] is ViewAdded)
                && !(effects[i] is ViewRemoved),
    ensures
        host_after == host,
        after == session,
    decreases effects.len(),
{
    if effects.len() > 0 {
        let (host_between, between) = choose|host_between: HostView, between: SessionView|
            {
                &&& reports_effects(
                    lender,
                    host,
                    session,
                    effects.drop_last(),
                    host_between,
                    between,
                )
                &&& #[trigger] reports_effect(
                    lender,
                    host_between,
                    between,
                    effects.last(),
                    host_after,
                    after,
                )
            };
        other_effects_are_ignored(
            lender,
            host,
            session,
            effects.drop_last(),
            host_between,
            between,
        );
        assert(effects.last() == effects[effects.len() - 1]);
    }
}

/// Loading adds to the plugins that are there, which stay as they are, and
/// changes nothing else of the host. What it adds stands in lexicographic
/// order and is enabled.
pub proof fn loading_adds_in_order<
    A: Fn(Session) -> Value,
    B: Fn(&Result<Value, ScriptError>) -> Session,
    D: FnOnce() -> Vec<DirEntry>,
    R: Fn(String) -> ScriptFile,
>(
    lender: Lender<A, B>,
    list: D,
    read: R,
    host: HostView,
    session: SessionView,
    host_after: HostView,
    after: SessionView,
)
    requires
        loads(lender, list, read, host, session, host_after, after),
    ensures
        host_after == (HostView {
            plugins: host_after.plugins,
            journal: host_after.journal,
            calls: host_after.calls,
            ..host
        }),
        host.plugins.len() <= host_after.plugins.len(),
        host_after.plugins.take(host.plugins.len() as int) == host.plugins,
        forall|i: int, j: int|
            host.plugins.len() <= i < j < host_after.plugins.len() ==> text_le(
                (#[trigger] host_after.plugins[i]).name,
                (#[trigger] host_after.plugins[j]).name,
            ),
        forall|i: int|
            host.plugins.len() <= i < host_after.plugins.len() ==> (
            #[trigger] host_after.plugins[i]).enabled,
{
    if host.dir is None {
        assert(host.plugins.take(host.plugins.len() as int) =~= host.plugins);
    } else {
        let (entries, points, loadings) = choose|
            entries: Vec<DirEntry>,
            points: Seq<EntryPointView>,
            loadings: Seq<Loading>,
        |
            {
                &&& #[trigger] list.ensures((), entries)
                &&& discovered(entry_views(entries@), points)
                &&& loadings.len() == points.len()
                &&& #[trigger] loads_points(
                    lender,
                    read,
                    host.context,
                    host.runtime,
                    points,
                    session,
                    loadings,
                )
                &&& host_after == HostView {
                    plugins: host.plugins + loaded_plugins(points, loadings),
                    journal: host.journal + load_reports(points, loadings),
                    calls: host.calls + load_calls(loadings),
                    ..host
                }
                &&& after == loaded_session(points, session, loadings)
            };
        let added = loaded_plugins(points, loadings);
        plugins_load_in_order(points, loadings);
        let n = host.plugins.len() as int;
        assert(host_after.plugins.take(n) =~= host.plugins);
        assert forall|i: int, j: int| n <= i < j < host_after.plugins.len() implies text_le(
            (#[trigger] host_after.plugins[i]).name,
            (#[trigger] host_after.plugins[j]).name,
        ) by {
            assert(host_after.plugins[i] == added[i - n]);
            assert(host_after.plugins[j] == added[j - n]);
        }
        assert forall|i: int| n <= i < host_after.plugins.len() implies (
        #[trigger] host_after.plugins[i]).enabled by {
            assert(host_after.plugins[i] == added[i - n]);
        }
    }
}

/// Unloading calls `unload` on every plugin that defines it, disabled ones
/// too, with the plugin's state.
pub proof fn every_unload_is_called<A: Fn(Session) -> Value, B: Fn(&Result<Value, ScriptError>) -> Session>(
    lender: Lender<A, B>,
    plugins: Seq<PluginView>,
    session: SessionView,
    reports: Seq<ReportView>,
    made: Seq<CallRecord>,
    after: SessionView,
    i: int,
)
    requires
        unloads_plugins(lender, plugins, session, reports, made, after),
        0 <= i < plugins.len(),
        plugins[i].script.defines("unload"@),
    ensures
        exists|call: HookCall| #[trigger]
            hook_called(
                lender,
                plugins[i].script,
                "unload"@,
                Some(plugins[i].state),
                Seq::empty(),
                call,
            ),
    decreases plugins.len(),
{
    let (between, earlier, report, before, last) = choose|
        between: SessionView,
        earlier: Seq<ReportView>,
        report: Option<ReportView>,
        before: Seq<CallRecord>,
        last: Seq<CallRecord>,
    |
        {
            &&& unloads_plugins(lender, plugins.drop_last(), session, earlier, before, between)
            &&& #[trigger] unloads_plugin(lender, plugins.last(), between, report, last, after)
            &&& reports == #[trigger] noted(earlier, report)
            &&& made == #[trigger] (before + last)
        };
    if i < plugins.len() - 1 {
        every_unload_is_called(lender, plugins.drop_last(), session, earlier, before, between, i);
    }
}

/// A reload starts afresh, reports last, and changes nothing of the host but
/// its plugins: all of them are loaded anew, so they are enabled and stand in
/// lexicographic order.
pub proof fn reloading_starts_afresh<
    A: Fn(Session) -> Value,
    B: Fn(&Result<Value, ScriptError>) -> Session,
    D: FnOnce() -> Vec<DirEntry>,
    R: Fn(String) -> ScriptFile,
>(
    lender: Lender<A, B>,
    list: D,
    read: R,
    host: HostView,
    session: SessionView,
    host_after: HostView,
    after: SessionView,
)
    requires
        reloads(lender, list, read, host, session, host_after, after),
    ensures
        after.message == (MessageView {
            text: "Plugins reloaded"@,
            message_type: MessageType::Execution,
        }),
        host_after == (HostView {
            plugins: host_after.plugins,
            journal: host_after.journal,
            calls: host_after.calls,
            ..host
        }),
        forall|i: int|
            0 <= i < host_after.plugins.len() ==> (#[trigger] host_after.plugins[i]).enabled,
        forall|i: int, j: int|
            0 <= i < j < host_after.plugins.len() ==> text_le(
                (#[trigger] host_after.plugins[i]).name,
                (#[trigger] host_after.plugins[j]).name,
            ),
{
    let (emptied, unloaded, loaded) = choose|
        emptied: HostView,
        unloaded: SessionView,
        loaded: SessionView,
    |
        {
            &&& #[trigger] unloads(lender, host, session, emptied, unloaded)
            &&& #[trigger] loads(lender, list, read, emptied, unloaded, host_after, loaded)
            &&& after == loaded.with_message("Plugins reloaded"@, MessageType::Execution)
        };
    loading_adds_in_order(lender, list, read, emptied, unloaded, host_after, loaded);
}

/// Plugins are seen one for one.
pub proof fn plugins_are_seen_one_for_one(plugins: Seq<Plugin>)
    ensures
        plugin_views(plugins).len() == plugins.len(),
        forall|i: int| 0 <= i < plugins.len() ==> #[trigger] plugin_views(plugins)[i]
            == plugins[i]@,
{
}

} // verus!
