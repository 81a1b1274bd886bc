//! Loading plugins: what becomes of each entry point that was discovered.

use crate::discovery::{in_order, point_le, point_path, EntryPointView};
use crate::engine::{call_record, path_outcome, ScriptView};
use crate::error::{error_headline, error_text, ErrorView, ScriptError};
use crate::hooks::{hook_args, hook_called, HookCall, Lender, PluginView};
use crate::journal::ReportView;
use crate::session::{MessageType, MessageView, Session, SessionView};
use crate::text::{headline, text_le, text_order_is_total};
use crate::vm::{path_shown, CallRecord};
use rune::runtime::RuntimeContext;
use rune::{Context, Value};
use std::path::PathBuf;
use vstd::prelude::*;
use vstd::string::*;

verus! {

/// A script's file: its path, and its text, or why it could not be read.
pub struct ScriptFile {
    pub path: PathBuf,
    pub text: Result<String, String>,
}

/// How far a plugin came.
pub enum LoadStep {
    /// It did not compile.
    CompileFailed(ErrorView),
    /// It has no `init`.
    InitMissing(ScriptView),
    /// Its `init` was called.
    InitCalled(ScriptView, HookCall),
}

/// The loading of one plugin: the path that was asked for, the file that was
/// read, and how far the plugin came.
pub struct Loading {
    pub asked: String,
    pub file: ScriptFile,
    pub step: LoadStep,
}

/// What is said of a plugin that does not compile.
pub open spec fn load_message(name: Seq<char>, e: ErrorView) -> Seq<char> {
    "Error loading plugin `"@ + name + "`: "@ + error_headline(e)
}

/// What is said of a plugin whose `init` fails.
pub open spec fn init_message(name: Seq<char>, e: ErrorView) -> Seq<char> {
    "Error initializing plugin `"@ + name + "`: "@ + error_headline(e)
}

/// The session after `init` came to an outcome: a failure is reported.
pub open spec fn started(
    session: SessionView,
    name: Seq<char>,
    outcome: Result<Value, ErrorView>,
) -> SessionView {
    match outcome {
        Ok(_) => session,
        Err(e) => session.with_message(init_message(name, e), MessageType::Error),
    }
}

/// The session after one plugin was loaded, or was not.
pub open spec fn step_session(
    session: SessionView,
    name: Seq<char>,
    step: LoadStep,
) -> SessionView {
    match step {
        LoadStep::CompileFailed(e) => session.with_message(
            load_message(name, e),
            MessageType::Error,
        ),
        LoadStep::InitMissing(_) => started(
            session,
            name,
            Err(ErrorView::MissingFn("init"@)),
        ),
        LoadStep::InitCalled(_, call) => started(call.returned@, name, call.outcome),
    }
}

/// The plugin that one loading comes to, if it comes to one.
pub open spec fn step_plugin(name: Seq<char>, step: LoadStep) -> Option<PluginView> {
    match step {
        LoadStep::InitCalled(script, call) => match call.outcome {
            Ok(state) => Some(PluginView { name, script, state, enabled: true }),
            Err(_) => None,
        },
        _ => None,
    }
}

/// The session after entry points were loaded, one after the other.
pub open spec fn loaded_session(
    points: Seq<EntryPointView>,
    session: SessionView,
    loadings: Seq<Loading>,
) -> SessionView
    decreases loadings.len(),
{
    if loadings.len() == 0 {
        session
    } else {
        step_session(
            loaded_session(points, session, loadings.drop_last()),
            points[loadings.len() - 1].name,
            loadings.last().step,
        )
    }
}

/// The plugins that entry points come to, in the order of the entry points.
pub open spec fn loaded_plugins(points: Seq<EntryPointView>, loadings: Seq<Loading>) -> Seq<
    PluginView,
>
    decreases loadings.len(),
{
    if loadings.len() == 0 {
        Seq::empty()
    } else {
        let before = loaded_plugins(points, loadings.drop_last());
        match step_plugin(points[loadings.len() - 1].name, loadings.last().step) {
            Some(plugin) => before.push(plugin),
            None => before,
        }
    }
}

/// The call into a script that one loading makes: its `init`, where that was
/// called.
pub open spec fn step_calls(step: LoadStep) -> Seq<CallRecord> {
    match step {
        LoadStep::InitCalled(script, call) => seq![
            call_record(script, "init"@, hook_args(None, call.rx, Seq::empty())),
        ],
        _ => Seq::empty(),
    }
}

/// The calls into scripts that loadings make, one after the other.
pub open spec fn load_calls(loadings: Seq<Loading>) -> Seq<CallRecord>
    decreases loadings.len(),
{
    if loadings.len() == 0 {
        Seq::empty()
    } else {
        load_calls(loadings.drop_last()) + step_calls(loadings.last().step)
    }
}

/// What there is to tell of one loading.
pub open spec fn step_report(name: Seq<char>, loading: Loading) -> ReportView {
    match loading.step {
        LoadStep::CompileFailed(e) => ReportView::LoadFailed(name, e),
        LoadStep::InitMissing(_) => ReportView::HookFailed(
            name,
            "init"@,
            ErrorView::MissingFn("init"@),
        ),
        LoadStep::InitCalled(_, call) => match call.outcome {
            Ok(_) => ReportView::Loaded(name, path_shown(loading.file.path)),
            Err(e) => ReportView::HookFailed(name, "init"@, e),
        },
    }
}

/// What there is to tell of loadings: one thing of each.
pub open spec fn load_reports(points: Seq<EntryPointView>, loadings: Seq<Loading>) -> Seq<
    ReportView,
> {
    Seq::new(loadings.len(), |k: int| step_report(points[k].name, loadings[k]))
}

/// Whether a loading is that of an entry point: its file was read and
/// compiled, and its `init`, where it has one, was lent the session.
pub open spec fn loads_point<
    A: Fn(Session) -> Value,
    B: Fn(&Result<Value, ScriptError>) -> Session,
    R: Fn(String) -> ScriptFile,
>(
    lender: Lender<A, B>,
    read: R,
    context: Context,
    runtime: RuntimeContext,
    point: EntryPointView,
    session: SessionView,
    loading: Loading,
) -> bool {
    let file = loading.file;
    &&& loading.asked@ == point_path(point)
    &&& read.ensures((loading.asked,), file)
    &&& match loading.step {
        LoadStep::CompileFailed(e) => path_outcome(context, runtime, file.path, file.text, Err(e)),
        LoadStep::InitMissing(script) => {
            &&& path_outcome(context, runtime, file.path, file.text, Ok(script))
            &&& !script.defines("init"@)
        },
        LoadStep::InitCalled(script, call) => {
            &&& path_outcome(context, runtime, file.path, file.text, Ok(script))
            &&& script.defines("init"@)
            &&& hook_called(lender, script, "init"@, None, Seq::empty(), call)
            &&& call.lent@ == session
        },
    }
}

/// Whether a loading, of those that were made, is that of the entry point at
/// its place, in the session that the ones before it left.
pub open spec fn loads_in_turn<
    A: Fn(Session) -> Value,
    B: Fn(&Result<Value, ScriptError>) -> Session,
    R: Fn(String) -> ScriptFile,
>(
    lender: Lender<A, B>,
    read: R,
    context: Context,
    runtime: RuntimeContext,
    points: Seq<EntryPointView>,
    session: SessionView,
    loadings: Seq<Loading>,
    k: int,
) -> bool {
    loads_point(
        lender,
        read,
        context,
        runtime,
        points[k],
        loaded_session(points, session, loadings.take(k)),
        loadings[k],
    )
}

/// Whether the loadings are those of the first entry points, in their order.
pub open spec fn loads_points<
    A: Fn(Session) -> Value,
    B: Fn(&Result<Value, ScriptError>) -> Session,
    R: Fn(String) -> ScriptFile,
>(
    lender: Lender<A, B>,
    read: R,
    context: Context,
    runtime: RuntimeContext,
    points: Seq<EntryPointView>,
    session: SessionView,
    loadings: Seq<Loading>,
) -> bool {
    &&& loadings.len() <= points.len()
    &&& forall|k: int|
        0 <= k < loadings.len() ==> #[trigger] loads_in_turn(
            lender,
            read,
            context,
            runtime,
            points,
            session,
            loadings,
            k,
        )
}

pub(crate) proof fn lemma_one_more_loading<
    A: Fn(Session) -> Value,
    B: Fn(&Result<Value, ScriptError>) -> Session,
    R: Fn(String) -> ScriptFile,
>(
    lender: Lender<A, B>,
    read: R,
    context: Context,
    runtime: RuntimeContext,
    points: Seq<EntryPointView>,
    session: SessionView,
    loadings: Seq<Loading>,
    loading: Loading,
)
    requires
        loads_points(lender, read, context, runtime, points, session, loadings),
        loadings.len() < points.len(),
        loads_point(
            lender,
            read,
            context,
            runtime,
            points[loadings.len() as int],
            loaded_session(points, session, loadings),
            loading,
        ),
    ensures
        loads_points(lender, read, context, runtime, points, session, loadings.push(loading)),
        loaded_session(points, session, loadings.push(loading)) == step_session(
            loaded_session(points, session, loadings),
            points[loadings.len() as int].name,
            loading.step,
        ),
        loaded_plugins(points, loadings.push(loading)) == match step_plugin(
            points[loadings.len() as int].name,
            loading.step,
        ) {
            Some(plugin) => loaded_plugins(points, loadings).push(plugin),
            None => loaded_plugins(points, loadings),
        },
        load_reports(points, loadings.push(loading)) == load_reports(points, loadings).push(
            step_report(points[loadings.len() as int].name, loading),
        ),
        load_calls(loadings.push(loading)) == load_calls(loadings) + step_calls(loading.step),
{
    let all = loadings.push(loading);
    assert(all.drop_last() =~= loadings);
    assert(load_reports(points, all) =~= load_reports(points, loadings).push(
        step_report(points[loadings.len() as int].name, loading),
    ));
    assert forall|k: int| 0 <= k < all.len() implies #[trigger] loads_in_turn(
        lender,
        read,
        context,
        runtime,
        points,
        session,
        all,
        k,
    ) by {
        assert(all.take(k) =~= loadings.take(k));
        if k < loadings.len() {
            assert(loads_in_turn(lender, read, context, runtime, points, session, loadings, k));
        } else {
            assert(loadings.take(k) =~= loadings);
        }
    }
}

/// A plugin that cannot be loaded never affects its siblings: an entry point
/// whose own script compiles, and whose own `init` succeeds, comes to a plugin,
/// whatever becomes of the others, and there are no other plugins.
pub proof fn broken_plugins_do_not_block_siblings(
    points: Seq<EntryPointView>,
    loadings: Seq<Loading>,
)
    requires
        loadings.len() <= points.len(),
    ensures
        forall|k: int|
            0 <= k < loadings.len() ==> (step_plugin(
                points[k].name,
                (#[trigger] loadings[k]).step,
            ) matches Some(plugin) ==> loaded_plugins(points, loadings).contains(plugin)),
        forall|i: int|
            0 <= i < loaded_plugins(points, loadings).len() ==> exists|k: int|
                0 <= k < loadings.len() && step_plugin(
                    points[k].name,
                    (#[trigger] loadings[k]).step,
                ) == Some(#[trigger] loaded_plugins(points, loadings)[i]),
    decreases loadings.len(),
{
    if loadings.len() > 0 {
        let rest = loadings.drop_last();
        let last = loadings.len() - 1;
        broken_plugins_do_not_block_siblings(points, rest);
        let before = loaded_plugins(points, rest);
        let all = loaded_plugins(points, loadings);
        assert forall|k: int| 0 <= k < loadings.len() implies (step_plugin(
            points[k].name,
            (#[trigger] loadings[k]).step,
        ) matches Some(plugin) ==> all.contains(plugin)) by {
            if let Some(plugin) = step_plugin(points[k].name, loadings[k].step) {
                if k < last {
                    assert(rest[k] == loadings[k]);
                    let i = choose|i: int| 0 <= i < before.len() && before[i] == plugin;
                    assert(all[i] == plugin);
                } else {
                    assert(all[before.len() as int] == plugin);
                }
            }
        }
        assert forall|i: int| 0 <= i < all.len() implies exists|k: int|
            0 <= k < loadings.len() && step_plugin(points[k].name, (#[trigger] loadings[k]).step)
                == Some(#[trigger] all[i]) by {
            if i < before.len() {
                let k = choose|k: int|
                    0 <= k < rest.len() && step_plugin(points[k].name, (#[trigger] rest[k]).step)
                        == Some(before[i]);
                assert(loadings[k] == rest[k]);
            } else {
                assert(loadings[last] == loadings.last());
            }
        }
    }
}

/// Plugins are loaded in lexicographic order of their names, and each is
/// enabled.
pub proof fn plugins_load_in_order(points: Seq<EntryPointView>, loadings: Seq<Loading>)
    requires
        in_order(points),
        loadings.len() <= points.len(),
    ensures
        forall|i: int, j: int|
            0 <= i < j < loaded_plugins(points, loadings).len() ==> text_le(
                (#[trigger] loaded_plugins(points, loadings)[i]).name,
                (#[trigger] loaded_plugins(points, loadings)[j]).name,
            ),
        forall|i: int|
            0 <= i < loaded_plugins(points, loadings).len() ==> (#[trigger] loaded_plugins(
                points,
                loadings,
            )[i]).enabled,
    decreases loadings.len(),
{
    if loadings.len() > 0 {
        let rest = loadings.drop_last();
        let last = loadings.len() - 1;
        plugins_load_in_order(points, rest);
        broken_plugins_do_not_block_siblings(points, rest);
        let before = loaded_plugins(points, rest);
        let all = loaded_plugins(points, loadings);
        assert forall|i: int, j: int| 0 <= i < j < all.len() implies text_le(
            (#[trigger] all[i]).name,
            (#[trigger] all[j]).name,
        ) by {
            if j == before.len() {
                let k = choose|k: int|
                    0 <= k < rest.len() && step_plugin(points[k].name, (#[trigger] rest[k]).step)
                        == Some(before[i]);
                assert(point_le(points[k], points[last]));
                text_order_is_total(points[k].name, points[last].name, points[k].name);
            }
        }
    }
}

/// Loading calls nothing but `init`, and that once for each plugin that has
/// one.
pub proof fn only_init_is_called(loadings: Seq<Loading>)
    ensures
        load_calls(loadings).len() == loadings.filter(
            |loading: Loading| loading.step is InitCalled,
        ).len(),
        forall|i: int|
            0 <= i < load_calls(loadings).len() ==> (#[trigger] load_calls(loadings)[i]).name
                == "init"@,
    decreases loadings.len(),
{
    reveal(Seq::filter);
    if loadings.len() > 0 {
        only_init_is_called(loadings.drop_last());
    }
}

/// An `init` that succeeds leaves the session as it came back. One that fails
/// leaves a line on its message line that names the plugin and tells the
/// headline of the error, and changes nothing else of it.
pub proof fn failing_inits_leave_a_message(
    session: SessionView,
    name: Seq<char>,
    value: Value,
    e: ErrorView,
)
    ensures
        started(session, name, Ok(value)) == session,
        started(session, name, Err(e)) == (SessionView {
            message: MessageView {
                text: "Error initializing plugin `"@ + name + "`: "@ + headline(error_text(e)),
                message_type: MessageType::Error,
            },
            ..session
        }),
{
}

} // verus!
