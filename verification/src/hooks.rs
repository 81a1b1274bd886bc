//! Hooks: how plugins are handed an event, one after the other, and what
//! becomes of a plugin whose hook fails.

use crate::engine::{
    call_outcome, call_record, called, calls_for, CompiledScript, ScriptEngine, ScriptView,
};
use crate::error::{error_headline, error_text, ErrorView, ScriptError};
use crate::journal::{noted, ReportView};
use crate::session::{MessageType, MessageView, Session, SessionView};
use crate::settings::Settings;
use crate::text::headline;
use crate::value::{arg_views, ArgView, CallArg};
use crate::vm::{same_value, CallRecord};
use rune::Value;
use vstd::prelude::*;
use vstd::string::*;

verus! {

/// How hooks get at the session: `lend` takes the session and gives the script
/// value that stands for it, the `rx` of one hook call; `revoke`, which is told
/// what the call came to, gives the session back, and the script value is dead
/// from then on.
pub struct Lender<A, B> {
    pub lend: A,
    pub revoke: B,
}

impl<A: Fn(Session) -> Value, B: Fn(&Result<Value, ScriptError>) -> Session> Lender<A, B> {
    /// Whether the session can be lent and taken back at any time.
    pub open spec fn ready(self) -> bool {
        &&& forall|session: Session| #[trigger] self.lend.requires((session,))
        &&& forall|outcome: Result<Value, ScriptError>| #[trigger]
            self.revoke.requires((&outcome,))
    }
}

/// A plugin as a mathematical value.
pub struct PluginView {
    pub name: Seq<char>,
    pub script: ScriptView,
    pub state: Value,
    /// Cleared when a hook errors at runtime; the plugin stops receiving hooks
    /// but its siblings are unaffected.
    pub enabled: bool,
}

/// One call of a hook: the place of its plugin, the session that was lent, the
/// script value that stood for it, what the call came to, and the session that
/// came back.
pub struct HookCall {
    pub index: int,
    pub lent: Session,
    pub rx: Value,
    pub outcome: Result<Value, ErrorView>,
    pub returned: Session,
}

/// The arguments of a hook: the plugin's state, where there is one already, the
/// context, and what the hook is told.
pub open spec fn hook_args(state: Option<Value>, rx: Value, extra: Seq<ArgView>) -> Seq<ArgView> {
    match state {
        Some(state) => seq![ArgView::Value(state), ArgView::Value(rx)] + extra,
        None => seq![ArgView::Value(rx)] + extra,
    }
}

/// Whether a call is one of this hook: it was made with the context that the
/// session was lent for, and the session was taken back once the call had come
/// to its outcome.
pub open spec fn hook_called<A: Fn(Session) -> Value, B: Fn(&Result<Value, ScriptError>) -> Session>(
    lender: Lender<A, B>,
    script: ScriptView,
    hook: Seq<char>,
    state: Option<Value>,
    extra: Seq<ArgView>,
    call: HookCall,
) -> bool {
    &&& lender.lend.ensures((call.lent,), call.rx)
    &&& call_outcome(script, hook, hook_args(state, call.rx, extra), call.outcome)
    &&& taken_back(lender, call.outcome, call.returned)
}

/// Whether a session is one that is given back after a call came to an
/// outcome.
pub open spec fn taken_back<A, B: Fn(&Result<Value, ScriptError>) -> Session>(
    lender: Lender<A, B>,
    outcome: Result<Value, ErrorView>,
    returned: Session,
) -> bool {
    exists|told: Result<Value, ScriptError>| #[trigger]
        lender.revoke.ensures((&told,), returned) && called(told) == outcome
}

/// What is said of a plugin whose hook failed.
pub open spec fn disabled_message(name: Seq<char>, e: ErrorView) -> Seq<char> {
    "Plugin `"@ + name + "` disabled: "@ + error_headline(e)
}

/// A session after a hook of a plugin came to an outcome: a failure is
/// reported.
pub open spec fn settled(
    session: SessionView,
    name: Seq<char>,
    outcome: Result<Value, ErrorView>,
) -> SessionView {
    match outcome {
        Ok(_) => session,
        Err(e) => session.with_message(disabled_message(name, e), MessageType::Error),
    }
}

/// The places, among the first `n` plugins, of those that are chosen.
pub open spec fn places(
    plugins: Seq<PluginView>,
    chosen: spec_fn(PluginView) -> bool,
    n: nat,
) -> Seq<int>
    decreases n,
{
    if n == 0 {
        Seq::empty()
    } else {
        let before = places(plugins, chosen, (n - 1) as nat);
        if chosen(plugins[n - 1]) {
            before.push(n - 1)
        } else {
            before
        }
    }
}

/// Plugins that receive a hook: the enabled ones that define it.
pub open spec fn subscribed(hook: Seq<char>) -> spec_fn(PluginView) -> bool {
    |p: PluginView| p.enabled && p.script.defines(hook)
}

/// Whether a plugin's hook failed among these calls.
pub open spec fn failed(calls: Seq<HookCall>, i: int) -> bool {
    exists|k: int| 0 <= k < calls.len() && (#[trigger] calls[k]).index == i && calls[k].outcome is Err
}

/// Plugins after calls of a hook: those that failed are disabled.
pub open spec fn plugins_after(plugins: Seq<PluginView>, calls: Seq<HookCall>) -> Seq<PluginView> {
    Seq::new(
        plugins.len(),
        |i: int| PluginView { enabled: plugins[i].enabled && !failed(calls, i), ..plugins[i] },
    )
}

/// The session after calls of a hook.
pub open spec fn session_after(
    plugins: Seq<PluginView>,
    session: SessionView,
    calls: Seq<HookCall>,
) -> SessionView {
    if calls.len() == 0 {
        session
    } else {
        settled(calls.last().returned@, plugins[calls.last().index].name, calls.last().outcome)
    }
}

/// The calls into scripts that calls of a hook are: one each.
pub open spec fn hook_records(
    plugins: Seq<PluginView>,
    hook: Seq<char>,
    extra: Seq<ArgView>,
    calls: Seq<HookCall>,
) -> Seq<CallRecord> {
    Seq::new(
        calls.len(),
        |k: int| hook_record(plugins[calls[k].index], hook, extra, calls[k]),
    )
}

/// The call into a plugin's script that a call of a hook is.
pub open spec fn hook_record(
    plugin: PluginView,
    hook: Seq<char>,
    extra: Seq<ArgView>,
    call: HookCall,
) -> CallRecord {
    call_record(plugin.script, hook, hook_args(Some(plugin.state), call.rx, extra))
}

/// What there is to tell of calls of a hook: those that failed.
pub open spec fn hook_reports(
    plugins: Seq<PluginView>,
    hook: Seq<char>,
    calls: Seq<HookCall>,
) -> Seq<ReportView>
    decreases calls.len(),
{
    if calls.len() == 0 {
        Seq::empty()
    } else {
        noted(
            hook_reports(plugins, hook, calls.drop_last()),
            hook_report(plugins[calls.last().index].name, hook, calls.last().outcome),
        )
    }
}

/// What there is to tell of a hook that came to an outcome.
pub open spec fn hook_report(
    name: Seq<char>,
    hook: Seq<char>,
    outcome: Result<Value, ErrorView>,
) -> Option<ReportView> {
    match outcome {
        Ok(_) => None,
        Err(e) => Some(ReportView::HookFailed(name, hook, e)),
    }
}

/// Whether a call, of those that were made for a hook, is that of the plugin
/// at a place: it is handed the plugin's state, and it is lent the session
/// that the calls before it left.
pub open spec fn takes_turn<A: Fn(Session) -> Value, B: Fn(&Result<Value, ScriptError>) -> Session>(
    lender: Lender<A, B>,
    plugins: Seq<PluginView>,
    session: SessionView,
    hook: Seq<char>,
    extra: Seq<ArgView>,
    place: int,
    calls: Seq<HookCall>,
    k: int,
) -> bool {
    let plugin = plugins[place];
    &&& calls[k].index == place
    &&& hook_called(lender, plugin.script, hook, Some(plugin.state), extra, calls[k])
    &&& calls[k].lent@ == session_after(plugins, session, calls.take(k))
}

/// Whether the calls are those of a hook, one for each plugin among the first
/// `n` that receives it, in the order of the plugins. Each is lent the session
/// that the one before it left.
pub open spec fn dispatched<A: Fn(Session) -> Value, B: Fn(&Result<Value, ScriptError>) -> Session>(
    lender: Lender<A, B>,
    plugins: Seq<PluginView>,
    session: SessionView,
    hook: Seq<char>,
    extra: Seq<ArgView>,
    calls: Seq<HookCall>,
    n: nat,
) -> bool {
    let receivers = places(plugins, subscribed(hook), n);
    &&& calls.len() == receivers.len()
    &&& forall|k: int|
        0 <= k < calls.len() ==> #[trigger] takes_turn(
            lender,
            plugins,
            session,
            hook,
            extra,
            receivers[k],
            calls,
            k,
        )
}

pub(crate) proof fn lemma_places(plugins: Seq<PluginView>, chosen: spec_fn(PluginView) -> bool, n: nat)
    requires
        n <= plugins.len(),
    ensures
        forall|k: int|
            0 <= k < places(plugins, chosen, n).len() ==> {
                let i = #[trigger] places(plugins, chosen, n)[k];
                0 <= i < n && chosen(plugins[i])
            },
        forall|j: int, k: int|
            0 <= j < k < places(plugins, chosen, n).len() ==> #[trigger] places(
                plugins,
                chosen,
                n,
            )[j] < #[trigger] places(plugins, chosen, n)[k],
        forall|i: int|
            0 <= i < n && chosen(#[trigger] plugins[i]) ==> places(plugins, chosen, n).contains(i),
    decreases n,
{
    if n > 0 {
        lemma_places(plugins, chosen, (n - 1) as nat);
        let before = places(plugins, chosen, (n - 1) as nat);
        let all = places(plugins, chosen, n);
        assert forall|i: int| 0 <= i < n && chosen(#[trigger] plugins[i]) implies all.contains(
            i,
        ) by {
            if i < n - 1 {
                let k = choose|k: int| 0 <= k < before.len() && before[k] == i;
                assert(all[k] == i);
            } else {
                assert(all[before.len() as int] == i);
            }
        }
    }
}

pub(crate) proof fn lemma_one_more_call(plugins: Seq<PluginView>, calls: Seq<HookCall>, call: HookCall)
    requires
        0 <= call.index < plugins.len(),
    ensures
        plugins_after(plugins, calls.push(call)) == plugins_after(plugins, calls).update(
            call.index,
            PluginView {
                enabled: plugins_after(plugins, calls)[call.index].enabled && call.outcome is Ok,
                ..plugins[call.index]
            },
        ),
{
    let all = calls.push(call);
    assert forall|i: int| failed(all, i) == (failed(calls, i) || call.index == i
        && call.outcome is Err) by {
        if failed(calls, i) {
            let k = choose|k: int|
                0 <= k < calls.len() && (#[trigger] calls[k]).index == i && calls[k].outcome is Err;
            assert(all[k] == calls[k]);
        }
        if call.index == i && call.outcome is Err {
            assert(all[calls.len() as int] == call);
        }
    }
    assert(plugins_after(plugins, all) =~= plugins_after(plugins, calls).update(
        call.index,
        PluginView {
            enabled: plugins_after(plugins, calls)[call.index].enabled && call.outcome is Ok,
            ..plugins[call.index]
        },
    ));
}

pub(crate) proof fn lemma_called_places<A: Fn(Session) -> Value, B: Fn(&Result<Value, ScriptError>) -> Session>(
    lender: Lender<A, B>,
    plugins: Seq<PluginView>,
    session: SessionView,
    hook: Seq<char>,
    extra: Seq<ArgView>,
    calls: Seq<HookCall>,
    n: nat,
)
    requires
        n <= plugins.len(),
        dispatched(lender, plugins, session, hook, extra, calls, n),
    ensures
        forall|k: int|
            0 <= k < calls.len() ==> {
                let i = (#[trigger] calls[k]).index;
                &&& 0 <= i < n
                &&& plugins[i].enabled && plugins[i].script.defines(hook)
                &&& i == places(plugins, subscribed(hook), n)[k]
            },
{
    let receivers = places(plugins, subscribed(hook), n);
    lemma_places(plugins, subscribed(hook), n);
    assert forall|k: int| 0 <= k < calls.len() implies {
        let i = (#[trigger] calls[k]).index;
        &&& 0 <= i < n
        &&& plugins[i].enabled && plugins[i].script.defines(hook)
        &&& i == receivers[k]
    } by {
        assert(takes_turn(lender, plugins, session, hook, extra, receivers[k], calls, k));
    }
}

pub(crate) proof fn lemma_one_more_turn<A: Fn(Session) -> Value, B: Fn(&Result<Value, ScriptError>) -> Session>(
    lender: Lender<A, B>,
    plugins: Seq<PluginView>,
    session: SessionView,
    hook: Seq<char>,
    extra: Seq<ArgView>,
    calls: Seq<HookCall>,
    call: HookCall,
    n: nat,
)
    requires
        n < plugins.len(),
        dispatched(lender, plugins, session, hook, extra, calls, n),
        subscribed(hook)(plugins[n as int]),
        call.index == n,
        hook_called(
            lender,
            plugins[n as int].script,
            hook,
            Some(plugins[n as int].state),
            extra,
            call,
        ),
        call.lent@ == session_after(plugins, session, calls),
    ensures
        dispatched(lender, plugins, session, hook, extra, calls.push(call), n + 1),
{
    let all = calls.push(call);
    let before = places(plugins, subscribed(hook), n);
    let receivers = places(plugins, subscribed(hook), n + 1);
    assert(receivers == before.push(n as int));
    assert forall|k: int| 0 <= k < all.len() implies #[trigger] takes_turn(
        lender,
        plugins,
        session,
        hook,
        extra,
        receivers[k],
        all,
        k,
    ) by {
        assert(all.take(k) =~= calls.take(k));
        if k < calls.len() {
            assert(takes_turn(lender, plugins, session, hook, extra, before[k], calls, k));
        } else {
            assert(calls.take(k) =~= calls);
        }
    }
}

/// The same arguments once more.
fn repeated(args: &Vec<CallArg>) -> (r: Vec<CallArg>)
    ensures
        arg_views(r@) == arg_views(args@),
{
    let mut copies: Vec<CallArg> = Vec::new();
    let mut i: usize = 0;
    while i < args.len()
        invariant
            i <= args.len(),
            arg_views(copies@) == arg_views(args@.take(i as int)),
        decreases args.len() - i,
    {
        let copy = match &args[i] {
            CallArg::Value(value) => CallArg::Value(same_value(value)),
            CallArg::Int(n) => CallArg::Int(*n),
            CallArg::Text(text) => CallArg::Text(text.clone()),
        };
        proof {
            assert(arg_views(args@.take(i + 1)) =~= arg_views(args@.take(i as int)).push(
                args@[i as int]@,
            ));
            assert(arg_views(copies@.push(copy)) =~= arg_views(copies@).push(copy@));
        }
        copies.push(copy);
        i = i + 1;
    }
    proof {
        assert(args@.take(args@.len() as int) =~= args@);
    }
    copies
}

/// Lends the session to one call of a hook that the script defines.
pub(crate) fn call_hook<A: Fn(Session) -> Value, B: Fn(&Result<Value, ScriptError>) -> Session>(
    engine: &mut ScriptEngine,
    lender: &Lender<A, B>,
    session: &mut Session,
    script: &CompiledScript,
    hook: &str,
    state: Option<&Value>,
    extra: &Vec<CallArg>,
) -> (r: (Result<Value, ScriptError>, Ghost<HookCall>))
    requires
        lender.ready(),
    ensures
        r.1@.outcome == called(r.0),
        r.1@.lent@ == old(session)@,
        r.1@.returned@ == final(session)@,
        hook_called(
            *lender,
            script@,
            hook@,
            match state {
                Some(state) => Some(*state),
                None => None,
            },
            arg_views(extra@),
            r.1@,
        ),
        final(engine).context() == old(engine).context(),
        final(engine).runtime() == old(engine).runtime(),
        final(engine).calls_made() == old(engine).calls_made() + calls_for(
            script@,
            hook@,
            hook_args(
                match state {
                    Some(state) => Some(*state),
                    None => None,
                },
                r.1@.rx,
                arg_views(extra@),
            ),
        ),
{
    let mut taken = Session::new(Settings::new());
    std::mem::swap(session, &mut taken);
    let ghost lent = taken;
    let rx = (lender.lend)(taken);
    let ghost context = rx;
    let mut args: Vec<CallArg> = Vec::new();
    if let Some(state) = state {
        args.push(CallArg::Value(same_value(state)));
    }
    args.push(CallArg::Value(rx));
    let mut rest = repeated(extra);
    let ghost first = args@;
    let ghost told = rest@;
    args.append(&mut rest);
    proof {
        assert(arg_views(args@) =~= arg_views(first) + arg_views(told));
        assert(arg_views(args@) =~= hook_args(
            match state {
                Some(state) => Some(*state),
                None => None,
            },
            context,
            arg_views(extra@),
        ));
    }
    let outcome = script.call(engine, hook, args);
    let returned = (lender.revoke)(&outcome);
    let ghost back = returned;
    *session = returned;
    let ghost call = HookCall {
        index: 0,
        lent,
        rx: context,
        outcome: called(outcome),
        returned: back,
    };
    (outcome, Ghost(call))
}

/// A missing hook simply means that a plugin isn't subscribed to it: of the
/// calls that are recorded of a hook, each enabled plugin that defines it has
/// one, in the order of the plugins, and no other plugin has any. The engine's
/// log of calls holds these and no more.
pub proof fn hooks_reach_their_subscribers<A: Fn(Session) -> Value, B: Fn(&Result<Value, ScriptError>) -> Session>(
    lender: Lender<A, B>,
    plugins: Seq<PluginView>,
    session: SessionView,
    hook: Seq<char>,
    extra: Seq<ArgView>,
    calls: Seq<HookCall>,
)
    requires
        dispatched(lender, plugins, session, hook, extra, calls, plugins.len()),
    ensures
        forall|k: int|
            0 <= k < calls.len() ==> {
                let i = (#[trigger] calls[k]).index;
                0 <= i < plugins.len() && plugins[i].enabled && plugins[i].script.defines(hook)
            },
        forall|j: int, k: int|
            0 <= j < k < calls.len() ==> (#[trigger] calls[j]).index < (#[trigger] calls[k]).index,
        forall|i: int|
            0 <= i < plugins.len() && plugins[i].enabled && (#[trigger] plugins[i]).script.defines(
                hook,
            ) ==> exists|k: int| 0 <= k < calls.len() && (#[trigger] calls[k]).index == i,
        hook_records(plugins, hook, extra, calls).len() == calls.len(),
{
    let receivers = places(plugins, subscribed(hook), plugins.len());
    lemma_called_places(lender, plugins, session, hook, extra, calls, plugins.len());
    lemma_places(plugins, subscribed(hook), plugins.len());
    assert forall|i: int|
        0 <= i < plugins.len() && plugins[i].enabled && (#[trigger] plugins[i]).script.defines(
            hook,
        ) implies exists|k: int| 0 <= k < calls.len() && (#[trigger] calls[k]).index == i by {
        assert(subscribed(hook)(plugins[i]));
        let k = choose|k: int| 0 <= k < receivers.len() && receivers[k] == i;
        assert(calls[k].index == i);
    }
}

/// Every hook is handed the plugin's state, as `init` returned it, and the
/// context that stands for the session, before what it is told.
pub proof fn hooks_get_their_state<A: Fn(Session) -> Value, B: Fn(&Result<Value, ScriptError>) -> Session>(
    lender: Lender<A, B>,
    plugins: Seq<PluginView>,
    session: SessionView,
    hook: Seq<char>,
    extra: Seq<ArgView>,
    calls: Seq<HookCall>,
    k: int,
)
    requires
        dispatched(lender, plugins, session, hook, extra, calls, plugins.len()),
        0 <= k < calls.len(),
    ensures
        exists|args: Seq<ArgView>|
            {
                &&& #[trigger] call_outcome(
                    plugins[calls[k].index].script,
                    hook,
                    args,
                    calls[k].outcome,
                )
                &&& args.len() == 2 + extra.len()
                &&& args[0] == ArgView::Value(plugins[calls[k].index].state)
                &&& args[1] == ArgView::Value(calls[k].rx)
                &&& args.skip(2) == extra
            },
        lender.lend.ensures((calls[k].lent,), calls[k].rx),
        taken_back(lender, calls[k].outcome, calls[k].returned),
{
    let receivers = places(plugins, subscribed(hook), plugins.len());
    assert(takes_turn(lender, plugins, session, hook, extra, receivers[k], calls, k));
    let plugin = plugins[calls[k].index];
    let args = hook_args(Some(plugin.state), calls[k].rx, extra);
    assert(args.skip(2) =~= extra);
    assert(call_outcome(plugin.script, hook, args, calls[k].outcome));
}

/// A hook that fails disables its plugin, and only that one: every other
/// plugin is as it was, but for its own failure, and nothing else of a plugin
/// changes.
pub proof fn failures_disable_only_their_plugin<A: Fn(Session) -> Value, B: Fn(&Result<Value, ScriptError>) -> Session>(
    lender: Lender<A, B>,
    plugins: Seq<PluginView>,
    session: SessionView,
    hook: Seq<char>,
    extra: Seq<ArgView>,
    calls: Seq<HookCall>,
    i: int,
)
    requires
        dispatched(lender, plugins, session, hook, extra, calls, plugins.len()),
        0 <= i < plugins.len(),
    ensures
        plugins_after(plugins, calls).len() == plugins.len(),
        forall|k: int|
            0 <= k < calls.len() && (#[trigger] calls[k]).index == i ==> plugins_after(
                plugins,
                calls,
            )[i] == (PluginView { enabled: calls[k].outcome is Ok, ..plugins[i] }),
        (forall|k: int| 0 <= k < calls.len() ==> (#[trigger] calls[k]).index != i)
            ==> plugins_after(plugins, calls)[i] == plugins[i],
{
    hooks_reach_their_subscribers(lender, plugins, session, hook, extra, calls);
}

/// A hook that fails is reported: the session that it left, with the report on
/// its message line, is what the next hook gets, or what is left at the end.
pub proof fn failures_are_reported<A: Fn(Session) -> Value, B: Fn(&Result<Value, ScriptError>) -> Session>(
    lender: Lender<A, B>,
    plugins: Seq<PluginView>,
    session: SessionView,
    hook: Seq<char>,
    extra: Seq<ArgView>,
    calls: Seq<HookCall>,
    k: int,
)
    requires
        dispatched(lender, plugins, session, hook, extra, calls, plugins.len()),
        0 <= k < calls.len(),
        calls[k].outcome is Err,
    ensures
        ({
            let next = if k + 1 < calls.len() {
                calls[k + 1].lent@
            } else {
                session_after(plugins, session, calls)
            };
            next == calls[k].returned@.with_message(
                disabled_message(plugins[calls[k].index].name, calls[k].outcome->Err_0),
                MessageType::Error,
            )
        }),
{
    if k + 1 < calls.len() {
        let receivers = places(plugins, subscribed(hook), plugins.len());
        assert(takes_turn(
            lender,
            plugins,
            session,
            hook,
            extra,
            receivers[k + 1],
            calls,
            k + 1,
        ));
        assert(calls.take(k + 1).last() == calls[k]);
    }
}

/// Every failure is told of, in full, and nothing else is.
pub proof fn failures_are_told(plugins: Seq<PluginView>, hook: Seq<char>, calls: Seq<HookCall>)
    ensures
        forall|k: int|
            0 <= k < calls.len() ==> ((#[trigger] calls[k]).outcome matches Err(e)
                ==> hook_reports(plugins, hook, calls).contains(
                ReportView::HookFailed(plugins[calls[k].index].name, hook, e),
            )),
        forall|i: int|
            0 <= i < hook_reports(plugins, hook, calls).len() ==> exists|k: int|
                0 <= k < calls.len() && hook_report(
                    plugins[calls[k].index].name,
                    hook,
                    (#[trigger] calls[k]).outcome,
                ) == Some(#[trigger] hook_reports(plugins, hook, calls)[i]),
    decreases calls.len(),
{
    if calls.len() > 0 {
        let rest = calls.drop_last();
        let last = calls.len() - 1;
        failures_are_told(plugins, hook, rest);
        let before = hook_reports(plugins, hook, rest);
        let all = hook_reports(plugins, hook, calls);
        assert forall|k: int| 0 <= k < calls.len() implies ((#[trigger] calls[k]).outcome matches
            Err(e) ==> all.contains(
            ReportView::HookFailed(plugins[calls[k].index].name, hook, e),
        )) by {
            if let Err(e) = calls[k].outcome {
                let told = ReportView::HookFailed(plugins[calls[k].index].name, hook, e);
                if k < last {
                    assert(rest[k] == calls[k]);
                    let i = choose|i: int| 0 <= i < before.len() && before[i] == told;
                    assert(all[i] == told);
                } else {
                    assert(all[before.len() as int] == told);
                }
            }
        }
        assert forall|i: int| 0 <= i < all.len() implies exists|k: int|
            0 <= k < calls.len() && hook_report(
                plugins[calls[k].index].name,
                hook,
                (#[trigger] calls[k]).outcome,
            ) == Some(#[trigger] all[i]) by {
            if i < before.len() {
                let k = choose|k: int|
                    0 <= k < rest.len() && hook_report(
                        plugins[rest[k].index].name,
                        hook,
                        (#[trigger] rest[k]).outcome,
                    ) == Some(before[i]);
                assert(calls[k] == rest[k]);
            } else {
                assert(calls[last] == calls.last());
            }
        }
    }
}

/// A hook that succeeds leaves the session as it came back. One that fails
/// leaves a line on its message line that names the plugin and tells the
/// headline of the error, and changes nothing else of it.
pub proof fn failing_hooks_leave_a_message(
    session: SessionView,
    name: Seq<char>,
    value: Value,
    e: ErrorView,
)
    ensures
        settled(session, name, Ok(value)) == session,
        settled(session, name, Err(e)) == (SessionView {
            message: MessageView {
                text: "Plugin `"@ + name + "` disabled: "@ + headline(error_text(e)),
                message_type: MessageType::Error,
            },
            ..session
        }),
{
}

} // verus!
