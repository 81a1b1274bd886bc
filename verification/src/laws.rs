//! What the plugin host promises, told in terms of what goes in and what comes
//! out: the plugins, the calls made into their scripts, the sessions lent to
//! them, the message line and the log.

use crate::discovery::{discovered, entry_views, DirEntry, EntryPointView};
use crate::engine::path_outcome;
use crate::error::{error_text, ErrorView, ScriptError};
use crate::hooks::{
    dispatched, failures_disable_only_their_plugin, hook_args, hook_called, hook_record,
    hook_records, hook_report, hook_reports, hooks_reach_their_subscribers, places, plugins_after,
    session_after, settled, subscribed, takes_turn, HookCall, Lender, PluginView,
};
use crate::host::{
    dispatches, loads, reloads, reports_effect, reports_effects, unloads, unloads_plugin,
    unloads_plugins, updates, HostView,
};
use crate::journal::{noted, ReportView};
use crate::loading::{
    load_calls, load_reports, loaded_plugins, loaded_session, loads_in_turn, loads_points,
    step_session, LoadStep, Loading, ScriptFile,
};
use crate::session::{mode_name, Effect, MessageType, MessageView, Session, SessionView};
use crate::text::headline;
use crate::value::ArgView;
use crate::vm::{calls, known_functions, path_shown, vm_error_shown, CallRecord};
use rune::runtime::VmError;
use rune::Value;
use vstd::prelude::*;
use vstd::string::*;

verus! {

/// The numbers below `n` that are wanted, in their order.
spec fn picked(n: nat, wanted: spec_fn(int) -> bool) -> Seq<int>
    decreases n,
{
    if n == 0 {
        Seq::empty()
    } else if wanted(n - 1) {
        picked((n - 1) as nat, wanted).push(n - 1)
    } else {
        picked((n - 1) as nat, wanted)
    }
}

proof fn lemma_picked(n: nat, wanted: spec_fn(int) -> bool)
    ensures
        forall|j: int|
            0 <= j < picked(n, wanted).len() ==> 0 <= #[trigger] picked(n, wanted)[j] < n && wanted(
                picked(n, wanted)[j],
            ),
        forall|i: int, j: int|
            0 <= i < j < picked(n, wanted).len() ==> #[trigger] picked(n, wanted)[i]
                < #[trigger] picked(n, wanted)[j],
        forall|k: int| 0 <= k < n && #[trigger] wanted(k) ==> picked(n, wanted).contains(k),
    decreases n,
{
    if n > 0 {
        let m = (n - 1) as nat;
        lemma_picked(m, wanted);
        assert forall|k: int| 0 <= k < n && #[trigger] wanted(k) implies picked(
            n,
            wanted,
        ).contains(k) by {
            if k < m {
                let j = choose|j: int| 0 <= j < picked(m, wanted).len() && picked(m, wanted)[j] == k;
                assert(picked(n, wanted)[j] == k);
            } else {
                assert(picked(n, wanted)[picked(m, wanted).len() as int] == k);
            }
        }
    }
}

proof fn lemma_picked_same(n: nat, f: spec_fn(int) -> bool, g: spec_fn(int) -> bool)
    requires
        forall|k: int| 0 <= k < n ==> #[trigger] f(k) == g(k),
    ensures
        picked(n, f) == picked(n, g),
    decreases n,
{
    if n > 0 {
        lemma_picked_same((n - 1) as nat, f, g);
        assert(f(n - 1) == g(n - 1));
    }
}

/// The calls that failed.
spec fn failures(made: Seq<HookCall>) -> Seq<int> {
    picked(made.len(), |k: int| made[k].outcome is Err)
}

proof fn lemma_reports_of_failures(
    plugins: Seq<PluginView>,
    hook: Seq<char>,
    made: Seq<HookCall>,
)
    ensures
        hook_reports(plugins, hook, made).len() == failures(made).len(),
        forall|j: int|
            0 <= j < failures(made).len() ==> {
                let k = failures(made)[j];
                #[trigger] hook_reports(plugins, hook, made)[j] == ReportView::HookFailed(
                    plugins[made[k].index].name,
                    hook,
                    made[k].outcome->Err_0,
                )
            },
    decreases made.len(),
{
    if made.len() > 0 {
        let rest = made.drop_last();
        lemma_reports_of_failures(plugins, hook, rest);
        lemma_picked(rest.len(), |k: int| rest[k].outcome is Err);
        let f = |k: int| made[k].outcome is Err;
        let g = |k: int| rest[k].outcome is Err;
        lemma_picked_same(rest.len(), f, g);
        assert(failures(rest) == picked(rest.len(), f));
        let before = hook_reports(plugins, hook, rest);
        let all = hook_reports(plugins, hook, made);
        assert forall|j: int| 0 <= j < failures(made).len() implies {
            let k = failures(made)[j];
            #[trigger] all[j] == ReportView::HookFailed(
                plugins[made[k].index].name,
                hook,
                made[k].outcome->Err_0,
            )
        } by {
            if j < before.len() {
                let k = failures(rest)[j];
                assert(failures(made)[j] == k);
                assert(before[j] == all[j]);
                assert(rest[k] == made[k]);
            }
        }
    }
}

/// The calls that handing out a hook came to.
pub closed spec fn hook_calls<
    A: Fn(Session) -> Value,
    B: Fn(&Result<Value, ScriptError>) -> Session,
>(
    lender: Lender<A, B>,
    host: HostView,
    session: SessionView,
    hook: Seq<char>,
    extra: Seq<ArgView>,
    host_after: HostView,
    after: SessionView,
) -> Seq<HookCall> {
    choose|made: Seq<HookCall>|
        {
            &&& #[trigger] dispatched(
                lender,
                host.plugins,
                session,
                hook,
                extra,
                made,
                host.plugins.len(),
            )
            &&& host_after == HostView {
                plugins: plugins_after(host.plugins, made),
                journal: host.journal + hook_reports(host.plugins, hook, made),
                calls: host.calls + hook_records(host.plugins, hook, extra, made),
                ..host
            }
            &&& after == session_after(host.plugins, session, made)
        }
}

/// A hook is handed out to each enabled plugin that defines it, in the order of
/// the plugins and once each, and to no other plugin.
pub proof fn hooks_go_to_their_subscribers<
    A: Fn(Session) -> Value,
    B: Fn(&Result<Value, ScriptError>) -> Session,
>(
    lender: Lender<A, B>,
    host: HostView,
    session: SessionView,
    hook: Seq<char>,
    extra: Seq<ArgView>,
    host_after: HostView,
    after: SessionView,
)
    requires
        dispatches(lender, host, session, hook, extra, host_after, after),
    ensures
        ({
            let made = hook_calls(lender, host, session, hook, extra, host_after, after);
            &&& forall|k: int|
                0 <= k < made.len() ==> {
                    let plugin = host.plugins[(#[trigger] made[k]).index];
                    &&& 0 <= made[k].index < host.plugins.len()
                    &&& plugin.enabled
                    &&& known_functions(plugin.script.runtime, plugin.script.unit).contains(hook)
                }
            &&& forall|j: int, k: int|
                0 <= j < k < made.len() ==> (#[trigger] made[j]).index < (#[trigger] made[k]).index
            &&& forall|i: int|
                #![trigger host.plugins[i]]
                0 <= i < host.plugins.len() && host.plugins[i].enabled && known_functions(
                    host.plugins[i].script.runtime,
                    host.plugins[i].script.unit,
                ).contains(hook) ==> exists|k: int|
                    0 <= k < made.len() && (#[trigger] made[k]).index == i
        }),
{
    let made = hook_calls(lender, host, session, hook, extra, host_after, after);
    hooks_reach_their_subscribers(lender, host.plugins, session, hook, extra, made);
}

/// Every call of a hook that is handed out is made once: with the plugin's
/// state, the context that the session was lent for, and what the hook is told.
/// It comes to what the script does, and the session is taken back after that.
/// No other call is made.
pub proof fn hooks_are_called_with_their_state<
    A: Fn(Session) -> Value,
    B: Fn(&Result<Value, ScriptError>) -> Session,
>(
    lender: Lender<A, B>,
    host: HostView,
    session: SessionView,
    hook: Seq<char>,
    extra: Seq<ArgView>,
    host_after: HostView,
    after: SessionView,
)
    requires
        dispatches(lender, host, session, hook, extra, host_after, after),
    ensures
        ({
            let made = hook_calls(lender, host, session, hook, extra, host_after, after);
            let n = host.calls.len() as int;
            &&& host_after.calls.len() == n + made.len()
            &&& host_after.calls.take(n) == host.calls
            &&& forall|k: int|
                0 <= k < made.len() ==> {
                    let call = #[trigger] made[k];
                    let script = host.plugins[call.index].script;
                    let args = seq![
                        ArgView::Value(host.plugins[call.index].state),
                        ArgView::Value(call.rx),
                    ] + extra;
                    &&& host_after.calls[n + k] == CallRecord {
                        runtime: script.runtime,
                        unit: script.unit,
                        name: hook,
                        args,
                    }
                    &&& match call.outcome {
                        Ok(value) => calls(script.runtime, script.unit, hook, args, Ok(value)),
                        Err(e) => exists|cause: VmError| #[trigger]
                            calls(script.runtime, script.unit, hook, args, Err(cause)) && e
                                == ErrorView::Vm(vm_error_shown(cause)),
                    }
                    &&& lender.lend.ensures((call.lent,), call.rx)
                    &&& exists|outcome: Result<Value, ScriptError>| #[trigger]
                        lender.revoke.ensures((&outcome,), call.returned) && match outcome {
                            Ok(value) => call.outcome == Ok::<Value, ErrorView>(value),
                            Err(e) => call.outcome == Err::<Value, ErrorView>(e@),
                        }
                }
        }),
{
    let made = hook_calls(lender, host, session, hook, extra, host_after, after);
    let receivers = places(host.plugins, subscribed(hook), host.plugins.len());
    assert(host_after.calls.take(host.calls.len() as int) =~= host.calls);
    assert forall|k: int| 0 <= k < made.len() implies {
        let call = #[trigger] made[k];
        let plugin = host.plugins[call.index];
        &&& known_functions(plugin.script.runtime, plugin.script.unit).contains(hook)
        &&& hook_called(lender, plugin.script, hook, Some(plugin.state), extra, call)
    } by {
        hooks_reach_their_subscribers(lender, host.plugins, session, hook, extra, made);
        assert(takes_turn(lender, host.plugins, session, hook, extra, receivers[k], made, k));
    }
}

/// The first hook gets the session as it is, and each further one gets what the
/// one before it left. Where a hook failed, that is the session that came back
/// with one line on its message line, which names the plugin and tells the
/// headline of the error, and nothing else of it changed. The last hook leaves
/// the session as it is afterwards; where there was none, it is untouched.
pub proof fn hooks_pass_the_session_on<
    A: Fn(Session) -> Value,
    B: Fn(&Result<Value, ScriptError>) -> Session,
>(
    lender: Lender<A, B>,
    host: HostView,
    session: SessionView,
    hook: Seq<char>,
    extra: Seq<ArgView>,
    host_after: HostView,
    after: SessionView,
)
    requires
        dispatches(lender, host, session, hook, extra, host_after, after),
    ensures
        ({
            let made = hook_calls(lender, host, session, hook, extra, host_after, after);
            &&& made.len() == 0 ==> after == session
            &&& made.len() > 0 ==> made[0].lent@ == session
            &&& forall|k: int, l: int|
                0 <= k < made.len() && l == k + 1 ==> {
                    let call = #[trigger] made[k];
                    let next = if l == made.len() {
                        after
                    } else {
                        (#[trigger] made[l]).lent@
                    };
                    match call.outcome {
                        Ok(_) => next == call.returned@,
                        Err(e) => next == (SessionView {
                            message: MessageView {
                                text: "Plugin `"@ + host.plugins[call.index].name
                                    + "` disabled: "@ + headline(error_text(e)),
                                message_type: MessageType::Error,
                            },
                            ..call.returned@
                        }),
                    }
                }
        }),
{
    let made = hook_calls(lender, host, session, hook, extra, host_after, after);
    let receivers = places(host.plugins, subscribed(hook), host.plugins.len());
    if made.len() > 0 {
        assert(takes_turn(lender, host.plugins, session, hook, extra, receivers[0], made, 0));
    }
    assert forall|k: int, l: int| 0 <= k < made.len() && l == k + 1 implies {
        let call = #[trigger] made[k];
        let next = if l == made.len() {
            after
        } else {
            (#[trigger] made[l]).lent@
        };
        next == settled(call.returned@, host.plugins[call.index].name, call.outcome)
    } by {
        if l < made.len() {
            assert(takes_turn(lender, host.plugins, session, hook, extra, receivers[l], made, l));
            assert(made.take(l).last() == made[k]);
        }
    }
}

/// A hook that fails disables its own plugin. Every other plugin, and all else
/// of the host but what is told and the calls made, is exactly as it was: a
/// plugin that was enabled and is not afterwards has itself a call of this
/// hook, made in this hand-out, that came to an error.
pub proof fn failing_hooks_disable_their_own_plugin<
    A: Fn(Session) -> Value,
    B: Fn(&Result<Value, ScriptError>) -> Session,
>(
    lender: Lender<A, B>,
    host: HostView,
    session: SessionView,
    hook: Seq<char>,
    extra: Seq<ArgView>,
    host_after: HostView,
    after: SessionView,
)
    requires
        dispatches(lender, host, session, hook, extra, host_after, after),
    ensures
        ({
            let made = hook_calls(lender, host, session, hook, extra, host_after, after);
            &&& host_after.plugins.len() == host.plugins.len()
            &&& forall|k: int|
                0 <= k < made.len() ==> host_after.plugins[(#[trigger] made[k]).index] == (
                PluginView { enabled: made[k].outcome is Ok, ..host.plugins[made[k].index] })
            &&& forall|i: int|
                0 <= i < host.plugins.len() ==> {
                    ||| #[trigger] host_after.plugins[i] == host.plugins[i]
                    ||| exists|k: int|
                        0 <= k < made.len() && (#[trigger] made[k]).index == i
                            && made[k].outcome is Err
                }
        }),
        host_after.context == host.context,
        host_after.runtime == host.runtime,
        host_after.dir == host.dir,
        host_after.watcher == host.watcher,
        host_after.last_mode == host.last_mode,
{
    let made = hook_calls(lender, host, session, hook, extra, host_after, after);
    hooks_reach_their_subscribers(lender, host.plugins, session, hook, extra, made);
    assert forall|k: int| 0 <= k < made.len() implies host_after.plugins[(
    #[trigger] made[k]).index] == (PluginView {
        enabled: made[k].outcome is Ok,
        ..host.plugins[made[k].index]
    }) by {
        failures_disable_only_their_plugin(
            lender,
            host.plugins,
            session,
            hook,
            extra,
            made,
            made[k].index,
        );
    }
}

/// A plugin that loses its place has failed itself: among the calls that the
/// hand-out made is one of this hook, on this plugin's script and with its
/// state, that can come to an error. Every other plugin is as it was.
pub proof fn siblings_are_unaffected<
    A: Fn(Session) -> Value,
    B: Fn(&Result<Value, ScriptError>) -> Session,
>(
    lender: Lender<A, B>,
    host: HostView,
    session: SessionView,
    hook: Seq<char>,
    extra: Seq<ArgView>,
    host_after: HostView,
    after: SessionView,
    i: int,
)
    requires
        dispatches(lender, host, session, hook, extra, host_after, after),
        0 <= i < host.plugins.len(),
        host_after.plugins[i] != host.plugins[i],
    ensures
        host.plugins[i].enabled,
        host_after.plugins[i] == (PluginView { enabled: false, ..host.plugins[i] }),
        exists|k: int, cause: VmError|
            {
                &&& host.calls.len() <= k < host_after.calls.len()
                &&& (#[trigger] host_after.calls[k]).name == hook
                &&& host_after.calls[k].unit == host.plugins[i].script.unit
                &&& host_after.calls[k].args[0] == ArgView::Value(host.plugins[i].state)
                &&& #[trigger] calls(
                    host.plugins[i].script.runtime,
                    host.plugins[i].script.unit,
                    hook,
                    host_after.calls[k].args,
                    Err(cause),
                )
            },
{
    let made = hook_calls(lender, host, session, hook, extra, host_after, after);
    let script = host.plugins[i].script;
    failing_hooks_disable_their_own_plugin(
        lender,
        host,
        session,
        hook,
        extra,
        host_after,
        after,
    );
    let k = choose|k: int|
        0 <= k < made.len() && (#[trigger] made[k]).index == i && made[k].outcome is Err;
    let at = host.calls.len() + k;
    assert(host.plugins[i].enabled) by {
        hooks_go_to_their_subscribers(lender, host, session, hook, extra, host_after, after);
    }
    hooks_are_called_with_their_state(lender, host, session, hook, extra, host_after, after);
    let e = made[k].outcome->Err_0;
    let args = host_after.calls[at].args;
    let cause = choose|cause: VmError| #[trigger]
        calls(script.runtime, script.unit, hook, args, Err(cause)) && e == ErrorView::Vm(
            vm_error_shown(cause),
        );
    assert(calls(script.runtime, script.unit, hook, args, Err(cause)));
}

/// Each failure of a hook is told of once, in full, with the plugin's name, in
/// the order of the plugins, and nothing else is told. The places of the
/// failures among the calls are given.
pub proof fn hook_failures_are_told_in_order<
    A: Fn(Session) -> Value,
    B: Fn(&Result<Value, ScriptError>) -> Session,
>(
    lender: Lender<A, B>,
    host: HostView,
    session: SessionView,
    hook: Seq<char>,
    extra: Seq<ArgView>,
    host_after: HostView,
    after: SessionView,
) -> (told: Seq<int>)
    requires
        dispatches(lender, host, session, hook, extra, host_after, after),
    ensures
        ({
            let made = hook_calls(lender, host, session, hook, extra, host_after, after);
            let m = host.journal.len() as int;
            &&& forall|j: int|
                0 <= j < told.len() ==> 0 <= #[trigger] told[j] < made.len()
                    && made[told[j]].outcome is Err
            &&& forall|i: int, j: int|
                0 <= i < j < told.len() ==> #[trigger] told[i] < #[trigger] told[j]
            &&& forall|k: int|
                0 <= k < made.len() && (#[trigger] made[k]).outcome is Err ==> told.contains(k)
            &&& host_after.journal.len() == m + told.len()
            &&& host_after.journal.take(m) == host.journal
            &&& forall|j: int|
                0 <= j < told.len() ==> host_after.journal[m + j] == ReportView::HookFailed(
                    host.plugins[made[#[trigger] told[j]].index].name,
                    hook,
                    made[told[j]].outcome->Err_0,
                )
        }),
{
    let made = hook_calls(lender, host, session, hook, extra, host_after, after);
    lemma_picked(made.len(), |k: int| made[k].outcome is Err);
    lemma_reports_of_failures(host.plugins, hook, made);
    assert(host_after.journal.take(host.journal.len() as int) =~= host.journal);
    assert forall|k: int| 0 <= k < made.len() && (#[trigger] made[k]).outcome is Err implies
        failures(made).contains(k) by {
        let f = |k: int| made[k].outcome is Err;
        assert(f(k));
    }
    failures(made)
}

/// The end of an update hands out `update`, and `switch_mode` before it where
/// the mode is another than the one last reported. The mode then counts as
/// reported.
pub proof fn updates_report_mode_edges_first<
    A: Fn(Session) -> Value,
    B: Fn(&Result<Value, ScriptError>) -> Session,
>(
    lender: Lender<A, B>,
    host: HostView,
    session: SessionView,
    host_after: HostView,
    after: SessionView,
)
    requires
        updates(lender, host, session, host_after, after),
    ensures
        host_after.last_mode == Some(mode_name(session.mode)),
        host.last_mode == Some(mode_name(session.mode)) ==> dispatches(
            lender,
            host,
            session,
            "update"@,
            Seq::empty(),
            host_after,
            after,
        ),
        host.last_mode != Some(mode_name(session.mode)) ==> exists|
            host_between: HostView,
            between: SessionView,
        |
            {
                &&& #[trigger] dispatches(
                    lender,
                    HostView { last_mode: Some(mode_name(session.mode)), ..host },
                    session,
                    "switch_mode"@,
                    Seq::empty(),
                    host_between,
                    between,
                )
                &&& dispatches(
                    lender,
                    host_between,
                    between,
                    "update"@,
                    Seq::empty(),
                    host_after,
                    after,
                )
            },
{
}

/// A view that comes is reported to `view_added`, and one that goes to
/// `view_removed`, with the view's id; other effects change nothing.
pub proof fn effects_report_the_view<
    A: Fn(Session) -> Value,
    B: Fn(&Result<Value, ScriptError>) -> Session,
>(
    lender: Lender<A, B>,
    host: HostView,
    session: SessionView,
    effect: Effect,
    host_after: HostView,
    after: SessionView,
)
    requires
        reports_effects(lender, host, session, seq![effect], host_after, after),
    ensures
        effect matches Effect::ViewAdded(id) ==> dispatches(
            lender,
            host,
            session,
            "view_added"@,
            seq![ArgView::Int(id.0 as i64)],
            host_after,
            after,
        ),
        effect matches Effect::ViewRemoved(id) ==> dispatches(
            lender,
            host,
            session,
            "view_removed"@,
            seq![ArgView::Int(id.0 as i64)],
            host_after,
            after,
        ),
        !(effect is ViewAdded) && !(effect is ViewRemoved) ==> host_after == host && after
            == session,
{
    reveal_with_fuel(reports_effects, 2);
    let (host_between, between) = choose|host_between: HostView, between: SessionView|
        {
            &&& reports_effects(
                lender,
                host,
                session,
                seq![effect].drop_last(),
                host_between,
                between,
            )
            &&& #[trigger] reports_effect(
                lender,
                host_between,
                between,
                seq![effect].last(),
                host_after,
                after,
            )
        };
    assert(host_between == host && between == session);
}

/// Effects are reported one after the other: reporting some and then more is
/// reporting the first ones, and then the others. What comes between is given.
pub proof fn effects_add_up<
    A: Fn(Session) -> Value,
    B: Fn(&Result<Value, ScriptError>) -> Session,
>(
    lender: Lender<A, B>,
    host: HostView,
    session: SessionView,
    first: Seq<Effect>,
    more: Seq<Effect>,
    host_after: HostView,
    after: SessionView,
) -> (r: (HostView, SessionView))
    requires
        reports_effects(lender, host, session, first + more, host_after, after),
    ensures
        reports_effects(lender, host, session, first, r.0, r.1),
        reports_effects(lender, r.0, r.1, more, host_after, after),
    decreases more.len(),
{
    let all = first + more;
    if more.len() == 0 {
        assert(all =~= first);
        (host_after, after)
    } else {
        let (host_between, between) = choose|host_between: HostView, between: SessionView|
            {
                &&& reports_effects(
                    lender,
                    host,
                    session,
                    all.drop_last(),
                    host_between,
                    between,
                )
                &&& #[trigger] reports_effect(
                    lender,
                    host_between,
                    between,
                    all.last(),
                    host_after,
                    after,
                )
            };
        assert(all.drop_last() =~= first + more.drop_last());
        assert(all.last() == more.last());
        let r = effects_add_up(
            lender,
            host,
            session,
            first,
            more.drop_last(),
            host_between,
            between,
        );
        assert(reports_effect(lender, host_between, between, more.last(), host_after, after));
        r
    }
}

/// Each effect has its own report, in the order of the effects: what is reported
/// is what comes before it, then the effect alone, then what comes after it.
/// What comes between is given.
pub proof fn each_effect_is_reported<
    A: Fn(Session) -> Value,
    B: Fn(&Result<Value, ScriptError>) -> Session,
>(
    lender: Lender<A, B>,
    host: HostView,
    session: SessionView,
    effects: Seq<Effect>,
    i: int,
    host_after: HostView,
    after: SessionView,
) -> (r: (HostView, SessionView, HostView, SessionView))
    requires
        reports_effects(lender, host, session, effects, host_after, after),
        0 <= i < effects.len(),
    ensures
        reports_effects(lender, host, session, effects.take(i), r.0, r.1),
        reports_effects(lender, r.0, r.1, seq![effects[i]], r.2, r.3),
        reports_effects(lender, r.2, r.3, effects.skip(i + 1), host_after, after),
{
    assert(effects =~= effects.take(i) + effects.skip(i));
    let (h, s) = effects_add_up(
        lender,
        host,
        session,
        effects.take(i),
        effects.skip(i),
        host_after,
        after,
    );
    assert(effects.skip(i) =~= seq![effects[i]] + effects.skip(i + 1));
    let (g, t) = effects_add_up(
        lender,
        h,
        s,
        seq![effects[i]],
        effects.skip(i + 1),
        host_after,
        after,
    );
    (h, s, g, t)
}

/// Whether calls are those of unloading: one of `unload` for each plugin that
/// defines it, in order, each lent what the one before it left.
spec fn unloading<
    A: Fn(Session) -> Value,
    B: Fn(&Result<Value, ScriptError>) -> Session,
>(
    lender: Lender<A, B>,
    plugins: Seq<PluginView>,
    session: SessionView,
    made: Seq<HookCall>,
    after: SessionView,
) -> bool {
    &&& forall|k: int|
        0 <= k < made.len() ==> {
            let plugin = plugins[(#[trigger] made[k]).index];
            &&& 0 <= made[k].index < plugins.len()
            &&& plugin.script.defines("unload"@)
            &&& hook_called(
                lender,
                plugin.script,
                "unload"@,
                Some(plugin.state),
                Seq::empty(),
                made[k],
            )
        }
    &&& forall|j: int, k: int|
        0 <= j < k < made.len() ==> (#[trigger] made[j]).index < (#[trigger] made[k]).index
    &&& forall|i: int|
        0 <= i < plugins.len() && (#[trigger] plugins[i]).script.defines("unload"@)
            ==> exists|k: int| 0 <= k < made.len() && (#[trigger] made[k]).index == i
    &&& made.len() == 0 ==> after == session
    &&& made.len() > 0 ==> made[0].lent@ == session && after == made.last().returned@
    &&& forall|k: int, l: int|
        0 <= k < l < made.len() && l == k + 1 ==> (#[trigger] made[l]).lent@ == (
        #[trigger] made[k]).returned@
}

proof fn lemma_reports_by_name(
    a: Seq<PluginView>,
    b: Seq<PluginView>,
    hook: Seq<char>,
    made: Seq<HookCall>,
)
    requires
        forall|k: int| 0 <= k < made.len() ==> a[(#[trigger] made[k]).index] == b[made[k].index],
    ensures
        hook_reports(a, hook, made) == hook_reports(b, hook, made),
    decreases made.len(),
{
    if made.len() > 0 {
        let rest = made.drop_last();
        assert forall|k: int| 0 <= k < rest.len() implies a[(#[trigger] rest[k]).index]
            == b[rest[k].index] by {
            assert(rest[k] == made[k]);
        }
        lemma_reports_by_name(a, b, hook, rest);
        assert(made.last() == made[made.len() - 1]);
    }
}

#[verifier::rlimit(50)]
proof fn lemma_unloading<
    A: Fn(Session) -> Value,
    B: Fn(&Result<Value, ScriptError>) -> Session,
>(
    lender: Lender<A, B>,
    plugins: Seq<PluginView>,
    session: SessionView,
    reports: Seq<ReportView>,
    records: Seq<CallRecord>,
    after: SessionView,
) -> (made: Seq<HookCall>)
    requires
        unloads_plugins(lender, plugins, session, reports, records, after),
    ensures
        unloading(lender, plugins, session, made, after),
        records == hook_records(plugins, "unload"@, Seq::empty(), made),
        reports == hook_reports(plugins, "unload"@, made),
    decreases plugins.len(),
{
    if plugins.len() == 0 {
        let made: Seq<HookCall> = Seq::empty();
        assert(records =~= hook_records(plugins, "unload"@, Seq::empty(), made));
        assert(reports =~= hook_reports(plugins, "unload"@, made));
        made
    } else {
        let rest = plugins.drop_last();
        let plugin = plugins.last();
        let n = rest.len() as int;
        let (between, earlier, report, before, last) = choose|
            between: SessionView,
            earlier: Seq<ReportView>,
            report: Option<ReportView>,
            before: Seq<CallRecord>,
            last: Seq<CallRecord>,
        |
            {
                &&& unloads_plugins(lender, rest, session, earlier, before, between)
                &&& #[trigger] unloads_plugin(lender, plugin, between, report, last, after)
                &&& reports == #[trigger] noted(earlier, report)
                &&& records == #[trigger] (before + last)
            };
        let made = lemma_unloading(lender, rest, session, earlier, before, between);
        assert forall|k: int| 0 <= k < made.len() implies rest[(#[trigger] made[k]).index]
            == plugins[made[k].index] by {}
        lemma_reports_by_name(rest, plugins, "unload"@, made);
        assert(hook_records(rest, "unload"@, Seq::empty(), made) =~= hook_records(
            plugins,
            "unload"@,
            Seq::empty(),
            made,
        ));
        assert forall|i: int|
            0 <= i < n && (#[trigger] plugins[i]).script.defines("unload"@) implies exists|k: int|
            0 <= k < made.len() && (#[trigger] made[k]).index == i by {
            assert(rest[i] == plugins[i]);
        }
        if plugin.script.defines("unload"@) {
            let found = choose|call: HookCall|
                {
                    &&& #[trigger] hook_called(
                        lender,
                        plugin.script,
                        "unload"@,
                        Some(plugin.state),
                        Seq::empty(),
                        call,
                    )
                    &&& call.lent@ == between
                    &&& call.returned@ == after
                    &&& report == hook_report(plugin.name, "unload"@, call.outcome)
                    &&& last == seq![hook_record(plugin, "unload"@, Seq::empty(), call)]
                };
            let call = HookCall { index: n, ..found };
            let all = made.push(call);
            assert(hook_called(
                lender,
                plugin.script,
                "unload"@,
                Some(plugin.state),
                Seq::empty(),
                call,
            ));
            assert(all.drop_last() =~= made);
            assert(records =~= hook_records(plugins, "unload"@, Seq::empty(), all));
            assert forall|i: int|
                0 <= i < plugins.len() && (#[trigger] plugins[i]).script.defines(
                    "unload"@,
                ) implies exists|k: int|
                0 <= k < all.len() && (#[trigger] all[k]).index == i by {
                if i < n {
                    let k = choose|k: int| 0 <= k < made.len() && (#[trigger] made[k]).index == i;
                    assert(all[k].index == i);
                } else {
                    assert(all[made.len() as int].index == i);
                }
            }
            assert forall|k: int, l: int| 0 <= k < l < all.len() && l == k + 1 implies (
            #[trigger] all[l]).lent@ == (#[trigger] all[k]).returned@ by {
                if l < made.len() {
                    assert(made[l].lent@ == made[k].returned@);
                } else {
                    assert(made.last() == made[k]);
                }
            }
            if made.len() > 0 {
                assert(all[0] == made[0]);
            }
            all
        } else {
            assert(records =~= before);
            made
        }
    }
}

/// The calls that unloading came to.
pub closed spec fn unload_calls<
    A: Fn(Session) -> Value,
    B: Fn(&Result<Value, ScriptError>) -> Session,
>(
    lender: Lender<A, B>,
    host: HostView,
    session: SessionView,
    host_after: HostView,
    after: SessionView,
) -> Seq<HookCall> {
    choose|made: Seq<HookCall>|
        {
            &&& #[trigger] unloading(lender, host.plugins, session, made, after)
            &&& host_after == HostView {
                plugins: Seq::empty(),
                journal: host.journal + hook_reports(host.plugins, "unload"@, made),
                calls: host.calls + hook_records(host.plugins, "unload"@, Seq::empty(), made),
                ..host
            }
        }
}

proof fn lemma_unload_calls<
    A: Fn(Session) -> Value,
    B: Fn(&Result<Value, ScriptError>) -> Session,
>(
    lender: Lender<A, B>,
    host: HostView,
    session: SessionView,
    host_after: HostView,
    after: SessionView,
)
    requires
        unloads(lender, host, session, host_after, after),
    ensures
        ({
            let made = unload_calls(lender, host, session, host_after, after);
            &&& unloading(lender, host.plugins, session, made, after)
            &&& host_after == HostView {
                plugins: Seq::empty(),
                journal: host.journal + hook_reports(host.plugins, "unload"@, made),
                calls: host.calls + hook_records(host.plugins, "unload"@, Seq::empty(), made),
                ..host
            }
        }),
{
    let (reports, records) = choose|reports: Seq<ReportView>, records: Seq<CallRecord>|
        {
            &&& #[trigger] unloads_plugins(
                lender,
                host.plugins,
                session,
                reports,
                records,
                after,
            )
            &&& host_after == HostView {
                plugins: Seq::empty(),
                journal: host.journal + reports,
                calls: host.calls + records,
                ..host
            }
        };
    let made = lemma_unloading(lender, host.plugins, session, reports, records, after);
    assert(unloading(lender, host.plugins, session, made, after));
}

/// Unloading calls `unload` on every plugin that defines it, disabled ones too,
/// in the order of the plugins and once each. Then no plugin is left, and all
/// else of the host but what is told and the calls made is as it was.
pub proof fn every_plugin_is_unloaded<
    A: Fn(Session) -> Value,
    B: Fn(&Result<Value, ScriptError>) -> Session,
>(
    lender: Lender<A, B>,
    host: HostView,
    session: SessionView,
    host_after: HostView,
    after: SessionView,
)
    requires
        unloads(lender, host, session, host_after, after),
    ensures
        ({
            let made = unload_calls(lender, host, session, host_after, after);
            &&& forall|k: int|
                0 <= k < made.len() ==> {
                    let script = host.plugins[(#[trigger] made[k]).index].script;
                    &&& 0 <= made[k].index < host.plugins.len()
                    &&& known_functions(script.runtime, script.unit).contains("unload"@)
                }
            &&& forall|j: int, k: int|
                0 <= j < k < made.len() ==> (#[trigger] made[j]).index < (#[trigger] made[k]).index
            &&& forall|i: int|
                #![trigger host.plugins[i]]
                0 <= i < host.plugins.len() && known_functions(
                    host.plugins[i].script.runtime,
                    host.plugins[i].script.unit,
                ).contains("unload"@) ==> exists|k: int|
                    0 <= k < made.len() && (#[trigger] made[k]).index == i
        }),
        host_after.plugins.len() == 0,
        host_after.context == host.context,
        host_after.runtime == host.runtime,
        host_after.dir == host.dir,
        host_after.watcher == host.watcher,
        host_after.last_mode == host.last_mode,
{
    lemma_unload_calls(lender, host, session, host_after, after);
}

/// Every `unload` is called with the plugin's own state and the context that the
/// session was lent for, and comes to what the script does. No other call is
/// made.
pub proof fn unloads_are_called_with_their_state<
    A: Fn(Session) -> Value,
    B: Fn(&Result<Value, ScriptError>) -> Session,
>(
    lender: Lender<A, B>,
    host: HostView,
    session: SessionView,
    host_after: HostView,
    after: SessionView,
)
    requires
        unloads(lender, host, session, host_after, after),
    ensures
        ({
            let made = unload_calls(lender, host, session, host_after, after);
            let n = host.calls.len() as int;
            &&& host_after.calls.len() == n + made.len()
            &&& host_after.calls.take(n) == host.calls
            &&& forall|k: int|
                0 <= k < made.len() ==> {
                    let call = #[trigger] made[k];
                    let script = host.plugins[call.index].script;
                    let args = seq![
                        ArgView::Value(host.plugins[call.index].state),
                        ArgView::Value(call.rx),
                    ];
                    &&& host_after.calls[n + k] == CallRecord {
                        runtime: script.runtime,
                        unit: script.unit,
                        name: "unload"@,
                        args,
                    }
                    &&& match call.outcome {
                        Ok(value) => calls(
                            script.runtime,
                            script.unit,
                            "unload"@,
                            args,
                            Ok(value),
                        ),
                        Err(e) => exists|cause: VmError| #[trigger]
                            calls(script.runtime, script.unit, "unload"@, args, Err(cause)) && e
                                == ErrorView::Vm(vm_error_shown(cause)),
                    }
                    &&& lender.lend.ensures((call.lent,), call.rx)
                    &&& exists|outcome: Result<Value, ScriptError>| #[trigger]
                        lender.revoke.ensures((&outcome,), call.returned) && match outcome {
                            Ok(value) => call.outcome == Ok::<Value, ErrorView>(value),
                            Err(e) => call.outcome == Err::<Value, ErrorView>(e@),
                        }
                }
        }),
{
    let made = unload_calls(lender, host, session, host_after, after);
    lemma_unload_calls(lender, host, session, host_after, after);
    assert(host_after.calls.take(host.calls.len() as int) =~= host.calls);
    assert forall|k: int| 0 <= k < made.len() implies {
        let call = #[trigger] made[k];
        let plugin = host.plugins[call.index];
        let args = seq![ArgView::Value(plugin.state), ArgView::Value(call.rx)];
        &&& known_functions(plugin.script.runtime, plugin.script.unit).contains("unload"@)
        &&& hook_args(Some(plugin.state), call.rx, Seq::empty()) == args
        &&& hook_called(
            lender,
            plugin.script,
            "unload"@,
            Some(plugin.state),
            Seq::empty(),
            call,
        )
    } by {
        let call = made[k];
        let plugin = host.plugins[call.index];
        assert(hook_args(Some(plugin.state), call.rx, Seq::empty()) =~= seq![
            ArgView::Value(plugin.state),
            ArgView::Value(call.rx),
        ]);
    }
}

/// The first `unload` gets the session as it is, and each further one gets what
/// the one before it gave back, with nothing on the message line for a failure.
/// The last one's is what is left; where there was none, the session is
/// untouched.
pub proof fn unloads_pass_the_session_on<
    A: Fn(Session) -> Value,
    B: Fn(&Result<Value, ScriptError>) -> Session,
>(
    lender: Lender<A, B>,
    host: HostView,
    session: SessionView,
    host_after: HostView,
    after: SessionView,
)
    requires
        unloads(lender, host, session, host_after, after),
    ensures
        ({
            let made = unload_calls(lender, host, session, host_after, after);
            &&& made.len() == 0 ==> after == session
            &&& made.len() > 0 ==> made[0].lent@ == session && made.last().returned@ == after
            &&& forall|k: int, l: int|
                0 <= k < l < made.len() && l == k + 1 ==> (#[trigger] made[l]).lent@ == (
                #[trigger] made[k]).returned@
        }),
{
    lemma_unload_calls(lender, host, session, host_after, after);
}

/// Each failure of an `unload` is told of once, in full, with the plugin's name,
/// in the order of the plugins, and nothing else is told. The places of the
/// failures among the calls are given.
pub proof fn unload_failures_are_told_in_order<
    A: Fn(Session) -> Value,
    B: Fn(&Result<Value, ScriptError>) -> Session,
>(
    lender: Lender<A, B>,
    host: HostView,
    session: SessionView,
    host_after: HostView,
    after: SessionView,
) -> (told: Seq<int>)
    requires
        unloads(lender, host, session, host_after, after),
    ensures
        ({
            let made = unload_calls(lender, host, session, host_after, after);
            let m = host.journal.len() as int;
            &&& forall|j: int|
                0 <= j < told.len() ==> 0 <= #[trigger] told[j] < made.len()
                    && made[told[j]].outcome is Err
            &&& forall|i: int, j: int|
                0 <= i < j < told.len() ==> #[trigger] told[i] < #[trigger] told[j]
            &&& forall|k: int|
                0 <= k < made.len() && (#[trigger] made[k]).outcome is Err ==> told.contains(k)
            &&& host_after.journal.len() == m + told.len()
            &&& host_after.journal.take(m) == host.journal
            &&& forall|j: int|
                0 <= j < told.len() ==> host_after.journal[m + j] == ReportView::HookFailed(
                    host.plugins[made[#[trigger] told[j]].index].name,
                    "unload"@,
                    made[told[j]].outcome->Err_0,
                )
        }),
{
    let made = unload_calls(lender, host, session, host_after, after);
    lemma_unload_calls(lender, host, session, host_after, after);
    lemma_picked(made.len(), |k: int| made[k].outcome is Err);
    lemma_reports_of_failures(host.plugins, "unload"@, made);
    assert(host_after.journal.take(host.journal.len() as int) =~= host.journal);
    assert forall|k: int| 0 <= k < made.len() && (#[trigger] made[k]).outcome is Err implies
        failures(made).contains(k) by {
        let f = |k: int| made[k].outcome is Err;
        assert(f(k));
    }
    failures(made)
}

/// What loading came to: the listing of the directory, the entry points in it,
/// and the loading of each.
pub closed spec fn load_run<
    A: Fn(Session) -> Value,
    B: Fn(&Result<Value, ScriptError>) -> Session,
    D: FnOnce() -> Vec<DirEntry>,
    R: Fn(String) -> ScriptFile,
>(
    lender: Lender<A, B>,
    list: D,
    read: R,
    host: HostView,
    session: SessionView,
    host_after: HostView,
    after: SessionView,
) -> (Vec<DirEntry>, Seq<EntryPointView>, Seq<Loading>) {
    choose|entries: Vec<DirEntry>, points: Seq<EntryPointView>, loadings: Seq<Loading>|
        {
            &&& #[trigger] list.ensures((), entries)
            &&& discovered(entry_views(entries@), points)
            &&& loadings.len() == points.len()
            &&& #[trigger] loads_points(
                lender,
                read,
                host.context,
                host.runtime,
                points,
                session,
                loadings,
            )
            &&& host_after == HostView {
                plugins: host.plugins + loaded_plugins(points, loadings),
                journal: host.journal + load_reports(points, loadings),
                calls: host.calls + load_calls(loadings),
                ..host
            }
            &&& after == loaded_session(points, session, loadings)
        }
}

/// The loadings that came to a plugin.
spec fn successes(loadings: Seq<Loading>) -> Seq<int> {
    picked(
        loadings.len(),
        |k: int| loadings[k].step is InitCalled && loadings[k].step->InitCalled_1.outcome is Ok,
    )
}

/// The loadings that called `init`.
spec fn starts(loadings: Seq<Loading>) -> Seq<int> {
    picked(loadings.len(), |k: int| loadings[k].step is InitCalled)
}

proof fn lemma_plugins_of_successes(points: Seq<EntryPointView>, loadings: Seq<Loading>)
    requires
        loadings.len() <= points.len(),
    ensures
        loaded_plugins(points, loadings).len() == successes(loadings).len(),
        forall|j: int|
            0 <= j < successes(loadings).len() ==> {
                let k = successes(loadings)[j];
                #[trigger] loaded_plugins(points, loadings)[j] == (PluginView {
                    name: points[k].name,
                    script: loadings[k].step->InitCalled_0,
                    state: loadings[k].step->InitCalled_1.outcome->Ok_0,
                    enabled: true,
                })
            },
    decreases loadings.len(),
{
    if loadings.len() > 0 {
        let rest = loadings.drop_last();
        lemma_plugins_of_successes(points, rest);
        let f = |k: int|
            loadings[k].step is InitCalled && loadings[k].step->InitCalled_1.outcome is Ok;
        let g = |k: int| rest[k].step is InitCalled && rest[k].step->InitCalled_1.outcome is Ok;
        lemma_picked(rest.len(), g);
        lemma_picked_same(rest.len(), f, g);
        assert(successes(rest) == picked(rest.len(), f));
        let before = loaded_plugins(points, rest);
        let all = loaded_plugins(points, loadings);
        assert forall|j: int| 0 <= j < successes(loadings).len() implies {
            let k = successes(loadings)[j];
            #[trigger] all[j] == (PluginView {
                name: points[k].name,
                script: loadings[k].step->InitCalled_0,
                state: loadings[k].step->InitCalled_1.outcome->Ok_0,
                enabled: true,
            })
        } by {
            if j < before.len() {
                let k = successes(rest)[j];
                assert(successes(loadings)[j] == k);
                assert(before[j] == all[j]);
                assert(rest[k] == loadings[k]);
            }
        }
    }
}

proof fn lemma_calls_of_starts(loadings: Seq<Loading>)
    ensures
        load_calls(loadings).len() == starts(loadings).len(),
        forall|j: int|
            0 <= j < starts(loadings).len() ==> {
                let step = loadings[starts(loadings)[j]].step;
                #[trigger] load_calls(loadings)[j] == CallRecord {
                    runtime: step->InitCalled_0.runtime,
                    unit: step->InitCalled_0.unit,
                    name: "init"@,
                    args: seq![ArgView::Value(step->InitCalled_1.rx)],
                }
            },
    decreases loadings.len(),
{
    if loadings.len() > 0 {
        let rest = loadings.drop_last();
        lemma_calls_of_starts(rest);
        let f = |k: int| loadings[k].step is InitCalled;
        let g = |k: int| rest[k].step is InitCalled;
        lemma_picked(rest.len(), g);
        lemma_picked_same(rest.len(), f, g);
        assert(starts(rest) == picked(rest.len(), f));
        let before = load_calls(rest);
        let all = load_calls(loadings);
        assert forall|j: int| 0 <= j < starts(loadings).len() implies {
            let step = loadings[starts(loadings)[j]].step;
            #[trigger] all[j] == CallRecord {
                runtime: step->InitCalled_0.runtime,
                unit: step->InitCalled_0.unit,
                name: "init"@,
                args: seq![ArgView::Value(step->InitCalled_1.rx)],
            }
        } by {
            if j < before.len() {
                let k = starts(rest)[j];
                assert(starts(loadings)[j] == k);
                assert(before[j] == all[j]);
                assert(rest[k] == loadings[k]);
            } else {
                let call = loadings.last().step->InitCalled_1;
                assert(hook_args(None, call.rx, Seq::empty()) =~= seq![ArgView::Value(call.rx)]);
            }
        }
    }
}

/// Without a plugin directory, loading changes nothing. With one, all else of
/// the host but its plugins, what is told and the calls made is as it was.
pub proof fn loading_leaves_the_rest_alone<
    A: Fn(Session) -> Value,
    B: Fn(&Result<Value, ScriptError>) -> Session,
    D: FnOnce() -> Vec<DirEntry>,
    R: Fn(String) -> ScriptFile,
>(
    lender: Lender<A, B>,
    list: D,
    read: R,
    host: HostView,
    session: SessionView,
    host_after: HostView,
    after: SessionView,
)
    requires
        loads(lender, list, read, host, session, host_after, after),
    ensures
        host.dir is None ==> host_after == host && after == session,
        host_after.context == host.context,
        host_after.runtime == host.runtime,
        host_after.dir == host.dir,
        host_after.watcher == host.watcher,
        host_after.last_mode == host.last_mode,
{
}

/// Loading goes through the entry points of the directory's listing, one after
/// the other, and asks for the file of each: `<name>.rune`, or
/// `<name>/<name>.rune` for a package.
pub proof fn loading_goes_through_the_entry_points<
    A: Fn(Session) -> Value,
    B: Fn(&Result<Value, ScriptError>) -> Session,
    D: FnOnce() -> Vec<DirEntry>,
    R: Fn(String) -> ScriptFile,
>(
    lender: Lender<A, B>,
    list: D,
    read: R,
    host: HostView,
    session: SessionView,
    host_after: HostView,
    after: SessionView,
)
    requires
        loads(lender, list, read, host, session, host_after, after),
        host.dir is Some,
    ensures
        ({
            let (entries, points, loadings) = load_run(
                lender,
                list,
                read,
                host,
                session,
                host_after,
                after,
            );
            &&& list.ensures((), entries)
            &&& discovered(Seq::new(entries@.len(), |i: int| entries@[i]@), points)
            &&& loadings.len() == points.len()
            &&& forall|k: int|
                0 <= k < loadings.len() ==> {
                    let name = points[k].name;
                    &&& read.ensures(((#[trigger] loadings[k]).asked,), loadings[k].file)
                    &&& points[k].package ==> loadings[k].asked@ == name + "/"@ + (name
                        + ".rune"@)
                    &&& !points[k].package ==> loadings[k].asked@ == name + ".rune"@
                }
        }),
{
    let (entries, points, loadings) = load_run(
        lender,
        list,
        read,
        host,
        session,
        host_after,
        after,
    );
    assert(entry_views(entries@) =~= Seq::new(entries@.len(), |i: int| entries@[i]@));
    assert forall|k: int| 0 <= k < loadings.len() implies {
        let name = points[k].name;
        &&& read.ensures(((#[trigger] loadings[k]).asked,), loadings[k].file)
        &&& points[k].package ==> loadings[k].asked@ == name + "/"@ + (name + ".rune"@)
        &&& !points[k].package ==> loadings[k].asked@ == name + ".rune"@
    } by {
        assert(loads_in_turn(
            lender,
            read,
            host.context,
            host.runtime,
            points,
            session,
            loadings,
            k,
        ));
    }
}

/// The file of each entry point is compiled against what the host's plugins are
/// compiled against. Where it compiles and defines `init`, that is called, with
/// the context that the session was lent for and nothing else, and it comes to
/// what the script does.
pub proof fn entry_points_are_compiled_and_started<
    A: Fn(Session) -> Value,
    B: Fn(&Result<Value, ScriptError>) -> Session,
    D: FnOnce() -> Vec<DirEntry>,
    R: Fn(String) -> ScriptFile,
>(
    lender: Lender<A, B>,
    list: D,
    read: R,
    host: HostView,
    session: SessionView,
    host_after: HostView,
    after: SessionView,
    k: int,
)
    requires
        loads(lender, list, read, host, session, host_after, after),
        host.dir is Some,
        0 <= k < load_run(
            lender,
            list,
            read,
            host,
            session,
            host_after,
            after,
        ).2.len(),
    ensures
        ({
            let file = load_run(
                lender,
                list,
                read,
                host,
                session,
                host_after,
                after,
            ).2[k].file;
            match load_run(
                lender,
                list,
                read,
                host,
                session,
                host_after,
                after,
            ).2[k].step {
                LoadStep::CompileFailed(e) => path_outcome(
                    host.context,
                    host.runtime,
                    file.path,
                    file.text,
                    Err(e),
                ),
                LoadStep::InitMissing(script) => {
                    &&& path_outcome(
                        host.context,
                        host.runtime,
                        file.path,
                        file.text,
                        Ok(script),
                    )
                    &&& !known_functions(script.runtime, script.unit).contains("init"@)
                },
                LoadStep::InitCalled(script, call) => {
                    let args = seq![ArgView::Value(call.rx)];
                    &&& path_outcome(
                        host.context,
                        host.runtime,
                        file.path,
                        file.text,
                        Ok(script),
                    )
                    &&& known_functions(script.runtime, script.unit).contains("init"@)
                    &&& match call.outcome {
                        Ok(value) => calls(script.runtime, script.unit, "init"@, args, Ok(value)),
                        Err(e) => exists|cause: VmError| #[trigger]
                            calls(script.runtime, script.unit, "init"@, args, Err(cause)) && e
                                == ErrorView::Vm(vm_error_shown(cause)),
                    }
                    &&& lender.lend.ensures((call.lent,), call.rx)
                    &&& exists|outcome: Result<Value, ScriptError>| #[trigger]
                        lender.revoke.ensures((&outcome,), call.returned) && match outcome {
                            Ok(value) => call.outcome == Ok::<Value, ErrorView>(value),
                            Err(e) => call.outcome == Err::<Value, ErrorView>(e@),
                        }
                },
            }
        }),
{
    let (entries, points, loadings) = load_run(
        lender,
        list,
        read,
        host,
        session,
        host_after,
        after,
    );
    assert(loads_in_turn(
        lender,
        read,
        host.context,
        host.runtime,
        points,
        session,
        loadings,
        k,
    ));
    if let LoadStep::InitCalled(script, call) = loadings[k].step {
        assert(hook_args(None, call.rx, Seq::empty()) =~= seq![ArgView::Value(call.rx)]);
    }
}

/// Loading starts from the session as it is, and each entry point gets what the
/// one before it left. One that does not compile leaves the session as it
/// was, but for a line on the message line that names the plugin and tells the
/// headline of the error. So does one without `init`. An `init` that is called
/// is lent the session, and what it gives back is left, with such a line on it
/// where it failed. The sessions before each entry point, and the last, are
/// given.
pub proof fn loading_passes_the_session_on<
    A: Fn(Session) -> Value,
    B: Fn(&Result<Value, ScriptError>) -> Session,
    D: FnOnce() -> Vec<DirEntry>,
    R: Fn(String) -> ScriptFile,
>(
    lender: Lender<A, B>,
    list: D,
    read: R,
    host: HostView,
    session: SessionView,
    host_after: HostView,
    after: SessionView,
) -> (sessions: Seq<SessionView>)
    requires
        loads(lender, list, read, host, session, host_after, after),
        host.dir is Some,
    ensures
        ({
            let (entries, points, loadings) = load_run(
                lender,
                list,
                read,
                host,
                session,
                host_after,
                after,
            );
            &&& sessions.len() == loadings.len() + 1
            &&& sessions[0] == session
            &&& sessions.last() == after
            &&& forall|k: int, l: int|
                #![trigger sessions[k], sessions[l]]
                0 <= k < loadings.len() && l == k + 1 ==> match loadings[k].step {
                    LoadStep::CompileFailed(e) => sessions[l] == (SessionView {
                        message: MessageView {
                            text: "Error loading plugin `"@ + points[k].name + "`: "@ + headline(
                                error_text(e),
                            ),
                            message_type: MessageType::Error,
                        },
                        ..sessions[k]
                    }),
                    LoadStep::InitMissing(_) => sessions[l] == (SessionView {
                        message: MessageView {
                            text: "Error initializing plugin `"@ + points[k].name + "`: "@
                                + headline(error_text(ErrorView::MissingFn("init"@))),
                            message_type: MessageType::Error,
                        },
                        ..sessions[k]
                    }),
                    LoadStep::InitCalled(_, call) => {
                        &&& call.lent@ == sessions[k]
                        &&& call.outcome is Ok ==> sessions[l] == call.returned@
                        &&& call.outcome matches Err(e) ==> sessions[l] == (SessionView {
                            message: MessageView {
                                text: "Error initializing plugin `"@ + points[k].name + "`: "@
                                    + headline(error_text(e)),
                                message_type: MessageType::Error,
                            },
                            ..call.returned@
                        })
                    },
                }
        }),
{
    let (entries, points, loadings) = load_run(
        lender,
        list,
        read,
        host,
        session,
        host_after,
        after,
    );
    let sessions = Seq::new(
        loadings.len() + 1,
        |k: int| loaded_session(points, session, loadings.take(k)),
    );
    assert(loadings.take(0) =~= Seq::empty());
    assert(loadings.take(loadings.len() as int) =~= loadings);
    assert(sessions[0] == session);
    assert(sessions.last() == after);
    assert forall|k: int| 0 <= k < loadings.len() implies match loadings[k].step {
        LoadStep::CompileFailed(_) => true,
        LoadStep::InitMissing(_) => true,
        LoadStep::InitCalled(_, call) => call.lent@ == #[trigger] sessions[k],
    } by {
        assert(loads_in_turn(
            lender,
            read,
            host.context,
            host.runtime,
            points,
            session,
            loadings,
            k,
        ));
    }
    assert forall|k: int, l: int|
        #![trigger sessions[k], sessions[l]]
        0 <= k < loadings.len() && l == k + 1 implies sessions[l] == step_session(
        sessions[k],
        points[k].name,
        loadings[k].step,
    ) by {
        assert(loadings.take(l).drop_last() =~= loadings.take(k));
        assert(loadings.take(l).last() == loadings[k]);
    }
    sessions
}

/// An entry point comes to a plugin where its script compiles and its `init`
/// succeeds, whatever becomes of the others: the plugin has the entry point's
/// name, its script, the state that `init` gave, and is enabled. These plugins
/// are added, in the order of the entry points, to those that are there, and no
/// others are. The places of their entry points are given.
pub proof fn what_starts_is_added<
    A: Fn(Session) -> Value,
    B: Fn(&Result<Value, ScriptError>) -> Session,
    D: FnOnce() -> Vec<DirEntry>,
    R: Fn(String) -> ScriptFile,
>(
    lender: Lender<A, B>,
    list: D,
    read: R,
    host: HostView,
    session: SessionView,
    host_after: HostView,
    after: SessionView,
) -> (kept: Seq<int>)
    requires
        loads(lender, list, read, host, session, host_after, after),
        host.dir is Some,
    ensures
        ({
            let (entries, points, loadings) = load_run(
                lender,
                list,
                read,
                host,
                session,
                host_after,
                after,
            );
            let n = host.plugins.len() as int;
            &&& forall|j: int|
                0 <= j < kept.len() ==> 0 <= #[trigger] kept[j] < loadings.len()
                    && loadings[kept[j]].step is InitCalled
                    && loadings[kept[j]].step->InitCalled_1.outcome is Ok
            &&& forall|i: int, j: int|
                0 <= i < j < kept.len() ==> #[trigger] kept[i] < #[trigger] kept[j]
            &&& forall|k: int|
                0 <= k < loadings.len() && (#[trigger] loadings[k]).step is InitCalled
                    && loadings[k].step->InitCalled_1.outcome is Ok ==> kept.contains(k)
            &&& host_after.plugins.len() == n + kept.len()
            &&& host_after.plugins.take(n) == host.plugins
            &&& forall|j: int|
                0 <= j < kept.len() ==> host_after.plugins[n + j] == (PluginView {
                    name: points[#[trigger] kept[j]].name,
                    script: loadings[kept[j]].step->InitCalled_0,
                    state: loadings[kept[j]].step->InitCalled_1.outcome->Ok_0,
                    enabled: true,
                })
        }),
{
    let (entries, points, loadings) = load_run(
        lender,
        list,
        read,
        host,
        session,
        host_after,
        after,
    );
    let f = |k: int|
        loadings[k].step is InitCalled && loadings[k].step->InitCalled_1.outcome is Ok;
    lemma_picked(loadings.len(), f);
    lemma_plugins_of_successes(points, loadings);
    assert(successes(loadings) == picked(loadings.len(), f));
    assert(host_after.plugins.take(host.plugins.len() as int) =~= host.plugins);
    assert forall|k: int|
        0 <= k < loadings.len() && (#[trigger] loadings[k]).step is InitCalled
            && loadings[k].step->InitCalled_1.outcome is Ok implies successes(loadings).contains(
        k,
    ) by {
        assert(f(k));
    }
    successes(loadings)
}

/// Loading calls `init`, once, of each entry point that compiles and defines it,
/// in the order of the entry points, with the context that the session was lent
/// for. No other call is made. The places of those entry points are given.
pub proof fn loading_calls_init_alone<
    A: Fn(Session) -> Value,
    B: Fn(&Result<Value, ScriptError>) -> Session,
    D: FnOnce() -> Vec<DirEntry>,
    R: Fn(String) -> ScriptFile,
>(
    lender: Lender<A, B>,
    list: D,
    read: R,
    host: HostView,
    session: SessionView,
    host_after: HostView,
    after: SessionView,
) -> (started: Seq<int>)
    requires
        loads(lender, list, read, host, session, host_after, after),
        host.dir is Some,
    ensures
        ({
            let (entries, points, loadings) = load_run(
                lender,
                list,
                read,
                host,
                session,
                host_after,
                after,
            );
            let n = host.calls.len() as int;
            &&& forall|j: int|
                0 <= j < started.len() ==> 0 <= #[trigger] started[j] < loadings.len()
                    && loadings[started[j]].step is InitCalled
            &&& forall|i: int, j: int|
                0 <= i < j < started.len() ==> #[trigger] started[i] < #[trigger] started[j]
            &&& forall|k: int|
                0 <= k < loadings.len() && (#[trigger] loadings[k]).step is InitCalled
                    ==> started.contains(k)
            &&& host_after.calls.len() == n + started.len()
            &&& host_after.calls.take(n) == host.calls
            &&& forall|j: int|
                0 <= j < started.len() ==> {
                    let step = loadings[#[trigger] started[j]].step;
                    host_after.calls[n + j] == CallRecord {
                        runtime: step->InitCalled_0.runtime,
                        unit: step->InitCalled_0.unit,
                        name: "init"@,
                        args: seq![ArgView::Value(step->InitCalled_1.rx)],
                    }
                }
        }),
{
    let (entries, points, loadings) = load_run(
        lender,
        list,
        read,
        host,
        session,
        host_after,
        after,
    );
    let f = |k: int| loadings[k].step is InitCalled;
    lemma_picked(loadings.len(), f);
    lemma_calls_of_starts(loadings);
    assert(starts(loadings) == picked(loadings.len(), f));
    assert(host_after.calls.take(host.calls.len() as int) =~= host.calls);
    assert forall|k: int| 0 <= k < loadings.len() && (#[trigger] loadings[k]).step is InitCalled
        implies starts(loadings).contains(k) by {
        assert(f(k));
    }
    starts(loadings)
}

/// What became of each entry point is told of, once and in order: that it was
/// loaded, with its path, or why not, in full. Nothing else is told.
pub proof fn every_loading_is_told_of<
    A: Fn(Session) -> Value,
    B: Fn(&Result<Value, ScriptError>) -> Session,
    D: FnOnce() -> Vec<DirEntry>,
    R: Fn(String) -> ScriptFile,
>(
    lender: Lender<A, B>,
    list: D,
    read: R,
    host: HostView,
    session: SessionView,
    host_after: HostView,
    after: SessionView,
)
    requires
        loads(lender, list, read, host, session, host_after, after),
        host.dir is Some,
    ensures
        ({
            let (entries, points, loadings) = load_run(
                lender,
                list,
                read,
                host,
                session,
                host_after,
                after,
            );
            let m = host.journal.len() as int;
            &&& host_after.journal.len() == m + loadings.len()
            &&& host_after.journal.take(m) == host.journal
            &&& forall|k: int|
                0 <= k < loadings.len() ==> host_after.journal[m + k] == match (
                #[trigger] loadings[k]).step {
                    LoadStep::CompileFailed(e) => ReportView::LoadFailed(points[k].name, e),
                    LoadStep::InitMissing(_) => ReportView::HookFailed(
                        points[k].name,
                        "init"@,
                        ErrorView::MissingFn("init"@),
                    ),
                    LoadStep::InitCalled(_, call) => match call.outcome {
                        Ok(_) => ReportView::Loaded(
                            points[k].name,
                            path_shown(loadings[k].file.path),
                        ),
                        Err(e) => ReportView::HookFailed(points[k].name, "init"@, e),
                    },
                }
        }),
{
    assert(host_after.journal.take(host.journal.len() as int) =~= host.journal);
}

/// The host and the session between the two halves of a reload, and the session
/// at the end of the second.
pub closed spec fn reload_between<
    A: Fn(Session) -> Value,
    B: Fn(&Result<Value, ScriptError>) -> Session,
    D: FnOnce() -> Vec<DirEntry>,
    R: Fn(String) -> ScriptFile,
>(
    lender: Lender<A, B>,
    list: D,
    read: R,
    host: HostView,
    session: SessionView,
    host_after: HostView,
    after: SessionView,
) -> (HostView, SessionView, SessionView) {
    choose|emptied: HostView, unloaded: SessionView, loaded: SessionView|
        {
            &&& #[trigger] unloads(lender, host, session, emptied, unloaded)
            &&& #[trigger] loads(lender, list, read, emptied, unloaded, host_after, loaded)
            &&& after == loaded.with_message("Plugins reloaded"@, MessageType::Execution)
        }
}

/// A reload is an unload of the host as it is, then a load into the host that
/// this leaves, with the session that it leaves. Then the message line says so,
/// and nothing else of the session changes.
pub proof fn reloads_unload_and_then_load<
    A: Fn(Session) -> Value,
    B: Fn(&Result<Value, ScriptError>) -> Session,
    D: FnOnce() -> Vec<DirEntry>,
    R: Fn(String) -> ScriptFile,
>(
    lender: Lender<A, B>,
    list: D,
    read: R,
    host: HostView,
    session: SessionView,
    host_after: HostView,
    after: SessionView,
)
    requires
        reloads(lender, list, read, host, session, host_after, after),
    ensures
        ({
            let (emptied, unloaded, loaded) = reload_between(
                lender,
                list,
                read,
                host,
                session,
                host_after,
                after,
            );
            &&& unloads(lender, host, session, emptied, unloaded)
            &&& loads(lender, list, read, emptied, unloaded, host_after, loaded)
            &&& after == (SessionView {
                message: MessageView {
                    text: "Plugins reloaded"@,
                    message_type: MessageType::Execution,
                },
                ..loaded
            })
        }),
{
}

proof fn lemma_only_messages(sessions: Seq<SessionView>, n: int)
    requires
        0 <= n < sessions.len(),
        forall|k: int, l: int|
            #![trigger sessions[k], sessions[l]]
            0 <= k < n && l == k + 1 ==> sessions[l] == (SessionView {
                message: sessions[l].message,
                ..sessions[k]
            }),
    ensures
        sessions[n] == (SessionView { message: sessions[n].message, ..sessions[0] }),
    decreases n,
{
    if n > 0 {
        lemma_only_messages(sessions, n - 1);
        assert(sessions[n] == (SessionView {
            message: sessions[n].message,
            ..sessions[n - 1]
        }));
    }
}

/// The first `init` of a load gets the session as loading found it, but for its
/// message line, which may tell of entry points before it.
pub proof fn the_first_init_gets_the_session<
    A: Fn(Session) -> Value,
    B: Fn(&Result<Value, ScriptError>) -> Session,
    D: FnOnce() -> Vec<DirEntry>,
    R: Fn(String) -> ScriptFile,
>(
    lender: Lender<A, B>,
    list: D,
    read: R,
    host: HostView,
    session: SessionView,
    host_after: HostView,
    after: SessionView,
) -> (lent: Session)
    requires
        loads(lender, list, read, host, session, host_after, after),
        host_after.calls.len() > host.calls.len(),
    ensures
        exists|rx: Value| #[trigger]
            lender.lend.ensures((lent,), rx) && host_after.calls[host.calls.len() as int].args
                == seq![ArgView::Value(rx)],
        lent@ == (SessionView { message: lent@.message, ..session }),
{
    let (entries, points, loadings) = load_run(
        lender,
        list,
        read,
        host,
        session,
        host_after,
        after,
    );
    let started = loading_calls_init_alone(
        lender,
        list,
        read,
        host,
        session,
        host_after,
        after,
    );
    let sessions = loading_passes_the_session_on(
        lender,
        list,
        read,
        host,
        session,
        host_after,
        after,
    );
    let first = started[0];
    let call = loadings[first].step->InitCalled_1;
    assert forall|k: int, l: int|
        #![trigger sessions[k], sessions[l]]
        0 <= k < first && l == k + 1 implies sessions[l] == (SessionView {
        message: sessions[l].message,
        ..sessions[k]
    }) by {
        if loadings[k].step is InitCalled {
            let j = choose|j: int| 0 <= j < started.len() && started[j] == k;
            assert(started[0] <= started[j]);
        }
    }
    lemma_only_messages(sessions, first);
    entry_points_are_compiled_and_started(
        lender,
        list,
        read,
        host,
        session,
        host_after,
        after,
        first,
    );
    assert(call.lent@ == sessions[first]) by {
        assert(sessions[first + 1] == sessions[first + 1]);
    }
    assert(host_after.calls[host.calls.len() as int].args == seq![ArgView::Value(call.rx)]);
    assert(lender.lend.ensures((call.lent,), call.rx));
    call.lent
}

proof fn lemma_load_log<
    A: Fn(Session) -> Value,
    B: Fn(&Result<Value, ScriptError>) -> Session,
    D: FnOnce() -> Vec<DirEntry>,
    R: Fn(String) -> ScriptFile,
>(
    lender: Lender<A, B>,
    list: D,
    read: R,
    host: HostView,
    session: SessionView,
    host_after: HostView,
    after: SessionView,
)
    requires
        loads(lender, list, read, host, session, host_after, after),
    ensures
        host.calls.len() <= host_after.calls.len(),
        forall|i: int|
            0 <= i < host.calls.len() ==> #[trigger] host_after.calls[i] == host.calls[i],
        forall|i: int|
            host.calls.len() <= i < host_after.calls.len() ==> (
            #[trigger] host_after.calls[i]).name == "init"@,
{
    if host.dir is Some {
        let n = host.calls.len() as int;
        let started = loading_calls_init_alone(
            lender,
            list,
            read,
            host,
            session,
            host_after,
            after,
        );
        assert forall|i: int| 0 <= i < n implies #[trigger] host_after.calls[i]
            == host.calls[i] by {
            assert(host_after.calls.take(n)[i] == host.calls[i]);
        }
        assert forall|i: int| n <= i < host_after.calls.len() implies (
        #[trigger] host_after.calls[i]).name == "init"@ by {
            let j = i - n;
            assert(0 <= started[j]);
            assert(host_after.calls[n + j].name == "init"@);
        }
    }
}

/// The calls of `unload` that a reload came to.
pub closed spec fn reload_unloads<
    A: Fn(Session) -> Value,
    B: Fn(&Result<Value, ScriptError>) -> Session,
    D: FnOnce() -> Vec<DirEntry>,
    R: Fn(String) -> ScriptFile,
>(
    lender: Lender<A, B>,
    list: D,
    read: R,
    host: HostView,
    session: SessionView,
    host_after: HostView,
    after: SessionView,
) -> Seq<HookCall> {
    let (emptied, unloaded, loaded) = reload_between(
        lender,
        list,
        read,
        host,
        session,
        host_after,
        after,
    );
    unload_calls(lender, host, session, emptied, unloaded)
}

/// A reload calls `unload` on every plugin that defines it, in the order of the
/// plugins and once each. The first of these calls gets the session as it is,
/// and each further one gets what the one before it left.
pub proof fn reloads_call_every_unload<
    A: Fn(Session) -> Value,
    B: Fn(&Result<Value, ScriptError>) -> Session,
    D: FnOnce() -> Vec<DirEntry>,
    R: Fn(String) -> ScriptFile,
>(
    lender: Lender<A, B>,
    list: D,
    read: R,
    host: HostView,
    session: SessionView,
    host_after: HostView,
    after: SessionView,
)
    requires
        reloads(lender, list, read, host, session, host_after, after),
    ensures
        ({
            let made = reload_unloads(lender, list, read, host, session, host_after, after);
            &&& forall|k: int|
                0 <= k < made.len() ==> {
                    let script = host.plugins[(#[trigger] made[k]).index].script;
                    &&& 0 <= made[k].index < host.plugins.len()
                    &&& known_functions(script.runtime, script.unit).contains("unload"@)
                }
            &&& forall|j: int, k: int|
                0 <= j < k < made.len() ==> (#[trigger] made[j]).index < (#[trigger] made[k]).index
            &&& forall|i: int|
                #![trigger host.plugins[i]]
                0 <= i < host.plugins.len() && known_functions(
                    host.plugins[i].script.runtime,
                    host.plugins[i].script.unit,
                ).contains("unload"@) ==> exists|k: int|
                    0 <= k < made.len() && (#[trigger] made[k]).index == i
            &&& made.len() > 0 ==> made[0].lent@ == session
            &&& forall|k: int, l: int|
                0 <= k < l < made.len() && l == k + 1 ==> (#[trigger] made[l]).lent@ == (
                #[trigger] made[k]).returned@
        }),
{
    let (emptied, unloaded, loaded) = reload_between(
        lender,
        list,
        read,
        host,
        session,
        host_after,
        after,
    );
    every_plugin_is_unloaded(lender, host, session, emptied, unloaded);
    unloads_pass_the_session_on(lender, host, session, emptied, unloaded);
}

/// What a reload adds to the calls made begins with those of `unload`, each with
/// the plugin's own state and the context that the session was lent for. All
/// that follows are calls of `init`.
pub proof fn reloads_unload_first<
    A: Fn(Session) -> Value,
    B: Fn(&Result<Value, ScriptError>) -> Session,
    D: FnOnce() -> Vec<DirEntry>,
    R: Fn(String) -> ScriptFile,
>(
    lender: Lender<A, B>,
    list: D,
    read: R,
    host: HostView,
    session: SessionView,
    host_after: HostView,
    after: SessionView,
)
    requires
        reloads(lender, list, read, host, session, host_after, after),
    ensures
        ({
            let made = reload_unloads(lender, list, read, host, session, host_after, after);
            let n = host.calls.len() as int;
            &&& host_after.calls.len() >= n + made.len()
            &&& host_after.calls.take(n) == host.calls
            &&& forall|k: int|
                0 <= k < made.len() ==> {
                    let plugin = host.plugins[(#[trigger] made[k]).index];
                    &&& host_after.calls[n + k] == CallRecord {
                        runtime: plugin.script.runtime,
                        unit: plugin.script.unit,
                        name: "unload"@,
                        args: seq![ArgView::Value(plugin.state), ArgView::Value(made[k].rx)],
                    }
                    &&& lender.lend.ensures((made[k].lent,), made[k].rx)
                }
            &&& forall|i: int|
                n + made.len() <= i < host_after.calls.len() ==> (
                #[trigger] host_after.calls[i]).name == "init"@
        }),
{
    let (emptied, unloaded, loaded) = reload_between(
        lender,
        list,
        read,
        host,
        session,
        host_after,
        after,
    );
    unloads_are_called_with_their_state(lender, host, session, emptied, unloaded);
    lemma_load_log(lender, list, read, emptied, unloaded, host_after, loaded);
    let n = host.calls.len() as int;
    assert forall|i: int| 0 <= i < n implies #[trigger] host_after.calls[i] == host.calls[i] by {
        assert(emptied.calls.take(n)[i] == host.calls[i]);
    }
    assert(host_after.calls.take(n) =~= host.calls);
}

/// The first `init` of a reload gets the session that the last `unload` left,
/// but for its message line; where there was no `unload`, it gets the session
/// as the reload found it. The session that it was lent is given.
pub proof fn reloads_hand_the_session_over<
    A: Fn(Session) -> Value,
    B: Fn(&Result<Value, ScriptError>) -> Session,
    D: FnOnce() -> Vec<DirEntry>,
    R: Fn(String) -> ScriptFile,
>(
    lender: Lender<A, B>,
    list: D,
    read: R,
    host: HostView,
    session: SessionView,
    host_after: HostView,
    after: SessionView,
) -> (lent: Session)
    requires
        reloads(lender, list, read, host, session, host_after, after),
        host_after.calls.len() > host.calls.len() + reload_unloads(
            lender,
            list,
            read,
            host,
            session,
            host_after,
            after,
        ).len(),
    ensures
        ({
            let made = reload_unloads(lender, list, read, host, session, host_after, after);
            let left = if made.len() == 0 {
                session
            } else {
                made.last().returned@
            };
            &&& lent@ == (SessionView { message: lent@.message, ..left })
            &&& exists|rx: Value| #[trigger]
                lender.lend.ensures((lent,), rx) && host_after.calls[(host.calls.len()
                    + made.len()) as int].args == seq![ArgView::Value(rx)]
        }),
{
    let (emptied, unloaded, loaded) = reload_between(
        lender,
        list,
        read,
        host,
        session,
        host_after,
        after,
    );
    unloads_are_called_with_their_state(lender, host, session, emptied, unloaded);
    unloads_pass_the_session_on(lender, host, session, emptied, unloaded);
    the_first_init_gets_the_session(
        lender,
        list,
        read,
        emptied,
        unloaded,
        host_after,
        loaded,
    )
}

} // verus!
