//! Compiling scripts and calling into them.

use crate::error::{joined, ErrorView, IoError, IoErrorKind, ScriptError};
use crate::value::{arg_views, ArgView, CallArg};
use crate::vm::{
    alloc_error_text, build_error_text, build_unit, call_function, context_error_text,
    default_context, file_source, has_error, install_module, knows_function, memory_source,
    rendered, runtime_of, shown_path, sole_source, stem_of_path, text_of_bytes, vm_error_text,
};
use crate::vm::{
    alloc_error_shown, build_error_shown, builds, calls, context_error_shown, context_runtime,
    has_default_modules, installs, known_functions, lossy_text, path_shown, path_stem, renders,
    reports_error, source_name, source_path, source_text, sources_held, vm_error_shown, CallLog,
    CallRecord,
};
use rune::runtime::{RuntimeContext, VmError};
use rune::{BuildError, Context, ContextError, Diagnostics, Module, Source, Sources, Unit, Value};
use std::path::PathBuf;
use std::sync::Arc;
use vstd::prelude::*;
use vstd::string::*;

verus! {

/// The name that a path gives to its script: that of its file, without the
/// extension, or else the whole path as it is shown.
pub open spec fn script_name(stem: Option<Seq<char>>, shown: Seq<char>) -> Seq<char> {
    match stem {
        Some(stem) => stem,
        None => shown,
    }
}

/// What a build comes to, by its diagnostics and its outcome: where the
/// diagnostics report an error, they are rendered and are the error; else it is
/// the build's own error, or what was compiled.
pub open spec fn build_comes_to(
    diagnostics: Diagnostics,
    built: Result<Unit, BuildError>,
    after: Sources,
    r: Result<Unit, ErrorView>,
) -> bool {
    if reports_error(diagnostics) {
        exists|bytes: Option<Seq<u8>>| #[trigger]
            renders(diagnostics, after, bytes) && r == Err::<Unit, ErrorView>(
                ErrorView::Compile(rendered_text(bytes)),
            )
    } else {
        match built {
            Ok(unit) => r == Ok::<Unit, ErrorView>(unit),
            Err(cause) => r == Err::<Unit, ErrorView>(
                ErrorView::Compile(build_error_shown(cause)),
            ),
        }
    }
}

/// What rendered diagnostics say; there are no bytes where rendering failed.
pub open spec fn rendered_text(bytes: Option<Seq<u8>>) -> Seq<char> {
    match bytes {
        Some(bytes) => lossy_text(bytes),
        None => "unknown compile error"@,
    }
}

/// Whether an error tells of a want of memory.
pub open spec fn out_of_memory(e: ErrorView) -> bool {
    exists|cause: rune::alloc::Error| e == ErrorView::Compile(#[trigger] alloc_error_shown(cause))
}

/// What making an engine comes to, with a context and a module, or with what
/// kept them from being made: what scripts are compiled against, and what they
/// run against. The first thing that is missing is what is told of.
pub open spec fn assembles(
    base: Result<Context, ContextError>,
    module: Result<Module, ContextError>,
    outcome: Result<(Context, RuntimeContext), ErrorView>,
) -> bool {
    match (base, module) {
        (Err(cause), _) => outcome == Err::<(Context, RuntimeContext), ErrorView>(
            ErrorView::Compile(context_error_shown(cause)),
        ),
        (Ok(_), Err(cause)) => outcome == Err::<(Context, RuntimeContext), ErrorView>(
            ErrorView::Compile(context_error_shown(cause)),
        ),
        (Ok(base), Ok(module)) => match outcome {
            Ok((context, runtime)) => {
                &&& installs(base, module, None, context)
                &&& runtime == context_runtime(context)
            },
            Err(e) => {
                ||| out_of_memory(e)
                ||| exists|cause: ContextError, after: Context| #[trigger]
                    installs(base, module, Some(cause), after) && e == ErrorView::Compile(
                        context_error_shown(cause),
                    )
            },
        },
    }
}

/// What making an engine comes to with the language's own modules and one
/// more.
pub open spec fn makes_engine(
    module: Result<Module, ContextError>,
    outcome: Result<(Context, RuntimeContext), ErrorView>,
) -> bool {
    exists|base: Result<Context, ContextError>| #[trigger]
        assembles(base, module, outcome) && (base matches Ok(context) ==> has_default_modules(
            context,
        ))
}

/// What calling a function of a script comes to, as a script error where the
/// script met an error.
pub open spec fn call_outcome(
    script: ScriptView,
    name: Seq<char>,
    args: Seq<ArgView>,
    outcome: Result<Value, ErrorView>,
) -> bool {
    if script.defines(name) {
        match outcome {
            Ok(value) => calls(script.runtime, script.unit, name, args, Ok(value)),
            Err(e) => exists|cause: VmError| #[trigger]
                calls(script.runtime, script.unit, name, args, Err(cause)) && e == ErrorView::Vm(
                    vm_error_shown(cause),
                ),
        }
    } else {
        outcome == Err::<Value, ErrorView>(ErrorView::MissingFn(name))
    }
}

/// A call of a function of a script.
pub open spec fn call_record(script: ScriptView, name: Seq<char>, args: Seq<ArgView>) -> CallRecord {
    CallRecord { runtime: script.runtime, unit: script.unit, name, args }
}

/// The calls that calling a function of a script makes: one, where the script
/// defines it.
pub open spec fn calls_for(script: ScriptView, name: Seq<char>, args: Seq<ArgView>) -> Seq<
    CallRecord,
> {
    if script.defines(name) {
        seq![call_record(script, name, args)]
    } else {
        Seq::empty()
    }
}

/// A result of a call as a mathematical value.
pub open spec fn called(r: Result<Value, ScriptError>) -> Result<Value, ErrorView> {
    match r {
        Ok(value) => Ok(value),
        Err(e) => Err(e@),
    }
}

/// A result of a compilation as a mathematical value.
pub open spec fn compiled(r: Result<CompiledScript, ScriptError>) -> Result<
    ScriptView,
    ErrorView,
> {
    match r {
        Ok(script) => Ok(script@),
        Err(e) => Err(e@),
    }
}

/// What compiling a source comes to, for a script of a name: what building it,
/// and nothing else, against the context comes to.
pub open spec fn compile_outcome(
    context: Context,
    runtime: RuntimeContext,
    name: Seq<char>,
    source: Source,
    outcome: Result<ScriptView, ErrorView>,
) -> bool {
    ||| outcome matches Err(e) && out_of_memory(e)
    ||| exists|diagnostics: Diagnostics, built: Result<Unit, BuildError>, after: Sources|
        {
            &&& #[trigger] builds(context, seq![source], diagnostics, built, after)
            &&& build_comes_to(
                diagnostics,
                built,
                after,
                match outcome {
                    Ok(script) => Ok(script.unit),
                    Err(e) => Err(e),
                },
            )
            &&& outcome matches Ok(script) ==> {
                &&& script.name == name
                &&& script.source == source
                &&& script.runtime == runtime
            }
        }
}

/// What compiling a script from an in-memory string comes to.
pub open spec fn text_outcome(
    context: Context,
    runtime: RuntimeContext,
    name: Seq<char>,
    text: Seq<char>,
    outcome: Result<ScriptView, ErrorView>,
) -> bool {
    ||| outcome matches Err(e) && out_of_memory(e)
    ||| exists|source: Source|
        {
            &&& source_name(source) == "<memory>"@
            &&& source_text(source) == text
            &&& source_path(source) is None
            &&& #[trigger] compile_outcome(context, runtime, name, source, outcome)
        }
}

/// What compiling a script comes to whose file was read: its text, or why it
/// could not be read.
pub open spec fn path_outcome(
    context: Context,
    runtime: RuntimeContext,
    path: PathBuf,
    text: Result<String, String>,
    outcome: Result<ScriptView, ErrorView>,
) -> bool {
    let shown = path_shown(path);
    match text {
        Err(reason) => outcome == Err::<ScriptView, ErrorView>(unreadable_error(shown, reason@)),
        Ok(text) => {
            ||| exists|cause: rune::alloc::Error|
                outcome == Err::<ScriptView, ErrorView>(
                    unreadable_error(shown, #[trigger] alloc_error_shown(cause)),
                )
            ||| exists|source: Source|
                {
                    &&& source_name(source) == shown
                    &&& source_text(source) == text@
                    &&& source_path(source) == Some(path)
                    &&& #[trigger] compile_outcome(
                        context,
                        runtime,
                        script_name(path_stem(path), shown),
                        source,
                        outcome,
                    )
                }
        },
    }
}

/// The error of a script whose file could not be read, for the reason given.
pub open spec fn unreadable_error(path: Seq<char>, reason: Seq<char>) -> ErrorView {
    ErrorView::Io(IoErrorKind::NotFound, path + ": "@ + reason)
}

/// Shared compiler state: the native context all plugins compile against. It
/// knows of every call that is made into scripts.
pub struct ScriptEngine {
    context: Context,
    runtime: Arc<RuntimeContext>,
    log: CallLog,
}

/// A compiled script, ready to call.
pub struct CompiledScript {
    pub name: String,
    unit: Arc<Unit>,
    runtime: Arc<RuntimeContext>,
    source: Ghost<Source>,
}

/// A compiled script as a mathematical value: its name, the text that it was
/// compiled from, what it compiled to, and what it runs against.
pub struct ScriptView {
    pub name: Seq<char>,
    pub source: Source,
    pub unit: Unit,
    pub runtime: RuntimeContext,
}

impl ScriptView {
    /// Whether the script defines a top-level function with this name.
    pub open spec fn defines(self, name: Seq<char>) -> bool {
        known_functions(self.runtime, self.unit).contains(name)
    }
}

impl View for CompiledScript {
    type V = ScriptView;

    closed spec fn view(&self) -> ScriptView {
        ScriptView {
            name: self.name@,
            source: self.source@,
            unit: *self.unit,
            runtime: *self.runtime,
        }
    }
}

impl From<VmError> for ScriptError {
    fn from(e: VmError) -> (r: ScriptError)
        ensures
            r@ == ErrorView::Vm(vm_error_shown(e)),
    {
        ScriptError::Vm(vm_error_text(&e))
    }
}

impl vstd::std_specs::convert::FromSpecImpl<VmError> for ScriptError {
    open spec fn obeys_from_spec() -> bool {
        false
    }

    open spec fn from_spec(e: VmError) -> ScriptError {
        arbitrary()
    }
}

fn from_context_error(e: ContextError) -> (r: ScriptError)
    ensures
        r@ == ErrorView::Compile(context_error_shown(e)),
{
    ScriptError::Compile(context_error_text(&e))
}

fn from_alloc_error(e: rune::alloc::Error) -> (r: ScriptError)
    ensures
        r@ == ErrorView::Compile(alloc_error_shown(e)),
{
    ScriptError::Compile(alloc_error_text(&e))
}

/// The error of a script whose file could not be read.
pub fn unreadable(path: &str, reason: &str) -> (r: ScriptError)
    ensures
        r@ == unreadable_error(path@, reason@),
{
    let message = joined(joined(path, ": ").as_str(), reason);
    ScriptError::from(IoError { kind: IoErrorKind::NotFound, message })
}

/// The name that a path gives to its script, by the stem of its file, where
/// there is one, and by how the path is shown.
pub fn name_of_path(stem: Option<String>, shown: &str) -> (r: String)
    ensures
        r@ == script_name(
            match stem {
                Some(stem) => Some(stem@),
                None => None,
            },
            shown@,
        ),
{
    match stem {
        Some(stem) => stem,
        None => shown.to_owned(),
    }
}

/// What the rendered diagnostics of a build say; there are no bytes where
/// rendering failed.
pub fn diagnostics_text(bytes: Option<Vec<u8>>) -> (r: String)
    ensures
        r@ == rendered_text(
            match bytes {
                Some(bytes) => Some(bytes@),
                None => None,
            },
        ),
{
    match bytes {
        Some(bytes) => text_of_bytes(&bytes),
        None => "unknown compile error".to_owned(),
    }
}

/// What a build comes to: an error that the diagnostics report comes first,
/// then one of the build itself, then what was compiled.
pub fn build_outcome(reported: Option<String>, built: Result<Unit, String>) -> (r: Result<
    Unit,
    ScriptError,
>)
    ensures
        match (reported, built) {
            (Some(text), _) => r is Err && r->Err_0@ == ErrorView::Compile(text@),
            (None, Err(text)) => r is Err && r->Err_0@ == ErrorView::Compile(text@),
            (None, Ok(unit)) => r == Ok::<Unit, ScriptError>(unit),
        },
{
    match reported {
        Some(text) => Err(ScriptError::Compile(text)),
        None => match built {
            Ok(unit) => Ok(unit),
            Err(text) => Err(ScriptError::Compile(text)),
        },
    }
}

/// Renders diagnostics to a plain string, for the message line.
fn render_diagnostics(diagnostics: &Diagnostics, sources: &Sources) -> (r: String)
    ensures
        exists|bytes: Option<Seq<u8>>| #[trigger]
            renders(*diagnostics, *sources, bytes) && r@ == rendered_text(bytes),
{
    match rendered(diagnostics, sources) {
        Ok(bytes) => diagnostics_text(Some(bytes)),
        Err(_) => diagnostics_text(None),
    }
}

/// A new engine as a mathematical value.
pub open spec fn made(r: Result<ScriptEngine, ScriptError>) -> Result<
    (Context, RuntimeContext),
    ErrorView,
> {
    match r {
        Ok(engine) => Ok((engine.context(), engine.runtime())),
        Err(e) => Err(e@),
    }
}

impl ScriptEngine {
    /// What scripts of this engine are compiled against.
    pub closed spec fn context(&self) -> Context {
        self.context
    }

    /// What scripts of this engine run against.
    pub closed spec fn runtime(&self) -> RuntimeContext {
        *self.runtime
    }

    /// The calls that were made into scripts, in their order.
    pub closed spec fn calls_made(&self) -> Seq<CallRecord> {
        self.log@
    }

    /// An engine whose scripts see the language's own modules and the given
    /// native module. Where any of it cannot be had, the error tells why.
    pub fn new(module: Result<Module, ContextError>) -> (r: Result<ScriptEngine, ScriptError>)
        ensures
            makes_engine(module, made(r)),
            r matches Ok(engine) ==> engine.calls_made() == Seq::<CallRecord>::empty(),
    {
        let base = default_context();
        ScriptEngine::assemble(base, module)
    }

    /// An engine whose scripts see what a context holds, and the given native
    /// module besides.
    pub fn assemble(
        base: Result<Context, ContextError>,
        module: Result<Module, ContextError>,
    ) -> (r: Result<ScriptEngine, ScriptError>)
        ensures
            assembles(base, module, made(r)),
            r matches Ok(engine) ==> engine.calls_made() == Seq::<CallRecord>::empty(),
    {
        let mut context = match base {
            Ok(context) => context,
            Err(e) => return Err(from_context_error(e)),
        };
        let module = match module {
            Ok(module) => module,
            Err(e) => return Err(from_context_error(e)),
        };
        match install_module(&mut context, module) {
            Ok(()) => {},
            Err(e) => return Err(from_context_error(e)),
        }
        let runtime = match runtime_of(&context) {
            Ok(runtime) => Arc::new(runtime),
            Err(e) => return Err(from_alloc_error(e)),
        };
        Ok(ScriptEngine { context, runtime, log: CallLog::new() })
    }

    /// Compiles a script that was read from a file: its text, or why it could
    /// not be read. The script goes by the name of its file.
    pub fn compile_path(&self, path: &PathBuf, text: Result<String, String>) -> (r: Result<
        CompiledScript,
        ScriptError,
    >)
        ensures
            path_outcome(self.context(), self.runtime(), *path, text, compiled(r)),
    {
        let shown = shown_path(path);
        let text = match text {
            Ok(text) => text,
            Err(reason) => return Err(unreadable(shown.as_str(), reason.as_str())),
        };
        let source = match file_source(shown.as_str(), text.as_str(), path) {
            Ok(source) => source,
            Err(e) => return Err(unreadable(shown.as_str(), alloc_error_text(&e).as_str())),
        };
        self.compile(name_of_path(stem_of_path(path), shown.as_str()), source)
    }

    /// Compiles a script from an in-memory string.
    pub fn compile_str(&self, name: &str, text: &str) -> (r: Result<CompiledScript, ScriptError>)
        ensures
            text_outcome(self.context(), self.runtime(), name@, text@, compiled(r)),
    {
        match memory_source(text) {
            Ok(source) => self.compile(name.to_owned(), source),
            Err(e) => Err(from_alloc_error(e)),
        }
    }

    fn compile(&self, name: String, source: Source) -> (r: Result<CompiledScript, ScriptError>)
        ensures
            compile_outcome(self.context(), self.runtime(), name@, source, compiled(r)),
    {
        let mut sources = match sole_source(source) {
            Ok(sources) => sources,
            Err(e) => return Err(from_alloc_error(e)),
        };
        let ghost held = sources_held(sources);
        let (diagnostics, unit) = build_unit(&self.context, &mut sources);
        let reported = if has_error(&diagnostics) {
            Some(render_diagnostics(&diagnostics, &sources))
        } else {
            None
        };
        let built = match unit {
            Ok(unit) => Ok(unit),
            Err(e) => Err(build_error_text(&e)),
        };
        match build_outcome(reported, built) {
            Ok(unit) => Ok(
                CompiledScript {
                    name,
                    unit: Arc::new(unit),
                    runtime: self.runtime.clone(),
                    source: Ghost(held[0]),
                },
            ),
            Err(e) => Err(e),
        }
    }
}

impl CompiledScript {
    /// Whether the script defines a top-level function with this name.
    pub fn has_fn(&self, name: &str) -> (r: bool)
        ensures
            r == self@.defines(name@),
    {
        knows_function(&self.runtime, &self.unit, name)
    }

    /// Calls a top-level function, once. `MissingFn` if it isn't defined; what a
    /// function that is defined comes to is up to the script.
    pub fn call(&self, engine: &mut ScriptEngine, name: &str, args: Vec<CallArg>) -> (r: Result<
        Value,
        ScriptError,
    >)
        ensures
            call_outcome(self@, name@, arg_views(args@), called(r)),
            final(engine).context() == old(engine).context(),
            final(engine).runtime() == old(engine).runtime(),
            final(engine).calls_made() == old(engine).calls_made() + calls_for(
                self@,
                name@,
                arg_views(args@),
            ),
    {
        if !self.has_fn(name) {
            assert(engine.calls_made() =~= engine.calls_made() + Seq::empty());
            return Err(ScriptError::MissingFn(name.to_owned()));
        }
        let ghost earlier = engine.calls_made();
        let outcome = call_function(&mut engine.log, &self.runtime, &self.unit, name, args);
        assert(engine.calls_made() =~= earlier + calls_for(self@, name@, arg_views(args@)));
        match outcome {
            Ok(value) => Ok(value),
            Err(e) => Err(ScriptError::from(e)),
        }
    }

    /// The name of the script, as it is shown.
    pub fn to_string(&self) -> (r: String)
        ensures
            r@ == "CompiledScript("@ + self@.name + ")"@,
    {
        joined(joined("CompiledScript(", self.name.as_str()).as_str(), ")")
    }
}

/// A missing function is told apart from one that fails: a call comes to
/// `MissingFn` exactly where the script does not define the function, and any
/// other failure is the script's own.
pub proof fn missing_functions_are_distinguished(
    script: ScriptView,
    name: Seq<char>,
    args: Seq<ArgView>,
    outcome: Result<Value, ErrorView>,
)
    requires
        call_outcome(script, name, args, outcome),
    ensures
        script.defines(name) <==> outcome != Err::<Value, ErrorView>(ErrorView::MissingFn(name)),
        script.defines(name) ==> (outcome matches Err(e) ==> e is Vm),
{
}

/// What keeps a source from compiling is a compile error.
pub proof fn compile_failures_are_compile_errors(
    context: Context,
    runtime: RuntimeContext,
    name: Seq<char>,
    source: Source,
    outcome: Result<ScriptView, ErrorView>,
)
    requires
        compile_outcome(context, runtime, name, source, outcome),
    ensures
        outcome matches Err(e) ==> e is Compile,
{
}

/// A script that is read from a file is compiled from the same text as one that
/// is given in memory, against the same context, and goes by the name of its
/// file; both run against the same things. Where it does not compile, that is a
/// compile error both times; only a file can also fail as one that cannot be
/// read.
pub proof fn files_are_compiled_as_their_text(
    context: Context,
    runtime: RuntimeContext,
    path: PathBuf,
    text: String,
    stem: Seq<char>,
    from_file: Result<ScriptView, ErrorView>,
    from_text: Result<ScriptView, ErrorView>,
)
    requires
        path_stem(path) == Some(stem),
        path_outcome(context, runtime, path, Ok(text), from_file),
        text_outcome(context, runtime, stem, text@, from_text),
    ensures
        from_file matches Ok(script) ==> {
            &&& script.name == stem
            &&& source_text(script.source) == text@
            &&& script.runtime == runtime
            &&& exists|diagnostics: Diagnostics, after: Sources| #[trigger]
                builds(context, seq![script.source], diagnostics, Ok(script.unit), after)
                    && !reports_error(diagnostics)
        },
        from_text matches Ok(script) ==> {
            &&& script.name == stem
            &&& source_text(script.source) == text@
            &&& script.runtime == runtime
            &&& exists|diagnostics: Diagnostics, after: Sources| #[trigger]
                builds(context, seq![script.source], diagnostics, Ok(script.unit), after)
                    && !reports_error(diagnostics)
        },
        from_file matches Err(e) ==> e is Compile || e is Io && e->Io_0 is NotFound,
        from_text matches Err(e) ==> e is Compile,
{
}

/// What a call comes to is what the script's function comes to: its value, or
/// its error as a script error. A function that the script does not define is
/// not called.
pub proof fn calls_come_to_what_scripts_do(
    script: ScriptView,
    name: Seq<char>,
    args: Seq<ArgView>,
    outcome: Result<Value, ErrorView>,
)
    requires
        call_outcome(script, name, args, outcome),
    ensures
        known_functions(script.runtime, script.unit).contains(name) ==> match outcome {
            Ok(value) => calls(script.runtime, script.unit, name, args, Ok(value)),
            Err(e) => exists|cause: VmError| #[trigger]
                calls(script.runtime, script.unit, name, args, Err(cause)) && e == ErrorView::Vm(
                    vm_error_shown(cause),
                ),
        },
        !known_functions(script.runtime, script.unit).contains(name) ==> outcome == Err::<
            Value,
            ErrorView,
        >(ErrorView::MissingFn(name)),
{
}

/// Calling a function calls it once, with the arguments given, where the script
/// defines it, and else calls nothing.
pub proof fn calls_are_made_once(script: ScriptView, name: Seq<char>, args: Seq<ArgView>)
    ensures
        known_functions(script.runtime, script.unit).contains(name) ==> calls_for(
            script,
            name,
            args,
        ) == seq![
            CallRecord { runtime: script.runtime, unit: script.unit, name, args },
        ],
        !known_functions(script.runtime, script.unit).contains(name) ==> calls_for(
            script,
            name,
            args,
        ).len() == 0,
{
}

/// Outcomes are seen with their value or their error.
pub proof fn outcomes_are_seen_as_they_are(
    value: Value,
    script: CompiledScript,
    engine: ScriptEngine,
    e: ScriptError,
)
    ensures
        called(Ok(value)) == Ok::<Value, ErrorView>(value),
        called(Err(e)) == Err::<Value, ErrorView>(e@),
        compiled(Ok(script)) == Ok::<ScriptView, ErrorView>(script@),
        compiled(Err(e)) == Err::<ScriptView, ErrorView>(e@),
        made(Ok(engine)) == Ok::<(Context, RuntimeContext), ErrorView>(
            (engine.context(), engine.runtime()),
        ),
        made(Err(e)) == Err::<(Context, RuntimeContext), ErrorView>(e@),
{
}

/// A script is compiled where a build of its source, and of nothing else,
/// comes to a unit and the diagnostics report no error; warnings alone do not
/// stand in the way. Where the diagnostics report an error, the error holds
/// them as they are rendered, and else what the build itself says.
pub proof fn compiling_is_building(
    context: Context,
    runtime: RuntimeContext,
    name: Seq<char>,
    source: Source,
    outcome: Result<ScriptView, ErrorView>,
)
    requires
        compile_outcome(context, runtime, name, source, outcome),
    ensures
        match outcome {
            Ok(script) => {
                &&& script.name == name
                &&& script.source == source
                &&& script.runtime == runtime
                &&& exists|diagnostics: Diagnostics, after: Sources| #[trigger]
                    builds(context, seq![source], diagnostics, Ok(script.unit), after)
                        && !reports_error(diagnostics)
            },
            Err(e) => {
                ||| exists|cause: rune::alloc::Error|
                    e == ErrorView::Compile(#[trigger] alloc_error_shown(cause))
                ||| exists|
                    diagnostics: Diagnostics,
                    built: Result<Unit, BuildError>,
                    after: Sources,
                    bytes: Option<Seq<u8>>,
                |
                    {
                        &&& #[trigger] builds(context, seq![source], diagnostics, built, after)
                        &&& reports_error(diagnostics)
                        &&& #[trigger] renders(diagnostics, after, bytes)
                        &&& e == ErrorView::Compile(
                            match bytes {
                                Some(bytes) => lossy_text(bytes),
                                None => "unknown compile error"@,
                            },
                        )
                    }
                ||| exists|diagnostics: Diagnostics, cause: BuildError, after: Sources|
                    {
                        &&& #[trigger] builds(
                            context,
                            seq![source],
                            diagnostics,
                            Err(cause),
                            after,
                        )
                        &&& !reports_error(diagnostics)
                        &&& e == ErrorView::Compile(build_error_shown(cause))
                    }
            },
        },
{
    if let Err(e) = outcome {
        if !out_of_memory(e) {
            let (diagnostics, built, after) = choose|
                diagnostics: Diagnostics,
                built: Result<Unit, BuildError>,
                after: Sources,
            |
                {
                    &&& #[trigger] builds(context, seq![source], diagnostics, built, after)
                    &&& build_comes_to(diagnostics, built, after, Err(e))
                };
            if reports_error(diagnostics) {
                let bytes = choose|bytes: Option<Seq<u8>>| #[trigger]
                    renders(diagnostics, after, bytes) && Err::<Unit, ErrorView>(e) == Err::<
                        Unit,
                        ErrorView,
                    >(ErrorView::Compile(rendered_text(bytes)));
                assert(renders(diagnostics, after, bytes));
            } else {
                assert(builds(
                    context,
                    seq![source],
                    diagnostics,
                    Err(built->Err_0),
                    after,
                ));
            }
        }
    }
}

/// A text in memory is compiled as a source that holds this text, has no path
/// and goes by `<memory>` in diagnostics.
pub proof fn texts_are_compiled_from_memory(
    context: Context,
    runtime: RuntimeContext,
    name: Seq<char>,
    text: Seq<char>,
    outcome: Result<ScriptView, ErrorView>,
)
    requires
        text_outcome(context, runtime, name, text, outcome),
    ensures
        (outcome matches Err(e) && exists|cause: rune::alloc::Error|
            e == ErrorView::Compile(#[trigger] alloc_error_shown(cause))) || exists|source: Source|
            {
                &&& source_name(source) == "<memory>"@
                &&& source_text(source) == text
                &&& source_path(source) is None
                &&& #[trigger] compile_outcome(context, runtime, name, source, outcome)
            },
        outcome matches Ok(script) ==> script.name == name && source_text(script.source) == text,
{
}

/// A file is compiled as a source that holds the file's text and goes by its
/// path, and the script goes by the file's stem, or by the path where it has
/// none. A file that could not be read is a missing one, with its path and the
/// reason.
pub proof fn files_are_compiled_from_their_path(
    context: Context,
    runtime: RuntimeContext,
    path: PathBuf,
    text: Result<String, String>,
    outcome: Result<ScriptView, ErrorView>,
)
    requires
        path_outcome(context, runtime, path, text, outcome),
    ensures
        text matches Err(reason) ==> outcome == Err::<ScriptView, ErrorView>(
            ErrorView::Io(IoErrorKind::NotFound, path_shown(path) + ": "@ + reason@),
        ),
        text matches Ok(text) ==> {
            ||| exists|cause: rune::alloc::Error|
                outcome == Err::<ScriptView, ErrorView>(
                    ErrorView::Io(
                        IoErrorKind::NotFound,
                        path_shown(path) + ": "@ + #[trigger] alloc_error_shown(cause),
                    ),
                )
            ||| exists|source: Source, name: Seq<char>|
                {
                    &&& source_name(source) == path_shown(path)
                    &&& source_text(source) == text@
                    &&& source_path(source) == Some(path)
                    &&& path_stem(path) matches Some(stem) ==> name == stem
                    &&& path_stem(path) is None ==> name == path_shown(path)
                    &&& #[trigger] compile_outcome(context, runtime, name, source, outcome)
                }
        },
        text is Ok && outcome is Ok ==> {
            &&& source_text(outcome->Ok_0.source) == text->Ok_0@
            &&& path_stem(path) matches Some(stem) ==> outcome->Ok_0.name == stem
            &&& path_stem(path) is None ==> outcome->Ok_0.name == path_shown(path)
        },
{
    if let Ok(text) = text {
        if exists|source: Source|
            {
                &&& source_name(source) == path_shown(path)
                &&& source_text(source) == text@
                &&& source_path(source) == Some(path)
                &&& #[trigger] compile_outcome(
                    context,
                    runtime,
                    script_name(path_stem(path), path_shown(path)),
                    source,
                    outcome,
                )
            } {
            let name = script_name(path_stem(path), path_shown(path));
            let source = choose|source: Source|
                {
                    &&& source_name(source) == path_shown(path)
                    &&& source_text(source) == text@
                    &&& source_path(source) == Some(path)
                    &&& #[trigger] compile_outcome(context, runtime, name, source, outcome)
                };
            assert(compile_outcome(context, runtime, name, source, outcome));
        }
    }
}

/// An engine is made of the language's own modules with the native module
/// installed, and scripts run against what that context gives. The first thing
/// that cannot be had is what is told of.
pub proof fn engines_hold_the_module(
    base: Result<Context, ContextError>,
    module: Result<Module, ContextError>,
    outcome: Result<(Context, RuntimeContext), ErrorView>,
)
    requires
        assembles(base, module, outcome),
    ensures
        base matches Err(cause) ==> outcome == Err::<(Context, RuntimeContext), ErrorView>(
            ErrorView::Compile(context_error_shown(cause)),
        ),
        base is Ok ==> (module matches Err(cause) ==> outcome == Err::<
            (Context, RuntimeContext),
            ErrorView,
        >(ErrorView::Compile(context_error_shown(cause)))),
        outcome is Ok ==> {
            &&& base is Ok
            &&& module is Ok
            &&& installs(base->Ok_0, module->Ok_0, None, outcome->Ok_0.0)
            &&& outcome->Ok_0.1 == context_runtime(outcome->Ok_0.0)
        },
        base is Ok && module is Ok && outcome is Err ==> {
            ||| exists|cause: rune::alloc::Error|
                outcome->Err_0 == ErrorView::Compile(#[trigger] alloc_error_shown(cause))
            ||| exists|cause: ContextError, after: Context| #[trigger]
                installs(base->Ok_0, module->Ok_0, Some(cause), after) && outcome->Err_0
                    == ErrorView::Compile(context_error_shown(cause))
        },
{
}

/// A new engine starts from the language's own modules.
pub proof fn engines_start_from_the_default_modules(
    module: Result<Module, ContextError>,
    outcome: Result<(Context, RuntimeContext), ErrorView>,
)
    requires
        makes_engine(module, outcome),
    ensures
        exists|base: Result<Context, ContextError>| #[trigger]
            assembles(base, module, outcome) && (base matches Ok(context)
                ==> has_default_modules(context)),
{
}

/// A script defines the functions that its unit is known to have, in what it
/// runs against.
pub proof fn scripts_define_what_they_know(script: ScriptView, name: Seq<char>)
    ensures
        script.defines(name) <==> known_functions(script.runtime, script.unit).contains(name),
{
}

/// A script goes by the stem of its file, and where there is none by its path as
/// it is shown.
pub proof fn scripts_go_by_their_stem(stem: Seq<char>, shown: Seq<char>)
    ensures
        script_name(Some(stem), shown) == stem,
        script_name(None, shown) == shown,
{
}

/// Diagnostics that could be rendered say what the bytes do; those that could
/// not are an unknown error.
pub proof fn diagnostics_say_what_was_rendered(bytes: Seq<u8>)
    ensures
        rendered_text(Some(bytes)) == lossy_text(bytes),
        rendered_text(None) == "unknown compile error"@,
{
}

/// A file that cannot be read is told of with its path and the reason.
pub proof fn unreadable_files_are_named(path: Seq<char>, reason: Seq<char>)
    ensures
        unreadable_error(path, reason) == ErrorView::Io(
            IoErrorKind::NotFound,
            path + ": "@ + reason,
        ),
{
}

} // verus!
