//! The script compiler and virtual machine that the library runs on.
//!
//! Everything here is taken on trust: the types are opaque, and each function
//! hands its arguments to the function that its comment names.

use crate::value::{arg_views, ArgView, CallArg};
use rune::diagnostics::EmitError;
use rune::runtime::{RuntimeContext, VmError};
use rune::{BuildError, Context, ContextError, Diagnostics, Module, Source, Sources, Unit, Value};
use std::path::PathBuf;
use std::sync::Arc;
use vstd::prelude::*;

verus! {

/// A value of the script language.
#[verifier::external_type_specification]
#[verifier::external_body]
pub struct ExValue(rune::Value);

/// An error of a running script.
#[verifier::external_type_specification]
#[verifier::external_body]
pub struct ExVmError(rune::runtime::VmError);

/// An error of setting up a compile context.
#[verifier::external_type_specification]
#[verifier::external_body]
pub struct ExContextError(rune::ContextError);

/// An allocation error.
#[verifier::external_type_specification]
#[verifier::external_body]
pub struct ExAllocError(rune::alloc::Error);

/// A failed build.
#[verifier::external_type_specification]
#[verifier::external_body]
pub struct ExBuildError(rune::BuildError);

/// A failure to render diagnostics.
#[verifier::external_type_specification]
#[verifier::external_body]
pub struct ExEmitError(rune::diagnostics::EmitError);

/// A module of native functions.
#[verifier::external_type_specification]
#[verifier::external_body]
pub struct ExModule(rune::Module);

/// What scripts are compiled against.
#[verifier::external_type_specification]
#[verifier::external_body]
pub struct ExContext(rune::Context);

/// What compiled scripts run against.
#[verifier::external_type_specification]
#[verifier::external_body]
pub struct ExRuntimeContext(rune::runtime::RuntimeContext);

/// A compiled script.
#[verifier::external_type_specification]
#[verifier::external_body]
#[verifier::reject_recursive_types(S)]
pub struct ExUnit<S>(rune::runtime::Unit<S>);

/// How a compiled script is stored.
#[verifier::external_type_specification]
#[verifier::external_body]
pub struct ExArrayUnit(rune::runtime::unit::ArrayUnit);

/// The text of a script, with its name.
#[verifier::external_type_specification]
#[verifier::external_body]
pub struct ExSource(rune::Source);

/// The texts of a build.
#[verifier::external_type_specification]
#[verifier::external_body]
pub struct ExSources(rune::Sources);

/// A path of the file system.
#[verifier::external_type_specification]
#[verifier::external_body]
pub struct ExPathBuf(std::path::PathBuf);

/// What a build had to say.
#[verifier::external_type_specification]
#[verifier::external_body]
pub struct ExDiagnostics(rune::Diagnostics);

/// Whether a context holds the language's own modules, and no others.
pub uninterp spec fn has_default_modules(context: Context) -> bool;

/// Whether installing a module into a context can come to this failure, or to
/// none, and leave the context like that.
pub uninterp spec fn installs(
    before: Context,
    module: Module,
    failure: Option<ContextError>,
    after: Context,
) -> bool;

/// What scripts that are compiled against a context run against.
pub uninterp spec fn context_runtime(context: Context) -> RuntimeContext;

/// Whether building sources against a context can come to these diagnostics
/// and this outcome, and leave the sources like that.
pub uninterp spec fn builds(
    context: Context,
    sources: Seq<Source>,
    diagnostics: Diagnostics,
    outcome: Result<Unit, BuildError>,
    after: Sources,
) -> bool;

/// Whether diagnostics hold an error.
pub uninterp spec fn reports_error(diagnostics: Diagnostics) -> bool;

/// Whether rendering diagnostics, beside the sources that they are of, can come
/// to these bytes, or can fail.
pub uninterp spec fn renders(
    diagnostics: Diagnostics,
    sources: Sources,
    outcome: Option<Seq<u8>>,
) -> bool;

/// Whether calling a top-level function of a compiled script with these
/// arguments can come to this outcome.
pub uninterp spec fn calls(
    runtime: RuntimeContext,
    unit: Unit,
    name: Seq<char>,
    args: Seq<ArgView>,
    outcome: Result<Value, VmError>,
) -> bool;

/// The text that shows a context error.
pub uninterp spec fn context_error_shown(e: ContextError) -> Seq<char>;

/// The text that shows an allocation error.
pub uninterp spec fn alloc_error_shown(e: rune::alloc::Error) -> Seq<char>;

/// The text that shows a build error.
pub uninterp spec fn build_error_shown(e: BuildError) -> Seq<char>;

/// The text that shows a script's runtime error.
pub uninterp spec fn vm_error_shown(e: VmError) -> Seq<char>;

/// The names under which a compiled script, together with what it runs
/// against, holds a top-level function.
pub uninterp spec fn known_functions(runtime: RuntimeContext, unit: Unit) -> Set<Seq<char>>;

/// A path as it is shown, with a replacement character wherever it is no text.
pub uninterp spec fn path_shown(path: PathBuf) -> Seq<char>;

/// The name of the file that a path leads to, without its last extension, as
/// it is shown.
pub uninterp spec fn path_stem(path: PathBuf) -> Option<Seq<char>>;

/// The name that a source goes by in diagnostics.
pub uninterp spec fn source_name(source: Source) -> Seq<char>;

/// The text of a source.
pub uninterp spec fn source_text(source: Source) -> Seq<char>;

/// The path that a source was read from, if it was read from one.
pub uninterp spec fn source_path(source: Source) -> Option<PathBuf>;

/// The sources that a collection holds.
pub uninterp spec fn sources_held(sources: Sources) -> Seq<Source>;

/// The truth value that a script value is, if it is one.
pub uninterp spec fn bool_in(value: Value) -> Option<bool>;

/// The integer that a script value is, if it is one.
pub uninterp spec fn int_in(value: Value) -> Option<i64>;

/// Whether a script value is the unit.
pub uninterp spec fn is_unit(value: Value) -> bool;

/// Whether making a tuple of these integers can come to this script value, or
/// can fail.
pub uninterp spec fn makes_pair(a: i64, b: i64, outcome: Option<Value>) -> bool;

/// Whether making a string of this text can come to this script value, or can
/// fail.
pub uninterp spec fn makes_text(text: Seq<char>, outcome: Option<Value>) -> bool;

/// Whether reading a script value as a text can come to this text, or can fail.
pub uninterp spec fn reads_text(value: Value, outcome: Option<Seq<char>>) -> bool;

/// The text that bytes stand for, with a replacement character wherever they
/// are no UTF-8.
pub uninterp spec fn lossy_text(bytes: Seq<u8>) -> Seq<char>;

/// `Context::with_default_modules`: a context with the language's own modules,
/// or why there is none. Whether there is one is not claimed.
#[verifier::external_body]
pub(crate) fn default_context() -> (r: Result<Context, ContextError>)
    ensures
        r matches Ok(context) ==> has_default_modules(context),
{
    Context::with_default_modules()
}

/// `Context::install`: adds a module to a context, or says why it does not
/// fit. The claim is that the outcome, and what becomes of the context, go by
/// the context and the module; which modules fit is not claimed.
#[verifier::external_body]
pub(crate) fn install_module(context: &mut Context, module: Module) -> (r: Result<
    (),
    ContextError,
>)
    ensures
        installs(*old(context), module, r.err(), *final(context)),
{
    context.install(module)
}

/// `Context::runtime`: what scripts compiled against a context run against. It
/// is a copy of parts of the context, and fails only for want of memory.
#[verifier::external_body]
pub(crate) fn runtime_of(context: &Context) -> (r: Result<RuntimeContext, rune::alloc::Error>)
    ensures
        r matches Ok(runtime) ==> runtime == context_runtime(*context),
{
    context.runtime()
}

/// `Path::to_string_lossy`: a path as it is shown.
#[verifier::external_body]
pub(crate) fn shown_path(path: &PathBuf) -> (r: String)
    ensures
        r@ == path_shown(*path),
{
    path.to_string_lossy().into_owned()
}

/// `Path::file_stem`: the name of the file that a path leads to, without its
/// last extension, as it is shown. What separates the parts of a path is the
/// platform's.
#[verifier::external_body]
pub(crate) fn stem_of_path(path: &PathBuf) -> (r: Option<String>)
    ensures
        match r {
            Some(stem) => path_stem(*path) == Some(stem@),
            None => path_stem(*path) is None,
        },
{
    Some(path.file_stem()?.to_string_lossy().into_owned())
}

/// `Source::memory`: a text without a file, which goes by the name `<memory>`.
/// It fails only for want of memory.
#[verifier::external_body]
pub(crate) fn memory_source(text: &str) -> (r: Result<Source, rune::alloc::Error>)
    ensures
        r matches Ok(source) ==> {
            &&& source_name(source) == "<memory>"@
            &&& source_text(source) == text@
            &&& source_path(source) is None
        },
{
    Source::memory(text)
}

/// `Source::with_path`: a text that was read from a file, under a name. It
/// fails only for want of memory.
#[verifier::external_body]
pub(crate) fn file_source(name: &str, text: &str, path: &PathBuf) -> (r: Result<
    Source,
    rune::alloc::Error,
>)
    ensures
        r matches Ok(source) ==> {
            &&& source_name(source) == name@
            &&& source_text(source) == text@
            &&& source_path(source) == Some(*path)
        },
{
    Source::with_path(name, text, path)
}

/// `Sources::insert`, on an empty collection: the sources of a build of one
/// script. It fails only for want of memory.
#[verifier::external_body]
pub(crate) fn sole_source(source: Source) -> (r: Result<Sources, rune::alloc::Error>)
    ensures
        r matches Ok(sources) ==> sources_held(sources) == seq![source],
{
    let mut sources = Sources::new();
    sources.insert(source)?;
    Ok(sources)
}

/// `Build::build`, with a context and diagnostics: what the build had to say,
/// and the compiled script. The claim is that both come of this context and
/// these sources. A build reads the files of the modules that the script
/// names, and the environment, so it is not claimed that the same sources come
/// to the same outcome again.
#[verifier::external_body]
pub(crate) fn build_unit(context: &Context, sources: &mut Sources) -> (r: (
    Diagnostics,
    Result<Unit, BuildError>,
))
    ensures
        builds(*context, sources_held(*old(sources)), r.0, r.1, *final(sources)),
{
    let mut diagnostics = Diagnostics::new();
    let unit = rune::prepare(sources)
        .with_context(context)
        .with_diagnostics(&mut diagnostics)
        .build();
    (diagnostics, unit)
}

/// `Diagnostics::has_error`: whether a build met an error, which the
/// diagnostics keep.
#[verifier::external_body]
pub(crate) fn has_error(diagnostics: &Diagnostics) -> (r: bool)
    ensures
        r == reports_error(*diagnostics),
{
    diagnostics.has_error()
}

/// `Diagnostics::emit`, into a buffer without color: the rendered diagnostics.
/// The claim is that the bytes, or the failure, come of rendering these
/// diagnostics beside these sources; when rendering fails is not claimed.
#[verifier::external_body]
pub(crate) fn rendered(diagnostics: &Diagnostics, sources: &Sources) -> (r: Result<
    Vec<u8>,
    EmitError,
>)
    ensures
        renders(
            *diagnostics,
            *sources,
            match r {
                Ok(bytes) => Some(bytes@),
                Err(_) => None,
            },
        ),
{
    let writer = rune::termcolor::BufferWriter::stderr(rune::termcolor::ColorChoice::Never);
    let mut buffer = writer.buffer();
    diagnostics.emit(&mut buffer, sources)?;
    Ok(buffer.into_inner())
}

/// `String::from_utf8_lossy`: the text that bytes stand for.
#[verifier::external_body]
pub(crate) fn text_of_bytes(bytes: &Vec<u8>) -> (r: String)
    ensures
        r@ == lossy_text(bytes@),
{
    String::from_utf8_lossy(bytes).into_owned()
}

/// `Vm::lookup_function`, on a machine made for the script: whether a function
/// of that name is known. The machine looks into the compiled script and then
/// into what it runs against, both of which stay as they are.
#[verifier::external_body]
pub(crate) fn knows_function(
    runtime: &Arc<RuntimeContext>,
    unit: &Arc<Unit>,
    name: &str,
) -> (r: bool)
    ensures
        r == known_functions(**runtime, **unit).contains(name@),
{
    rune::Vm::new(runtime.clone(), unit.clone()).lookup_function([name]).is_ok()
}

/// One call into a script: what was called, and with what.
pub struct CallRecord {
    pub runtime: RuntimeContext,
    pub unit: Unit,
    pub name: Seq<char>,
    pub args: Seq<ArgView>,
}

/// Every call into a script, in the order in which they were made. There is no
/// calling without it, and nothing else changes it.
pub struct CallLog {
    made: Ghost<Seq<CallRecord>>,
}

impl View for CallLog {
    type V = Seq<CallRecord>;

    closed spec fn view(&self) -> Seq<CallRecord> {
        self.made@
    }
}

impl CallLog {
    /// The log of one who has called nothing yet.
    pub(crate) fn new() -> (r: CallLog)
        ensures
            r@ == Seq::<CallRecord>::empty(),
    {
        CallLog { made: Ghost(Seq::empty()) }
    }
}

/// `Vm::call`, on a machine made for the script: calls a top-level function
/// and runs it to its end. The claim is that the outcome is one of calling that
/// function with those arguments, and that this is one call, which the log,
/// there for the proofs alone, takes note of. What a script returns, and what
/// it does to the values that it is handed, is its own affair: it is not
/// claimed that the same call comes to the same outcome again.
#[verifier::external_body]
pub(crate) fn call_function(
    _log: &mut CallLog,
    runtime: &Arc<RuntimeContext>,
    unit: &Arc<Unit>,
    name: &str,
    args: Vec<CallArg>,
) -> (r: Result<Value, VmError>)
    ensures
        calls(**runtime, **unit, name@, arg_views(args@), r),
        final(_log)@ == old(_log)@.push(
            CallRecord {
                runtime: **runtime,
                unit: **unit,
                name: name@,
                args: arg_views(args@),
            },
        ),
{
    let mut values: Vec<Value> = Vec::new();
    for arg in args {
        values.push(match arg {
            CallArg::Value(v) => v,
            CallArg::Int(n) => rune::to_value(n)?,
            CallArg::Text(s) => rune::to_value(s)?,
        });
    }
    rune::Vm::new(runtime.clone(), unit.clone()).call([name], values)
}

/// `Value::clone`: the same value once more. A clone shares what the value
/// refers to.
#[verifier::external_body]
pub(crate) fn same_value(value: &Value) -> (r: Value)
    ensures
        r == *value,
{
    value.clone()
}

/// `rune::to_value` of a truth value, which always succeeds: a value that is
/// that truth value, and no integer.
#[verifier::external_body]
pub(crate) fn bool_value(b: bool) -> (r: Result<Value, VmError>)
    ensures
        r is Ok,
        bool_in(r->Ok_0) == Some(b),
        int_in(r->Ok_0) is None,
{
    Ok(rune::to_value(b)?)
}

/// `rune::to_value` of an integer, which always succeeds: a value that is that
/// integer, and no truth value.
#[verifier::external_body]
pub(crate) fn int_value(n: i64) -> (r: Result<Value, VmError>)
    ensures
        r is Ok,
        int_in(r->Ok_0) == Some(n),
        bool_in(r->Ok_0) is None,
{
    Ok(rune::to_value(n)?)
}

/// `rune::to_value` of a pair of integers: a new tuple. Scripts may change it,
/// so the claim is only that the tuple, or the failure, comes of making one of
/// these integers.
#[verifier::external_body]
pub(crate) fn pair_value(a: i64, b: i64) -> (r: Result<Value, VmError>)
    ensures
        makes_pair(a, b, r.ok()),
{
    Ok(rune::to_value((a, b))?)
}

/// `rune::to_value` of a text: a new string. Scripts may change it, so the
/// claim is only that the string, or the failure, comes of making one of this
/// text.
#[verifier::external_body]
pub(crate) fn text_value(text: String) -> (r: Result<Value, VmError>)
    ensures
        makes_text(text@, r.ok()),
{
    Ok(rune::to_value(text)?)
}

/// `rune::to_value` of the unit, which always succeeds.
#[verifier::external_body]
pub(crate) fn unit_value() -> (r: Value)
    ensures
        is_unit(r),
{
    rune::to_value(()).expect("unit converts")
}

/// `rune::from_value` to a truth value: what the value is, if it is one. Truth
/// values do not change.
#[verifier::external_body]
pub(crate) fn bool_of(value: Value) -> (r: Option<bool>)
    ensures
        r == bool_in(value),
{
    rune::from_value(value).ok()
}

/// `rune::from_value` to an integer: what the value is, if it is one. Integers
/// do not change.
#[verifier::external_body]
pub(crate) fn int_of(value: Value) -> (r: Option<i64>)
    ensures
        r == int_in(value),
{
    rune::from_value(value).ok()
}

/// `rune::from_value` to a text: gives nothing of a truth value or an integer.
/// The claim is that the text, or the failure, comes of reading this value as
/// a text. Scripts may change strings, so it is not claimed that a string reads
/// as the text that it was made of.
#[verifier::external_body]
pub(crate) fn text_of(value: Value) -> (r: Option<String>)
    ensures
        reads_text(
            value,
            match r {
                Some(text) => Some(text@),
                None => None,
            },
        ),
        bool_in(value) is Some || int_in(value) is Some ==> r is None,
{
    rune::from_value(value).ok()
}

/// The `Display` text of a context error.
#[verifier::external_body]
pub(crate) fn context_error_text(e: &ContextError) -> (r: String)
    ensures
        r@ == context_error_shown(*e),
{
    e.to_string()
}

/// The `Display` text of an allocation error.
#[verifier::external_body]
pub(crate) fn alloc_error_text(e: &rune::alloc::Error) -> (r: String)
    ensures
        r@ == alloc_error_shown(*e),
{
    e.to_string()
}

/// The `Display` text of a build error.
#[verifier::external_body]
pub(crate) fn build_error_text(e: &BuildError) -> (r: String)
    ensures
        r@ == build_error_shown(*e),
{
    e.to_string()
}

/// The `Display` text of a script's runtime error.
#[verifier::external_body]
pub(crate) fn vm_error_text(e: &VmError) -> (r: String)
    ensures
        r@ == vm_error_shown(*e),
{
    e.to_string()
}

} // verus!
