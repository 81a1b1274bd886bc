//! The context object passed to every plugin hook as `rx`.

use crate::session::{mode_name, MessageType, Selection, Session, SessionView, ViewData};
use crate::settings::{same_type, SettingValue, SettingView};
use crate::value::{ScriptValue, ScriptValueView};
use crate::vm::{bool_in, int_in, is_unit, makes_pair, makes_text, reads_text};
use crate::vm::{
    bool_of, bool_value, int_of, int_value, pair_value, text_of, text_value, unit_value,
};
use rune::runtime::VmError;
use rune::Value;
use vstd::prelude::*;
use vstd::string::*;

verus! {

/// The context object passed to every plugin hook as `rx`. It borrows the
/// session for the duration of a single hook call.
pub struct Ctx<'a> {
    pub session: &'a mut Session,
}

impl<'a> View for Ctx<'a> {
    type V = SessionView;

    open spec fn view(&self) -> SessionView {
        self.session@
    }
}

/// An immutable snapshot of a view, handed to scripts. The offset and the zoom
/// are single-precision values, held by their bits.
#[derive(Clone, Copy, Debug, PartialEq, Eq, Structural)]
pub struct ViewInfo {
    pub id: i64,
    pub width: i64,
    pub height: i64,
    pub offset_x: u32,
    pub offset_y: u32,
    pub zoom: u32,
}

/// The snapshot of a view.
pub open spec fn snapshot(view: ViewData) -> ViewInfo {
    ViewInfo {
        id: view.id.0 as i64,
        width: view.width as i64,
        height: view.height as i64,
        offset_x: view.offset_x,
        offset_y: view.offset_y,
        zoom: view.zoom,
    }
}

/// How a script sees the value of a setting.
pub open spec fn shown(value: SettingView) -> ScriptValueView {
    match value {
        SettingView::Bool(b) => ScriptValueView::Bool(b),
        SettingView::U32(n) => ScriptValueView::Int(n as i64),
        SettingView::U32Tuple(a, b) => ScriptValueView::IntPair(a as i64, b as i64),
        SettingView::F32Tuple(a, b) => ScriptValueView::FloatPair(a, b),
        SettingView::F64(f) => ScriptValueView::Float(f),
        SettingView::Str(s) => ScriptValueView::Text(s),
        SettingView::Ident(s) => ScriptValueView::Text(s),
        SettingView::Rgba8(s) => ScriptValueView::Text(s),
    }
}

/// The value that a script's value becomes in a setting of the type of
/// `current`, where it can become one.
pub open spec fn accepted(current: SettingView, value: ScriptValueView) -> Option<SettingView> {
    match (current, value) {
        (SettingView::Bool(_), ScriptValueView::Bool(b)) => Some(SettingView::Bool(b)),
        (SettingView::U32(_), ScriptValueView::Int(n)) => Some(SettingView::U32(n as u32)),
        (SettingView::F64(_), ScriptValueView::Float(f)) => Some(SettingView::F64(f)),
        (SettingView::Str(_), ScriptValueView::Text(s)) => Some(SettingView::Str(s)),
        (SettingView::Ident(_), ScriptValueView::Text(s)) => Some(SettingView::Ident(s)),
        _ => None,
    }
}

/// The value that setting a setting from a script stores, if it stores one.
pub open spec fn stored(
    settings: Map<Seq<char>, SettingView>,
    name: Seq<char>,
    value: ScriptValueView,
) -> Option<SettingView> {
    if settings.contains_key(name) {
        accepted(settings[name], value)
    } else {
        None
    }
}

/// What setting a setting makes of the session, and whether it is applied.
pub open spec fn sets(
    session: SessionView,
    name: Seq<char>,
    value: ScriptValueView,
    applied: bool,
    after: SessionView,
) -> bool {
    match stored(session.settings, name, value) {
        Some(v) => {
            &&& applied
            &&& after == SessionView { settings: session.settings.insert(name, v), ..session }
        },
        None => !applied && after == session,
    }
}

/// What a script value may read as, by the setting that it is for. `float` is
/// what the value is, by its bits, where it is a floating-point value. A value
/// that is not of the setting's type reads as `Other`, and so does any value
/// for a setting that does not exist, or that scripts cannot set.
pub open spec fn reads_for(
    settings: Map<Seq<char>, SettingView>,
    name: Seq<char>,
    value: Value,
    float: Option<u64>,
    read: ScriptValueView,
) -> bool {
    if settings.contains_key(name) {
        match settings[name] {
            SettingView::Bool(_) => read == match bool_in(value) {
                Some(b) => ScriptValueView::Bool(b),
                None => ScriptValueView::Other,
            },
            SettingView::U32(_) => read == match int_in(value) {
                Some(n) => ScriptValueView::Int(n),
                None => ScriptValueView::Other,
            },
            SettingView::F64(_) => read == match float {
                Some(f) => ScriptValueView::Float(f),
                None => ScriptValueView::Other,
            },
            SettingView::Str(_) | SettingView::Ident(_) => exists|text: Option<Seq<char>>|
                {
                    &&& #[trigger] reads_text(value, text)
                    &&& bool_in(value) is Some || int_in(value) is Some ==> text is None
                    &&& read == match text {
                        Some(text) => ScriptValueView::Text(text),
                        None => ScriptValueView::Other,
                    }
                },
            _ => read is Other,
        }
    } else {
        read is Other
    }
}

impl<'a> Ctx<'a> {
    /// Constructs a context borrowing the session for one hook call. The
    /// session is what the context leaves of it.
    pub fn new(session: &'a mut Session) -> (r: Ctx<'a>)
        ensures
            *r.session == *old(session),
            r@ == old(session)@,
            *final(r.session) == *final(session),
    {
        Ctx { session }
    }

    /// Current mode, as a string (e.g. "normal", "visual", "command").
    pub fn mode(&self) -> (r: String)
        ensures
            r@ == mode_name(self@.mode),
    {
        self.session.mode.to_string()
    }

    /// Previous mode, if any.
    pub fn prev_mode(&self) -> (r: Option<String>)
        ensures
            match self@.prev_mode {
                Some(mode) => r is Some && r->Some_0@ == mode_name(mode),
                None => r is None,
            },
    {
        match &self.session.prev_mode {
            Some(mode) => Some(mode.to_string()),
            None => None,
        }
    }

    /// Posts a message to the message line.
    pub fn message(&mut self, msg: &str)
        ensures
            final(self)@ == old(self)@.with_message(msg@, MessageType::Echo),
            *final(final(self).session) == *final(old(self).session),
    {
        self.session.message(msg, MessageType::Echo);
    }

    /// Id of the active view.
    pub fn active_view_id(&self) -> (r: i64)
        ensures
            r == self@.active_id.0,
    {
        self.session.views.active_id.0 as i64
    }

    /// Snapshots of all views, in view order.
    pub fn views(&self) -> (r: Vec<ViewInfo>)
        ensures
            r@ == self@.views.map_values(|v: ViewData| snapshot(v)),
    {
        let mut infos: Vec<ViewInfo> = Vec::new();
        let mut i: usize = 0;
        while i < self.session.views.list.len()
            invariant
                i <= self.session.views.list.len(),
                infos@.len() == i,
                forall|j: int| 0 <= j < i ==> #[trigger] infos@[j] == snapshot(self@.views[j]),
            decreases self.session.views.list.len() - i,
        {
            let view = self.session.views.list[i];
            infos.push(
                ViewInfo {
                    id: view.id.0 as i64,
                    width: view.width as i64,
                    height: view.height as i64,
                    offset_x: view.offset_x,
                    offset_y: view.offset_y,
                    zoom: view.zoom,
                },
            );
            i = i + 1;
        }
        infos
    }

    /// A setting's value: bool, integer, float, string or a tuple, depending
    /// on the setting. Unit if the setting doesn't exist.
    pub fn setting(&self, name: &str) -> (r: ScriptValue)
        ensures
            r@ == if self@.settings.contains_key(name@) {
                shown(self@.settings[name@])
            } else {
                ScriptValueView::Unit
            },
    {
        match self.session.settings.get(name) {
            None => ScriptValue::Unit,
            Some(SettingValue::Bool(b)) => ScriptValue::Bool(*b),
            Some(SettingValue::U32(n)) => ScriptValue::Int(*n as i64),
            Some(SettingValue::U32Tuple(a, b)) => ScriptValue::IntPair(*a as i64, *b as i64),
            Some(SettingValue::F32Tuple(a, b)) => ScriptValue::FloatPair(*a, *b),
            Some(SettingValue::F64(f)) => ScriptValue::Float(*f),
            Some(SettingValue::Str(s)) => ScriptValue::Text(s.clone()),
            Some(SettingValue::Ident(s)) => ScriptValue::Text(s.clone()),
            Some(SettingValue::Rgba8(s)) => ScriptValue::Text(s.clone()),
        }
    }

    /// Sets a setting to a plain value, which must match the setting's current
    /// type. Returns whether the set was applied.
    pub fn apply_setting(&mut self, name: &str, value: ScriptValue) -> (r: bool)
        ensures
            sets(old(self)@, name@, value@, r, final(self)@),
            *final(final(self).session) == *final(old(self).session),
    {
        let converted = match (self.session.settings.get(name), value) {
            (Some(SettingValue::Bool(_)), ScriptValue::Bool(b)) => Some(SettingValue::Bool(b)),
            (Some(SettingValue::U32(_)), ScriptValue::Int(n)) => Some(
                SettingValue::U32(
                    #[verifier::truncate]
                    (n as u32),
                ),
            ),
            (Some(SettingValue::F64(_)), ScriptValue::Float(f)) => Some(SettingValue::F64(f)),
            (Some(SettingValue::Str(_)), ScriptValue::Text(s)) => Some(SettingValue::Str(s)),
            (Some(SettingValue::Ident(_)), ScriptValue::Text(s)) => Some(SettingValue::Ident(s)),
            _ => None,
        };
        match converted {
            Some(v) => self.session.settings.set(name, v),
            None => false,
        }
    }

    /// Reads a script value as a value for a setting, by the setting's type.
    pub fn read_setting(&self, name: &str, value: Value, float: Option<u64>) -> (r: ScriptValue)
        ensures
            reads_for(self@.settings, name@, value, float, r@),
    {
        match self.session.settings.get(name) {
            Some(SettingValue::Bool(_)) => match bool_of(value) {
                Some(b) => ScriptValue::Bool(b),
                None => ScriptValue::Other,
            },
            Some(SettingValue::U32(_)) => match int_of(value) {
                Some(n) => ScriptValue::Int(n),
                None => ScriptValue::Other,
            },
            Some(SettingValue::F64(_)) => match float {
                Some(f) => ScriptValue::Float(f),
                None => ScriptValue::Other,
            },
            Some(SettingValue::Str(_)) | Some(SettingValue::Ident(_)) => match text_of(value) {
                Some(s) => ScriptValue::Text(s),
                None => ScriptValue::Other,
            },
            _ => ScriptValue::Other,
        }
    }

    /// Sets a setting. The value must match the setting's current type.
    /// `float` is what the value is, by its bits, where it is a floating-point
    /// value. Returns whether the set was applied.
    pub fn set_setting(&mut self, name: &str, value: Value, float: Option<u64>) -> (r: bool)
        ensures
            exists|read: ScriptValueView| #[trigger]
                reads_for(old(self)@.settings, name@, value, float, read) && sets(
                    old(self)@,
                    name@,
                    read,
                    r,
                    final(self)@,
                ),
            *final(final(self).session) == *final(old(self).session),
    {
        let read = self.read_setting(name, value, float);
        self.apply_setting(name, read)
    }

    /// The current selection bounds as `(x1, y1, x2, y2)`, if any.
    pub fn selection(&self) -> (r: Option<(i64, i64, i64, i64)>)
        ensures
            r == match self@.selection {
                Some(s) => Some(
                    (
                        s.spec_bounds().x1 as i64,
                        s.spec_bounds().y1 as i64,
                        s.spec_bounds().x2 as i64,
                        s.spec_bounds().y2 as i64,
                    ),
                ),
                None => None,
            },
    {
        match &self.session.selection {
            Some(s) => {
                let r = s.bounds();
                Some((r.x1 as i64, r.y1 as i64, r.x2 as i64, r.y2 as i64))
            },
            None => None,
        }
    }

    /// Replaces the selection with the given bounds, each cut down to 32 bits.
    pub fn set_selection(&mut self, x1: i64, y1: i64, x2: i64, y2: i64)
        ensures
            final(self)@ == (SessionView {
                selection: Some(
                    Selection {
                        from_x: x1 as i32,
                        from_y: y1 as i32,
                        to_x: x2 as i32,
                        to_y: y2 as i32,
                    },
                ),
                ..old(self)@
            }),
            *final(final(self).session) == *final(old(self).session),
    {
        self.session.selection = Some(
            Selection::new(
                #[verifier::truncate]
                (x1 as i32),
                #[verifier::truncate]
                (y1 as i32),
                #[verifier::truncate]
                (x2 as i32),
                #[verifier::truncate]
                (y2 as i32),
            ),
        );
    }

    /// Clears the selection.
    pub fn clear_selection(&mut self)
        ensures
            final(self)@ == (SessionView { selection: None, ..old(self)@ }),
            *final(final(self).session) == *final(old(self).session),
    {
        self.session.selection = None;
    }
}

/// The script value that a conversion came to; unit where it came to none.
pub fn value_or_unit(made: Result<Value, VmError>) -> (r: Value)
    ensures
        match made {
            Ok(value) => r == value,
            Err(_) => is_unit(r),
        },
{
    match made {
        Ok(value) => value,
        Err(_) => unit_value(),
    }
}

/// The script value that stands for a plain value; unit where it cannot be
/// made. Floating-point values, and values of another kind, are left to the
/// caller.
pub fn script_value(value: ScriptValue) -> (r: Option<Value>)
    ensures
        match (value@, r) {
            (ScriptValueView::Unit, Some(v)) => is_unit(v),
            (ScriptValueView::Bool(b), Some(v)) => bool_in(v) == Some(b) && int_in(v) is None,
            (ScriptValueView::Int(n), Some(v)) => int_in(v) == Some(n) && bool_in(v) is None,
            (ScriptValueView::IntPair(a, b), Some(v)) => {
                ||| makes_pair(a, b, Some(v))
                ||| makes_pair(a, b, None) && is_unit(v)
            },
            (ScriptValueView::Text(text), Some(v)) => {
                ||| makes_text(text, Some(v))
                ||| makes_text(text, None) && is_unit(v)
            },
            (_, Some(_)) => false,
            (_, None) => value@ is Float || value@ is FloatPair || value@ is Other,
        },
{
    let made = match value {
        ScriptValue::Unit => return Some(unit_value()),
        ScriptValue::Bool(b) => bool_value(b),
        ScriptValue::Int(n) => int_value(n),
        ScriptValue::IntPair(a, b) => pair_value(a, b),
        ScriptValue::Text(s) => text_value(s),
        _ => return None,
    };
    Some(value_or_unit(made))
}

/// A set that is applied is visible, and is the only change: the setting reads
/// as the value that was given, keeps its type, and no other setting changes.
/// An integer has to fit the setting's 32 bits for that.
pub proof fn set_setting_is_visible(
    settings: Map<Seq<char>, SettingView>,
    name: Seq<char>,
    value: ScriptValueView,
    other: Seq<char>,
)
    requires
        stored(settings, name, value) is Some,
        value matches ScriptValueView::Int(n) ==> 0 <= n <= u32::MAX,
    ensures
        ({
            let v = stored(settings, name, value)->Some_0;
            let after = settings.insert(name, v);
            &&& shown(after[name]) == value
            &&& same_type(after[name], settings[name])
            &&& other != name ==> after.contains_key(other) == settings.contains_key(other)
            &&& other != name && settings.contains_key(other) ==> after[other] == settings[other]
        }),
{
}

/// A set of an unknown setting, or of a value that is not of the setting's
/// type, is rejected; so is any set of a tuple or a color.
pub proof fn mismatched_set_is_rejected(
    settings: Map<Seq<char>, SettingView>,
    name: Seq<char>,
    value: ScriptValueView,
)
    ensures
        !settings.contains_key(name) ==> stored(settings, name, value) is None,
        settings.contains_key(name) ==> (stored(settings, name, value) is Some
            <==> match settings[name] {
            SettingView::Bool(_) => value is Bool,
            SettingView::U32(_) => value is Int,
            SettingView::F64(_) => value is Float,
            SettingView::Str(_) | SettingView::Ident(_) => value is Text,
            _ => false,
        }),
{
}

/// Whether a script's set is applied goes by the setting's type: the setting
/// exists, and the value is a truth value, an integer, a floating-point value
/// or a text, as the setting is. The setting keeps its type.
pub proof fn sets_go_by_type(
    settings: Map<Seq<char>, SettingView>,
    name: Seq<char>,
    value: Value,
    float: Option<u64>,
    read: ScriptValueView,
)
    requires
        reads_for(settings, name, value, float, read),
    ensures
        stored(settings, name, read) is Some <==> settings.contains_key(name)
            && match settings[name] {
            SettingView::Bool(_) => bool_in(value) is Some,
            SettingView::U32(_) => int_in(value) is Some,
            SettingView::F64(_) => float is Some,
            SettingView::Str(_) | SettingView::Ident(_) => read is Text,
            _ => false,
        },
        settings.contains_key(name) && (settings[name] is Str || settings[name] is Ident)
            ==> match read {
            ScriptValueView::Text(text) => reads_text(value, Some(text)),
            _ => reads_text(value, None),
        },
        stored(settings, name, read) matches Some(v) ==> same_type(v, settings[name]),
{
}

/// Bounds that are given within 32 bits come back as they were, or swapped
/// into order.
pub proof fn selection_round_trips(x1: i64, y1: i64, x2: i64, y2: i64)
    requires
        i32::MIN <= x1 <= i32::MAX,
        i32::MIN <= y1 <= i32::MAX,
        i32::MIN <= x2 <= i32::MAX,
        i32::MIN <= y2 <= i32::MAX,
    ensures
        ({
            let s = Selection {
                from_x: x1 as i32,
                from_y: y1 as i32,
                to_x: x2 as i32,
                to_y: y2 as i32,
            };
            let b = s.spec_bounds();
            &&& x1 <= x2 ==> b.x1 == x1 && b.x2 == x2
            &&& x2 <= x1 ==> b.x1 == x2 && b.x2 == x1
            &&& y1 <= y2 ==> b.y1 == y1 && b.y2 == y2
            &&& y2 <= y1 ==> b.y1 == y2 && b.y2 == y1
        }),
{
}

/// A snapshot tells of its view what the view is.
pub proof fn snapshots_tell_the_view(view: ViewData)
    ensures
        snapshot(view).id == view.id.0,
        snapshot(view).width == view.width,
        snapshot(view).height == view.height,
        snapshot(view).offset_x == view.offset_x,
        snapshot(view).offset_y == view.offset_y,
        snapshot(view).zoom == view.zoom,
{
}

/// Scripts see a setting's own value, whatever its type.
pub proof fn settings_show_their_value(b: bool, m: u32, n: u32, f: u64, text: Seq<char>)
    ensures
        shown(SettingView::Bool(b)) == ScriptValueView::Bool(b),
        shown(SettingView::U32(n)) is Int && shown(SettingView::U32(n))->Int_0 == n,
        shown(SettingView::U32Tuple(m, n)) is IntPair,
        shown(SettingView::U32Tuple(m, n))->IntPair_0 == m,
        shown(SettingView::U32Tuple(m, n))->IntPair_1 == n,
        shown(SettingView::F32Tuple(m, n)) == ScriptValueView::FloatPair(m, n),
        shown(SettingView::F64(f)) == ScriptValueView::Float(f),
        shown(SettingView::Str(text)) == ScriptValueView::Text(text),
        shown(SettingView::Ident(text)) == ScriptValueView::Text(text),
        shown(SettingView::Rgba8(text)) == ScriptValueView::Text(text),
{
}

/// Setting a setting is applied where the setting exists and the value is of
/// its type, and only there. It then holds that value, an integer being cut
/// down to 32 bits, and keeps its type, and nothing else of the session
/// changes; where it is not applied, nothing changes at all.
pub proof fn sets_change_one_setting(
    session: SessionView,
    name: Seq<char>,
    value: ScriptValueView,
    applied: bool,
    after: SessionView,
    other: Seq<char>,
)
    requires
        sets(session, name, value, applied, after),
    ensures
        applied <==> session.settings.contains_key(name) && {
            ||| session.settings[name] is Bool && value is Bool
            ||| session.settings[name] is U32 && value is Int
            ||| session.settings[name] is F64 && value is Float
            ||| session.settings[name] is Str && value is Text
            ||| session.settings[name] is Ident && value is Text
        },
        !applied ==> after == session,
        applied ==> {
            &&& after.settings.contains_key(name)
            &&& match session.settings[name] {
                SettingView::Bool(_) => after.settings[name] == SettingView::Bool(value->Bool_0),
                SettingView::U32(_) => after.settings[name] is U32 && (value->Int_0
                    - after.settings[name]->U32_0) % 0x1_0000_0000 == 0,
                SettingView::F64(_) => after.settings[name] == SettingView::F64(value->Float_0),
                SettingView::Str(_) => after.settings[name] == SettingView::Str(value->Text_0),
                _ => after.settings[name] == SettingView::Ident(value->Text_0),
            }
            &&& other != name ==> {
                &&& after.settings.contains_key(other) == session.settings.contains_key(other)
                &&& session.settings.contains_key(other) ==> after.settings[other]
                    == session.settings[other]
            }
        },
        after.mode == session.mode,
        after.prev_mode == session.prev_mode,
        after.message == session.message,
        after.views == session.views,
        after.active_id == session.active_id,
        after.next_id == session.next_id,
        after.selection == session.selection,
{
    if applied && session.settings[name] is U32 {
        let n = value->Int_0;
        assert((n - (n as u32)) % 0x1_0000_0000 == 0) by (bit_vector);
    }
}

/// A script value is read for a setting as what it is: a truth value, an
/// integer or a floating-point value as that, a string as the text that it
/// reads as. A value that is not of the setting's type is read as no value of
/// it.
pub proof fn values_are_read_by_type(
    settings: Map<Seq<char>, SettingView>,
    name: Seq<char>,
    value: Value,
    float: Option<u64>,
    read: ScriptValueView,
)
    requires
        reads_for(settings, name, value, float, read),
    ensures
        !settings.contains_key(name) ==> read is Other,
        settings.contains_key(name) && settings[name] is Bool ==> match bool_in(value) {
            Some(b) => read == ScriptValueView::Bool(b),
            None => read is Other,
        },
        settings.contains_key(name) && settings[name] is U32 ==> match int_in(value) {
            Some(n) => read == ScriptValueView::Int(n),
            None => read is Other,
        },
        settings.contains_key(name) && settings[name] is F64 ==> match float {
            Some(f) => read == ScriptValueView::Float(f),
            None => read is Other,
        },
        settings.contains_key(name) && (settings[name] is Str || settings[name] is Ident) ==> {
            ||| read is Text && reads_text(value, Some(read->Text_0))
            ||| read is Other && reads_text(value, None)
        },
        settings.contains_key(name) && (settings[name] is Str || settings[name] is Ident) && (
        bool_in(value) is Some || int_in(value) is Some) ==> read is Other,
        settings.contains_key(name) && (settings[name] is U32Tuple || settings[name] is F32Tuple
            || settings[name] is Rgba8) ==> read is Other,
{
}

} // verus!
