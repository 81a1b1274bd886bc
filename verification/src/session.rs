//! The editing session, as far as scripts see it.

use crate::settings::{SettingView, Settings};
use vstd::prelude::*;
use vstd::string::*;

verus! {

/// The mode of a session.
#[derive(Clone, Copy, Debug, PartialEq, Eq, Structural)]
pub enum Mode {
    Normal,
    Visual,
    Command,
    Present,
    Help,
}

/// The name of a mode.
pub open spec fn mode_name(mode: Mode) -> Seq<char> {
    match mode {
        Mode::Normal => "normal"@,
        Mode::Visual => "visual"@,
        Mode::Command => "command"@,
        Mode::Present => "present"@,
        Mode::Help => "help"@,
    }
}

/// Modes go by names of their own.
pub proof fn mode_names_differ(a: Mode, b: Mode)
    ensures
        mode_name(a) == mode_name(b) ==> a == b,
{
    reveal_strlit("normal");
    reveal_strlit("visual");
    reveal_strlit("command");
    reveal_strlit("present");
    reveal_strlit("help");
    assert(mode_name(a)[0] != mode_name(b)[0] || a == b);
}

impl Mode {
    /// The name of the mode.
    pub fn to_string(&self) -> (r: String)
        ensures
            r@ == mode_name(*self),
    {
        match self {
            Mode::Normal => "normal".to_owned(),
            Mode::Visual => "visual".to_owned(),
            Mode::Command => "command".to_owned(),
            Mode::Present => "present".to_owned(),
            Mode::Help => "help".to_owned(),
        }
    }
}

/// The kind of a message.
#[derive(Clone, Copy, Debug, PartialEq, Eq, Structural)]
pub enum MessageType {
    Info,
    Echo,
    Error,
    Execution,
}

/// What the message line shows.
#[derive(Clone, Debug)]
pub struct Message {
    pub text: String,
    pub message_type: MessageType,
}

/// A message as a mathematical value.
pub struct MessageView {
    pub text: Seq<char>,
    pub message_type: MessageType,
}

impl View for Message {
    type V = MessageView;

    open spec fn view(&self) -> MessageView {
        MessageView { text: self.text@, message_type: self.message_type }
    }
}

impl Message {
    /// The message's text.
    pub fn to_string(&self) -> (r: String)
        ensures
            r@ == self@.text,
    {
        self.text.clone()
    }
}

/// The identity of a view.
#[derive(Clone, Copy, Debug, PartialEq, Eq, Structural)]
pub struct ViewId(pub u16);

/// A view of the session. Its offset and zoom are single-precision values,
/// held by their bits.
#[derive(Clone, Copy, Debug, PartialEq, Eq, Structural)]
pub struct ViewData {
    pub id: ViewId,
    pub width: u32,
    pub height: u32,
    pub offset_x: u32,
    pub offset_y: u32,
    pub zoom: u32,
}

/// The bits of the single-precision zero.
pub const ZERO_BITS: u32 = 0;

/// The bits of the single-precision one.
pub const ONE_BITS: u32 = 0x3F80_0000;

/// The views of a session, in view order.
#[derive(Debug)]
pub struct Views {
    pub list: Vec<ViewData>,
    pub active_id: ViewId,
    pub next_id: u16,
}

/// An effect of the session on what surrounds it.
#[derive(Clone, Copy, Debug, PartialEq, Eq, Structural)]
pub enum Effect {
    ViewActivated(ViewId),
    ViewAdded(ViewId),
    ViewRemoved(ViewId),
    ViewDamaged(ViewId),
}

/// The bounds of a selection, from its lower to its upper corner.
#[derive(Clone, Copy, Debug, PartialEq, Eq, Structural)]
pub struct Bounds {
    pub x1: i32,
    pub y1: i32,
    pub x2: i32,
    pub y2: i32,
}

/// A selection: two opposite corners, in the order in which they were drawn.
#[derive(Clone, Copy, Debug, PartialEq, Eq, Structural)]
pub struct Selection {
    pub from_x: i32,
    pub from_y: i32,
    pub to_x: i32,
    pub to_y: i32,
}

/// The lesser of two coordinates.
pub open spec fn lesser(a: i32, b: i32) -> i32 {
    if a <= b {
        a
    } else {
        b
    }
}

/// The greater of two coordinates.
pub open spec fn greater(a: i32, b: i32) -> i32 {
    if a <= b {
        b
    } else {
        a
    }
}

impl Selection {
    /// A selection between two corners.
    pub fn new(x1: i32, y1: i32, x2: i32, y2: i32) -> (r: Selection)
        ensures
            r == (Selection { from_x: x1, from_y: y1, to_x: x2, to_y: y2 }),
    {
        Selection { from_x: x1, from_y: y1, to_x: x2, to_y: y2 }
    }

    /// The bounds, whatever way the selection was drawn.
    pub open spec fn spec_bounds(self) -> Bounds {
        Bounds {
            x1: lesser(self.from_x, self.to_x),
            y1: lesser(self.from_y, self.to_y),
            x2: greater(self.from_x, self.to_x),
            y2: greater(self.from_y, self.to_y),
        }
    }

    /// The bounds, whatever way the selection was drawn.
    pub fn bounds(&self) -> (r: Bounds)
        ensures
            r == self.spec_bounds(),
    {
        let (x1, x2) = if self.from_x <= self.to_x {
            (self.from_x, self.to_x)
        } else {
            (self.to_x, self.from_x)
        };
        let (y1, y2) = if self.from_y <= self.to_y {
            (self.from_y, self.to_y)
        } else {
            (self.to_y, self.from_y)
        };
        Bounds { x1, y1, x2, y2 }
    }
}

/// The editing session, as far as scripts see it.
#[derive(Debug)]
pub struct Session {
    pub mode: Mode,
    pub prev_mode: Option<Mode>,
    pub message: Message,
    pub views: Views,
    pub settings: Settings,
    pub selection: Option<Selection>,
}

/// A session as a mathematical value.
#[verifier::ext_equal]
pub struct SessionView {
    pub mode: Mode,
    pub prev_mode: Option<Mode>,
    pub message: MessageView,
    pub views: Seq<ViewData>,
    pub active_id: ViewId,
    pub next_id: u16,
    pub settings: Map<Seq<char>, SettingView>,
    pub selection: Option<Selection>,
}

impl View for Session {
    type V = SessionView;

    open spec fn view(&self) -> SessionView {
        SessionView {
            mode: self.mode,
            prev_mode: self.prev_mode,
            message: self.message@,
            views: self.views.list@,
            active_id: self.views.active_id,
            next_id: self.views.next_id,
            settings: self.settings@,
            selection: self.selection,
        }
    }
}

impl SessionView {
    /// The session with a message on its message line.
    pub open spec fn with_message(self, text: Seq<char>, message_type: MessageType) -> SessionView {
        SessionView { message: MessageView { text, message_type }, ..self }
    }

    /// The session in a mode. A session that comes back to normal mode has
    /// no selection; one that is in the mode already is left as it is.
    pub open spec fn in_mode(self, mode: Mode) -> SessionView {
        if mode == self.mode {
            self
        } else {
            SessionView {
                mode,
                prev_mode: Some(self.mode),
                selection: if mode is Normal {
                    None
                } else {
                    self.selection
                },
                ..self
            }
        }
    }

    /// The session with one more view, which is active.
    pub open spec fn with_view(self, width: u32, height: u32) -> SessionView {
        let id = ViewId(self.next_id);
        SessionView {
            views: self.views.push(
                ViewData {
                    id,
                    width,
                    height,
                    offset_x: ZERO_BITS,
                    offset_y: ZERO_BITS,
                    zoom: ONE_BITS,
                },
            ),
            active_id: id,
            next_id: (self.next_id + 1) as u16,
            ..self
        }
    }
}

impl Session {
    /// A session in normal mode, without views, selection or message.
    pub fn new(settings: Settings) -> (r: Session)
        ensures
            r@ == (SessionView {
                mode: Mode::Normal,
                prev_mode: None,
                message: MessageView { text: Seq::empty(), message_type: MessageType::Info },
                views: Seq::empty(),
                active_id: ViewId(0),
                next_id: 1,
                settings: settings@,
                selection: None,
            }),
    {
        Session {
            mode: Mode::Normal,
            prev_mode: None,
            message: Message { text: String::new(), message_type: MessageType::Info },
            views: Views { list: Vec::new(), active_id: ViewId(0), next_id: 1 },
            settings,
            selection: None,
        }
    }

    /// The session with a blank view added, which becomes the active one.
    pub fn with_blank(self, width: u32, height: u32) -> (r: Session)
        requires
            self@.next_id < u16::MAX,
        ensures
            r@ == self@.with_view(width, height),
    {
        let mut session = self;
        let id = ViewId(session.views.next_id);
        session.views.list.push(
            ViewData {
                id,
                width,
                height,
                offset_x: ZERO_BITS,
                offset_y: ZERO_BITS,
                zoom: ONE_BITS,
            },
        );
        session.views.active_id = id;
        session.views.next_id = session.views.next_id + 1;
        session
    }

    /// Posts a message to the message line.
    pub fn message(&mut self, text: &str, message_type: MessageType)
        ensures
            final(self)@ == old(self)@.with_message(text@, message_type),
    {
        self.message = Message { text: text.to_owned(), message_type };
    }

    /// Switches to a mode. Leaving for normal mode clears the selection.
    pub fn switch_mode(&mut self, mode: Mode)
        ensures
            final(self)@ == old(self)@.in_mode(mode),
    {
        if mode != self.mode {
            self.prev_mode = Some(self.mode);
            self.mode = mode;
            if mode == Mode::Normal {
                self.selection = None;
            }
        }
    }
}

/// Selection bounds are normalized, whatever way the selection was drawn: they
/// go from the lower to the upper corner, each side is one of the coordinates
/// given, and drawing it the other way makes no difference.
pub proof fn selection_bounds_are_normalized(s: Selection)
    ensures
        s.spec_bounds().x1 <= s.spec_bounds().x2,
        s.spec_bounds().y1 <= s.spec_bounds().y2,
        s.spec_bounds() == (Selection {
            from_x: s.to_x,
            from_y: s.from_y,
            to_x: s.from_x,
            to_y: s.to_y,
        }).spec_bounds(),
        s.spec_bounds() == (Selection {
            from_x: s.from_x,
            from_y: s.to_y,
            to_x: s.to_x,
            to_y: s.from_y,
        }).spec_bounds(),
        s.from_x <= s.to_x ==> s.spec_bounds().x1 == s.from_x && s.spec_bounds().x2 == s.to_x,
        s.from_y <= s.to_y ==> s.spec_bounds().y1 == s.from_y && s.spec_bounds().y2 == s.to_y,
{
}

/// The selection is cleared when the session returns to normal mode, and the
/// mode that it was in is remembered.
pub proof fn normal_mode_clears_the_selection(session: SessionView)
    requires
        !(session.mode is Normal),
    ensures
        session.in_mode(Mode::Normal).selection is None,
        session.in_mode(Mode::Normal).prev_mode == Some(session.mode),
{
}

/// A message replaces the one before it, and nothing else changes.
pub proof fn messages_change_nothing_else(
    session: SessionView,
    text: Seq<char>,
    message_type: MessageType,
)
    ensures
        ({
            let after = session.with_message(text, message_type);
            &&& after.message.text == text
            &&& after.message.message_type == message_type
            &&& after.mode == session.mode
            &&& after.prev_mode == session.prev_mode
            &&& after.views == session.views
            &&& after.active_id == session.active_id
            &&& after.next_id == session.next_id
            &&& after.settings == session.settings
            &&& after.selection == session.selection
        }),
{
}

/// Switching to another mode remembers the one that was left, and drops the
/// selection only on the way back to normal mode; switching to the same mode
/// changes nothing. Nothing else is touched either way.
pub proof fn modes_switch(session: SessionView, mode: Mode)
    ensures
        ({
            let after = session.in_mode(mode);
            &&& after.mode == mode
            &&& mode == session.mode ==> after.prev_mode == session.prev_mode && after.selection
                == session.selection
            &&& mode != session.mode ==> after.prev_mode == Some(session.mode)
            &&& mode != session.mode && mode == Mode::Normal ==> after.selection is None
            &&& mode != Mode::Normal ==> after.selection == session.selection
            &&& after.message == session.message
            &&& after.views == session.views
            &&& after.active_id == session.active_id
            &&& after.next_id == session.next_id
            &&& after.settings == session.settings
        }),
{
}

/// A new view stands last, has the size given, no offset and a zoom of one, and
/// is the active one; the views that were there stay as they are.
pub proof fn views_are_added_last(session: SessionView, width: u32, height: u32)
    requires
        session.next_id < u16::MAX,
    ensures
        ({
            let after = session.with_view(width, height);
            let n = session.views.len() as int;
            &&& after.views.len() == n + 1
            &&& forall|i: int| 0 <= i < n ==> #[trigger] after.views[i] == session.views[i]
            &&& after.views[n].width == width
            &&& after.views[n].height == height
            &&& after.views[n].offset_x == 0
            &&& after.views[n].offset_y == 0
            &&& after.views[n].zoom == 0x3F80_0000
            &&& after.views[n].id == after.active_id
            &&& after.active_id.0 == session.next_id
            &&& after.next_id == session.next_id + 1
            &&& after.mode == session.mode
            &&& after.prev_mode == session.prev_mode
            &&& after.message == session.message
            &&& after.settings == session.settings
            &&& after.selection == session.selection
        }),
{
}

/// Each mode goes by its own word.
pub proof fn modes_have_names()
    ensures
        mode_name(Mode::Normal) == "normal"@,
        mode_name(Mode::Visual) == "visual"@,
        mode_name(Mode::Command) == "command"@,
        mode_name(Mode::Present) == "present"@,
        mode_name(Mode::Help) == "help"@,
{
}

/// A session is seen as it is, and so is its message.
pub proof fn sessions_are_seen_as_they_are(session: Session)
    ensures
        session@.mode == session.mode,
        session@.prev_mode == session.prev_mode,
        session@.message.text == session.message.text@,
        session@.message.message_type == session.message.message_type,
        session@.views == session.views.list@,
        session@.active_id == session.views.active_id,
        session@.next_id == session.views.next_id,
        session@.settings == session.settings@,
        session@.selection == session.selection,
{
}

} // verus!
