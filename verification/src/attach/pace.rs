//! The turns of the event loop: what comes in, when the screen is drawn again, and
//! what is left to do.

use vstd::prelude::*;

use crate::attach::app::{works, App};
use crate::attach::frames::byte_strings;
use crate::attach::keys::pressed;
use crate::attach::mouse::moused;
use crate::key::{KeyEvent, MouseEventKind};
use crate::protocol::{no_frames, nothing, sent, Asked, Sent, WireFrame};

verus! {

/// What the screen showed when it was drawn last: the keys behind the prefix,
/// and a frame of the spinner. `dirty` tells that something happened since.
#[derive(Debug, Clone, Copy, PartialEq, Eq, Structural)]
pub struct Pace {
    pub dirty: bool,
    pub keys: bool,
    pub frame: usize,
}

/// Whether an agent works.
pub open spec fn someone_works(app: App) -> bool {
    exists|k: u64|
        #![trigger app.panes@[k]]
        app.panes@.contains_key(k) && works(app.panes@[k])
}

impl Pace {
    /// The pace before anything was drawn.
    pub fn new() -> (r: Pace)
        ensures
            r == (Pace { dirty: true, keys: false, frame: 0 }),
    {
        Pace { dirty: true, keys: false, frame: 0 }
    }

    /// Something happened.
    pub fn touch(&mut self)
        ensures
            *final(self) == (Pace { dirty: true, ..*old(self) }),
    {
        self.dirty = true;
    }

    /// Whether to draw now: something happened, the keys behind the prefix
    /// appear or go, or the spinner of an agent that works moves on.
    pub fn due(&mut self, app: &App) -> (r: bool)
        ensures
            r == (old(self).dirty || app.keys_shown() != old(self).keys || (someone_works(*app)
                && final(self).frame != old(self).frame)),
            old(self).dirty ==> r,
            app.keys_shown() != old(self).keys ==> r,
            !someone_works(*app) && !old(self).dirty && app.keys_shown() == old(self).keys ==> !r,
            !final(self).dirty,
            final(self).keys == app.keys_shown(),
            final(self).frame == app.frame_shown(),
    {
        let keys: bool = app.whichkey_visible();
        let frame: usize = app.spinner_frame();
        let r: bool = self.dirty || keys != self.keys || (frame != self.frame
            && app.has_working_agent());
        self.dirty = false;
        self.keys = keys;
        self.frame = frame;
        r
    }
}

// ---- one turn ------------------------------------------------------------

/// What the terminal tells of: a key, the mouse, or a new size.
#[derive(Debug, Clone, Copy, PartialEq, Eq)]
pub enum Happening {
    /// A key, pressed or let go.
    Key { key: KeyEvent, released: bool },
    Mouse { kind: MouseEventKind, col: u16, row: u16 },
    Resize,
    Other,
}

/// What is left to do at the end of a turn: the request that tells the server of a
/// new focus, the bytes for the real terminal, and whether to leave.
#[derive(Debug, PartialEq)]
pub struct Remains {
    pub focus: Option<WireFrame>,
    pub bytes: Vec<Vec<u8>>,
    pub quit: bool,
}

impl Pace {
    /// Take in what the terminal tells of, returning what is to be sent to the
    /// server. A key that is let go means nothing.
    pub fn on_happening(&mut self, app: &mut App, event: Happening) -> (r: Vec<WireFrame>)
        requires
            old(app).well_formed(),
        ensures
            final(app).well_formed(),
            match event {
                Happening::Key { key, released: false } => {
                    &&& pressed(*old(app), *final(app), key, sent(r@))
                    &&& *final(self) == (Pace { dirty: true, ..*old(self) })
                },
                Happening::Mouse { kind, col, row } => {
                    &&& moused(*old(app), *final(app), kind, col, row, sent(r@))
                    &&& *final(self) == (Pace { dirty: true, ..*old(self) })
                },
                Happening::Resize => {
                    &&& *final(app) == *old(app)
                    &&& sent(r@) == nothing()
                    &&& *final(self) == (Pace { dirty: true, ..*old(self) })
                },
                _ => {
                    &&& *final(app) == *old(app)
                    &&& sent(r@) == nothing()
                    &&& *final(self) == *old(self)
                },
            },
    {
        match event {
            Happening::Key { key, released } => {
                if released {
                    return no_frames();
                }
                self.touch();
                app.on_key(key)
            },
            Happening::Mouse { kind, col, row } => {
                self.touch();
                app.on_mouse(kind, col, row)
            },
            Happening::Resize => {
                self.touch();
                no_frames()
            },
            Happening::Other => no_frames(),
        }
    }
}

/// The bytes for the real terminal: a bell where one is due, then the escape
/// sequences.
pub open spec fn terminal_bytes(app: App) -> Seq<Seq<u8>> {
    (if app.bell {
        seq![seq![7u8]]
    } else {
        Seq::empty()
    }) + byte_strings(app.terminal_out@)
}

/// What is left to do at the end of a turn; asking clears it.
pub fn end_turn(app: &mut App) -> (r: Remains)
    ensures
        byte_strings(r.bytes@) == terminal_bytes(*old(app)),
        r.quit == old(app).should_quit,
        match r.focus {
            Some(f) => {
                &&& old(app).focus_sent != old(app).focused
                &&& old(app).focused matches Some(pane) && f@ == Sent::Control(
                    Asked::PaneFocus { pane },
                )
            },
            None => old(app).focus_sent == old(app).focused || old(app).focused is None,
        },
        *final(app) == (App {
            focus_sent: old(app).focused,
            notified: final(app).notified,
            bell: false,
            terminal_out: final(app).terminal_out,
            ..*old(app)
        }),
        final(app).terminal_out@.len() == 0,
        final(app).notified@ == (match old(app).focused {
            Some(pane) if old(app).focus_sent != old(app).focused => old(app).notified@.remove(
                pane.0,
            ),
            _ => old(app).notified@,
        }),
{
    let ghost pre = *app;
    let focus: Option<WireFrame> = app.focus_change();
    let bell: bool = app.take_bell();
    let mut rest: Vec<Vec<u8>> = app.take_terminal_out();
    let mut bytes: Vec<Vec<u8>> = Vec::new();
    if bell {
        let ring: Vec<u8> = vec![7u8];
        assert(ring@ =~= seq![7u8]);
        bytes.push(ring);
    }
    let ghost first = byte_strings(bytes@);
    bytes.append(&mut rest);
    proof {
        assert(first =~= if pre.bell {
            seq![seq![7u8]]
        } else {
            Seq::empty()
        });
        assert(byte_strings(bytes@) =~= first + byte_strings(pre.terminal_out@));
    }
    Remains { focus, bytes, quit: app.should_quit }
}

// ---- laws ----------------------------------------------------------------

/// A bell that is due rings once, before what else goes to the terminal; without one
/// due nothing is added.
pub proof fn the_bell_rings_first(app: App)
    ensures
        app.bell ==> terminal_bytes(app).len() == app.terminal_out@.len() + 1 && terminal_bytes(
            app,
        )[0] == seq![7u8],
        !app.bell ==> terminal_bytes(app) == byte_strings(app.terminal_out@),
{
    assert(byte_strings(app.terminal_out@).len() == app.terminal_out@.len());
    if !app.bell {
        assert(terminal_bytes(app) =~= byte_strings(app.terminal_out@));
    }
}

} // verus!
