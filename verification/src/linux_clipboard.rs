//! The choice between the two Linux backends. It is made once, when the
//! context is made, and holds for as long as the context lives.

use crate::common::{ClipboardError, Step, TargetMimeType};
use crate::wait::{Wait, WaitRequest};
use crate::wayland_clipboard::{
    mime_of, publishes, sources_of, CopyDestination, CopyRequest, MimeView, PasteRequest,
    PasteSource, WaylandClipboardContext,
};
use crate::x11_clipboard::{
    begun, entries_of, format_of, Atom, Clipboard, FormatView, ListRequest, LoadRequest,
    ReadRequest, Storing, Timeout, X11ClipboardContext, LIST_TIMEOUT_MILLIS, TEXT_TIMEOUT_MILLIS,
};
use vstd::utf8::encode_utf8;
use std::time::Duration;
use vstd::prelude::*;

verus! {

/// The backend that a Linux context forwards to.
#[derive(Debug)]
pub enum LinuxContext {
    Wayland(WaylandClipboardContext),
    X11(X11ClipboardContext<Clipboard>),
}

/// What the chosen backend is asked: a request of the Wayland backend, or
/// one of the X11 backend.
#[derive(Debug)]
pub enum Routed<W, X> {
    Wayland(W),
    X11(X),
}

/// A context for the clipboard of a Linux desktop: that of the Wayland
/// compositor where one answers, that of the X11 server where none does.
#[derive(Debug)]
pub struct LinuxClipboardContext {
    context: LinuxContext,
}

impl LinuxClipboardContext {
    /// The backend that was chosen when the context was made.
    pub closed spec fn chosen(&self) -> LinuxContext {
        self.context
    }

    /// Makes a context from the attempt to make a Wayland context. Where the
    /// attempt succeeded, Wayland is chosen. Where it failed, its error is
    /// dropped and nothing is chosen yet: an X11 context is to be attempted
    /// and handed to [`Self::fallback`].
    pub fn new(wayland: Result<WaylandClipboardContext, ClipboardError>) -> (r: Option<
        LinuxClipboardContext,
    >)
        ensures
            match wayland {
                Ok(context) => r matches Some(c) && c.chosen() == LinuxContext::Wayland(context),
                Err(_) => r is None,
            },
    {
        match wayland {
            Ok(context) => Some(LinuxClipboardContext { context: LinuxContext::Wayland(context) }),
            Err(_) => None,
        }
    }

    /// Makes a context from the attempt to make an X11 context, after the
    /// attempt at Wayland failed. Where this attempt fails too, its error is
    /// the error of the construction.
    pub fn fallback(x11: Result<X11ClipboardContext<Clipboard>, ClipboardError>) -> (r: Result<
        LinuxClipboardContext,
        ClipboardError,
    >)
        ensures
            match x11 {
                Ok(context) => r matches Ok(c) && c.chosen() == LinuxContext::X11(context),
                Err(e) => r matches Err(x) && x == e,
            },
    {
        match x11 {
            Ok(context) => Ok(LinuxClipboardContext { context: LinuxContext::X11(context) }),
            Err(e) => Err(e),
        }
    }

    /// The backend to which every operation of this context goes.
    pub fn backend(&self) -> (r: &LinuxContext)
        ensures
            *r == self.chosen(),
    {
        &self.context
    }

    /// Tells whether the context forwards to Wayland.
    pub fn is_wayland(&self) -> (r: bool)
        ensures
            r == (self.chosen() is Wayland),
    {
        match self.context {
            LinuxContext::Wayland(_) => true,
            LinuxContext::X11(_) => false,
        }
    }

    /// Begins a wait for `target`, in which a pause lasts `poll_duration`,
    /// as the chosen backend does. Both list their targets, so the wait
    /// starts with a snapshot of them.
    pub fn wait_for_target_contents(&self, target: TargetMimeType, poll_duration: Duration) -> (r:
        (Wait, WaitRequest))
        ensures
            (r.0@, r.1@) == crate::wait::spec_wait(true, target@, poll_duration),
    {
        match &self.context {
            LinuxContext::Wayland(context) => context.wait_for_target_contents(
                target,
                poll_duration,
            ),
            LinuxContext::X11(context) => context.wait_for_target_contents(target, poll_duration),
        }
    }

    /// Begins reading the clipboard's text, as the chosen backend does.
    pub fn get_contents(&self) -> (r: Routed<PasteRequest, LoadRequest>)
        ensures
            match self.chosen() {
                LinuxContext::Wayland(c) => r matches Routed::Wayland(q) && q.source
                    == c.first_source() && q.mime@ == MimeView::Text,
                LinuxContext::X11(c) => r matches Routed::X11(q) && q == c.load_of(
                    c.atoms().utf8_string,
                    Timeout::Millis(TEXT_TIMEOUT_MILLIS),
                ),
            },
    {
        match &self.context {
            LinuxContext::Wayland(context) => Routed::Wayland(context.get_contents()),
            LinuxContext::X11(context) => Routed::X11(context.get_contents()),
        }
    }

    /// The request or the write that publishes `data` as the clipboard's
    /// text, as the chosen backend makes it.
    pub fn set_contents(&self, data: String) -> (r: Routed<CopyRequest, Storing>)
        ensures
            match self.chosen() {
                LinuxContext::Wayland(c) => r matches Routed::Wayland(q) && publishes(
                    q,
                    c.destination(),
                    seq![(MimeView::Text, encode_utf8(data@))],
                ),
                LinuxContext::X11(c) => r matches Routed::X11(q) && q@ == begun(
                    c.selection(),
                    seq![(FormatView::Known(c.atoms().utf8_string), encode_utf8(data@))],
                ),
            },
    {
        match &self.context {
            LinuxContext::Wayland(context) => Routed::Wayland(context.set_contents(data)),
            LinuxContext::X11(context) => Routed::X11(context.set_contents(data)),
        }
    }

    /// Begins reading `target`, as the chosen backend does.
    pub fn get_target_contents(&self, target: TargetMimeType) -> (r: Routed<
        PasteRequest,
        Step<ReadRequest, Vec<u8>>,
    >)
        ensures
            match self.chosen() {
                LinuxContext::Wayland(c) => r matches Routed::Wayland(q) && q.source
                    == c.first_source() && q.mime@ == mime_of(target@),
                LinuxContext::X11(c) => r matches Routed::X11(q) && c.begins_read(target@, q),
            },
    {
        match &self.context {
            LinuxContext::Wayland(context) => Routed::Wayland(context.get_target_contents(target)),
            LinuxContext::X11(context) => Routed::X11(context.get_target_contents(target)),
        }
    }

    /// The request or the write that publishes `data` under `target`, as the
    /// chosen backend makes it.
    pub fn set_target_contents(&self, target: TargetMimeType, data: Vec<u8>) -> (r: Routed<
        CopyRequest,
        Storing,
    >)
        ensures
            match self.chosen() {
                LinuxContext::Wayland(c) => r matches Routed::Wayland(q) && publishes(
                    q,
                    c.destination(),
                    seq![(mime_of(target@), data@)],
                ),
                LinuxContext::X11(c) => r matches Routed::X11(q) && q@ == begun(
                    c.selection(),
                    seq![(format_of(c.atoms(), target@), data@)],
                ),
            },
    {
        match &self.context {
            LinuxContext::Wayland(context) => Routed::Wayland(
                context.set_target_contents(target, data),
            ),
            LinuxContext::X11(context) => Routed::X11(context.set_target_contents(target, data)),
        }
    }

    /// The request or the write that publishes all of `targets` as one
    /// offer, as the chosen backend makes it.
    pub fn set_multiple_targets(&self, targets: Vec<(TargetMimeType, Vec<u8>)>) -> (r: Routed<
        CopyRequest,
        Storing,
    >)
        ensures
            match self.chosen() {
                LinuxContext::Wayland(c) => r matches Routed::Wayland(q) && publishes(
                    q,
                    c.destination(),
                    sources_of(targets@),
                ),
                LinuxContext::X11(c) => r matches Routed::X11(q) && q@ == begun(
                    c.selection(),
                    entries_of(c.atoms(), targets@),
                ),
            },
    {
        match &self.context {
            LinuxContext::Wayland(context) => Routed::Wayland(context.set_multiple_targets(targets)),
            LinuxContext::X11(context) => Routed::X11(context.set_multiple_targets(targets)),
        }
    }

    /// What is asked to list the targets, as the chosen backend asks it.
    pub fn list_targets(&self) -> (r: Routed<PasteSource, ListRequest>)
        ensures
            match self.chosen() {
                LinuxContext::Wayland(c) => r == Routed::<PasteSource, ListRequest>::Wayland(
                    c.first_source(),
                ),
                LinuxContext::X11(c) => r == Routed::<PasteSource, ListRequest>::X11(
                    ListRequest {
                        selection: c.selection(),
                        timeout: Timeout::Millis(LIST_TIMEOUT_MILLIS),
                    },
                ),
            },
    {
        match &self.context {
            LinuxContext::Wayland(context) => Routed::Wayland(context.list_targets()),
            LinuxContext::X11(context) => Routed::X11(context.list_targets()),
        }
    }

    /// What is to be cleared, as the chosen backend clears it.
    pub fn clear(&self) -> (r: Routed<CopyDestination, Atom>)
        ensures
            match self.chosen() {
                LinuxContext::Wayland(c) => r == Routed::<CopyDestination, Atom>::Wayland(
                    c.destination(),
                ),
                LinuxContext::X11(c) => r == Routed::<CopyDestination, Atom>::X11(c.selection()),
            },
    {
        match &self.context {
            LinuxContext::Wayland(context) => Routed::Wayland(context.clear()),
            LinuxContext::X11(context) => Routed::X11(context.clear()),
        }
    }
}

} // verus!
