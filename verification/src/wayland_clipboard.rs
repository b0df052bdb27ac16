//! The Wayland backend: the data-control protocol, with the primary selection
//! where the compositor has one.

use crate::common::{specific_targets, ClipboardError, ErrorView, Step, TargetMimeType, TargetView};
use crate::offer::{answer_of, lemma_offer_answers, offer_of};
use crate::wait::{Wait, WaitRequest};
use std::time::Duration;
use vstd::prelude::*;

verus! {

/// The MIME type under which plain text is listed.
pub const MIME_TEXT: &'static str = "UTF8_STRING";

/// The MIME type of a list of files.
pub const MIME_URI: &'static str = "text/uri-list";

/// The MIME type of a bitmap.
pub const MIME_BITMAP: &'static str = "image/png";

/// The MIME type that a request names.
#[derive(Debug, Clone)]
pub enum MimeType {
    /// Plain text, in whichever of the text types the compositor offers.
    Text,
    /// This type and no other.
    Specific(String),
}

/// The mathematical value of a [`MimeType`].
pub enum MimeView {
    Text,
    Specific(Seq<char>),
}

impl View for MimeType {
    type V = MimeView;

    open spec fn view(&self) -> MimeView {
        match self {
            MimeType::Text => MimeView::Text,
            MimeType::Specific(s) => MimeView::Specific(s@),
        }
    }
}

/// The MIME type that stands for a target: text for `Text`, one fixed type
/// each for `Bitmap` and `Files`, and a specific target's own string.
pub open spec fn mime_of(target: TargetView) -> MimeView {
    match target {
        TargetView::Text => MimeView::Text,
        TargetView::Bitmap => MimeView::Specific(MIME_BITMAP@),
        TargetView::Files => MimeView::Specific(MIME_URI@),
        TargetView::Specific(s) => MimeView::Specific(s),
    }
}

/// Resolves a target to the MIME type that the compositor is asked for.
pub fn get_target(target: TargetMimeType) -> (r: MimeType)
    ensures
        r@ == mime_of(target@),
{
    match target {
        TargetMimeType::Text => MimeType::Text,
        TargetMimeType::Bitmap => MimeType::Specific(MIME_BITMAP.to_owned()),
        TargetMimeType::Files => MimeType::Specific(MIME_URI.to_owned()),
        TargetMimeType::Specific(s) => MimeType::Specific(s),
    }
}

/// Which of the compositor's clipboards a request reads.
#[derive(Debug, Clone, Copy, PartialEq, Eq, Structural)]
pub enum PasteSource {
    /// The regular clipboard.
    Regular,
    /// The primary selection.
    Primary,
}

/// Which of the compositor's clipboards a request writes or clears.
#[derive(Debug, Clone, Copy, PartialEq, Eq, Structural)]
pub enum CopyDestination {
    /// The regular clipboard alone.
    Regular,
    /// The regular clipboard and the primary selection.
    Both,
}

/// Why the compositor handed nothing back.
#[derive(Debug, Clone)]
pub enum PasteFailure {
    /// The compositor has no seat.
    NoSeats,
    /// The clipboard that was asked has no owner.
    ClipboardEmpty,
    /// The owner does not offer the type that was asked for.
    NoMimeType,
    /// The offer was accepted, and reading its bytes failed.
    Transfer(String),
    /// The compositor could not be reached, or refused the request.
    Other(String),
}

/// Why the check for the primary selection gave no answer.
#[derive(Debug, Clone)]
pub enum ProbeFailure {
    /// The compositor has no seat to check.
    NoSeats,
    /// The compositor could not be reached, or lacks the data-control
    /// protocol.
    Other(String),
}

/// A request to read one MIME type from one clipboard.
#[derive(Debug, Clone)]
pub struct PasteRequest {
    pub source: PasteSource,
    pub mime: MimeType,
}

/// The seats that an offer serves.
#[derive(Debug, Clone)]
pub enum CopySeat {
    /// Every seat of the compositor.
    All,
    /// The seat of this name.
    Specific(String),
}

/// How many requests for its bytes an offer serves before it is withdrawn.
#[derive(Debug, Clone, Copy, PartialEq, Eq, Structural)]
pub enum ServeRequests {
    /// As many as come.
    Unlimited,
    /// This many.
    Only(usize),
}

/// A request to publish `sources` as one offer, in place of what was offered
/// before, and how the offer is served.
#[derive(Debug, Clone)]
pub struct CopyRequest {
    pub destination: CopyDestination,
    pub sources: Vec<(MimeType, Vec<u8>)>,
    /// The seats that the offer serves.
    pub seat: CopySeat,
    /// Whether a line feed at the end of text is dropped.
    pub trim_newline: bool,
    /// Whether the call that publishes returns only when the offer is
    /// withdrawn.
    pub foreground: bool,
    /// How many requests the offer serves.
    pub serve_requests: ServeRequests,
}

/// Tells whether `request` publishes `sources` to `destination` as the
/// library does it: for every seat, with the bytes as they are, in the
/// background, and for as many requests as come.
pub open spec fn publishes(
    request: CopyRequest,
    destination: CopyDestination,
    sources: Seq<(MimeView, Seq<u8>)>,
) -> bool {
    &&& request.destination == destination
    &&& sources_view(request.sources@) == sources
    &&& request.seat is All
    &&& !request.trim_newline
    &&& !request.foreground
    &&& request.serve_requests == ServeRequests::Unlimited
}

/// The MIME types and bytes of a list of sources.
pub open spec fn sources_view(sources: Seq<(MimeType, Vec<u8>)>) -> Seq<(MimeView, Seq<u8>)> {
    Seq::new(sources.len(), |i: int| (sources[i].0@, sources[i].1@))
}

/// The sources that publish `targets`: each under the MIME type of its
/// target, with its bytes unchanged, in the same order.
pub open spec fn sources_of(targets: Seq<(TargetMimeType, Vec<u8>)>) -> Seq<(MimeView, Seq<u8>)> {
    Seq::new(targets.len(), |i: int| (mime_of(targets[i].0@), targets[i].1@))
}

/// True of the failures that mean that the target is absent: no seat, no
/// owner, or an owner that does not offer the type.
pub open spec fn means_absent(failure: PasteFailure) -> bool {
    failure is NoSeats || failure is ClipboardEmpty || failure is NoMimeType
}

/// The message that a failure carries, where it carries one.
pub open spec fn failure_message(failure: PasteFailure) -> Seq<char> {
    match failure {
        PasteFailure::Transfer(m) => m@,
        PasteFailure::Other(m) => m@,
        _ => Seq::empty(),
    }
}

/// What a read makes of a compositor's answer.
pub enum ReadOutcome {
    /// The bytes to hand to the caller; empty for an absent target.
    Contents(Seq<u8>),
    /// The protocol error to hand to the caller.
    Failure(Seq<char>),
    /// The regular clipboard is to be read next, for the same MIME type.
    Fallback,
}

/// What a read makes of the answer to a request that read `source`.
///
/// Bytes that came are the contents. A failed transfer is an error, on
/// either clipboard. Any other failure of the primary selection, be it that
/// the target is absent there or that the selection cannot be read, makes
/// the read fall back to the regular clipboard. On the regular clipboard an
/// absent target is empty contents, and any other failure is an error.
pub open spec fn read_outcome(source: PasteSource, answer: Result<Vec<u8>, PasteFailure>) ->
    ReadOutcome {
    match answer {
        Ok(bytes) => ReadOutcome::Contents(bytes@),
        Err(failure) => if failure is Transfer {
            ReadOutcome::Failure(failure_message(failure))
        } else if source == PasteSource::Primary {
            ReadOutcome::Fallback
        } else if means_absent(failure) {
            ReadOutcome::Contents(Seq::empty())
        } else {
            ReadOutcome::Failure(failure_message(failure))
        },
    }
}

/// A context for the Wayland clipboard. It is made once and keeps what it
/// learnt of the compositor then.
#[derive(Debug, Clone)]
pub struct WaylandClipboardContext {
    supports_primary_selection: bool,
}

impl WaylandClipboardContext {
    /// Tells whether the compositor had a primary selection when the context
    /// was made.
    pub closed spec fn primary(&self) -> bool {
        self.supports_primary_selection
    }

    /// The clipboard that is read first, and whose targets are listed.
    pub open spec fn first_source(&self) -> PasteSource {
        if self.primary() {
            PasteSource::Primary
        } else {
            PasteSource::Regular
        }
    }

    /// The clipboards that are written and cleared.
    pub open spec fn destination(&self) -> CopyDestination {
        if self.primary() {
            CopyDestination::Both
        } else {
            CopyDestination::Regular
        }
    }

    /// Makes a context from the answer to the check for the primary
    /// selection. A compositor without seats counts as one without primary
    /// selection; any other failure of the check is a construction error.
    pub fn new(probe: Result<bool, ProbeFailure>) -> (r: Result<
        WaylandClipboardContext,
        ClipboardError,
    >)
        ensures
            probe matches Ok(supported) ==> r matches Ok(c) && c.primary() == supported,
            probe matches Err(ProbeFailure::NoSeats) ==> r matches Ok(c) && !c.primary(),
            probe matches Err(ProbeFailure::Other(m)) ==> r matches Err(e) && e@
                == ErrorView::Construction(m@),
    {
        match probe {
            Ok(supported) => Ok(WaylandClipboardContext { supports_primary_selection: supported }),
            Err(ProbeFailure::NoSeats) => Ok(
                WaylandClipboardContext { supports_primary_selection: false },
            ),
            Err(ProbeFailure::Other(message)) => Err(ClipboardError::Construction(message)),
        }
    }

    /// Tells whether the compositor had a primary selection when the context
    /// was made.
    pub fn supports_primary_selection(&self) -> (r: bool)
        ensures
            r == self.primary(),
    {
        self.supports_primary_selection
    }

    fn source(&self) -> (r: PasteSource)
        ensures
            r == self.first_source(),
    {
        if self.supports_primary_selection {
            PasteSource::Primary
        } else {
            PasteSource::Regular
        }
    }

    fn both_or_regular(&self) -> (r: CopyDestination)
        ensures
            r == self.destination(),
    {
        if self.supports_primary_selection {
            CopyDestination::Both
        } else {
            CopyDestination::Regular
        }
    }

    /// Begins reading the clipboard's text: the request for text, on the
    /// primary selection where there is one. The answer goes to
    /// [`Self::after_paste`], and what comes of it to
    /// [`crate::text::text_of`].
    pub fn get_contents(&self) -> (r: PasteRequest)
        ensures
            r.source == self.first_source(),
            r.mime@ == MimeView::Text,
    {
        self.get_target_contents(TargetMimeType::Text)
    }

    /// Begins reading `target`: the request for its MIME type, on the
    /// primary selection where there is one and on the regular clipboard
    /// where there is none. The answer goes to [`Self::after_paste`], which
    /// falls back to the regular clipboard where the primary selection does
    /// not have the target.
    pub fn get_target_contents(&self, target: TargetMimeType) -> (r: PasteRequest)
        ensures
            r.source == self.first_source(),
            r.mime@ == mime_of(target@),
    {
        PasteRequest { source: self.source(), mime: get_target(target) }
    }

    /// Goes on with a read after the compositor answered `request`: the
    /// contents or the error to hand to the caller, or the same request on
    /// the regular clipboard. A primary selection that does not hold the
    /// target, or cannot be read, never ends the read: the regular clipboard
    /// is asked next.
    pub fn after_paste(&self, request: PasteRequest, answer: Result<Vec<u8>, PasteFailure>) -> (r:
        Step<PasteRequest, Vec<u8>>)
        ensures
            match read_outcome(request.source, answer) {
                ReadOutcome::Contents(bytes) => r matches Step::Done(Ok(b)) && b@ == bytes,
                ReadOutcome::Failure(message) => r matches Step::Done(Err(e)) && e@
                    == ErrorView::Protocol(message),
                ReadOutcome::Fallback => r matches Step::Call(next) && next.source
                    == PasteSource::Regular && next.mime == request.mime,
            },
    {
        match answer {
            Ok(bytes) => Step::Done(Ok(bytes)),
            Err(PasteFailure::Transfer(message)) => Step::Done(
                Err(ClipboardError::Protocol(message)),
            ),
            Err(failure) => match request.source {
                PasteSource::Primary => Step::Call(
                    PasteRequest { source: PasteSource::Regular, mime: request.mime },
                ),
                PasteSource::Regular => match failure {
                    PasteFailure::Other(message) => Step::Done(
                        Err(ClipboardError::Protocol(message)),
                    ),
                    _ => Step::Done(Ok(Vec::new())),
                },
            },
        }
    }

    /// The request that publishes `data` as the clipboard's text. The answer
    /// goes to [`crate::common::finish`].
    pub fn set_contents(&self, data: String) -> (r: CopyRequest)
        ensures
            publishes(
                r,
                self.destination(),
                seq![(MimeView::Text, vstd::utf8::encode_utf8(data@))],
            ),
    {
        let bytes = crate::text::encode_text(data.as_str());
        self.set_target_contents(TargetMimeType::Text, bytes)
    }

    /// The request that publishes `data` under `target`, on the primary
    /// selection too where there is one. The answer goes to
    /// [`crate::common::finish`].
    pub fn set_target_contents(&self, target: TargetMimeType, data: Vec<u8>) -> (r: CopyRequest)
        ensures
            publishes(r, self.destination(), seq![(mime_of(target@), data@)]),
    {
        let ghost mime = mime_of(target@);
        let ghost bytes = data@;
        let mut sources: Vec<(MimeType, Vec<u8>)> = Vec::new();
        sources.push((get_target(target), data));
        assert(sources_view(sources@) == seq![(mime, bytes)]);
        self.offer(sources)
    }

    /// The request that publishes all of `targets` as one offer. The answer
    /// goes to [`crate::common::finish`].
    pub fn set_multiple_targets(&self, targets: Vec<(TargetMimeType, Vec<u8>)>) -> (r: CopyRequest)
        ensures
            publishes(r, self.destination(), sources_of(targets@)),
    {
        let ghost all = targets@;
        let mut sources: Vec<(MimeType, Vec<u8>)> = Vec::new();
        for pair in it: targets.into_iter()
            invariant
                it.seq() == all,
                sources.len() == it.index(),
                forall|j: int|
                    0 <= j < sources.len() ==> (#[trigger] sources@[j]).0@ == mime_of(all[j].0@)
                        && sources@[j].1@ == all[j].1@,
        {
            let (target, data) = pair;
            sources.push((get_target(target), data));
        }
        assert(sources_view(sources@) == sources_of(all));
        self.offer(sources)
    }

    fn offer(&self, sources: Vec<(MimeType, Vec<u8>)>) -> (r: CopyRequest)
        ensures
            publishes(r, self.destination(), sources_view(sources@)),
    {
        CopyRequest {
            destination: self.both_or_regular(),
            sources,
            seat: CopySeat::All,
            trim_newline: false,
            foreground: false,
            serve_requests: ServeRequests::Unlimited,
        }
    }

    /// The clipboard whose MIME types are listed: the primary selection where
    /// there is one. The answer goes to [`Self::after_mime_types`].
    pub fn list_targets(&self) -> (r: PasteSource)
        ensures
            r == self.first_source(),
    {
        self.source()
    }

    /// The targets that the compositor listed: each MIME type as a specific
    /// target, in the order given. A clipboard that is absent lists nothing.
    pub fn after_mime_types(&self, answer: Result<Vec<String>, PasteFailure>) -> (r: Result<
        Vec<TargetMimeType>,
        ClipboardError,
    >)
        ensures
            match answer {
                Ok(names) => r matches Ok(targets) && targets@.len() == names@.len() && forall|
                    i: int,
                |
                    0 <= i < names@.len() ==> (#[trigger] targets@[i])@ == TargetView::Specific(
                        names@[i]@,
                    ),
                Err(failure) => if means_absent(failure) {
                    r matches Ok(targets) && targets@.len() == 0
                } else {
                    r matches Err(e) && e@ == ErrorView::Protocol(failure_message(failure))
                },
            },
    {
        match answer {
            Ok(names) => Ok(specific_targets(names)),
            Err(PasteFailure::NoSeats) => Ok(Vec::new()),
            Err(PasteFailure::ClipboardEmpty) => Ok(Vec::new()),
            Err(PasteFailure::NoMimeType) => Ok(Vec::new()),
            Err(PasteFailure::Transfer(message)) => Err(ClipboardError::Protocol(message)),
            Err(PasteFailure::Other(message)) => Err(ClipboardError::Protocol(message)),
        }
    }

    /// The clipboards to clear: the primary selection too where there is
    /// one. The answer goes to [`crate::common::finish`].
    pub fn clear(&self) -> (r: CopyDestination)
        ensures
            r == self.destination(),
    {
        self.both_or_regular()
    }

    /// Begins a wait for `target`, in which a pause lasts `poll_duration`.
    /// The compositor lists its targets, so the wait starts with a snapshot
    /// of them.
    pub fn wait_for_target_contents(&self, target: TargetMimeType, poll_duration: Duration) -> (r:
        (Wait, WaitRequest))
        ensures
            (r.0@, r.1@) == crate::wait::spec_wait(true, target@, poll_duration),
    {
        Wait::start(true, target, poll_duration)
    }
}

/// An ideal compositor: what each of its two clipboards offers.
pub struct Compositor {
    pub regular: Map<MimeView, Seq<u8>>,
    pub primary: Map<MimeView, Seq<u8>>,
}

/// The compositor after `sources` were published to `destination`: the offer
/// stands in place of what each clipboard written to held before.
pub open spec fn published(
    before: Compositor,
    destination: CopyDestination,
    sources: Seq<(MimeView, Seq<u8>)>,
) -> Compositor {
    Compositor {
        regular: offer_of(sources),
        primary: if destination == CopyDestination::Both {
            offer_of(sources)
        } else {
            before.primary
        },
    }
}

/// What the compositor answers when `source` is asked for `mime`.
pub open spec fn pasted(compositor: Compositor, source: PasteSource, mime: MimeView) -> Option<
    Seq<u8>,
> {
    match source {
        PasteSource::Regular => answer_of(compositor.regular, mime),
        PasteSource::Primary => answer_of(compositor.primary, mime),
    }
}

/// Round trip: what [`WaylandClipboardContext::set_target_contents`]
/// publishes under a target is what the request of
/// [`WaylandClipboardContext::get_target_contents`] for the same target finds,
/// and [`WaylandClipboardContext::after_paste`] hands those bytes on as they
/// are.
pub proof fn lemma_round_trip(
    context: WaylandClipboardContext,
    before: Compositor,
    target: TargetView,
    data: Vec<u8>,
)
    ensures
        ({
            let after = published(
                before,
                context.destination(),
                seq![(mime_of(target), data@)],
            );
            &&& pasted(after, context.first_source(), mime_of(target)) == Some(data@)
            &&& read_outcome(context.first_source(), Ok(data)) == ReadOutcome::Contents(data@)
        }),
{
    lemma_offer_answers(seq![(mime_of(target), data@)], 0);
}

/// What a read of `mime` comes to on a compositor that keeps its offers: the
/// bytes of the primary selection where the context reads it and it offers
/// `mime`; else the bytes of the regular clipboard where that offers `mime`;
/// else no bytes.
pub open spec fn read_of(context: WaylandClipboardContext, compositor: Compositor, mime: MimeView) ->
    Seq<u8> {
    match pasted(compositor, context.first_source(), mime) {
        Some(bytes) => bytes,
        None => match pasted(compositor, PasteSource::Regular, mime) {
            Some(bytes) => bytes,
            None => Seq::empty(),
        },
    }
}

/// The answer of a compositor that keeps its offers to a request for `mime`
/// on `source`: the bytes, or one of the failures that mean absence.
pub open spec fn answers(
    compositor: Compositor,
    source: PasteSource,
    mime: MimeView,
    answer: Result<Vec<u8>, PasteFailure>,
) -> bool {
    match pasted(compositor, source, mime) {
        Some(bytes) => answer matches Ok(b) && b@ == bytes,
        None => answer matches Err(failure) && means_absent(failure),
    }
}

/// Absence is empty: a target that the regular clipboard does not offer is
/// read as empty contents and is no error.
pub proof fn lemma_absent_is_empty(failure: PasteFailure)
    requires
        means_absent(failure),
    ensures
        read_outcome(PasteSource::Regular, Err(failure)) == ReadOutcome::Contents(Seq::empty()),
{
}

/// Fallback: whatever keeps the primary selection from handing the target
/// over, short of a transfer that broke off, the regular clipboard is read
/// next.
pub proof fn lemma_primary_falls_back(failure: PasteFailure)
    requires
        !(failure is Transfer),
    ensures
        read_outcome(PasteSource::Primary, Err(failure)) == ReadOutcome::Fallback,
{
}

/// A read comes to the bytes that are offered: on a compositor that keeps
/// its offers, the answers to the first request and, after a fallback, to the
/// request on the regular clipboard make the read end with [`read_of`]. So a
/// target that only the regular clipboard offers is read from there, and a
/// target that neither offers is read as no bytes.
pub proof fn lemma_read_finds_what_is_offered(
    context: WaylandClipboardContext,
    compositor: Compositor,
    mime: MimeView,
    first: Result<Vec<u8>, PasteFailure>,
    second: Result<Vec<u8>, PasteFailure>,
)
    requires
        answers(compositor, context.first_source(), mime, first),
        answers(compositor, PasteSource::Regular, mime, second),
    ensures
        match read_outcome(context.first_source(), first) {
            ReadOutcome::Contents(bytes) => bytes == read_of(context, compositor, mime),
            ReadOutcome::Fallback => context.first_source() == PasteSource::Primary
                && read_outcome(PasteSource::Regular, second) == ReadOutcome::Contents(
                read_of(context, compositor, mime),
            ),
            ReadOutcome::Failure(_) => false,
        },
{
}

/// Multi-target publish: after
/// [`WaylandClipboardContext::set_multiple_targets`] each target whose MIME
/// type no earlier target of the list shares is found with its own bytes.
pub proof fn lemma_multiple_round_trip(
    context: WaylandClipboardContext,
    before: Compositor,
    targets: Seq<(TargetMimeType, Vec<u8>)>,
    i: int,
)
    requires
        0 <= i < targets.len(),
        forall|j: int| 0 <= j < i ==> mime_of((#[trigger] targets[j]).0@) != mime_of(targets[i].0@),
    ensures
        pasted(
            published(before, context.destination(), sources_of(targets)),
            context.first_source(),
            mime_of(targets[i].0@),
        ) == Some(targets[i].1@),
{
    lemma_offer_answers(sources_of(targets), i);
}

} // verus!
