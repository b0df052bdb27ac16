//! The Windows backend: one clipboard for the whole session, addressed by
//! format numbers, which has to be opened before each use.

use crate::common::{ClipboardError, ErrorView, TargetMimeType, TargetView};
use crate::script::{error_view, Script, ScriptStep, ScriptView};
use crate::text::{
    decimal_digits, decode_text, encode_text, encoded, file_list, format_id_name, format_id_of,
    join_lines, joined, lines_of, parse_format_id,
};
use crate::wait::{Wait, WaitRequest};
use std::time::Duration;
use vstd::prelude::*;
use vstd::utf8::{decode_utf8, encode_utf8, valid_utf8};

verus! {

/// How many times opening the clipboard is tried before it counts as failed.
pub const RETRY_ATTEMPTS: usize = 10;

/// The system's code for "the item that was asked for is not there".
pub const UNEXPECTED_ITEM_CODE: i32 = 1168;

/// A native format to read.
#[derive(Debug, Clone, Copy, PartialEq, Eq, Structural)]
pub enum Format {
    /// Text, handed over as a string.
    Unicode,
    /// An image, handed over as the bytes of a bitmap file.
    Bitmap,
    /// A list of files, handed over as their paths.
    FileList,
    /// The format with this number, handed over as it is.
    Raw(u32),
}

/// What is written to the clipboard, in the shape that its format takes.
#[derive(Debug, Clone)]
pub enum Payload {
    Text(String),
    Bitmap(Vec<u8>),
    Files(Vec<String>),
    Raw(u32, Vec<u8>),
}

/// The mathematical value of a [`Payload`]. Paths are held by their bytes.
pub enum PayloadView {
    Text(Seq<char>),
    Bitmap(Seq<u8>),
    Files(Seq<Seq<u8>>),
    Raw(u32, Seq<u8>),
}

impl View for Payload {
    type V = PayloadView;

    open spec fn view(&self) -> PayloadView {
        match self {
            Payload::Text(text) => PayloadView::Text(text@),
            Payload::Bitmap(bytes) => PayloadView::Bitmap(bytes@),
            Payload::Files(paths) => PayloadView::Files(encoded(paths@)),
            Payload::Raw(id, bytes) => PayloadView::Raw(*id, bytes@),
        }
    }
}

/// What a read hands back, in the shape that its format has.
#[derive(Debug, Clone)]
pub enum Fetched {
    Text(String),
    Bytes(Vec<u8>),
    Files(Vec<String>),
}

/// A failure of the system, with its code and its message.
#[derive(Debug, Clone)]
pub struct SystemFailure {
    pub code: i32,
    pub message: String,
}

/// A request to read `format`. The clipboard is opened for it, with up to
/// `attempts` tries, and closed again.
#[derive(Debug, Clone, Copy, PartialEq, Eq, Structural)]
pub struct ReadRequest {
    pub attempts: usize,
    pub format: Format,
}

/// A request to list the formats that the clipboard holds. The clipboard is
/// opened for it, with up to `attempts` tries, and closed again.
#[derive(Debug, Clone, Copy, PartialEq, Eq, Structural)]
pub struct ListRequest {
    pub attempts: usize,
}

/// A native request that changes the clipboard. For each one the clipboard is
/// opened, with up to `attempts` tries, and closed again.
#[derive(Debug, Clone)]
pub enum WriteRequest {
    /// Empty the clipboard.
    Empty { attempts: usize },
    /// Add `payload` to what the clipboard holds.
    Put { attempts: usize, payload: Payload },
}

/// The mathematical value of a [`WriteRequest`].
pub enum RequestView {
    Empty { attempts: usize },
    Put { attempts: usize, payload: PayloadView },
}

impl View for WriteRequest {
    type V = RequestView;

    open spec fn view(&self) -> RequestView {
        match self {
            WriteRequest::Empty { attempts } => RequestView::Empty { attempts: *attempts },
            WriteRequest::Put { attempts, payload } => RequestView::Put {
                attempts: *attempts,
                payload: payload@,
            },
        }
    }
}

/// Tells whether `script` is the script that replaces the clipboard's
/// contents by `writes`: first the clipboard is emptied, then `writes` are
/// added one after the other, in order; a failure of the system ends the
/// script with the system's message; and when all is written the script ends
/// with `refusal`, where there is one.
pub open spec fn replaces_contents(
    script: ScriptView<WriteRequest>,
    writes: Seq<PayloadView>,
    refusal: Option<ErrorView>,
) -> bool {
    &&& script.in_flight is None
    &&& script.refusal == refusal
    &&& script.pending.len() == writes.len() + 1
    &&& script.pending[0].0@ == RequestView::Empty { attempts: RETRY_ATTEMPTS }
    &&& forall|i: int|
        0 <= i < writes.len() ==> (#[trigger] script.pending[i + 1]).0@ == (RequestView::Put {
            attempts: RETRY_ATTEMPTS,
            payload: writes[i],
        })
    &&& forall|i: int| 0 <= i < script.pending.len() ==> (#[trigger] script.pending[i]).1 is None
}

/// The values of a list of payloads.
pub open spec fn payloads_view(writes: Seq<Payload>) -> Seq<PayloadView> {
    Seq::new(writes.len(), |i: int| writes[i]@)
}

/// The message of the error for a specific target that is no format number.
pub open spec fn malformed_format() -> Seq<char> {
    "the target is not the number of a clipboard format"@
}

/// The native format that stands for a target. A specific target has to be a
/// format number written in decimal; one that is not names no format.
pub open spec fn format_of(target: TargetView) -> Result<Format, ErrorView> {
    match target {
        TargetView::Text => Ok(Format::Unicode),
        TargetView::Bitmap => Ok(Format::Bitmap),
        TargetView::Files => Ok(Format::FileList),
        TargetView::Specific(s) => match format_id_of(encode_utf8(s)) {
            Some(id) => Ok(Format::Raw(id)),
            None => Err(ErrorView::Protocol(malformed_format())),
        },
    }
}

/// What is written for `data` under `target`. Text has to be UTF-8 and is
/// written as a string; a list of files has to be UTF-8 and is written as its
/// lines; a bitmap and a numbered format take the bytes as they are.
pub open spec fn payload_of(target: TargetView, data: Seq<u8>) -> Result<PayloadView, ErrorView> {
    match target {
        TargetView::Text => if valid_utf8(data) {
            Ok(PayloadView::Text(decode_utf8(data)))
        } else {
            Err(ErrorView::Decoding)
        },
        TargetView::Bitmap => Ok(PayloadView::Bitmap(data)),
        TargetView::Files => if valid_utf8(data) {
            Ok(PayloadView::Files(lines_of(data)))
        } else {
            Err(ErrorView::Decoding)
        },
        TargetView::Specific(s) => match format_id_of(encode_utf8(s)) {
            Some(id) => Ok(PayloadView::Raw(id, data)),
            None => Err(ErrorView::Protocol(malformed_format())),
        },
    }
}

/// The writes for `targets`, in order, up to the first target for which
/// nothing can be written, and the error of that target.
pub open spec fn plan_of(targets: Seq<(TargetMimeType, Vec<u8>)>) -> (
    Seq<PayloadView>,
    Option<ErrorView>,
)
    decreases targets.len(),
{
    if targets.len() == 0 {
        (Seq::empty(), None)
    } else {
        match payload_of(targets[0].0@, targets[0].1@) {
            Ok(payload) => {
                let (writes, refusal) = plan_of(targets.drop_first());
                (seq![payload] + writes, refusal)
            },
            Err(e) => (Seq::empty(), Some(e)),
        }
    }
}

/// The bytes that a read hands to its caller for what the system handed
/// back: the UTF-8 bytes of a string, the paths of a list of files joined by
/// line feeds, and bytes as they are.
pub open spec fn fetched_bytes(fetched: Fetched) -> Seq<u8> {
    match fetched {
        Fetched::Text(text) => encode_utf8(text@),
        Fetched::Bytes(bytes) => bytes@,
        Fetched::Files(paths) => joined(encoded(paths@)),
    }
}

/// What a read hands to its caller after the system answered: the bytes of
/// what came; empty contents where the system says that the item is not
/// there; the failure as a protocol error in every other case.
pub open spec fn get_outcome(answer: Result<Fetched, SystemFailure>) -> Result<Seq<u8>, ErrorView> {
    match answer {
        Ok(fetched) => Ok(fetched_bytes(fetched)),
        Err(failure) => if failure.code == UNEXPECTED_ITEM_CODE {
            Ok(Seq::empty())
        } else {
            Err(ErrorView::Protocol(failure.message@))
        },
    }
}

/// Tells whether `target` is the specific target that names the format `id`
/// in decimal, without sign or leading zeros.
pub open spec fn names_format(target: TargetView, id: u32) -> bool {
    match target {
        TargetView::Specific(name) => encode_utf8(name) == decimal_digits(id as nat),
        _ => false,
    }
}

fn malformed() -> (r: ClipboardError)
    ensures
        r@ == ErrorView::Protocol(malformed_format()),
{
    ClipboardError::Protocol("the target is not the number of a clipboard format".to_owned())
}

/// Resolves a target to the native format that is read for it.
pub fn get_target(target: &TargetMimeType) -> (r: Result<Format, ClipboardError>)
    ensures
        match format_of(target@) {
            Ok(format) => r == Ok::<Format, ClipboardError>(format),
            Err(e) => r matches Err(x) && x@ == e,
        },
{
    match target {
        TargetMimeType::Text => Ok(Format::Unicode),
        TargetMimeType::Bitmap => Ok(Format::Bitmap),
        TargetMimeType::Files => Ok(Format::FileList),
        TargetMimeType::Specific(s) => match parse_format_id(s.as_str()) {
            Some(id) => Ok(Format::Raw(id)),
            None => Err(malformed()),
        },
    }
}

/// Shapes `data` for writing under `target`.
pub fn payload(target: TargetMimeType, data: Vec<u8>) -> (r: Result<Payload, ClipboardError>)
    ensures
        match payload_of(target@, data@) {
            Ok(p) => r matches Ok(x) && x@ == p,
            Err(e) => r matches Err(x) && x@ == e,
        },
{
    match target {
        TargetMimeType::Text => match decode_text(data) {
            Ok(text) => Ok(Payload::Text(text)),
            Err(e) => Err(e),
        },
        TargetMimeType::Bitmap => Ok(Payload::Bitmap(data)),
        TargetMimeType::Files => match file_list(data) {
            Ok(paths) => Ok(Payload::Files(paths)),
            Err(e) => Err(e),
        },
        TargetMimeType::Specific(s) => match parse_format_id(s.as_str()) {
            Some(id) => Ok(Payload::Raw(id, data)),
            None => Err(malformed()),
        },
    }
}

/// The writes for `targets`, in order, up to the first target for which
/// nothing can be written, and the error of that target.
fn plan(targets: Vec<(TargetMimeType, Vec<u8>)>) -> (r: (Vec<Payload>, Option<ClipboardError>))
    ensures
        (payloads_view(r.0@), error_view(r.1)) == plan_of(targets@),
{
    let ghost all = targets@;
    let mut writes: Vec<Payload> = Vec::new();
    proof {
        assert(all.skip(0) == all);
        assert(payloads_view(writes@) + plan_of(all).0 == plan_of(all).0);
    }
    for pair in it: targets.into_iter()
        invariant
            it.seq() == all,
            0 <= it.index() <= all.len(),
            plan_of(all) == (
                payloads_view(writes@) + plan_of(all.skip(it.index() as int)).0,
                plan_of(all.skip(it.index() as int)).1,
            ),
    {
        let ghost i = it.index() as int;
        let ghost rest = all.skip(i);
        let ghost shown = payloads_view(writes@);
        let (target, data) = pair;
        assert(rest[0] == all[i]);
        assert(rest.drop_first() == all.skip(i + 1));
        match payload(target, data) {
            Ok(p) => {
                proof {
                    let after = plan_of(all.skip(i + 1)).0;
                    assert(payloads_view(writes@.push(p)) == shown.push(p@));
                    assert(shown.push(p@) + after == shown + (seq![p@] + after));
                }
                writes.push(p);
            },
            Err(e) => {
                assert(shown + Seq::<PayloadView>::empty() == shown);
                return (writes, Some(e));
            },
        }
    }
    proof {
        assert(all.skip(all.len() as int).len() == 0);
        assert(payloads_view(writes@) + Seq::<PayloadView>::empty() == payloads_view(writes@));
    }
    (writes, None)
}

/// The script that empties the clipboard, then adds `writes` in order, and
/// ends with `refusal` where there is one.
fn script(writes: Vec<Payload>, refusal: Option<ClipboardError>) -> (r: Script<WriteRequest>)
    ensures
        replaces_contents(r@, payloads_view(writes@), error_view(refusal)),
{
    let ghost all = writes@;
    let mut steps: Vec<ScriptStep<WriteRequest>> = Vec::new();
    steps.push(
        ScriptStep { request: WriteRequest::Empty { attempts: RETRY_ATTEMPTS }, failure: None },
    );
    for payload in it: writes.into_iter()
        invariant
            it.seq() == all,
            steps.len() == it.index() + 1,
            steps@[0].request@ == (RequestView::Empty { attempts: RETRY_ATTEMPTS }),
            forall|j: int|
                0 <= j < it.index() ==> (#[trigger] steps@[j + 1]).request@ == (RequestView::Put {
                    attempts: RETRY_ATTEMPTS,
                    payload: all[j]@,
                }),
            forall|j: int| 0 <= j < steps.len() ==> (#[trigger] steps@[j]).failure is None,
    {
        steps.push(
            ScriptStep {
                request: WriteRequest::Put { attempts: RETRY_ATTEMPTS, payload },
                failure: None,
            },
        );
    }
    let made = Script::new(steps, refusal);
    proof {
        let pending = made@.pending;
        assert forall|i: int| 0 <= i < all.len() implies (#[trigger] pending[i + 1]).0@ == (
        RequestView::Put { attempts: RETRY_ATTEMPTS, payload: payloads_view(all)[i] }) by {
            assert(pending[i + 1].0 == steps@[i + 1].request);
        }
        assert forall|i: int| 0 <= i < pending.len() implies (#[trigger] pending[i]).1 is None by {
            assert(steps@[i].failure is None);
        }
    }
    made
}

/// A context for the Windows clipboard. It holds nothing: the clipboard is
/// opened anew for each request.
#[derive(Debug, Clone, Copy)]
pub struct WindowsClipboardContext;

impl WindowsClipboardContext {
    /// Makes a context. Nothing is reached for yet, so this cannot fail.
    pub fn new() -> (r: Result<WindowsClipboardContext, ClipboardError>)
        ensures
            r is Ok,
    {
        Ok(WindowsClipboardContext)
    }

    /// The request that reads the clipboard's text. The answer goes to
    /// [`Self::after_get`], and what comes of it to
    /// [`crate::text::text_of`].
    pub fn get_contents(&self) -> (r: ReadRequest)
        ensures
            r == (ReadRequest { attempts: RETRY_ATTEMPTS, format: Format::Unicode }),
    {
        ReadRequest { attempts: RETRY_ATTEMPTS, format: Format::Unicode }
    }

    /// The request that reads `target`, or the error of a specific target
    /// that is no format number; then nothing is read. The answer goes to
    /// [`Self::after_get`].
    pub fn get_target_contents(&self, target: TargetMimeType) -> (r: Result<
        ReadRequest,
        ClipboardError,
    >)
        ensures
            match format_of(target@) {
                Ok(format) => r == Ok::<ReadRequest, ClipboardError>(
                    ReadRequest { attempts: RETRY_ATTEMPTS, format },
                ),
                Err(e) => r matches Err(x) && x@ == e,
            },
    {
        match get_target(&target) {
            Ok(format) => Ok(ReadRequest { attempts: RETRY_ATTEMPTS, format }),
            Err(e) => Err(e),
        }
    }

    /// Ends a read with what the system answered.
    pub fn after_get(&self, answer: Result<Fetched, SystemFailure>) -> (r: Result<
        Vec<u8>,
        ClipboardError,
    >)
        ensures
            crate::wait::bytes_result(r) == get_outcome(answer),
    {
        match answer {
            Ok(Fetched::Text(text)) => Ok(encode_text(text.as_str())),
            Ok(Fetched::Bytes(bytes)) => Ok(bytes),
            Ok(Fetched::Files(paths)) => Ok(join_lines(&paths)),
            Err(failure) => if failure.code == UNEXPECTED_ITEM_CODE {
                Ok(Vec::new())
            } else {
                Err(ClipboardError::Protocol(failure.message))
            },
        }
    }

    /// The script that puts `data` on the clipboard as its text, in place of
    /// what was there.
    pub fn set_contents(&self, data: String) -> (r: Script<WriteRequest>)
        ensures
            replaces_contents(r@, seq![PayloadView::Text(data@)], None),
    {
        let ghost text = data@;
        let mut writes: Vec<Payload> = Vec::new();
        writes.push(Payload::Text(data));
        assert(payloads_view(writes@) == seq![PayloadView::Text(text)]);
        script(writes, None)
    }

    /// The script that puts `data` on the clipboard under `target`, in place
    /// of what was there. Where `data` cannot be written under `target`, the
    /// clipboard is emptied all the same, and the script ends with the
    /// error.
    pub fn set_target_contents(&self, target: TargetMimeType, data: Vec<u8>) -> (r: Script<
        WriteRequest,
    >)
        ensures
            match payload_of(target@, data@) {
                Ok(p) => replaces_contents(r@, seq![p], None),
                Err(e) => replaces_contents(r@, Seq::empty(), Some(e)),
            },
    {
        let mut writes: Vec<Payload> = Vec::new();
        match payload(target, data) {
            Ok(p) => {
                let ghost value = p@;
                writes.push(p);
                assert(payloads_view(writes@) == seq![value]);
                script(writes, None)
            },
            Err(e) => {
                assert(payloads_view(writes@) == Seq::<PayloadView>::empty());
                script(writes, Some(e))
            },
        }
    }

    /// The script that puts all of `targets` on the clipboard, in place of
    /// what was there. The system takes one format at a time, so the
    /// clipboard is emptied once and the targets are written one after the
    /// other; others may see some of them before the rest. Writing stops
    /// before the first target that cannot be written, and the script ends
    /// with its error.
    pub fn set_multiple_targets(&self, targets: Vec<(TargetMimeType, Vec<u8>)>) -> (r: Script<
        WriteRequest,
    >)
        ensures
            replaces_contents(r@, plan_of(targets@).0, plan_of(targets@).1),
    {
        let (writes, refusal) = plan(targets);
        script(writes, refusal)
    }

    /// The request that lists the formats of the clipboard. The answer goes
    /// to [`Self::after_enumerate`].
    pub fn list_targets(&self) -> (r: ListRequest)
        ensures
            r == (ListRequest { attempts: RETRY_ATTEMPTS }),
    {
        ListRequest { attempts: RETRY_ATTEMPTS }
    }

    /// The targets that the system listed: each format number as a specific
    /// target that names it in decimal, in the order given.
    pub fn after_enumerate(&self, answer: Result<Vec<u32>, SystemFailure>) -> (r: Result<
        Vec<TargetMimeType>,
        ClipboardError,
    >)
        ensures
            match answer {
                Ok(ids) => r matches Ok(targets) && targets@.len() == ids@.len() && forall|i: int|
                    0 <= i < ids@.len() ==> names_format((#[trigger] targets@[i])@, ids@[i]),
                Err(failure) => r matches Err(e) && e@ == ErrorView::Protocol(failure.message@),
            },
    {
        match answer {
            Ok(ids) => {
                let mut targets: Vec<TargetMimeType> = Vec::new();
                let mut i: usize = 0;
                while i < ids.len()
                    invariant
                        i <= ids.len(),
                        targets.len() == i,
                        forall|j: int|
                            0 <= j < i ==> names_format((#[trigger] targets@[j])@, ids@[j]),
                    decreases ids.len() - i,
                {
                    targets.push(TargetMimeType::Specific(format_id_name(ids[i])));
                    i += 1;
                }
                Ok(targets)
            },
            Err(failure) => Err(ClipboardError::Protocol(failure.message)),
        }
    }

    /// The request that empties the clipboard. The answer goes to
    /// [`crate::common::finish`].
    pub fn clear(&self) -> (r: WriteRequest)
        ensures
            r@ == (RequestView::Empty { attempts: RETRY_ATTEMPTS }),
    {
        WriteRequest::Empty { attempts: RETRY_ATTEMPTS }
    }

    /// Begins a wait for `target`, in which a pause lasts `poll_duration`.
    /// The system lists its formats, so the wait starts with a snapshot of
    /// them.
    pub fn wait_for_target_contents(&self, target: TargetMimeType, poll_duration: Duration) -> (r:
        (Wait, WaitRequest))
        ensures
            (r.0@, r.1@) == crate::wait::spec_wait(true, target@, poll_duration),
    {
        Wait::start(true, target, poll_duration)
    }
}

/// Round trip of a numbered format: a target that is listed for the format
/// `id` is written and read under that same format, and the bytes pass
/// unchanged both ways.
pub proof fn lemma_round_trip_raw(name: Seq<char>, id: u32, data: Vec<u8>)
    requires
        encode_utf8(name) == decimal_digits(id as nat),
    ensures
        format_of(TargetView::Specific(name)) == Ok::<Format, ErrorView>(Format::Raw(id)),
        payload_of(TargetView::Specific(name), data@) == Ok::<PayloadView, ErrorView>(
            PayloadView::Raw(id, data@),
        ),
        get_outcome(Ok(Fetched::Bytes(data))) == Ok::<Seq<u8>, ErrorView>(data@),
{
    crate::text::lemma_format_id_round_trip(id);
}

/// Round trip of text: bytes that are UTF-8 are written as the string that
/// they encode, and that string is read back as the same bytes.
pub proof fn lemma_round_trip_text(data: Seq<u8>, fetched: String)
    requires
        valid_utf8(data),
        fetched@ == decode_utf8(data),
    ensures
        payload_of(TargetView::Text, data) == Ok::<PayloadView, ErrorView>(
            PayloadView::Text(fetched@),
        ),
        get_outcome(Ok(Fetched::Text(fetched))) == Ok::<Seq<u8>, ErrorView>(data),
{
    vstd::utf8::decode_utf8_encode_utf8(data);
}

/// Round trip of a list of files: bytes that are UTF-8 and are written as
/// lines joined by line feeds are written as those lines, and a clipboard
/// that holds those paths is read as the same bytes.
pub proof fn lemma_round_trip_files(data: Seq<u8>, fetched: Vec<String>)
    requires
        valid_utf8(data),
        crate::text::plain_lines(data),
        encoded(fetched@) == lines_of(data),
    ensures
        payload_of(TargetView::Files, data) == Ok::<PayloadView, ErrorView>(
            PayloadView::Files(encoded(fetched@)),
        ),
        get_outcome(Ok(Fetched::Files(fetched))) == Ok::<Seq<u8>, ErrorView>(data),
{
    crate::text::lemma_split_then_join(data);
}

/// Absence is empty: the system's answer that the item is not there is read
/// as empty contents and is no error.
pub proof fn lemma_absent_is_empty(failure: SystemFailure)
    requires
        failure.code == UNEXPECTED_ITEM_CODE,
    ensures
        get_outcome(Err(failure)) == Ok::<Seq<u8>, ErrorView>(Seq::empty()),
{
}

/// Multi-target publish: where something can be written for each of
/// `targets`, [`plan_of`] writes for each one what would be written for it
/// alone, in order, and reports no error.
pub proof fn lemma_plan_writes_all(targets: Seq<(TargetMimeType, Vec<u8>)>)
    requires
        forall|i: int|
            0 <= i < targets.len() ==> payload_of(
                (#[trigger] targets[i]).0@,
                targets[i].1@,
            ) is Ok,
    ensures
        plan_of(targets).1 is None,
        plan_of(targets).0.len() == targets.len(),
        forall|i: int|
            0 <= i < targets.len() ==> Ok::<PayloadView, ErrorView>(
                #[trigger] plan_of(targets).0[i],
            ) == payload_of(targets[i].0@, targets[i].1@),
    decreases targets.len(),
{
    if targets.len() > 0 {
        let rest = targets.drop_first();
        assert(payload_of(targets[0].0@, targets[0].1@) is Ok);
        assert forall|i: int| 0 <= i < rest.len() implies payload_of(
            (#[trigger] rest[i]).0@,
            rest[i].1@,
        ) is Ok by {
            assert(rest[i] == targets[i + 1]);
        }
        lemma_plan_writes_all(rest);
        assert forall|i: int| 0 <= i < targets.len() implies Ok::<PayloadView, ErrorView>(
            #[trigger] plan_of(targets).0[i],
        ) == payload_of(targets[i].0@, targets[i].1@) by {
            if i > 0 {
                assert(plan_of(targets).0[i] == plan_of(rest).0[i - 1]);
                assert(rest[i - 1] == targets[i]);
            }
        }
    }
}

} // verus!
