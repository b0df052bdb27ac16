//! The macOS backend: the general pasteboard, which holds objects of a few
//! classes and raw data under uniform type identifiers.

use crate::common::{specific_targets, ClipboardError, ErrorView, TargetMimeType, TargetView};
use crate::script::{error_view, Script, ScriptStep, ScriptView};
use crate::text::{
    byte_lines, decode_text, encoded, file_list, join_lines, joined, lines_of,
};
use crate::wait::{Wait, WaitRequest};
use std::time::Duration;
use vstd::prelude::*;
use vstd::string::StringExecFns;
use vstd::utf8::{decode_utf8, encode_utf8, valid_utf8};

verus! {

/// The type identifier of plain text.
pub const MIME_TEXT: &'static str = "public.utf8-plain-text";

/// The type identifier of a file's address.
pub const MIME_URI: &'static str = "public.file-url";

/// The type identifier of a bitmap.
pub const MIME_BITMAP: &'static str = "public.tiff";

/// What a read asks the pasteboard for.
#[derive(Debug, Clone)]
pub enum Query {
    /// The strings on the pasteboard.
    Strings,
    /// The images on the pasteboard, each as the bytes of a TIFF file.
    Images,
    /// The addresses on the pasteboard, each written out in full.
    Urls,
    /// The data under this type identifier.
    Data(String),
}

/// The mathematical value of a [`Query`].
pub enum QueryView {
    Strings,
    Images,
    Urls,
    Data(Seq<char>),
}

impl View for Query {
    type V = QueryView;

    open spec fn view(&self) -> QueryView {
        match self {
            Query::Strings => QueryView::Strings,
            Query::Images => QueryView::Images,
            Query::Urls => QueryView::Urls,
            Query::Data(uti) => QueryView::Data(uti@),
        }
    }
}

/// What the pasteboard handed back.
#[derive(Debug, Clone)]
pub enum Found {
    Strings(Vec<String>),
    Images(Vec<Vec<u8>>),
    Urls(Vec<String>),
    Data(Vec<u8>),
}

/// An object to put on the pasteboard.
#[derive(Debug, Clone)]
pub enum PasteboardObject {
    /// A string.
    Text(String),
    /// An image, made from the bytes of an image file.
    Image(Vec<u8>),
    /// The address of the file at this path.
    FileUrl(String),
    /// An item that holds `data` under the type identifier `uti`.
    Item { uti: String, data: Vec<u8> },
}

/// The mathematical value of a [`PasteboardObject`]. A path is held by its
/// bytes.
pub enum ObjectView {
    Text(Seq<char>),
    Image(Seq<u8>),
    FileUrl(Seq<u8>),
    Item { uti: Seq<char>, data: Seq<u8> },
}

impl View for PasteboardObject {
    type V = ObjectView;

    open spec fn view(&self) -> ObjectView {
        match self {
            PasteboardObject::Text(text) => ObjectView::Text(text@),
            PasteboardObject::Image(bytes) => ObjectView::Image(bytes@),
            PasteboardObject::FileUrl(path) => ObjectView::FileUrl(encode_utf8(path@)),
            PasteboardObject::Item { uti, data } => ObjectView::Item { uti: uti@, data: data@ },
        }
    }
}

/// A native request that changes the pasteboard.
#[derive(Debug, Clone)]
pub enum WriteRequest {
    /// Clear the pasteboard.
    Clear,
    /// Have the system make this object, and keep it for writing.
    Make(PasteboardObject),
    /// Write together all the objects that were made since the pasteboard
    /// was cleared.
    Write,
}

/// The mathematical value of a [`WriteRequest`].
pub enum RequestView {
    Clear,
    Make(ObjectView),
    Write,
}

impl View for WriteRequest {
    type V = RequestView;

    open spec fn view(&self) -> RequestView {
        match self {
            WriteRequest::Clear => RequestView::Clear,
            WriteRequest::Make(object) => RequestView::Make(object@),
            WriteRequest::Write => RequestView::Write,
        }
    }
}

/// Tells whether `script` is the script that replaces the pasteboard's
/// contents by `objects`: first the pasteboard is cleared; then the system
/// makes `objects` one after the other, in order, and an object that it
/// rejects ends the script with the error of [`rejection`]; then the script
/// ends with `refusal`, where there is one, and nothing is written; else all
/// the objects are written together, and if the pasteboard does not take
/// them the script ends with the error that says so.
pub open spec fn replaces_contents(
    script: ScriptView<WriteRequest>,
    objects: Seq<ObjectView>,
    refusal: Option<ErrorView>,
) -> bool {
    let written: int = if refusal is None {
        1
    } else {
        0
    };
    &&& script.in_flight is None
    &&& script.refusal == refusal
    &&& script.pending.len() == objects.len() + 1 + written
    &&& script.pending[0].0@ == RequestView::Clear
    &&& script.pending[0].1 is None
    &&& forall|i: int|
        0 <= i < objects.len() ==> (#[trigger] script.pending[i + 1]).0@ == RequestView::Make(
            objects[i],
        ) && script.pending[i + 1].1 == Some(
            ErrorView::Protocol(rejection_message(objects[i])),
        )
    &&& refusal is None ==> script.pending.last().0@ == RequestView::Write
        && script.pending.last().1 == Some(ErrorView::Protocol(unable_to_set()))
}

/// The values of a list of objects.
pub open spec fn objects_view(objects: Seq<PasteboardObject>) -> Seq<ObjectView> {
    Seq::new(objects.len(), |i: int| objects[i]@)
}

/// What a read asks for to get a target: objects of one class for `Text`,
/// `Bitmap` and `Files`, and the data under its identifier for a specific
/// target.
pub open spec fn query_of(target: TargetView) -> QueryView {
    match target {
        TargetView::Text => QueryView::Strings,
        TargetView::Bitmap => QueryView::Images,
        TargetView::Files => QueryView::Urls,
        TargetView::Specific(uti) => QueryView::Data(uti),
    }
}

/// `parts` one after the other.
pub open spec fn concatenated(parts: Seq<Seq<u8>>) -> Seq<u8>
    decreases parts.len(),
{
    if parts.len() == 0 {
        Seq::empty()
    } else {
        concatenated(parts.drop_last()) + parts.last()
    }
}

/// The bytes that a read hands to its caller: nothing where the pasteboard
/// handed nothing back; strings and addresses joined by line feeds; the
/// bytes of images one after the other; data as it is.
pub open spec fn found_bytes(answer: Option<Found>) -> Seq<u8> {
    match answer {
        None => Seq::empty(),
        Some(Found::Strings(strings)) => joined(encoded(strings@)),
        Some(Found::Images(images)) => concatenated(byte_lines(images@)),
        Some(Found::Urls(urls)) => joined(encoded(urls@)),
        Some(Found::Data(bytes)) => bytes@,
    }
}

/// The addresses of the files at `paths`, in order.
pub open spec fn file_urls(paths: Seq<Seq<u8>>) -> Seq<ObjectView> {
    Seq::new(paths.len(), |i: int| ObjectView::FileUrl(paths[i]))
}

/// The objects that are written for `data` under `target`. Text has to be
/// UTF-8 and is one string; a list of files has to be UTF-8 and is one
/// address for each of its lines; a bitmap is one image; a specific target is
/// one item that holds the bytes as they are.
pub open spec fn objects_of(target: TargetView, data: Seq<u8>) -> Result<
    Seq<ObjectView>,
    ErrorView,
> {
    match target {
        TargetView::Text => if valid_utf8(data) {
            Ok(seq![ObjectView::Text(decode_utf8(data))])
        } else {
            Err(ErrorView::Decoding)
        },
        TargetView::Bitmap => Ok(seq![ObjectView::Image(data)]),
        TargetView::Files => if valid_utf8(data) {
            Ok(file_urls(lines_of(data)))
        } else {
            Err(ErrorView::Decoding)
        },
        TargetView::Specific(uti) => Ok(seq![ObjectView::Item { uti, data }]),
    }
}

/// The objects for `targets`, in order, up to the first target for which
/// there are none, and the error of that target.
pub open spec fn plan_of(targets: Seq<(TargetMimeType, Vec<u8>)>) -> (
    Seq<ObjectView>,
    Option<ErrorView>,
)
    decreases targets.len(),
{
    if targets.len() == 0 {
        (Seq::empty(), None)
    } else {
        match objects_of(targets[0].0@, targets[0].1@) {
            Ok(objects) => {
                let (more, refusal) = plan_of(targets.drop_first());
                (objects + more, refusal)
            },
            Err(e) => (Seq::empty(), Some(e)),
        }
    }
}

/// The message for image data of which the system makes no image.
pub open spec fn invalid_image() -> Seq<char> {
    "Invalid image data provided"@
}

/// The beginning of the message for a type identifier that the system does
/// not take; the identifier follows.
pub open spec fn invalid_uti() -> Seq<char> {
    "Invalid UTI provided "@
}

/// The message for objects that the pasteboard did not take.
pub open spec fn unable_to_set() -> Seq<char> {
    "Unable to set clipboard"@
}

/// The message for an object that the system could not make.
pub open spec fn rejection_message(object: ObjectView) -> Seq<char> {
    match object {
        ObjectView::Text(_) => "Invalid text provided"@,
        ObjectView::Image(_) => invalid_image(),
        ObjectView::FileUrl(_) => "Invalid path provided"@,
        ObjectView::Item { uti, data } => invalid_uti() + uti,
    }
}

/// The error to report for an object that the system could not make.
pub fn rejection(object: &PasteboardObject) -> (r: ClipboardError)
    ensures
        r@ == ErrorView::Protocol(rejection_message(object@)),
{
    let message = match object {
        PasteboardObject::Text(_) => "Invalid text provided".to_owned(),
        PasteboardObject::Image(_) => "Invalid image data provided".to_owned(),
        PasteboardObject::FileUrl(_) => "Invalid path provided".to_owned(),
        PasteboardObject::Item { uti, data } => "Invalid UTI provided ".to_owned().concat(
            uti.as_str(),
        ),
    };
    ClipboardError::Protocol(message)
}

/// Resolves a target to what the pasteboard is asked for.
pub fn get_target(target: TargetMimeType) -> (r: Query)
    ensures
        r@ == query_of(target@),
{
    match target {
        TargetMimeType::Text => Query::Strings,
        TargetMimeType::Bitmap => Query::Images,
        TargetMimeType::Files => Query::Urls,
        TargetMimeType::Specific(uti) => Query::Data(uti),
    }
}

/// The parts of `parts` one after the other.
pub fn concatenate(parts: &Vec<Vec<u8>>) -> (r: Vec<u8>)
    ensures
        r@ == concatenated(byte_lines(parts@)),
{
    let mut out: Vec<u8> = Vec::new();
    let mut i: usize = 0;
    while i < parts.len()
        invariant
            i <= parts.len(),
            out@ == concatenated(byte_lines(parts@).take(i as int)),
        decreases parts.len() - i,
    {
        let mut piece = parts[i].clone();
        assert(piece@ == parts@[i as int]@);
        out.append(&mut piece);
        proof {
            let all = byte_lines(parts@);
            let next = all.take(i as int + 1);
            assert(next.drop_last() == all.take(i as int));
            assert(next.last() == parts@[i as int]@);
        }
        i += 1;
    }
    proof {
        assert(byte_lines(parts@).take(parts.len() as int) == byte_lines(parts@));
    }
    out
}

/// The objects that are written for `data` under `target`.
pub fn objects(target: TargetMimeType, data: Vec<u8>) -> (r: Result<
    Vec<PasteboardObject>,
    ClipboardError,
>)
    ensures
        match objects_of(target@, data@) {
            Ok(expected) => r matches Ok(made) && objects_view(made@) == expected,
            Err(e) => r matches Err(x) && x@ == e,
        },
{
    let mut made: Vec<PasteboardObject> = Vec::new();
    match target {
        TargetMimeType::Text => match decode_text(data) {
            Ok(text) => {
                let ghost value = text@;
                made.push(PasteboardObject::Text(text));
                assert(objects_view(made@) == seq![ObjectView::Text(value)]);
                Ok(made)
            },
            Err(e) => Err(e),
        },
        TargetMimeType::Bitmap => {
            let ghost bytes = data@;
            made.push(PasteboardObject::Image(data));
            assert(objects_view(made@) == seq![ObjectView::Image(bytes)]);
            Ok(made)
        },
        TargetMimeType::Files => match file_list(data) {
            Ok(paths) => {
                let ghost all = paths@;
                for path in it: paths.into_iter()
                    invariant
                        it.seq() == all,
                        made.len() == it.index(),
                        forall|j: int|
                            0 <= j < made.len() ==> (#[trigger] made@[j])@ == ObjectView::FileUrl(
                                encode_utf8(all[j]@),
                            ),
                {
                    made.push(PasteboardObject::FileUrl(path));
                }
                assert(objects_view(made@) == file_urls(encoded(all)));
                Ok(made)
            },
            Err(e) => Err(e),
        },
        TargetMimeType::Specific(uti) => {
            let ghost name = uti@;
            let ghost bytes = data@;
            made.push(PasteboardObject::Item { uti, data });
            assert(objects_view(made@) == seq![ObjectView::Item { uti: name, data: bytes }]);
            Ok(made)
        },
    }
}

/// The objects for `targets`, in order, up to the first target for which
/// there are none, and the error of that target.
fn plan(targets: Vec<(TargetMimeType, Vec<u8>)>) -> (r: (
    Vec<PasteboardObject>,
    Option<ClipboardError>,
))
    ensures
        (objects_view(r.0@), error_view(r.1)) == plan_of(targets@),
{
    let ghost all = targets@;
    let mut planned: Vec<PasteboardObject> = Vec::new();
    proof {
        assert(all.skip(0) == all);
        assert(objects_view(planned@) + plan_of(all).0 == plan_of(all).0);
    }
    for pair in it: targets.into_iter()
        invariant
            it.seq() == all,
            0 <= it.index() <= all.len(),
            plan_of(all) == (
                objects_view(planned@) + plan_of(all.skip(it.index() as int)).0,
                plan_of(all.skip(it.index() as int)).1,
            ),
    {
        let ghost i = it.index() as int;
        let ghost rest = all.skip(i);
        let ghost shown = objects_view(planned@);
        let (target, data) = pair;
        assert(rest[0] == all[i]);
        assert(rest.drop_first() == all.skip(i + 1));
        match objects(target, data) {
            Ok(made) => {
                let mut made = made;
                proof {
                    let after = plan_of(all.skip(i + 1)).0;
                    assert(objects_view(planned@ + made@) == shown + objects_view(made@));
                    assert((shown + objects_view(made@)) + after == shown + (objects_view(
                        made@,
                    ) + after));
                }
                planned.append(&mut made);
            },
            Err(e) => {
                assert(shown + Seq::<ObjectView>::empty() == shown);
                return (planned, Some(e));
            },
        }
    }
    proof {
        assert(all.skip(all.len() as int).len() == 0);
        assert(objects_view(planned@) + Seq::<ObjectView>::empty() == objects_view(planned@));
    }
    (planned, None)
}

/// The script that clears the pasteboard, has `objects` made in order, and
/// ends with `refusal` where there is one and with writing the objects
/// where there is none.
fn script(objects: Vec<PasteboardObject>, refusal: Option<ClipboardError>) -> (r: Script<
    WriteRequest,
>)
    ensures
        replaces_contents(r@, objects_view(objects@), error_view(refusal)),
{
    let ghost all = objects@;
    let mut steps: Vec<ScriptStep<WriteRequest>> = Vec::new();
    steps.push(ScriptStep { request: WriteRequest::Clear, failure: None });
    for object in it: objects.into_iter()
        invariant
            it.seq() == all,
            steps.len() == it.index() + 1,
            steps@[0].request@ == RequestView::Clear,
            steps@[0].failure is None,
            forall|j: int|
                0 <= j < it.index() ==> (#[trigger] steps@[j + 1]).request@ == RequestView::Make(
                    all[j]@,
                ) && error_view(steps@[j + 1].failure) == Some(
                    ErrorView::Protocol(rejection_message(all[j]@)),
                ),
    {
        let failure = rejection(&object);
        steps.push(ScriptStep { request: WriteRequest::Make(object), failure: Some(failure) });
    }
    if refusal.is_none() {
        let failure = ClipboardError::Protocol("Unable to set clipboard".to_owned());
        steps.push(ScriptStep { request: WriteRequest::Write, failure: Some(failure) });
    }
    let made = Script::new(steps, refusal);
    proof {
        let pending = made@.pending;
        assert(pending[0].0 == steps@[0].request);
        assert forall|i: int| 0 <= i < all.len() implies (#[trigger] pending[i + 1]).0@
            == RequestView::Make(objects_view(all)[i]) && pending[i + 1].1 == Some(
            ErrorView::Protocol(rejection_message(objects_view(all)[i])),
        ) by {
            assert(pending[i + 1].0 == steps@[i + 1].request);
        }
        if refusal is None {
            assert(pending.last().0 == steps@[steps.len() - 1].request);
        }
    }
    made
}

/// A context for the general pasteboard. It holds nothing: the pasteboard is
/// always there.
#[derive(Debug, Clone, Copy)]
pub struct OSXClipboardContext;

impl OSXClipboardContext {
    /// Makes a context. The general pasteboard is always there, so this
    /// cannot fail.
    pub fn new() -> (r: Result<OSXClipboardContext, ClipboardError>)
        ensures
            r is Ok,
    {
        Ok(OSXClipboardContext)
    }

    /// What is asked for to read the clipboard's text. The answer goes to
    /// [`Self::after_read`], and the bytes that come of it to
    /// [`crate::text::decode_text`].
    pub fn get_contents(&self) -> (r: Query)
        ensures
            r@ == QueryView::Strings,
    {
        Query::Strings
    }

    /// What is asked for to read `target`. The answer goes to
    /// [`Self::after_read`].
    pub fn get_target_contents(&self, target: TargetMimeType) -> (r: Query)
        ensures
            r@ == query_of(target@),
    {
        get_target(target)
    }

    /// Ends a read with what the pasteboard handed back. A read cannot fail
    /// here: what is not there is empty.
    pub fn after_read(&self, answer: Option<Found>) -> (r: Vec<u8>)
        ensures
            r@ == found_bytes(answer),
    {
        match answer {
            None => Vec::new(),
            Some(Found::Strings(strings)) => join_lines(&strings),
            Some(Found::Images(images)) => concatenate(&images),
            Some(Found::Urls(urls)) => join_lines(&urls),
            Some(Found::Data(bytes)) => bytes,
        }
    }

    /// The script that puts `data` on the pasteboard as its text, in place of
    /// what was there.
    pub fn set_contents(&self, data: String) -> (r: Script<WriteRequest>)
        ensures
            replaces_contents(r@, seq![ObjectView::Text(data@)], None),
    {
        let ghost text = data@;
        let mut objects: Vec<PasteboardObject> = Vec::new();
        objects.push(PasteboardObject::Text(data));
        assert(objects_view(objects@) == seq![ObjectView::Text(text)]);
        script(objects, None)
    }

    /// The script that puts `data` on the pasteboard under `target`, in
    /// place of what was there. Where there are no objects for `data` under
    /// `target`, the pasteboard is cleared all the same, and the script ends
    /// with the error.
    pub fn set_target_contents(&self, target: TargetMimeType, data: Vec<u8>) -> (r: Script<
        WriteRequest,
    >)
        ensures
            match objects_of(target@, data@) {
                Ok(expected) => replaces_contents(r@, expected, None),
                Err(e) => replaces_contents(r@, Seq::empty(), Some(e)),
            },
    {
        match objects(target, data) {
            Ok(made) => script(made, None),
            Err(e) => {
                let none: Vec<PasteboardObject> = Vec::new();
                assert(objects_view(none@) == Seq::<ObjectView>::empty());
                script(none, Some(e))
            },
        }
    }

    /// The script that puts all of `targets` on the pasteboard as one offer,
    /// in place of what was there. Nothing is written unless there are
    /// objects for every target.
    pub fn set_multiple_targets(&self, targets: Vec<(TargetMimeType, Vec<u8>)>) -> (r: Script<
        WriteRequest,
    >)
        ensures
            replaces_contents(r@, plan_of(targets@).0, plan_of(targets@).1),
    {
        let (objects, refusal) = plan(targets);
        script(objects, refusal)
    }

    /// The request that clears the pasteboard. It cannot fail.
    pub fn clear(&self) -> (r: WriteRequest)
        ensures
            r@ == RequestView::Clear,
    {
        WriteRequest::Clear
    }

    /// The targets that the pasteboard listed: each type identifier as a
    /// specific target, in the order given; none where it handed no list
    /// back.
    pub fn after_types(&self, answer: Option<Vec<String>>) -> (r: Vec<TargetMimeType>)
        ensures
            match answer {
                Some(names) => r@.len() == names@.len() && forall|i: int|
                    0 <= i < names@.len() ==> (#[trigger] r@[i])@ == TargetView::Specific(
                        names@[i]@,
                    ),
                None => r@.len() == 0,
            },
    {
        match answer {
            Some(names) => specific_targets(names),
            None => Vec::new(),
        }
    }

    /// Begins a wait for `target`, in which a pause lasts `poll_duration`.
    /// The pasteboard lists its types, so the wait starts with a snapshot of
    /// them.
    pub fn wait_for_target_contents(&self, target: TargetMimeType, poll_duration: Duration) -> (r:
        (Wait, WaitRequest))
        ensures
            (r.0@, r.1@) == crate::wait::spec_wait(true, target@, poll_duration),
    {
        Wait::start(true, target, poll_duration)
    }
}

/// Round trip of a specific target: its bytes are written as one item under
/// its type identifier, the data under the same identifier is asked for, and
/// what is found is handed on as it is.
pub proof fn lemma_round_trip_data(uti: Seq<char>, data: Vec<u8>)
    ensures
        objects_of(TargetView::Specific(uti), data@) == Ok::<Seq<ObjectView>, ErrorView>(
            seq![ObjectView::Item { uti, data: data@ }],
        ),
        query_of(TargetView::Specific(uti)) == QueryView::Data(uti),
        found_bytes(Some(Found::Data(data))) == data@,
{
}

/// Round trip of text: bytes that are UTF-8 are written as the one string
/// that they encode, and a pasteboard that holds that string is read as the
/// same bytes.
pub proof fn lemma_round_trip_text(data: Seq<u8>, found: Vec<String>)
    requires
        valid_utf8(data),
        found@.len() == 1,
        found@[0]@ == decode_utf8(data),
    ensures
        objects_of(TargetView::Text, data) == Ok::<Seq<ObjectView>, ErrorView>(
            seq![ObjectView::Text(found@[0]@)],
        ),
        found_bytes(Some(Found::Strings(found))) == data,
{
    vstd::utf8::decode_utf8_encode_utf8(data);
    assert(encoded(found@)[0] == data);
}

/// Multi-target publish: where there are objects for each of `targets`, the
/// plan holds for each one the objects that would be written for it alone,
/// in order, and reports no error.
pub proof fn lemma_plan_holds_all(targets: Seq<(TargetMimeType, Vec<u8>)>)
    requires
        forall|i: int|
            0 <= i < targets.len() ==> objects_of(
                (#[trigger] targets[i]).0@,
                targets[i].1@,
            ) is Ok,
    ensures
        plan_of(targets).1 is None,
        targets.len() > 0 ==> plan_of(targets).0 == objects_of(
            targets[0].0@,
            targets[0].1@,
        )->Ok_0 + plan_of(targets.drop_first()).0,
    decreases targets.len(),
{
    if targets.len() > 0 {
        let rest = targets.drop_first();
        assert(objects_of(targets[0].0@, targets[0].1@) is Ok);
        assert forall|i: int| 0 <= i < rest.len() implies objects_of(
            (#[trigger] rest[i]).0@,
            rest[i].1@,
        ) is Ok by {
            assert(rest[i] == targets[i + 1]);
        }
        lemma_plan_holds_all(rest);
    }
}

/// Absence is empty: a pasteboard that hands nothing back is read as empty
/// contents.
pub proof fn lemma_absent_is_empty()
    ensures
        found_bytes(None) == Seq::<u8>::empty(),
{
}

} // verus!
