//! The vocabulary shared by every backend: targets, errors and the provider
//! interface.

use std::time::Duration;
use vstd::prelude::*;

verus! {

/// A category of clipboard content.
///
/// `Specific` carries a format identifier of one backend: a MIME type on
/// Linux, a format number written in decimal on Windows, a uniform type
/// identifier on macOS. It is checked when an operation uses it, not when the
/// value is made.
#[derive(Debug, Clone, Hash)]
pub enum TargetMimeType {
    Text,
    Bitmap,
    Files,
    Specific(String),
}

/// The mathematical value of a [`TargetMimeType`].
pub enum TargetView {
    Text,
    Bitmap,
    Files,
    Specific(Seq<char>),
}

impl View for TargetMimeType {
    type V = TargetView;

    open spec fn view(&self) -> TargetView {
        match self {
            TargetMimeType::Text => TargetView::Text,
            TargetMimeType::Bitmap => TargetView::Bitmap,
            TargetMimeType::Files => TargetView::Files,
            TargetMimeType::Specific(s) => TargetView::Specific(s@),
        }
    }
}

impl PartialEq for TargetMimeType {
    fn eq(&self, other: &TargetMimeType) -> (r: bool) {
        match self {
            TargetMimeType::Text => match other {
                TargetMimeType::Text => true,
                _ => false,
            },
            TargetMimeType::Bitmap => match other {
                TargetMimeType::Bitmap => true,
                _ => false,
            },
            TargetMimeType::Files => match other {
                TargetMimeType::Files => true,
                _ => false,
            },
            TargetMimeType::Specific(a) => match other {
                TargetMimeType::Specific(b) => a.eq(b),
                _ => false,
            },
        }
    }
}

impl Eq for TargetMimeType {}

impl vstd::std_specs::cmp::PartialEqSpecImpl for TargetMimeType {
    open spec fn obeys_eq_spec() -> bool {
        true
    }

    open spec fn eq_spec(&self, other: &TargetMimeType) -> bool {
        self@ == other@
    }
}

impl From<&str> for TargetMimeType {
    /// A bare string names a backend-specific format.
    fn from(value: &str) -> (r: TargetMimeType)
        ensures
            r@ == TargetView::Specific(value@),
    {
        TargetMimeType::Specific(value.to_owned())
    }
}

/// The result of `from` is stated on `from` itself, through its view: nothing
/// makes a string in a specification, so there is no value to name here.
impl vstd::std_specs::convert::FromSpecImpl<&str> for TargetMimeType {
    open spec fn obeys_from_spec() -> bool {
        false
    }

    open spec fn from_spec(value: &str) -> TargetMimeType {
        arbitrary()
    }
}

/// Why an operation failed. An absent target is not among the reasons: it is
/// reported as empty content.
#[derive(Debug, Clone)]
pub enum ClipboardError {
    /// The native subsystem could not be reached when the context was made.
    Construction(String),
    /// Text was asked for or given, and the bytes are not UTF-8.
    Decoding,
    /// A native call failed for another reason than an absent target.
    Protocol(String),
}

/// The mathematical value of a [`ClipboardError`].
pub enum ErrorView {
    Construction(Seq<char>),
    Decoding,
    Protocol(Seq<char>),
}

impl View for ClipboardError {
    type V = ErrorView;

    open spec fn view(&self) -> ErrorView {
        match self {
            ClipboardError::Construction(m) => ErrorView::Construction(m@),
            ClipboardError::Decoding => ErrorView::Decoding,
            ClipboardError::Protocol(m) => ErrorView::Protocol(m@),
        }
    }
}

impl ClipboardError {
    /// The text that describes the error.
    pub fn message(&self) -> (r: String)
        ensures
            r@ == match self@ {
                ErrorView::Construction(m) => m,
                ErrorView::Decoding => "clipboard text is not valid UTF-8"@,
                ErrorView::Protocol(m) => m,
            },
    {
        match self {
            ClipboardError::Construction(m) => m.clone(),
            ClipboardError::Decoding => "clipboard text is not valid UTF-8".to_owned(),
            ClipboardError::Protocol(m) => m.clone(),
        }
    }
}

/// The operations of a clipboard context.
///
/// Content that is absent is returned as an empty value with `Ok`; an `Err`
/// always stands for a failure of the native subsystem or of a conversion.
pub trait ClipboardProvider: Sized {
    /// Makes a context with which to reach the clipboard.
    fn new() -> (r: Result<Self, ClipboardError>);

    /// The clipboard's plain text.
    fn get_contents(&mut self) -> (r: Result<String, ClipboardError>);

    /// Puts plain text on the clipboard.
    fn set_contents(&mut self, contents: String) -> (r: Result<(), ClipboardError>);

    /// The bytes offered for `target`; empty where it is not offered.
    /// `poll_duration` bounds how long a backend that blocks may take.
    fn get_target_contents(&mut self, target: TargetMimeType, poll_duration: Duration) -> (r:
        Result<Vec<u8>, ClipboardError>);

    /// Waits until `target` is offered and not empty, the offered targets
    /// change, or the wait bound has passed; `poll_duration` is the pause
    /// between two attempts.
    fn wait_for_target_contents(&mut self, target: TargetMimeType, poll_duration: Duration) -> (r:
        Result<Vec<u8>, ClipboardError>);

    /// Publishes `data` under `target`, in place of what was offered before.
    fn set_target_contents(&mut self, target: TargetMimeType, data: Vec<u8>) -> (r: Result<
        (),
        ClipboardError,
    >);

    /// Publishes several targets as one offer.
    fn set_multiple_targets(&mut self, targets: Vec<(TargetMimeType, Vec<u8>)>) -> (r: Result<
        (),
        ClipboardError,
    >);

    /// Every target that the clipboard's owner offers; empty without an owner.
    fn list_targets(&self) -> (r: Result<Vec<TargetMimeType>, ClipboardError>);

    /// Gives the clipboard up.
    fn clear(&mut self) -> (r: Result<(), ClipboardError>);
}

/// One turn of an operation that needs the native clipboard: the request to
/// make next, or the result of the operation.
#[derive(Debug)]
pub enum Step<Q, T> {
    /// The native layer is to perform this request and report what came.
    Call(Q),
    /// The operation is over.
    Done(Result<T, ClipboardError>),
}

/// Reports the outcome of a native call that hands nothing back: a failure
/// of the native layer is a protocol error with the native message.
pub fn finish(outcome: Result<(), String>) -> (r: Result<(), ClipboardError>)
    ensures
        outcome is Ok ==> r is Ok,
        outcome matches Err(message) ==> r matches Err(e) && e@ == ErrorView::Protocol(message@),
{
    match outcome {
        Ok(()) => Ok(()),
        Err(message) => Err(ClipboardError::Protocol(message)),
    }
}

/// Names of native formats as targets: each name as a specific target, in
/// the order given.
pub fn specific_targets(names: Vec<String>) -> (r: Vec<TargetMimeType>)
    ensures
        r@.len() == names@.len(),
        forall|i: int|
            0 <= i < names@.len() ==> (#[trigger] r@[i])@ == TargetView::Specific(names@[i]@),
{
    let ghost all = names@;
    let mut targets: Vec<TargetMimeType> = Vec::new();
    for name in it: names.into_iter()
        invariant
            it.seq() == all,
            targets.len() == it.index(),
            forall|j: int|
                0 <= j < targets.len() ==> (#[trigger] targets@[j])@ == TargetView::Specific(
                    all[j]@,
                ),
    {
        targets.push(TargetMimeType::Specific(name));
    }
    targets
}

} // verus!
