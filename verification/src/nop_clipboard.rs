//! A context for platforms without a clipboard: it holds nothing and offers
//! nothing.

use crate::common::{ClipboardError, ClipboardProvider, ErrorView, TargetMimeType};
use crate::text::decode_text;
use std::time::Duration;
use vstd::prelude::*;
use vstd::utf8::valid_utf8;

verus! {

/// The context of a platform without a clipboard. Reading finds nothing;
/// writing checks what it is given and drops it.
#[derive(Debug, Clone, Copy)]
pub struct NopClipboardContext;

/// What storing `targets` answers on a platform without a clipboard: only
/// the first target is looked at, and it has to be text.
pub open spec fn first_is_text(targets: Seq<(TargetMimeType, Vec<u8>)>) -> bool {
    targets.len() == 0 || valid_utf8(targets[0].1@)
}

impl ClipboardProvider for NopClipboardContext {
    /// Always succeeds.
    fn new() -> (r: Result<NopClipboardContext, ClipboardError>)
        ensures
            r is Ok,
    {
        Ok(NopClipboardContext)
    }

    /// The empty string.
    fn get_contents(&mut self) -> (r: Result<String, ClipboardError>)
        ensures
            r matches Ok(text) && text@.len() == 0,
    {
        Ok(String::new())
    }

    /// Drops `contents`.
    fn set_contents(&mut self, contents: String) -> (r: Result<(), ClipboardError>)
        ensures
            r is Ok,
    {
        Ok(())
    }

    /// No bytes, whatever the target.
    fn get_target_contents(&mut self, target: TargetMimeType, poll_duration: Duration) -> (r:
        Result<Vec<u8>, ClipboardError>)
        ensures
            r matches Ok(bytes) && bytes@.len() == 0,
    {
        Ok(Vec::new())
    }

    /// No bytes, at once: there is nothing to wait for.
    fn wait_for_target_contents(&mut self, target: TargetMimeType, poll_duration: Duration) -> (r:
        Result<Vec<u8>, ClipboardError>)
        ensures
            r matches Ok(bytes) && bytes@.len() == 0,
    {
        self.get_target_contents(target, poll_duration)
    }

    /// Takes `data` as text, whatever the target: bytes that are not UTF-8
    /// are a decoding error, any others are dropped.
    fn set_target_contents(&mut self, target: TargetMimeType, data: Vec<u8>) -> (r: Result<
        (),
        ClipboardError,
    >)
        ensures
            r is Ok <==> valid_utf8(data@),
            r matches Err(e) ==> e@ == ErrorView::Decoding,
    {
        match decode_text(data) {
            Ok(text) => self.set_contents(text),
            Err(e) => Err(e),
        }
    }

    /// Takes the first of `targets` as [`Self::set_target_contents`] does,
    /// and looks at no other.
    fn set_multiple_targets(&mut self, targets: Vec<(TargetMimeType, Vec<u8>)>) -> (r: Result<
        (),
        ClipboardError,
    >)
        ensures
            r is Ok <==> first_is_text(targets@),
            r matches Err(e) ==> e@ == ErrorView::Decoding,
    {
        let mut targets = targets;
        if targets.len() > 0 {
            let (key, value) = targets.swap_remove(0);
            return self.set_target_contents(key, value);
        }
        Ok(())
    }

    /// No targets.
    fn list_targets(&self) -> (r: Result<Vec<TargetMimeType>, ClipboardError>)
        ensures
            r matches Ok(targets) && targets@.len() == 0,
    {
        Ok(Vec::new())
    }

    /// Nothing to give up.
    fn clear(&mut self) -> (r: Result<(), ClipboardError>)
        ensures
            r is Ok,
    {
        Ok(())
    }
}

} // verus!
