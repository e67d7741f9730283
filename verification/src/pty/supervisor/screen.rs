//! The terminal emulator behind a session, as far as the library needs one.
//!
//! What an emulator makes of the bytes it is given is its own affair. What is stated here is which
//! calls are made, on what, and in which order.

use crate::pty::{FrameModel, PtySize, PtyTerminalFrame};
use vstd::prelude::*;

verus! {

/// A terminal emulator: it turns the bytes of a session into a screen.
pub trait ScreenEmulator: Sized {
    /// Begins anew with an empty screen.
    fn reset(self, size: PtySize) -> Self;

    /// Takes output.
    fn feed(self, bytes: &[u8]) -> Self;

    /// Changes the size of the screen.
    fn resize(self, size: PtySize) -> Self;

    /// The bytes that draw the current screen.
    fn snapshot(&self) -> Vec<u8>;
}

/// An emulator was given output, and may look like `after` now.
pub open spec fn fed<S: ScreenEmulator>(before: S, data: Seq<u8>, after: S) -> bool {
    exists|bytes: &[u8]| bytes@ == data && #[trigger] call_ensures(S::feed, (before, bytes), after)
}

/// An emulator was made to begin anew and then given output, and may look like `after` now.
pub open spec fn redrawn<S: ScreenEmulator>(
    before: S,
    size: PtySize,
    data: Seq<u8>,
    after: S,
) -> bool {
    exists|blank: S| #[trigger]
        call_ensures(S::reset, (before, size), blank) && fed(blank, data, after)
}

/// An emulator was shown a frame, and may look like `after` now.
pub open spec fn shown<S: ScreenEmulator>(before: S, frame: FrameModel, after: S) -> bool {
    match frame {
        FrameModel::Snapshot { size, data, .. } => redrawn(before, size, data, after),
        FrameModel::Output { data, .. } => fed(before, data, after),
        FrameModel::Resize { size, .. } => call_ensures(S::resize, (before, size), after),
        FrameModel::Exit { .. } => after == before,
    }
}

/// An emulator may draw its screen with these bytes.
pub open spec fn draws<S: ScreenEmulator>(screen: S, drawn: Seq<u8>) -> bool {
    exists|bytes: Vec<u8>| bytes@ == drawn && #[trigger] call_ensures(S::snapshot, (&screen,), bytes)
}

/// Shows a frame to an emulator.
pub fn show_frame<S: ScreenEmulator>(screen: S, frame: &PtyTerminalFrame) -> (after: S)
    ensures
        shown(screen, frame@, after),
{
    match frame {
        PtyTerminalFrame::Snapshot { size, data, .. } => {
            let blank = screen.reset(*size);
            let after = blank.feed(data.as_slice());
            assert(call_ensures(S::reset, (screen, *size), blank));
            assert(fed(blank, data@, after));
            after
        },
        PtyTerminalFrame::Output { data, .. } => screen.feed(data.as_slice()),
        PtyTerminalFrame::Resize { size, .. } => screen.resize(*size),
        PtyTerminalFrame::Exit { .. } => screen,
    }
}

} // verus!
