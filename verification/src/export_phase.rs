//! The phases of the Result PNG export: an off-screen camera is prepared, a few frames
//! are rendered so that the target settles, then a screenshot is taken and read back.
//!
//! The rendering and the screenshot are done by the caller; the decisions of each frame
//! (may an export start, when is the screenshot taken, what comes after it) are here.
use crate::text::{trim_text, trimmed};
use vstd::prelude::*;

verus! {

/// Frames rendered into the off-screen target before the screenshot is taken.
pub const EXPORT_WARMUP_FRAMES: u8 = 3;

/// Where the export pipeline stands.
#[derive(Clone, Copy, Debug, PartialEq, Eq, Structural)]
pub enum ExportPhase {
    /// No export in progress.
    Idle,
    /// The off-screen target is being rendered; the number of frames left (1: the
    /// screenshot is taken on the next frame).
    Warm(u8),
    /// The screenshot has been requested and its result is awaited.
    Capturing,
}

impl Default for ExportPhase {
    /// No export in progress.
    fn default() -> (res: Self)
        ensures
            res == ExportPhase::Idle,
    {
        ExportPhase::Idle
    }
}

/// An export may start only when none is in progress; otherwise the request is refused
/// ("Image export already in progress").
pub fn export_can_start(phase: ExportPhase) -> (res: bool)
    ensures
        res == (phase == ExportPhase::Idle),
{
    match phase {
        ExportPhase::Idle => true,
        _ => false,
    }
}

/// The phase once the off-screen camera and mesh are ready: warming up for
/// [`EXPORT_WARMUP_FRAMES`] frames.
pub fn export_prepared() -> (res: ExportPhase)
    ensures
        res == ExportPhase::Warm(EXPORT_WARMUP_FRAMES),
{
    ExportPhase::Warm(EXPORT_WARMUP_FRAMES)
}

/// The phase after the screenshot has been read back (successfully or not).
pub fn export_captured() -> (res: ExportPhase)
    ensures
        res == ExportPhase::Idle,
{
    ExportPhase::Idle
}

/// The next phase of a frame, and whether the screenshot is to be taken now.
pub open spec fn spec_export_frame(phase: ExportPhase) -> (ExportPhase, bool) {
    match phase {
        ExportPhase::Warm(n) => if n <= 1 {
            (ExportPhase::Capturing, true)
        } else {
            (ExportPhase::Warm((n - 1) as u8), false)
        },
        _ => (phase, false),
    }
}

/// One frame of the pipeline outside the idle phase: a warm-up frame counts down, the
/// last one takes the screenshot and moves to capturing; capturing (and idle) wait.
pub fn export_frame(phase: ExportPhase) -> (res: (ExportPhase, bool))
    ensures
        res == spec_export_frame(phase),
{
    match phase {
        ExportPhase::Warm(frames_left) => {
            if frames_left <= 1 {
                (ExportPhase::Capturing, true)
            } else {
                (ExportPhase::Warm(frames_left - 1), false)
            }
        },
        ExportPhase::Idle => (ExportPhase::Idle, false),
        ExportPhase::Capturing => (ExportPhase::Capturing, false),
    }
}

/// The phase after `k` frames, starting from `phase`.
pub open spec fn export_after_frames(phase: ExportPhase, k: nat) -> ExportPhase
    decreases k,
{
    if k == 0 {
        phase
    } else {
        spec_export_frame(export_after_frames(phase, (k - 1) as nat)).0
    }
}

/// Whether the `k`-th frame (counting from 1) after `phase` takes the screenshot.
pub open spec fn export_shoots_at(phase: ExportPhase, k: nat) -> bool {
    k >= 1 && spec_export_frame(export_after_frames(phase, (k - 1) as nat)).1
}

/// Law: once prepared, the export renders exactly [`EXPORT_WARMUP_FRAMES`] frames: the
/// screenshot is taken on the third frame and not before, and the pipeline then waits in
/// the capturing phase.
pub proof fn law_screenshot_after_warmup()
    ensures
        !export_shoots_at(ExportPhase::Warm(EXPORT_WARMUP_FRAMES), 1),
        !export_shoots_at(ExportPhase::Warm(EXPORT_WARMUP_FRAMES), 2),
        export_shoots_at(ExportPhase::Warm(EXPORT_WARMUP_FRAMES), 3),
        export_after_frames(ExportPhase::Warm(EXPORT_WARMUP_FRAMES), 3) == ExportPhase::Capturing,
        !export_shoots_at(ExportPhase::Warm(EXPORT_WARMUP_FRAMES), 4),
{
    let s = ExportPhase::Warm(EXPORT_WARMUP_FRAMES);
    assert(export_after_frames(s, 0) == s);
    assert(export_after_frames(s, 1) == ExportPhase::Warm(2));
    assert(export_after_frames(s, 2) == ExportPhase::Warm(1));
    assert(export_after_frames(s, 3) == ExportPhase::Capturing);
}

/// Law: frames alone never end an export in progress (only the read-back of the
/// screenshot does), so no second export can start meanwhile; and the capturing phase
/// never takes another screenshot by itself.
pub proof fn law_no_second_export_while_busy(phase: ExportPhase, k: nat)
    requires
        phase != ExportPhase::Idle,
    ensures
        export_after_frames(phase, k) != ExportPhase::Idle,
        phase == ExportPhase::Capturing ==> spec_export_frame(phase) == (ExportPhase::Capturing, false),
    decreases k,
{
    if k > 0 {
        law_no_second_export_while_busy(phase, (k - 1) as nat);
    }
}


/// What one frame of the export pipeline asks of the caller.
#[derive(Clone, Copy, Debug, PartialEq, Eq, Structural)]
pub struct ExportFrameOutcome {
    /// Prepare the off-screen camera, target and mesh now (an export starts).
    pub start_prep: bool,
    /// Take the screenshot of the off-screen target now.
    pub take_screenshot: bool,
    /// Requests refused because an export was already in progress.
    pub refused: usize,
}

/// One frame of the export pipeline, given the pending requests (all read this frame)
/// and whether the off-screen camera, target and mesh are there: the new phase, the
/// prepared state and what the caller does.
pub open spec fn spec_export_pipeline_frame(
    phase: ExportPhase,
    requests: nat,
    resources_ready: bool,
) -> (ExportPhase, Option<bool>, bool, bool, nat) {
    // (phase, Some(preparing?) when the prepared state is set, start, screenshot, refused)
    match phase {
        ExportPhase::Idle => if requests == 0 {
            (phase, None, false, false, 0)
        } else if resources_ready {
            (ExportPhase::Warm(EXPORT_WARMUP_FRAMES), Some(requests == 1), true, false, (requests - 1) as nat)
        } else {
            (phase, Some(false), false, false, 0)
        },
        _ => {
            let (next, shoot) = spec_export_frame(phase);
            (next, None, false, shoot, 0)
        },
    }
}

/// One frame of the export pipeline. When idle, each pending request marks the image as
/// being prepared and tries to start an export: the first one starts it (warming up for
/// [`EXPORT_WARMUP_FRAMES`] frames) when the camera, target and mesh are there, and
/// every later one in the same frame is refused as already in progress, which leaves
/// nothing prepared; without those resources every request leaves nothing prepared. In
/// any other phase the requests are dropped and the phase advances ([`export_frame`]).
pub fn export_pipeline_frame(
    phase: &mut ExportPhase,
    prepared: &mut PreparedResultImageState,
    requests: usize,
    resources_ready: bool,
) -> (res: ExportFrameOutcome)
    ensures
        ({
            let s = spec_export_pipeline_frame(*old(phase), requests as nat, resources_ready);
            &&& *final(phase) == s.0
            &&& res.start_prep == s.2
            &&& res.take_screenshot == s.3
            &&& res.refused == s.4
            &&& s.1 == Some(true) ==> *final(prepared) is Preparing
            &&& s.1 == Some(false) ==> *final(prepared) is Nothing
            &&& s.1 is None ==> *final(prepared) == *old(prepared)
        }),
{
    match *phase {
        ExportPhase::Idle => {
            if requests == 0 {
                return ExportFrameOutcome { start_prep: false, take_screenshot: false, refused: 0 };
            }
            if resources_ready {
                *phase = export_prepared();
                *prepared = if requests == 1 {
                    PreparedResultImageState::Preparing
                } else {
                    PreparedResultImageState::Nothing
                };
                ExportFrameOutcome { start_prep: true, take_screenshot: false, refused: requests - 1 }
            } else {
                *prepared = PreparedResultImageState::Nothing;
                ExportFrameOutcome { start_prep: false, take_screenshot: false, refused: 0 }
            }
        },
        _ => {
            let (next, shoot) = export_frame(*phase);
            *phase = next;
            ExportFrameOutcome { start_prep: false, take_screenshot: shoot, refused: 0 }
        },
    }
}

/// The prepared image waiting to be delivered (on the web, sharing and downloading must
/// happen in the user's click, so the PNG is prepared first and handed over on click).
pub enum PreparedResultImageState {
    /// Nothing prepared.
    Nothing,
    /// An export is running.
    Preparing,
    /// A PNG is ready with its suggested file name.
    Ready { png: Vec<u8>, filename: String },
}

impl Default for PreparedResultImageState {
    /// Nothing prepared.
    fn default() -> (res: Self)
        ensures
            res is Nothing,
    {
        PreparedResultImageState::Nothing
    }
}

impl PreparedResultImageState {
    /// Takes the prepared state, leaving nothing prepared in every case (an export still
    /// being prepared is dropped too), and hands over the image when one was ready.
    pub fn take_ready(&mut self) -> (res: Option<(Vec<u8>, String)>)
        ensures
            *final(self) is Nothing,
            *old(self) matches PreparedResultImageState::Ready { png, filename } ==> res == Some((png, filename)),
            !(*old(self) is Ready) ==> res is None,
    {
        let mut taken = PreparedResultImageState::Nothing;
        std::mem::swap(self, &mut taken);
        match taken {
            PreparedResultImageState::Ready { png, filename } => Some((png, filename)),
            _ => None,
        }
    }
}

/// The share text handed over with an image: the text without leading and trailing white
/// space, and none when nothing is left.
pub open spec fn delivered_text(text: Option<&str>, handed: Option<&str>) -> bool {
    match text {
        None => handed is None,
        Some(t) => if trimmed(t@).len() == 0 {
            handed is None
        } else {
            handed matches Some(h) && h@ == trimmed(t@)
        },
    }
}

/// What a Download click hands to the platform's sink: the prepared state is taken in
/// every case (nothing is prepared afterwards); when an image was ready, its bytes, its
/// file name and the share text (trimmed, none when blank) are returned for the single
/// hand-over, otherwise nothing.
pub fn take_for_delivery<'a>(prepared: &mut PreparedResultImageState, share_sheet_text: Option<&'a str>) -> (res:
    Option<(Vec<u8>, String, Option<&'a str>)>)
    ensures
        *final(prepared) is Nothing,
        *old(prepared) matches PreparedResultImageState::Ready { png, filename } ==> (res matches Some((p, f, t))
            && p == png && f == filename && delivered_text(share_sheet_text, t)),
        !(*old(prepared) is Ready) ==> res is None,
{
    match prepared.take_ready() {
        Some((png, filename)) => {
            let text = match share_sheet_text {
                Some(t) => {
                    let tr = trim_text(t);
                    if tr.unicode_len() == 0 {
                        None
                    } else {
                        Some(tr)
                    }
                },
                None => None,
            };
            Some((png, filename, text))
        },
        None => None,
    }
}

} // verus!
