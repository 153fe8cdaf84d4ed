//! The status line of the settings panel: a notice shown for a fixed number of
//! frames before the panel falls back to "ready".
use vstd::prelude::*;

verus! {

/// How many frames a notice stays up.
pub const STATUS_NOTICE_FRAMES: usize = 300;

#[derive(Clone, Copy, PartialEq, Eq, Debug, Structural)]
pub enum Status {
    Ready,
    Saved,
    Retention,
    ImportSuccess,
    Failure,
}

pub struct StatusNotice {
    status: Status,
    remaining_frames: usize,
}

/// One frame of the notice: the status it shows, and its state afterwards.
pub open spec fn tick(v: (Status, nat)) -> ((Status, nat), Status) {
    if v.1 == 0 {
        ((Status::Ready, 0), Status::Ready)
    } else {
        ((v.0, (v.1 - 1) as nat), v.0)
    }
}

/// The notice state after `k` frames.
pub open spec fn after_ticks(v: (Status, nat), k: nat) -> (Status, nat)
    decreases k,
{
    if k == 0 {
        v
    } else {
        tick(after_ticks(v, (k - 1) as nat)).0
    }
}

impl View for StatusNotice {
    type V = (Status, nat);

    closed spec fn view(&self) -> (Status, nat) {
        (self.status, self.remaining_frames as nat)
    }
}

impl StatusNotice {
    pub fn new() -> (n: Self)
        ensures
            n@ == (Status::Ready, 0nat),
    {
        StatusNotice { status: Status::Ready, remaining_frames: 0 }
    }

    /// Puts up `status` for the next `STATUS_NOTICE_FRAMES` frames.
    pub fn show(&mut self, status: Status)
        ensures
            final(self)@ == (status, STATUS_NOTICE_FRAMES as nat),
    {
        self.status = status;
        self.remaining_frames = STATUS_NOTICE_FRAMES;
    }

    /// The status to show this frame; counts the frame.
    pub fn current_and_tick(&mut self) -> (shown: Status)
        ensures
            (final(self)@, shown) == tick(old(self)@),
    {
        if self.remaining_frames == 0 {
            self.status = Status::Ready;
            return Status::Ready;
        }
        self.remaining_frames = self.remaining_frames - 1;
        self.status
    }
}

/// Law: once `status` is shown, the next `STATUS_NOTICE_FRAMES` frames show it,
/// and every later frame shows `Ready`, as long as nothing else is shown.
pub proof fn lemma_notice_lifetime(status: Status, k: nat)
    ensures
        tick(after_ticks((status, STATUS_NOTICE_FRAMES as nat), k)).1 == (if k
            < STATUS_NOTICE_FRAMES {
            status
        } else {
            Status::Ready
        }),
{
    lemma_after_ticks(status, k);
}

proof fn lemma_after_ticks(status: Status, k: nat)
    ensures
        after_ticks((status, STATUS_NOTICE_FRAMES as nat), k) == (if k < STATUS_NOTICE_FRAMES {
            (status, (STATUS_NOTICE_FRAMES - k) as nat)
        } else if k == STATUS_NOTICE_FRAMES {
            (status, 0nat)
        } else {
            (Status::Ready, 0nat)
        }),
    decreases k,
{
    if k > 0 {
        lemma_after_ticks(status, (k - 1) as nat);
    }
}

} // verus!
