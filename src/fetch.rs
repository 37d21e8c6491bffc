use crate::error::GeneralError;
use vstd::prelude::*;

verus! {

/// Least time between the starts of two requests, in nanoseconds: the
/// service allows nine requests in ten seconds.
pub const REQUEST_SPACING_NANOS: u64 = 1_111_111_111;

/// Wait before retrying after a "Not Implemented" answer.
pub const NOT_IMPLEMENTED_BACKOFF_NANOS: u64 = 6_000_000_000;

/// Wait before retrying after any other unsuccessful answer.
pub const DEFAULT_BACKOFF_NANOS: u64 = 1_000_000_000;

pub const STATUS_NOT_IMPLEMENTED: u16 = 501;

pub open spec fn is_success(status: u16) -> bool {
    200 <= status <= 299
}

/// Time still to wait, at clock reading `now`, before a request may start
/// when the previous one started at `last_issue`.
pub open spec fn remaining_delay_spec(last_issue: u64, now: u64) -> u64 {
    if now < last_issue {
        REQUEST_SPACING_NANOS
    } else if now - last_issue >= REQUEST_SPACING_NANOS {
        0
    } else {
        (REQUEST_SPACING_NANOS - (now - last_issue)) as u64
    }
}

pub fn remaining_delay(last_issue: u64, now: u64) -> (r: u64)
    ensures
        r == remaining_delay_spec(last_issue, now),
{
    let elapsed = now.saturating_sub(last_issue);
    REQUEST_SPACING_NANOS.saturating_sub(elapsed)
}

/// The wait before retrying a request that was answered with `status`, or
/// `None` when the answer was a success.
pub open spec fn backoff_spec(status: u16) -> Option<u64> {
    if is_success(status) {
        None
    } else if status == STATUS_NOT_IMPLEMENTED {
        Some(NOT_IMPLEMENTED_BACKOFF_NANOS)
    } else {
        Some(DEFAULT_BACKOFF_NANOS)
    }
}

pub fn backoff(status: u16) -> (r: Option<u64>)
    ensures
        r == backoff_spec(status),
{
    if 200 <= status && status <= 299 {
        None
    } else if status == STATUS_NOT_IMPLEMENTED {
        Some(NOT_IMPLEMENTED_BACKOFF_NANOS)
    } else {
        Some(DEFAULT_BACKOFF_NANOS)
    }
}

/// The start time of the latest request; shared by every lookup of a run.
pub struct RateLimiter {
    pub last_issue: u64,
}

impl RateLimiter {
    /// A limiter that counts `now` as the start of the latest request.
    pub fn new(now: u64) -> (r: RateLimiter)
        ensures
            r.last_issue == now,
    {
        RateLimiter { last_issue: now }
    }
}

/// What the service reports about one image.
pub struct Image {
    /// The image this one was merged into.
    pub duplicate_of: Option<u64>,
    pub tags: Option<Vec<String>>,
}

/// What one fetched record says about the search for tags.
pub enum TagSearch {
    /// The record carries these tags.
    Found(Vec<String>),
    /// The record has no tags and was merged into this image.
    Follow(u64),
    /// The record has neither tags nor a reference.
    Unavailable,
}

/// Reads one record of a duplicate chain: its tags when it has them (they
/// take precedence over a reference), else the image it was merged into,
/// else no tags are available.
pub fn find_image_tags(image: Image) -> (r: TagSearch)
    ensures
        r == (match (image.tags, image.duplicate_of) {
            (Some(t), _) => TagSearch::Found(t),
            (None, Some(origin)) => TagSearch::Follow(origin),
            (None, None) => TagSearch::Unavailable,
        }),
{
    match image.tags {
        Some(t) => TagSearch::Found(t),
        None => match image.duplicate_of {
            Some(origin) => TagSearch::Follow(origin),
            None => TagSearch::Unavailable,
        },
    }
}

/// Why a lookup ended without an answer.
#[derive(Debug)]
pub enum LookupError {
    /// A request or the decoding of its answer failed.
    Fetch(GeneralError),
    /// The chain of "merged into" references came back to this image.
    Cycle(u64),
}

/// What a finished lookup yields: the tags, `None` when no tags are
/// available, or the error that stopped it.
pub type TagsOutcome = Result<Option<Vec<String>>, LookupError>;

pub enum LookupPhase {
    /// Waiting for a clock reading to start the next request.
    Pacing,
    /// A request was issued; waiting for its status.
    Awaiting,
    /// The request succeeded; waiting for its decoded body.
    Reading,
    Finished,
}

/// What the caller is to do next for a lookup.
pub enum LookupAction {
    /// Report the clock.
    Pace,
    /// Sleep this many nanoseconds, then report the clock.
    Sleep(u64),
    /// Issue a request for this image id and report its status.
    Get(u64),
    /// Decode the successful response body and report it.
    ReadBody,
    /// The lookup is over.
    Done(TagsOutcome),
}

/// What the caller reports to a lookup.
pub enum LookupEvent {
    /// The clock reads this many nanoseconds.
    Clock(u64),
    /// The request was answered with this status.
    Status(u16),
    /// The request failed at the transport level.
    Failed(GeneralError),
    /// The decoded response body, or why it could not be decoded.
    Body(Result<Image, GeneralError>),
}

/// The tag lookup for one image, following "merged into" references until
/// an image with tags, or one with neither tags nor a reference, is found.
pub struct Lookup {
    /// The image whose record is being fetched.
    pub id: u64,
    pub phase: LookupPhase,
    /// The images of the chain so far, the current one last.
    pub visited: Vec<u64>,
}

impl Lookup {
    /// The images of the chain so far, the current one last.
    pub open spec fn chain(&self) -> Seq<u64> {
        self.visited@
    }

    pub open spec fn wf(&self) -> bool {
        &&& self.chain().len() > 0
        &&& self.chain().last() == self.id
        &&& self.chain().no_duplicates()
    }

    /// A lookup that starts with the record of image `id`.
    pub fn new(id: u64) -> (r: Lookup)
        ensures
            r.wf(),
            r.id == id,
            r.chain() == seq![id],
            r.phase is Pacing,
    {
        let mut visited: Vec<u64> = Vec::new();
        visited.push(id);
        Lookup { id, phase: LookupPhase::Pacing, visited }
    }

    fn visited_contains(&self, id: u64) -> (r: bool)
        ensures
            r == self.chain().contains(id),
    {
        let mut i: usize = 0;
        while i < self.visited.len()
            invariant
                i <= self.visited.len(),
                forall|j: int| 0 <= j < i ==> self.visited@[j] != id,
            decreases self.visited.len() - i,
        {
            if self.visited[i] == id {
                return true;
            }
            i = i + 1;
        }
        false
    }

    pub open spec fn accepts_spec(&self, e: &LookupEvent) -> bool {
        match self.phase {
            LookupPhase::Pacing => e is Clock,
            LookupPhase::Awaiting => e is Status || e is Failed,
            LookupPhase::Reading => e is Body,
            LookupPhase::Finished => false,
        }
    }

    /// Whether `step` takes `e` in the current phase.
    pub fn accepts(&self, e: &LookupEvent) -> (r: bool)
        ensures
            r == self.accepts_spec(e),
    {
        match self.phase {
            LookupPhase::Pacing => matches!(e, LookupEvent::Clock(_)),
            LookupPhase::Awaiting => matches!(e, LookupEvent::Status(_) | LookupEvent::Failed(_)),
            LookupPhase::Reading => matches!(e, LookupEvent::Body(_)),
            LookupPhase::Finished => false,
        }
    }

    /// Advances the lookup by one event and says what to do next.
    pub fn step(&mut self, limiter: &mut RateLimiter, e: LookupEvent) -> (r: LookupAction)
        requires
            old(self).wf(),
            old(self).accepts_spec(&e),
        ensures
            final(self).wf(),
            match e {
                LookupEvent::Clock(now) => {
                    let d = remaining_delay_spec(old(limiter).last_issue, now);
                    if d > 0 {
                        &&& r == LookupAction::Sleep(d)
                        &&& final(limiter).last_issue == old(limiter).last_issue
                        &&& final(self).phase is Pacing
                    } else {
                        &&& r == LookupAction::Get(old(self).id)
                        &&& final(limiter).last_issue == now
                        &&& final(self).phase is Awaiting
                    }
                },
                LookupEvent::Status(status) => {
                    &&& final(limiter).last_issue == old(limiter).last_issue
                    &&& match backoff_spec(status) {
                        None => r is ReadBody && final(self).phase is Reading,
                        Some(d) => r == LookupAction::Sleep(d) && final(self).phase is Pacing,
                    }
                },
                LookupEvent::Failed(_) => {
                    &&& r matches LookupAction::Done(Err(LookupError::Fetch(_)))
                    &&& final(self).phase is Finished
                    &&& final(limiter).last_issue == old(limiter).last_issue
                },
                LookupEvent::Body(Err(_)) => {
                    &&& r matches LookupAction::Done(Err(LookupError::Fetch(_)))
                    &&& final(self).phase is Finished
                    &&& final(limiter).last_issue == old(limiter).last_issue
                },
                LookupEvent::Body(Ok(img)) => {
                    &&& final(limiter).last_issue == old(limiter).last_issue
                    &&& match (img.tags, img.duplicate_of) {
                        (Some(t), _) => {
                            &&& r matches LookupAction::Done(Ok(Some(u)))
                            &&& u@.map_values(|s: String| s@) == t@.map_values(|s: String| s@)
                            &&& final(self).phase is Finished
                        },
                        (None, Some(origin)) => if old(self).chain().contains(origin) {
                            &&& r == LookupAction::Done(Err(LookupError::Cycle(origin)))
                            &&& final(self).phase is Finished
                        } else {
                            &&& r is Pace
                            &&& final(self).id == origin
                            &&& final(self).chain() == old(self).chain().push(origin)
                            &&& final(self).phase is Pacing
                        },
                        (None, None) => {
                            &&& r matches LookupAction::Done(Ok(None))
                            &&& final(self).phase is Finished
                        },
                    }
                },
            },
            final(self).phase is Awaiting || final(self).phase is Reading ==> final(self).id == old(self).id,
            !(e is Body) ==> final(self).chain() == old(self).chain(),
    {
        match e {
            LookupEvent::Clock(now) => {
                let d = remaining_delay(limiter.last_issue, now);
                if d > 0 {
                    LookupAction::Sleep(d)
                } else {
                    limiter.last_issue = now;
                    self.phase = LookupPhase::Awaiting;
                    LookupAction::Get(self.id)
                }
            },
            LookupEvent::Status(status) => {
                match backoff(status) {
                    None => {
                        self.phase = LookupPhase::Reading;
                        LookupAction::ReadBody
                    },
                    Some(d) => {
                        self.phase = LookupPhase::Pacing;
                        LookupAction::Sleep(d)
                    },
                }
            },
            LookupEvent::Failed(err) => {
                self.phase = LookupPhase::Finished;
                LookupAction::Done(Err(LookupError::Fetch(err)))
            },
            LookupEvent::Body(Err(err)) => {
                self.phase = LookupPhase::Finished;
                LookupAction::Done(Err(LookupError::Fetch(err)))
            },
            LookupEvent::Body(Ok(img)) => {
                match find_image_tags(img) {
                    TagSearch::Found(t) => {
                        self.phase = LookupPhase::Finished;
                        LookupAction::Done(Ok(Some(t)))
                    },
                    TagSearch::Follow(origin) => {
                        if self.visited_contains(origin) {
                            self.phase = LookupPhase::Finished;
                            LookupAction::Done(Err(LookupError::Cycle(origin)))
                        } else {
                            self.visited.push(origin);
                            self.id = origin;
                            self.phase = LookupPhase::Pacing;
                            LookupAction::Pace
                        }
                    },
                    TagSearch::Unavailable => {
                        self.phase = LookupPhase::Finished;
                        LookupAction::Done(Ok(None))
                    },
                }
            },
        }
    }
}

/// A request is only issued once the spacing since the previous one has
/// passed: the issue time it records is at least the spacing after the
/// previous one.
pub proof fn lemma_issue_respects_spacing(last_issue: u64, now: u64)
    requires
        remaining_delay_spec(last_issue, now) == 0,
    ensures
        now >= last_issue + REQUEST_SPACING_NANOS,
{
}

/// When every request starts at least the spacing after the one before,
/// `n` requests span at least `n - 1` spacings.
pub proof fn lemma_spacing_accumulates(issues: Seq<u64>)
    requires
        issues.len() > 0,
        forall|k: int| 0 <= k < issues.len() - 1 ==> remaining_delay_spec(issues[k], #[trigger] issues[k + 1]) == 0,
    ensures
        issues.last() - issues[0] >= (issues.len() - 1) * REQUEST_SPACING_NANOS,
    decreases issues.len(),
{
    if issues.len() > 1 {
        let init = issues.drop_last();
        assert forall|k: int| 0 <= k < init.len() - 1 implies remaining_delay_spec(init[k], #[trigger] init[k + 1]) == 0 by {
            assert(init[k] == issues[k] && init[k + 1] == issues[k + 1]);
        }
        lemma_spacing_accumulates(init);
        let k = issues.len() - 2;
        assert(remaining_delay_spec(issues[k], issues[k + 1]) == 0);
        assert(issues[k] == init.last());
    }
}

} // verus!
