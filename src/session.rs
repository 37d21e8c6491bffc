use crate::fetch::{LookupError, TagsOutcome};
use crate::ident::{file_name_of, id_from_filepath, id_of_name};
use crate::index::Index;
use crate::tmsu::TmsuError;
use vstd::prelude::*;

verus! {

/// A line of input with its trailing white space removed.
pub uninterp spec fn trimmed_end(line: Seq<char>) -> Seq<char>;

/// Relies on `str::trim_end`: the line without its trailing white space,
/// which is a prefix of the line.
#[verifier::external_body]
fn trim_line(line: &str) -> (r: String)
    ensures
        r@ == trimmed_end(line@),
        r@.len() <= line@.len(),
        r@ == line@.take(r@.len() as int),
{
    String::from(line.trim_end())
}

/// The identifier that the path on an input line carries, if any.
pub open spec fn path_id(path: Seq<char>) -> Option<u64> {
    match file_name_of(path) {
        Some(n) => id_of_name(n),
        None => None,
    }
}

/// Where the control loop stands.
pub enum SessionPhase {
    /// At the top of the loop: the cancellation flag is to be checked.
    Polling,
    /// Waiting for the next input line.
    Reading,
    /// The tags for this path are being looked up.
    Resolving(String),
    /// The tool is attaching tags to this path.
    Tagging(String),
    /// The loop is over; the index is to be saved.
    Stopped,
}

/// How one input line ended, for the log.
pub enum Report {
    /// The index already holds the path.
    AlreadyDone(String),
    /// The file name carries no identifier; the path is left for inspection.
    NotAnImage(String),
    /// No tags are available; the path is recorded as done.
    Unavailable(String),
    /// The lookup failed; the path is left for the next run.
    FetchFailed(String, LookupError),
    /// The path was tagged and recorded as done.
    Tagged(String),
    /// Tagging failed; the path is left for the next run.
    TagFailed(String, TmsuError),
}

/// What the caller is to do next.
pub enum SessionAction {
    /// Log the report, if any, then check the cancellation flag and report it.
    Poll(Option<Report>),
    /// Read the next input line and report it, or the end of input.
    ReadLine,
    /// Look up the tags of this image and report the outcome.
    Resolve(u64),
    /// Attach these tags to this path and report the outcome.
    Tag(String, Vec<String>),
    /// Save the index and end the run.
    Save,
}

/// What the caller reports to the session.
pub enum SessionEvent {
    /// Whether cancellation has been requested.
    Poll(bool),
    Line(String),
    EndOfInput,
    Resolved(TagsOutcome),
    Tagged(Result<(), TmsuError>),
}

/// The path whose work is under way, if any.
pub open spec fn pending(phase: SessionPhase) -> Option<Seq<char>> {
    match phase {
        SessionPhase::Resolving(p) => Some(p@),
        SessionPhase::Tagging(p) => Some(p@),
        _ => None,
    }
}

/// The control loop over input lines: skips paths already indexed, looks
/// up and attaches tags for the others, and records finished paths.
pub struct Session {
    pub index: Index,
    pub phase: SessionPhase,
}

impl Session {
    pub open spec fn wf(&self) -> bool {
        &&& self.index.wf()
        &&& pending(self.phase) matches Some(p) ==> !self.index.paths().contains(p)
    }

    /// A session at the top of its loop over the given index.
    pub fn new(index: Index) -> (r: Session)
        requires
            index.wf(),
        ensures
            r.wf(),
            r.index == index,
            r.phase is Polling,
    {
        Session { index, phase: SessionPhase::Polling }
    }

    pub open spec fn accepts_spec(&self, e: &SessionEvent) -> bool {
        match self.phase {
            SessionPhase::Polling => e is Poll,
            SessionPhase::Reading => e is Line || e is EndOfInput,
            SessionPhase::Resolving(_) => e is Resolved,
            SessionPhase::Tagging(_) => e is Tagged,
            SessionPhase::Stopped => false,
        }
    }

    /// Whether `step` takes `e` in the current phase.
    pub fn accepts(&self, e: &SessionEvent) -> (r: bool)
        ensures
            r == self.accepts_spec(e),
    {
        match self.phase {
            SessionPhase::Polling => matches!(e, SessionEvent::Poll(_)),
            SessionPhase::Reading => matches!(e, SessionEvent::Line(_) | SessionEvent::EndOfInput),
            SessionPhase::Resolving(_) => matches!(e, SessionEvent::Resolved(_)),
            SessionPhase::Tagging(_) => matches!(e, SessionEvent::Tagged(_)),
            SessionPhase::Stopped => false,
        }
    }

    /// The index once the loop is over.
    pub fn into_index(self) -> (r: Index)
        ensures
            r == self.index,
    {
        self.index
    }

    /// Advances the loop by one event and says what to do next.
    pub fn step(self, e: SessionEvent) -> (out: (Session, SessionAction))
        requires
            self.wf(),
            self.accepts_spec(&e),
        ensures
            out.0.wf(),
            self.index.paths().subset_of(out.0.index.paths()),
            out.1 is Resolve || out.1 is Tag ==> (pending(out.0.phase) matches Some(p)
                && !self.index.paths().contains(p)),
            match (self.phase, e) {
                (SessionPhase::Polling, SessionEvent::Poll(cancelled)) => {
                    &&& out.0.index == self.index
                    &&& if cancelled {
                        out.1 is Save && out.0.phase is Stopped
                    } else {
                        out.1 is ReadLine && out.0.phase is Reading
                    }
                },
                (SessionPhase::Reading, SessionEvent::EndOfInput) => {
                    &&& out.0.index == self.index
                    &&& out.1 is Save
                    &&& out.0.phase is Stopped
                },
                (SessionPhase::Reading, SessionEvent::Line(line)) => {
                    let p = trimmed_end(line@);
                    &&& out.0.index == self.index
                    &&& if self.index.paths().contains(p) {
                        &&& out.1 matches SessionAction::Poll(Some(Report::AlreadyDone(q)))
                        &&& q@ == p
                        &&& out.0.phase is Polling
                    } else {
                        match path_id(p) {
                            None => {
                                &&& out.1 matches SessionAction::Poll(Some(Report::NotAnImage(q)))
                                &&& q@ == p
                                &&& out.0.phase is Polling
                            },
                            Some(id) => {
                                &&& out.1 == SessionAction::Resolve(id)
                                &&& pending(out.0.phase) == Some(p)
                                &&& out.0.phase is Resolving
                            },
                        }
                    }
                },
                (SessionPhase::Resolving(path), SessionEvent::Resolved(outcome)) => {
                    match outcome {
                        Ok(Some(tags)) => {
                            &&& out.0.index == self.index
                            &&& out.1 matches SessionAction::Tag(q, t)
                            &&& q@ == path@
                            &&& t@.map_values(|s: String| s@) == tags@.map_values(|s: String| s@)
                            &&& pending(out.0.phase) == Some(path@)
                            &&& out.0.phase is Tagging
                        },
                        Ok(None) => {
                            &&& out.0.index.paths() == self.index.paths().insert(path@)
                            &&& out.1 matches SessionAction::Poll(Some(Report::Unavailable(q)))
                            &&& q@ == path@
                            &&& out.0.phase is Polling
                        },
                        Err(_) => {
                            &&& out.0.index == self.index
                            &&& out.1 matches SessionAction::Poll(Some(Report::FetchFailed(q, _)))
                            &&& q@ == path@
                            &&& out.0.phase is Polling
                        },
                    }
                },
                (SessionPhase::Tagging(path), SessionEvent::Tagged(outcome)) => {
                    match outcome {
                        Ok(()) => {
                            &&& out.0.index.paths() == self.index.paths().insert(path@)
                            &&& out.1 matches SessionAction::Poll(Some(Report::Tagged(q)))
                            &&& q@ == path@
                            &&& out.0.phase is Polling
                        },
                        Err(err) => {
                            &&& out.0.index == self.index
                            &&& out.1 matches SessionAction::Poll(Some(Report::TagFailed(q, f)))
                            &&& q@ == path@
                            &&& f == err
                            &&& out.0.phase is Polling
                        },
                    }
                },
                _ => false,
            },
    {
        let Session { mut index, phase } = self;
        match (phase, e) {
            (SessionPhase::Polling, SessionEvent::Poll(cancelled)) => {
                if cancelled {
                    (Session { index, phase: SessionPhase::Stopped }, SessionAction::Save)
                } else {
                    (Session { index, phase: SessionPhase::Reading }, SessionAction::ReadLine)
                }
            },
            (SessionPhase::Reading, SessionEvent::EndOfInput) => {
                (Session { index, phase: SessionPhase::Stopped }, SessionAction::Save)
            },
            (SessionPhase::Reading, SessionEvent::Line(line)) => {
                let path = trim_line(line.as_str());
                if index.contains(path.as_str()) {
                    (Session { index, phase: SessionPhase::Polling }, SessionAction::Poll(Some(Report::AlreadyDone(path))))
                } else {
                    match id_from_filepath(path.as_str()) {
                        None => {
                            (Session { index, phase: SessionPhase::Polling }, SessionAction::Poll(Some(Report::NotAnImage(path))))
                        },
                        Some(id) => {
                            (Session { index, phase: SessionPhase::Resolving(path) }, SessionAction::Resolve(id))
                        },
                    }
                }
            },
            (SessionPhase::Resolving(path), SessionEvent::Resolved(outcome)) => {
                match outcome {
                    Ok(Some(tags)) => {
                        let q = path.clone();
                        (Session { index, phase: SessionPhase::Tagging(path) }, SessionAction::Tag(q, tags))
                    },
                    Ok(None) => {
                        let q = path.clone();
                        index.insert(path);
                        (Session { index, phase: SessionPhase::Polling }, SessionAction::Poll(Some(Report::Unavailable(q))))
                    },
                    Err(err) => {
                        (Session { index, phase: SessionPhase::Polling }, SessionAction::Poll(Some(Report::FetchFailed(path, err))))
                    },
                }
            },
            (SessionPhase::Tagging(path), SessionEvent::Tagged(outcome)) => {
                match outcome {
                    Ok(()) => {
                        let q = path.clone();
                        index.insert(path);
                        (Session { index, phase: SessionPhase::Polling }, SessionAction::Poll(Some(Report::Tagged(q))))
                    },
                    Err(err) => {
                        (Session { index, phase: SessionPhase::Polling }, SessionAction::Poll(Some(Report::TagFailed(path, err))))
                    },
                }
            },
            (other, _) => (Session { index, phase: other }, SessionAction::Save),
        }
    }
}

/// Across a run whose index only grows and whose work never concerns a path
/// the index held when that work was handed out, no path that the index holds
/// at some step is looked up or tagged at that step or any later one.
pub proof fn lemma_indexed_paths_get_no_work(
    indices: Seq<Set<Seq<char>>>,
    work: Seq<Option<Seq<char>>>,
    i: int,
    j: int,
    p: Seq<char>,
)
    requires
        indices.len() == work.len(),
        forall|k: int| 0 <= k < indices.len() - 1 ==> indices[k].subset_of(#[trigger] indices[k + 1]),
        forall|k: int| 0 <= k < work.len() ==> (#[trigger] work[k] matches Some(q) ==> !indices[k].contains(q)),
        0 <= i <= j < indices.len(),
        indices[i].contains(p),
    ensures
        work[j] != Some(p),
    decreases j - i,
{
    if i < j {
        assert(indices[i].subset_of(indices[i + 1]));
        lemma_indexed_paths_get_no_work(indices, work, i + 1, j, p);
    } else {
        assert(work[j] matches Some(q) ==> !indices[j].contains(q));
    }
}

/// Once the loop has stopped, which a cancellation seen at the top of the
/// loop leads to directly, the session takes no further event: no line is
/// read and no work is handed out; what remains is to save the index.
pub proof fn lemma_stopped_session_takes_nothing(s: Session, e: SessionEvent)
    requires
        s.phase is Stopped,
    ensures
        !s.accepts_spec(&e),
{
}

} // verus!
