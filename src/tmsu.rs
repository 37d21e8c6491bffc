use vstd::prelude::*;

verus! {

/// Failures of the external tagging tool.
#[derive(Debug, Clone, Copy, PartialEq, Eq, Structural)]
pub enum TmsuError {
    /// The tool's version probe ran but reported failure.
    NoExec,
    /// The tool's database probe ran but reported failure.
    NoDB,
    /// The tool could not be started.
    ChildErr,
    /// A tagging invocation ran but reported failure.
    TaggingErr,
}

impl TmsuError {
    pub open spec fn message_spec(self) -> Seq<char> {
        match self {
            TmsuError::NoExec => "ERROR: Tmsu executable not found"@,
            TmsuError::NoDB => "ERROR: Tmsu database not found"@,
            TmsuError::ChildErr => "ERROR: Tmsu exited unexpectedly"@,
            TmsuError::TaggingErr => "ERROR: Tagging process was unsuccessful"@,
        }
    }

    /// Human-readable description of the failure.
    pub fn message(&self) -> (r: String)
        ensures
            r@ == self.message_spec(),
    {
        match self {
            TmsuError::NoExec => String::from_str("ERROR: Tmsu executable not found"),
            TmsuError::NoDB => String::from_str("ERROR: Tmsu database not found"),
            TmsuError::ChildErr => String::from_str("ERROR: Tmsu exited unexpectedly"),
            TmsuError::TaggingErr => String::from_str("ERROR: Tagging process was unsuccessful"),
        }
    }
}


/// The two checks made before a run: that the tool runs, and that it finds
/// its database.
#[derive(Debug, Clone, Copy, PartialEq, Eq, Structural)]
pub enum Probe {
    Version,
    Database,
}

pub open spec fn probe_args_spec(p: Probe) -> Seq<Seq<char>> {
    match p {
        Probe::Version => seq!["--version"@],
        Probe::Database => seq!["info"@],
    }
}

/// The arguments the tool is run with for probe `p`.
pub fn probe_args(p: Probe) -> (r: Vec<String>)
    ensures
        r@.map_values(|a: String| a@) == probe_args_spec(p),
{
    let mut r: Vec<String> = Vec::new();
    match p {
        Probe::Version => r.push(String::from_str("--version")),
        Probe::Database => r.push(String::from_str("info")),
    }
    assert(r@.len() == 1);
    assert(r@.map_values(|a: String| a@)[0] == probe_args_spec(p)[0]);
    assert(r@.map_values(|a: String| a@) =~= probe_args_spec(p));
    r
}

/// The verdict on one invocation of the tool: `exited_ok` is `None` when it
/// could not be started, else whether it exited successfully.
pub open spec fn invocation_verdict(exited_ok: Option<bool>, failure: TmsuError) -> Result<(), TmsuError> {
    match exited_ok {
        None => Err(TmsuError::ChildErr),
        Some(true) => Ok(()),
        Some(false) => Err(failure),
    }
}

pub open spec fn probe_failure(p: Probe) -> TmsuError {
    match p {
        Probe::Version => TmsuError::NoExec,
        Probe::Database => TmsuError::NoDB,
    }
}

/// The verdict on probe `p`, from how its invocation ended.
pub fn probe_verdict(p: Probe, exited_ok: Option<bool>) -> (r: Result<(), TmsuError>)
    ensures
        r == invocation_verdict(exited_ok, probe_failure(p)),
{
    match exited_ok {
        None => Err(TmsuError::ChildErr),
        Some(true) => Ok(()),
        Some(false) => match p {
            Probe::Version => Err(TmsuError::NoExec),
            Probe::Database => Err(TmsuError::NoDB),
        },
    }
}

/// The probes still to run after `done` has passed: the version probe comes
/// first, then the database probe.
pub fn next_probe(done: Option<Probe>) -> (r: Option<Probe>)
    ensures
        r == (match done {
            None => Some(Probe::Version),
            Some(Probe::Version) => Some(Probe::Database),
            Some(Probe::Database) => None,
        }),
{
    match done {
        None => Some(Probe::Version),
        Some(Probe::Version) => Some(Probe::Database),
        Some(Probe::Database) => None,
    }
}

pub open spec fn tag_args_spec(file: Seq<char>, tags: Seq<Seq<char>>) -> Seq<Seq<char>> {
    seq!["tag"@, file] + tags
}

/// The arguments the tool is run with to attach `tags` to `file`.
pub fn tag_args(file: &str, tags: &Vec<String>) -> (r: Vec<String>)
    ensures
        r@.map_values(|a: String| a@) == tag_args_spec(file@, tags@.map_values(|t: String| t@)),
{
    let mut r: Vec<String> = Vec::new();
    r.push(String::from_str("tag"));
    r.push(String::from_str(file));
    let mut i: usize = 0;
    proof {
        reveal_strlit("tag");
    }
    while i < tags.len()
        invariant
            i <= tags.len(),
            r@.map_values(|a: String| a@) == seq!["tag"@, file@] + tags@.map_values(|t: String| t@).take(i as int),
        decreases tags.len() - i,
    {
        let ghost prev = r@;
        r.push(tags[i].clone());
        proof {
            let ts = tags@.map_values(|t: String| t@);
            assert(r@.map_values(|a: String| a@) =~= prev.map_values(|a: String| a@).push(ts[i as int]));
            assert(ts.take(i as int + 1) =~= ts.take(i as int).push(ts[i as int]));
            assert(r@.map_values(|a: String| a@) =~= seq!["tag"@, file@] + ts.take(i as int + 1));
        }
        i = i + 1;
    }
    proof {
        let ts = tags@.map_values(|t: String| t@);
        assert(ts.take(i as int) =~= ts);
    }
    r
}

/// The verdict on a tagging invocation, from how it ended.
pub fn tag_verdict(exited_ok: Option<bool>) -> (r: Result<(), TmsuError>)
    ensures
        r == invocation_verdict(exited_ok, TmsuError::TaggingErr),
{
    match exited_ok {
        None => Err(TmsuError::ChildErr),
        Some(true) => Ok(()),
        Some(false) => Err(TmsuError::TaggingErr),
    }
}

} // verus!
