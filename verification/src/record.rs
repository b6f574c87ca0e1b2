//! The service record: the one domain entity, with its mathematical view and
//! the three-way classification of status tokens used for rendering.
use vstd::prelude::*;

verus! {

/// Which supervisor a record came from.
#[derive(Clone, Copy, Debug, PartialEq, Eq, Structural)]
pub enum Backend {
    /// The operating system's own service supervisor.
    Native,
    /// The package manager's service layer.
    PackageManager,
}

/// One listed service, constructed fresh at parse time and never mutated.
#[derive(Debug, Clone)]
pub struct ServiceRecord {
    pub name: String,
    pub status: String,
    pub pid: Option<String>,
    pub backend: Backend,
}

/// Mathematical view of a record: its strings as character sequences.
pub struct RecordView {
    pub name: Seq<char>,
    pub status: Seq<char>,
    pub pid: Option<Seq<char>>,
    pub backend: Backend,
}

impl View for ServiceRecord {
    type V = RecordView;

    open spec fn view(&self) -> RecordView {
        RecordView {
            name: self.name@,
            status: self.status@,
            pid: match self.pid {
                Some(p) => Some(p@),
                None => None,
            },
            backend: self.backend,
        }
    }
}

/// The views of a vector of records.
pub open spec fn views_of_records(s: Seq<ServiceRecord>) -> Seq<RecordView> {
    s.map_values(|r: ServiceRecord| r@)
}

/// How a status token is rendered: the only interpretation ever applied to a
/// token beyond exact-match filtering.
#[derive(Clone, Copy, Debug, PartialEq, Eq, Structural)]
pub enum StatusClass {
    /// Running-like: `running` or `started`.
    Positive,
    /// Exactly `stopped`.
    Negative,
    /// Any other token.
    Neutral,
}

/// The classification of a status token.
pub open spec fn spec_status_class(s: Seq<char>) -> StatusClass {
    if s == "running"@ || s == "started"@ {
        StatusClass::Positive
    } else if s == "stopped"@ {
        StatusClass::Negative
    } else {
        StatusClass::Neutral
    }
}

/// Classifies a status token for rendering.
pub fn status_class(status: &str) -> (c: StatusClass)
    ensures
        c == spec_status_class(status@),
{
    let s = String::from_str(status);
    if s == String::from_str("running") || s == String::from_str("started") {
        StatusClass::Positive
    } else if s == String::from_str("stopped") {
        StatusClass::Negative
    } else {
        StatusClass::Neutral
    }
}

} // verus!
