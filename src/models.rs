use vstd::prelude::*;
use vstd::string::*;

verus! {

/// The number of files that make up a complete bundle.
pub const CANON_COUNT: usize = 7;

/// The fixed name of each canon slot, in slot order.
pub open spec fn canon_name(i: int) -> Seq<char> {
    if i == 0 {
        "brain.exe"@
    } else if i == 1 {
        "brain.rs"@
    } else if i == 2 {
        "run.rb"@
    } else if i == 3 {
        "tools.yml"@
    } else if i == 4 {
        "limits.json"@
    } else if i == 5 {
        "routes.json"@
    } else {
        "Cargo.toml"@
    }
}

/// The name of the optional checksum manifest.
pub open spec fn checksum_file_name() -> Seq<char> {
    "checksums.json"@
}

/// Returns the fixed file name of canon slot `i`.
pub fn canon_file_name(i: usize) -> (r: &'static str)
    requires
        i < CANON_COUNT,
    ensures
        r@ == canon_name(i as int),
{
    proof {
        reveal_strlit("brain.exe");
        reveal_strlit("brain.rs");
        reveal_strlit("run.rb");
        reveal_strlit("tools.yml");
        reveal_strlit("limits.json");
        reveal_strlit("routes.json");
        reveal_strlit("Cargo.toml");
    }
    if i == 0 {
        "brain.exe"
    } else if i == 1 {
        "brain.rs"
    } else if i == 2 {
        "run.rb"
    } else if i == 3 {
        "tools.yml"
    } else if i == 4 {
        "limits.json"
    } else if i == 5 {
        "routes.json"
    } else {
        "Cargo.toml"
    }
}

/// Whether a bundle passed the canon-fileset check at discovery.
#[derive(Clone, Copy, Debug, PartialEq, Eq, Structural)]
pub enum Verification {
    Unknown,
    Valid,
    Invalid,
}

impl Verification {
    pub fn as_str(&self) -> (r: &'static str)
        ensures
            *self == Verification::Unknown ==> r@ == "unknown"@,
            *self == Verification::Valid ==> r@ == "valid"@,
            *self == Verification::Invalid ==> r@ == "invalid"@,
    {
        proof {
            reveal_strlit("unknown");
            reveal_strlit("valid");
            reveal_strlit("invalid");
        }
        match self {
            Verification::Unknown => "unknown",
            Verification::Valid => "valid",
            Verification::Invalid => "invalid",
        }
    }
}

/// What is believed of an agent's process.
#[derive(Clone, Copy, Debug, PartialEq, Eq, Structural)]
pub enum RunState {
    Stopped,
    Unknown,
    Running,
}

impl RunState {
    pub fn as_str(&self) -> (r: &'static str)
        ensures
            *self == RunState::Stopped ==> r@ == "stopped"@,
            *self == RunState::Unknown ==> r@ == "unknown"@,
            *self == RunState::Running ==> r@ == "running"@,
    {
        proof {
            reveal_strlit("stopped");
            reveal_strlit("unknown");
            reveal_strlit("running");
        }
        match self {
            RunState::Stopped => "stopped",
            RunState::Unknown => "unknown",
            RunState::Running => "running",
        }
    }
}

/// One line of a checksum manifest: a path relative to the bundle and the
/// lowercase hex SHA-256 digest it is expected to have.
#[derive(Clone, Debug)]
pub struct ChecksumEntry {
    pub file: String,
    pub digest: String,
}

/// Where each canon file of a bundle was found, if anywhere.
#[derive(Clone, Debug)]
pub struct AgentFiles {
    pub brain_exe: Option<String>,
    pub brain_rs: Option<String>,
    pub run_rb: Option<String>,
    pub tools_yml: Option<String>,
    pub limits_json: Option<String>,
    pub routes_json: Option<String>,
    pub cargo_toml: Option<String>,
    pub checksums: Option<Vec<ChecksumEntry>>,
}

impl AgentFiles {
    /// The path resolved for canon slot `i`, if any.
    pub open spec fn slot(&self, i: int) -> Option<String> {
        if i == 0 {
            self.brain_exe
        } else if i == 1 {
            self.brain_rs
        } else if i == 2 {
            self.run_rb
        } else if i == 3 {
            self.tools_yml
        } else if i == 4 {
            self.limits_json
        } else if i == 5 {
            self.routes_json
        } else {
            self.cargo_toml
        }
    }

    /// Every canon slot is resolved.
    pub open spec fn complete(&self) -> bool {
        forall|i: int| 0 <= i < CANON_COUNT ==> (#[trigger] self.slot(i)).is_some()
    }

    /// The names of the unresolved slots, in slot order, looking at slots `0..n`.
    pub open spec fn missing_upto(&self, n: int) -> Seq<Seq<char>>
        decreases n,
    {
        if n <= 0 {
            seq![]
        } else if self.slot(n - 1).is_none() {
            self.missing_upto(n - 1).push(canon_name(n - 1))
        } else {
            self.missing_upto(n - 1)
        }
    }

    /// Returns the path resolved for canon slot `i`.
    pub fn slot_path(&self, i: usize) -> (r: &Option<String>)
        requires
            i < CANON_COUNT,
        ensures
            *r == self.slot(i as int),
    {
        if i == 0 {
            &self.brain_exe
        } else if i == 1 {
            &self.brain_rs
        } else if i == 2 {
            &self.run_rb
        } else if i == 3 {
            &self.tools_yml
        } else if i == 4 {
            &self.limits_json
        } else if i == 5 {
            &self.routes_json
        } else {
            &self.cargo_toml
        }
    }
}

impl Default for AgentFiles {
    fn default() -> (r: Self)
        ensures
            forall|i: int| 0 <= i < CANON_COUNT ==> (#[trigger] r.slot(i)).is_none(),
            r.checksums.is_none(),
    {
        AgentFiles {
            brain_exe: None,
            brain_rs: None,
            run_rb: None,
            tools_yml: None,
            limits_json: None,
            routes_json: None,
            cargo_toml: None,
            checksums: None,
        }
    }
}

/// Declared resource ceilings. They are recorded, not enforced.
#[derive(Clone, Debug)]
pub struct AgentLimits {
    pub max_memory_mb: Option<u64>,
    /// Whole percent of one CPU.
    pub max_cpu_percent: Option<u64>,
    pub max_disk_mb: Option<u64>,
    pub timeout_seconds: Option<u64>,
    pub max_concurrent_tasks: Option<u32>,
}

impl AgentLimits {
    /// The ceilings a bundle has when it declares none.
    pub open spec fn spec_default() -> AgentLimits {
        AgentLimits {
            max_memory_mb: Some(512u64),
            max_cpu_percent: Some(50u64),
            max_disk_mb: Some(1024u64),
            timeout_seconds: Some(300u64),
            max_concurrent_tasks: Some(5u32),
        }
    }
}

impl Default for AgentLimits {
    fn default() -> (r: Self)
        ensures
            r == AgentLimits::spec_default(),
    {
        AgentLimits {
            max_memory_mb: Some(512),
            max_cpu_percent: Some(50),
            max_disk_mb: Some(1024),
            timeout_seconds: Some(300),
            max_concurrent_tasks: Some(5),
        }
    }
}

/// What an agent declares it offers.
#[derive(Clone, Debug)]
pub struct AgentRoutes {
    pub capabilities: Vec<String>,
    pub endpoints: Vec<AgentEndpoint>,
    pub message_types: Vec<String>,
}

#[derive(Clone, Debug)]
pub struct AgentEndpoint {
    pub path: String,
    pub method: String,
    pub description: String,
    pub parameters: Vec<AgentParameter>,
}

#[derive(Clone, Debug)]
pub struct AgentParameter {
    pub name: String,
    pub param_type: String,
    pub required: bool,
    pub description: String,
}

impl Default for AgentRoutes {
    fn default() -> (r: Self)
        ensures
            r.capabilities@.len() == 0,
            r.endpoints@.len() == 0,
            r.message_types@.len() == 0,
    {
        AgentRoutes { capabilities: Vec::new(), endpoints: Vec::new(), message_types: Vec::new() }
    }
}

/// A launched process as the supervisor records it.
#[derive(Clone, Copy, Debug, PartialEq, Eq, Structural)]
pub struct ProcessInfo {
    pub pid: u32,
    /// Seconds since the Unix epoch at launch.
    pub started_at: u64,
    pub status: RunState,
}

/// The record of one discovered bundle.
#[derive(Clone, Debug)]
pub struct AgentInfo {
    pub id: String,
    pub name: String,
    pub role: String,
    pub description: String,
    pub status: RunState,
    pub capabilities: Vec<String>,
    pub verification: Verification,
    pub tier: String,
    pub icon: String,
    pub path: String,
    pub files: AgentFiles,
    pub limits: AgentLimits,
    pub routes: AgentRoutes,
}

impl AgentInfo {
    /// A record with every descriptive field at its default and no files resolved.
    pub fn new(id: String, name: String, path: String) -> (r: Self)
        ensures
            r.id@ == id@,
            r.name@ == name@,
            r.path@ == path@,
            r.role@ == "Unknown"@,
            r.description@ == "No description available"@,
            r.status == RunState::Stopped,
            r.capabilities@.len() == 0,
            r.verification == Verification::Unknown,
            r.tier@ == "Standard"@,
            r.icon@ == "🤖"@,
            forall|i: int| 0 <= i < CANON_COUNT ==> (#[trigger] r.files.slot(i)).is_none(),
            r.files.checksums.is_none(),
            r.limits == AgentLimits::spec_default(),
            r.routes.capabilities@.len() == 0,
            r.routes.endpoints@.len() == 0,
            r.routes.message_types@.len() == 0,
    {
        AgentInfo {
            id,
            name,
            role: String::from_str("Unknown"),
            description: String::from_str("No description available"),
            status: RunState::Stopped,
            capabilities: Vec::new(),
            verification: Verification::Unknown,
            tier: String::from_str("Standard"),
            icon: String::from_str("🤖"),
            path,
            files: AgentFiles::default(),
            limits: AgentLimits::default(),
            routes: AgentRoutes::default(),
        }
    }

    /// Whether all seven canon files were found.
    pub fn is_canon_fileset_complete(&self) -> (r: bool)
        ensures
            r == self.files.complete(),
    {
        let mut i: usize = 0;
        while i < CANON_COUNT
            invariant
                i <= CANON_COUNT,
                forall|j: int| 0 <= j < i ==> (#[trigger] self.files.slot(j)).is_some(),
            decreases CANON_COUNT - i,
        {
            if self.files.slot_path(i).is_none() {
                return false;
            }
            i = i + 1;
        }
        true
    }

    /// The names of the canon files that were not found, in slot order.
    pub fn get_missing_files(&self) -> (r: Vec<String>)
        ensures
            r@.map_values(|s: String| s@) == self.files.missing_upto(CANON_COUNT as int),
    {
        let mut missing: Vec<String> = Vec::new();
        let mut i: usize = 0;
        while i < CANON_COUNT
            invariant
                i <= CANON_COUNT,
                missing@.map_values(|s: String| s@) == self.files.missing_upto(i as int),
            decreases CANON_COUNT - i,
        {
            if self.files.slot_path(i).is_none() {
                missing.push(String::from_str(canon_file_name(i)));
                assert(missing@.map_values(|s: String| s@) =~= self.files.missing_upto(i as int).push(
                    canon_name(i as int),
                ));
            }
            i = i + 1;
        }
        missing
    }
}

} // verus!
