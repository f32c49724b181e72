//! Daemon configuration: policy modes, endpoint, limits.
//!
//! An organisation's policy takes precedence over the user's. Within one
//! file, missing fields use defaults.
use vstd::prelude::*;

use crate::pathname;
use crate::pathname::Style;
use crate::resolve;
use crate::resolve::{Answer, Place, PlaceModel, Resolution, Walk, WalkModel};
use crate::text;

verus! {

pub const DEFAULT_ENDPOINT: &'static str = "https://cloud.membrane.example.com:443";

pub const DEFAULT_EXEC_TIMEOUT_MS: u32 = 60_000;

/// Ten minutes: no configuration allows a longer exec.
pub const MAX_EXEC_TIMEOUT_MS: u32 = 600_000;

/// 1 MiB.
pub const DEFAULT_MAX_OUTPUT: u64 = 0x10_0000;

/// 16 MiB.
pub const DEFAULT_MAX_READ: u64 = 0x100_0000;

/// Policy mode: how the daemon constrains what the cloud can do.
#[derive(Debug, Clone, PartialEq)]
pub enum PolicyMode {
    /// Full power: any path, any command. The default of a fresh install.
    Unrestricted,
    /// Paths confined to `roots`; exec unrestricted, in the first root.
    Workspace { roots: Vec<String> },
    /// Paths confined to `roots`; exec only of binaries in `exec_allowlist`.
    WorkspaceAllowlistExec { roots: Vec<String>, exec_allowlist: Vec<String> },
    /// Writes and exec denied; reads confined to `roots`.
    ReadOnly { roots: Vec<String> },
}

/// What a [`PolicyMode`] says.
#[verifier::ext_equal]
pub enum PolicyModel {
    Unrestricted,
    Workspace { roots: Seq<Seq<char>> },
    WorkspaceAllowlistExec { roots: Seq<Seq<char>>, exec_allowlist: Seq<Seq<char>> },
    ReadOnly { roots: Seq<Seq<char>> },
}

/// The texts of some strings.
pub open spec fn texts(v: Seq<String>) -> Seq<Seq<char>> {
    v.map_values(|s: String| s@)
}

impl View for PolicyMode {
    type V = PolicyModel;

    open spec fn view(&self) -> PolicyModel {
        match self {
            PolicyMode::Unrestricted => PolicyModel::Unrestricted,
            PolicyMode::Workspace { roots } => PolicyModel::Workspace { roots: texts(roots@) },
            PolicyMode::WorkspaceAllowlistExec { roots, exec_allowlist } => {
                PolicyModel::WorkspaceAllowlistExec {
                    roots: texts(roots@),
                    exec_allowlist: texts(exec_allowlist@),
                }
            },
            PolicyMode::ReadOnly { roots } => PolicyModel::ReadOnly { roots: texts(roots@) },
        }
    }
}

/// Where a path leads, as far as was looked up.
pub open spec fn led(resolution: Resolution, path: Seq<char>) -> WalkModel {
    resolution.leads(vstd::utf8::encode_utf8(path))
}

/// The components of a root as policy sees it: of the place that it leads to, or
/// as it was given where it cannot be said where it leads.
pub open spec fn root_components(resolution: Resolution, root: Seq<char>) -> Seq<Seq<u8>> {
    match led(resolution, root) {
        WalkModel::Leads(place) => place.components(resolution.style),
        _ => pathname::components(resolution.style, vstd::utf8::encode_utf8(root)),
    }
}

/// Whether a root is there.
pub open spec fn is_there(resolution: Resolution, root: Seq<char>) -> bool {
    led(resolution, root) matches WalkModel::Leads(place) && place.rest.len() == 0
}

/// Whether a place lies under a root: if the root is there, so does what is there
/// of the place.
pub open spec fn is_held(resolution: Resolution, root: Seq<char>, place: PlaceModel) -> bool {
    let base = root_components(resolution, root);
    let solid = pathname::components(resolution.style, place.canon);
    &&& pathname::is_under(place.components(resolution.style), base)
    &&& is_there(resolution, root) ==> pathname::is_under(solid, base)
}

/// Whether components lie under one of some roots.
pub open spec fn is_within(
    resolution: Resolution,
    roots: Seq<Seq<char>>,
    all: Seq<Seq<u8>>,
) -> bool {
    exists|i: int|
        0 <= i < roots.len() && #[trigger] pathname::is_under(
            all,
            root_components(resolution, roots[i]),
        )
}

/// Whether a place lies under one of some roots, and so does everything that is
/// not there yet on the way to it.
pub open spec fn admits(
    resolution: Resolution,
    roots: Seq<Seq<char>>,
    place: PlaceModel,
) -> bool {
    &&& !place.components(resolution.style).contains(pathname::climb())
    &&& exists|i: int| 0 <= i < roots.len() && #[trigger] is_held(resolution, roots[i], place)
    &&& forall|j: int|
        0 <= j < place.passed.len() ==> is_within(resolution, roots, #[trigger] place.passed[j])
}

/// The first place to look up to learn where some paths lead, if there is one.
pub open spec fn wanted_of(resolution: Resolution, paths: Seq<Seq<char>>) -> Option<Seq<u8>>
    decreases paths.len(),
{
    if paths.len() == 0 {
        None
    } else {
        match led(resolution, paths[0]) {
            WalkModel::Wants(asked) => Some(asked),
            _ => wanted_of(resolution, paths.skip(1)),
        }
    }
}

/// The name that a binary goes by: the last component of its path, or the
/// whole path where that has no such name.
pub open spec fn base_name(style: Style, bin: Seq<u8>) -> Seq<u8> {
    match pathname::file_name_of(style, bin) {
        Some(name) => name,
        None => bin,
    }
}

/// Whether an allowlist entry covers a binary: it is the binary as given, or
/// its base name, or a path with that base name.
pub open spec fn covers(style: Style, entry: Seq<u8>, bin: Seq<u8>) -> bool {
    ||| entry == bin
    ||| entry == base_name(style, bin)
    ||| pathname::file_name_of(style, entry) == Some(base_name(style, bin))
}

impl PolicyModel {
    /// The roots that paths are confined to, if they are confined.
    pub open spec fn roots(self) -> Option<Seq<Seq<char>>> {
        match self {
            PolicyModel::Unrestricted => None,
            PolicyModel::Workspace { roots } => Some(roots),
            PolicyModel::WorkspaceAllowlistExec { roots, .. } => Some(roots),
            PolicyModel::ReadOnly { roots } => Some(roots),
        }
    }

    /// Whether the policy allows the path: it is confined to no roots, or leads to
    /// a place under one of them, by way of nothing outside them that is not there
    /// yet (and that a write would make). A path of which it cannot be said where
    /// it leads lies under no root.
    pub open spec fn allows_path(self, path: Seq<char>, resolution: Resolution) -> bool {
        match self.roots() {
            None => true,
            Some(roots) => match led(resolution, path) {
                WalkModel::Leads(place) => admits(resolution, roots, place),
                _ => false,
            },
        }
    }

    /// The first place to look up before the policy can be asked for a path, if
    /// there is one.
    pub open spec fn wants(self, path: Seq<char>, resolution: Resolution) -> Option<Seq<u8>> {
        match self.roots() {
            None => None,
            Some(roots) => wanted_of(resolution, seq![path] + roots),
        }
    }

    /// Whether the policy allows writes at all.
    pub open spec fn allows_writes(self) -> bool {
        !(self is ReadOnly)
    }

    /// Whether the policy allows the command. An allowlist is asked for the
    /// command's first word.
    pub open spec fn allows_exec(self, cmd: Seq<char>, style: Style) -> bool {
        match self {
            PolicyModel::ReadOnly { .. } => false,
            PolicyModel::Unrestricted => true,
            PolicyModel::Workspace { .. } => true,
            PolicyModel::WorkspaceAllowlistExec { exec_allowlist, .. } => exists|i: int|
                0 <= i < exec_allowlist.len() && #[trigger] covers(
                    style,
                    vstd::utf8::encode_utf8(exec_allowlist[i]),
                    vstd::utf8::encode_utf8(text::first_word_of(cmd)),
                ),
        }
    }

    /// The mode's name.
    pub open spec fn mode_name(self) -> Seq<char> {
        match self {
            PolicyModel::Unrestricted => "Unrestricted"@,
            PolicyModel::Workspace { .. } => "Workspace"@,
            PolicyModel::WorkspaceAllowlistExec { .. } => "WorkspaceAllowlistExec"@,
            PolicyModel::ReadOnly { .. } => "ReadOnly"@,
        }
    }
}

impl Default for PolicyMode {
    fn default() -> (res: Self)
        ensures
            res == PolicyMode::Unrestricted,
    {
        PolicyMode::Unrestricted
    }
}

impl PolicyMode {
    /// The configured roots if the mode is confined to some, otherwise `None`
    /// (anywhere).
    pub fn roots(&self) -> (res: Option<&[String]>)
        ensures
            res is Some <==> self@.roots() is Some,
            res matches Some(roots) ==> self@.roots() == Some(texts(roots@)),
    {
        match self {
            PolicyMode::Unrestricted => None,
            PolicyMode::Workspace { roots } => Some(roots.as_slice()),
            PolicyMode::WorkspaceAllowlistExec { roots, .. } => Some(roots.as_slice()),
            PolicyMode::ReadOnly { roots } => Some(roots.as_slice()),
        }
    }

    /// Whether the path is allowed, given what was looked up on the disk.
    pub fn path_allowed(&self, path: &str, resolution: &Resolution) -> (res: bool)
        ensures
            res == self@.allows_path(path@, *resolution),
    {
        let roots = match self.roots() {
            None => {
                return true;
            },
            Some(roots) => roots,
        };
        let ghost names = texts(roots@);
        let place = match resolution.lead_to(path.as_bytes()) {
            Walk::Leads(place) => place,
            _ => {
                return false;
            },
        };
        let all = place.components(resolution.style);
        if pathname::has_climb(&all) || !held(resolution, roots, &place, &all) {
            return false;
        }
        let m: usize = place.passed.len();
        let mut k: usize = 0;
        while k < m
            invariant
                m == place.passed@.len(),
                k <= m,
                names == texts(roots@),
                place@.passed.len() == m,
                self@.roots() == Some(names),
                led(*resolution, path@) == WalkModel::Leads(place@),
                forall|j: int|
                    0 <= j < k ==> is_within(*resolution, names, #[trigger] place@.passed[j]),
            decreases m - k,
        {
            proof {
                assert(place@.passed[k as int] == pathname::views(place.passed@[k as int]@));
            }
            if !within(resolution, roots, &place.passed[k]) {
                proof {
                    assert(!is_within(*resolution, names, place@.passed[k as int]));
                }
                return false;
            }
            k += 1;
        }
        true
    }

    /// The first place to look up before the policy can be asked for a path, if
    /// there is one.
    pub fn wanted(&self, path: &str, resolution: &Resolution) -> (res: Option<Vec<u8>>)
        ensures
            res is Some <==> self@.wants(path@, *resolution) is Some,
            res matches Some(asked) ==> self@.wants(path@, *resolution) == Some(asked@),
    {
        let roots = match self.roots() {
            None => {
                return None;
            },
            Some(roots) => roots,
        };
        let ghost paths = seq![path@] + texts(roots@);
        match resolution.lead_to(path.as_bytes()) {
            Walk::Wants(asked) => {
                return Some(asked);
            },
            _ => {},
        }
        let n: usize = roots.len();
        let mut i: usize = 0;
        proof {
            assert(paths.skip(1) =~= texts(roots@).skip(0));
        }
        while i < n
            invariant
                n == roots@.len(),
                i <= n,
                self@.roots() == Some(texts(roots@)),
                self@.wants(path@, *resolution) == wanted_of(
                    *resolution,
                    texts(roots@).skip(i as int),
                ),
            decreases n - i,
        {
            let ghost rest = texts(roots@).skip(i as int);
            proof {
                assert(rest[0] == roots@[i as int]@);
                assert(rest.skip(1) =~= texts(roots@).skip(i + 1));
            }
            match resolution.lead_to(roots[i].as_str().as_bytes()) {
                Walk::Wants(asked) => {
                    return Some(asked);
                },
                _ => {},
            }
            i += 1;
        }
        None
    }

    /// Whether write operations are allowed at all.
    pub fn writes_allowed(&self) -> (res: bool)
        ensures
            res == self@.allows_writes(),
    {
        match self {
            PolicyMode::ReadOnly { .. } => false,
            _ => true,
        }
    }

    /// Whether exec of the command is allowed, with paths in the given style.
    pub fn exec_allowed(&self, cmd: &str, style: Style) -> (res: bool)
        ensures
            res == self@.allows_exec(cmd@, style),
    {
        match self {
            PolicyMode::ReadOnly { .. } => false,
            PolicyMode::Unrestricted => true,
            PolicyMode::Workspace { .. } => true,
            PolicyMode::WorkspaceAllowlistExec { exec_allowlist, .. } => {
                let bin = text::first_word(cmd).as_bytes();
                let name = pathname::file_name(style, bin);
                let base: &[u8] = match &name {
                    Some(name) => name.as_slice(),
                    None => bin,
                };
                let ghost list = texts(exec_allowlist@);
                let n: usize = exec_allowlist.len();
                let mut i: usize = 0;
                while i < n
                    invariant
                        n == exec_allowlist@.len(),
                        i <= n,
                        list == texts(exec_allowlist@),
                        self@ is WorkspaceAllowlistExec,
                        self@->exec_allowlist == list,
                        bin@ == vstd::utf8::encode_utf8(text::first_word_of(cmd@)),
                        base@ == base_name(style, bin@),
                        forall|j: int|
                            0 <= j < i ==> !#[trigger] covers(
                                style,
                                vstd::utf8::encode_utf8(list[j]),
                                bin@,
                            ),
                    decreases n - i,
                {
                    let entry = exec_allowlist[i].as_str().as_bytes();
                    proof {
                        assert(list[i as int] == exec_allowlist@[i as int]@);
                        assert(entry@ == vstd::utf8::encode_utf8(list[i as int]));
                    }
                    if text::same_bytes(entry, bin) || text::same_bytes(entry, base) {
                        assert(covers(style, vstd::utf8::encode_utf8(list[i as int]), bin@));
                        return true;
                    }
                    match pathname::file_name(style, entry) {
                        Some(name) => {
                            if text::same_bytes(name.as_slice(), base) {
                                assert(covers(style, vstd::utf8::encode_utf8(list[i as int]), bin@));
                                return true;
                            }
                        },
                        None => {},
                    }
                    i += 1;
                }
                false
            },
        }
    }

    /// The mode's name.
    pub fn name(&self) -> (res: &'static str)
        ensures
            res@ == self@.mode_name(),
    {
        match self {
            PolicyMode::Unrestricted => "Unrestricted",
            PolicyMode::Workspace { .. } => "Workspace",
            PolicyMode::WorkspaceAllowlistExec { .. } => "WorkspaceAllowlistExec",
            PolicyMode::ReadOnly { .. } => "ReadOnly",
        }
    }
}

/// The components of a root, and whether it is there.
fn base_of(resolution: &Resolution, root: &String) -> (res: (Vec<Vec<u8>>, bool))
    ensures
        pathname::views(res.0@) == root_components(*resolution, root@),
        res.1 == is_there(*resolution, root@),
{
    let bytes = root.as_str().as_bytes();
    match resolution.lead_to(bytes) {
        Walk::Leads(place) => {
            proof {
                assert(place@.rest.len() == place.rest@.len());
            }
            (place.components(resolution.style), place.rest.len() == 0)
        },
        _ => (pathname::components_of(resolution.style, bytes), false),
    }
}

/// Whether a place of these components lies under one of some roots.
fn held(resolution: &Resolution, roots: &[String], place: &Place, all: &Vec<Vec<u8>>) -> (res: bool)
    requires
        pathname::views(all@) == place@.components(resolution.style),
    ensures
        res == exists|i: int|
            0 <= i < texts(roots@).len() && #[trigger] is_held(
                *resolution,
                texts(roots@)[i],
                place@,
            ),
{
    let ghost names = texts(roots@);
    let solid = pathname::components_of(resolution.style, place.canon.as_slice());
    let n: usize = roots.len();
    let mut i: usize = 0;
    while i < n
        invariant
            n == roots@.len(),
            i <= n,
            names == texts(roots@),
            pathname::views(all@) == place@.components(resolution.style),
            pathname::views(solid@) == pathname::components(resolution.style, place@.canon),
            forall|j: int| 0 <= j < i ==> !#[trigger] is_held(*resolution, names[j], place@),
        decreases n - i,
    {
        let (base, there) = base_of(resolution, &roots[i]);
        proof {
            assert(names[i as int] == roots@[i as int]@);
        }
        if pathname::starts_with(all, &base) && (!there || pathname::starts_with(&solid, &base)) {
            proof {
                assert(is_held(*resolution, names[i as int], place@));
            }
            return true;
        }
        i += 1;
    }
    false
}

/// Whether components lie under one of some roots.
fn within(resolution: &Resolution, roots: &[String], all: &Vec<Vec<u8>>) -> (res: bool)
    ensures
        res == is_within(*resolution, texts(roots@), pathname::views(all@)),
{
    let ghost names = texts(roots@);
    let n: usize = roots.len();
    let mut i: usize = 0;
    while i < n
        invariant
            n == roots@.len(),
            i <= n,
            names == texts(roots@),
            forall|j: int|
                0 <= j < i ==> !#[trigger] pathname::is_under(
                    pathname::views(all@),
                    root_components(*resolution, names[j]),
                ),
        decreases n - i,
    {
        let (base, _) = base_of(resolution, &roots[i]);
        proof {
            assert(names[i as int] == roots@[i as int]@);
        }
        if pathname::starts_with(all, &base) {
            proof {
                assert(pathname::is_under(
                    pathname::views(all@),
                    root_components(*resolution, names[i as int]),
                ));
            }
            return true;
        }
        i += 1;
    }
    false
}

/// Full daemon configuration.
#[derive(Debug, Clone)]
pub struct Config {
    /// Cloud endpoint URL.
    pub endpoint: String,
    /// Current policy mode.
    pub policy: PolicyMode,
    /// Ceiling on the exec timeout in ms.
    pub max_exec_timeout_ms: u32,
    /// Ceiling on exec output bytes, of stdout and of stderr.
    pub max_output_bytes: u64,
    /// Ceiling on a single file read.
    pub max_read_bytes: u64,
}

/// What a [`Config`] says.
#[verifier::ext_equal]
pub struct ConfigModel {
    pub endpoint: Seq<char>,
    pub policy: PolicyModel,
    pub max_exec_timeout_ms: u32,
    pub max_output_bytes: u64,
    pub max_read_bytes: u64,
}

impl View for Config {
    type V = ConfigModel;

    open spec fn view(&self) -> ConfigModel {
        ConfigModel {
            endpoint: self.endpoint@,
            policy: self.policy@,
            max_exec_timeout_ms: self.max_exec_timeout_ms,
            max_output_bytes: self.max_output_bytes,
            max_read_bytes: self.max_read_bytes,
        }
    }
}

impl ConfigModel {
    /// The default configuration.
    pub open spec fn initial() -> ConfigModel {
        ConfigModel {
            endpoint: DEFAULT_ENDPOINT@,
            policy: PolicyModel::Unrestricted,
            max_exec_timeout_ms: DEFAULT_EXEC_TIMEOUT_MS,
            max_output_bytes: DEFAULT_MAX_OUTPUT,
            max_read_bytes: DEFAULT_MAX_READ,
        }
    }

    /// The configuration with every field that a policy file sets put in place
    /// of its own.
    pub open spec fn overridden(self, file: PolicyFileModel) -> ConfigModel {
        ConfigModel {
            endpoint: match file.endpoint {
                Some(endpoint) => endpoint,
                None => self.endpoint,
            },
            policy: match file.policy {
                Some(policy) => policy,
                None => self.policy,
            },
            max_exec_timeout_ms: match file.max_exec_timeout_ms {
                Some(ms) => ms,
                None => self.max_exec_timeout_ms,
            },
            max_output_bytes: match file.max_output_bytes {
                Some(bytes) => bytes,
                None => self.max_output_bytes,
            },
            max_read_bytes: match file.max_read_bytes {
                Some(bytes) => bytes,
                None => self.max_read_bytes,
            },
        }
    }

    /// The configuration with its exec timeout cut to the hard ceiling.
    pub open spec fn clamped(self) -> ConfigModel {
        ConfigModel {
            max_exec_timeout_ms: if self.max_exec_timeout_ms > MAX_EXEC_TIMEOUT_MS {
                MAX_EXEC_TIMEOUT_MS
            } else {
                self.max_exec_timeout_ms
            },
            ..self
        }
    }

    /// The configuration that results from the two policy files, either of
    /// which may be missing: the defaults, then what the user's file sets, then
    /// what the organisation's file sets.
    pub open spec fn effective(
        user: Option<PolicyFileModel>,
        system: Option<PolicyFileModel>,
    ) -> ConfigModel {
        let base = match user {
            Some(file) => ConfigModel::initial().overridden(file),
            None => ConfigModel::initial(),
        };
        let merged = match system {
            Some(file) => base.overridden(file),
            None => base,
        };
        merged.clamped()
    }

    /// The exec timeout for a request: what was requested, or the ceiling if
    /// that is lower or if nothing (0) was requested.
    pub open spec fn exec_timeout(self, requested: u32) -> u32 {
        if requested == 0 || requested > self.max_exec_timeout_ms {
            self.max_exec_timeout_ms
        } else {
            requested
        }
    }
}

/// What a policy file sets; a field that it does not mention is `None`.
#[derive(Debug, Clone)]
pub struct PolicyFile {
    pub endpoint: Option<String>,
    pub policy: Option<PolicyMode>,
    pub max_exec_timeout_ms: Option<u32>,
    pub max_output_bytes: Option<u64>,
    pub max_read_bytes: Option<u64>,
}

/// What a [`PolicyFile`] says.
#[verifier::ext_equal]
pub struct PolicyFileModel {
    pub endpoint: Option<Seq<char>>,
    pub policy: Option<PolicyModel>,
    pub max_exec_timeout_ms: Option<u32>,
    pub max_output_bytes: Option<u64>,
    pub max_read_bytes: Option<u64>,
}

impl View for PolicyFile {
    type V = PolicyFileModel;

    open spec fn view(&self) -> PolicyFileModel {
        PolicyFileModel {
            endpoint: text::said(self.endpoint),
            policy: match self.policy {
                Some(policy) => Some(policy@),
                None => None,
            },
            max_exec_timeout_ms: self.max_exec_timeout_ms,
            max_output_bytes: self.max_output_bytes,
            max_read_bytes: self.max_read_bytes,
        }
    }
}

/// What a policy file says, if there is one.
pub open spec fn model(file: Option<PolicyFile>) -> Option<PolicyFileModel> {
    match file {
        Some(f) => Some(f@),
        None => None,
    }
}

/// The endpoint of a configuration that names none.
pub fn default_endpoint() -> (res: String)
    ensures
        res@ == DEFAULT_ENDPOINT@,
{
    DEFAULT_ENDPOINT.to_string()
}

/// The exec timeout of a configuration that names none.
pub fn default_exec_timeout_ms() -> (res: u32)
    ensures
        res == DEFAULT_EXEC_TIMEOUT_MS,
{
    DEFAULT_EXEC_TIMEOUT_MS
}

/// The output limit of a configuration that names none.
pub fn default_max_output() -> (res: u64)
    ensures
        res == DEFAULT_MAX_OUTPUT,
{
    DEFAULT_MAX_OUTPUT
}

/// The read limit of a configuration that names none.
pub fn default_max_read() -> (res: u64)
    ensures
        res == DEFAULT_MAX_READ,
{
    DEFAULT_MAX_READ
}

impl Default for Config {
    fn default() -> (res: Self)
        ensures
            res@ == ConfigModel::initial(),
    {
        Config {
            endpoint: default_endpoint(),
            policy: PolicyMode::default(),
            max_exec_timeout_ms: default_exec_timeout_ms(),
            max_output_bytes: default_max_output(),
            max_read_bytes: default_max_read(),
        }
    }
}

impl Config {
    /// The effective configuration from the user's and the organisation's
    /// policy files, each if it exists.
    pub fn load(user: Option<PolicyFile>, system: Option<PolicyFile>) -> (res: Config)
        ensures
            res@ == ConfigModel::effective(model(user), model(system)),
    {
        let base = match user {
            Some(file) => merge_into(Config::default(), file),
            None => Config::default(),
        };
        let mut c = match system {
            Some(file) => merge_into(base, file),
            None => base,
        };
        if c.max_exec_timeout_ms > MAX_EXEC_TIMEOUT_MS {
            c.max_exec_timeout_ms = MAX_EXEC_TIMEOUT_MS;
        }
        c
    }

    /// The exec timeout for a request: `requested` cut to the ceiling, and the
    /// ceiling if that is 0.
    pub fn effective_exec_timeout_ms(&self, requested: u32) -> (res: u32)
        ensures
            res == self@.exec_timeout(requested),
    {
        let req: u32 = if requested == 0 {
            self.max_exec_timeout_ms
        } else {
            requested
        };
        if req < self.max_exec_timeout_ms {
            req
        } else {
            self.max_exec_timeout_ms
        }
    }
}

/// Per-field merge: every field that the `system` file sets replaces the same
/// field of `user`.
pub fn merge_into(user: Config, system: PolicyFile) -> (res: Config)
    ensures
        res@ == user@.overridden(system@),
{
    Config {
        endpoint: match system.endpoint {
            Some(endpoint) => endpoint,
            None => user.endpoint,
        },
        policy: match system.policy {
            Some(policy) => policy,
            None => user.policy,
        },
        max_exec_timeout_ms: match system.max_exec_timeout_ms {
            Some(ms) => ms,
            None => user.max_exec_timeout_ms,
        },
        max_output_bytes: match system.max_output_bytes {
            Some(bytes) => bytes,
            None => user.max_output_bytes,
        },
        max_read_bytes: match system.max_read_bytes {
            Some(bytes) => bytes,
            None => user.max_read_bytes,
        },
    }
}

// ── Laws ────────────────────────────────────────────────────────────

/// The organisation's value if there is one, else the user's, else the default.
pub open spec fn chosen<T>(system: Option<T>, user: Option<T>, default: T) -> T {
    match (system, user) {
        (Some(value), _) => value,
        (None, Some(value)) => value,
        (None, None) => default,
    }
}

/// No exec ever runs longer than the hard ceiling, whatever the policy files
/// say and whatever is requested; nor longer than the configured ceiling.
pub proof fn law_exec_timeout_is_bounded(
    user: Option<PolicyFileModel>,
    system: Option<PolicyFileModel>,
    requested: u32,
)
    ensures
        ({
            let cfg = ConfigModel::effective(user, system);
            &&& cfg.exec_timeout(requested) <= cfg.max_exec_timeout_ms
            &&& cfg.max_exec_timeout_ms <= MAX_EXEC_TIMEOUT_MS
        }),
{
}

/// The organisation's policy takes precedence: what its file names as the policy
/// is the policy, whatever the user's file says.
pub proof fn law_system_policy_wins(user: Option<PolicyFileModel>, system: PolicyFileModel)
    requires
        system.policy is Some,
    ensures
        ConfigModel::effective(user, Some(system)).policy == system.policy->Some_0,
{
}

/// Every field that the organisation's file sets takes precedence over the
/// user's, also where it is set to its default; every other field is the
/// user's, or the default if neither file sets it. The exec timeout is then cut
/// to the hard ceiling.
pub proof fn law_system_fields_win(user: PolicyFileModel, system: PolicyFileModel)
    ensures
        ({
            let d = ConfigModel::initial();
            let c = ConfigModel::effective(Some(user), Some(system));
            let ms = chosen(system.max_exec_timeout_ms, user.max_exec_timeout_ms, d.max_exec_timeout_ms);
            &&& c.endpoint == chosen(system.endpoint, user.endpoint, d.endpoint)
            &&& c.policy == chosen(system.policy, user.policy, d.policy)
            &&& c.max_exec_timeout_ms == if ms > MAX_EXEC_TIMEOUT_MS { MAX_EXEC_TIMEOUT_MS } else { ms }
            &&& c.max_output_bytes == chosen(
                system.max_output_bytes,
                user.max_output_bytes,
                d.max_output_bytes,
            )
            &&& c.max_read_bytes == chosen(system.max_read_bytes, user.max_read_bytes, d.max_read_bytes)
        }),
{
}

/// A symlink does not lead out of the workspace: a path that leads to a place
/// under no root is refused, wherever its name seems to lie and whether or not
/// anything is there; so is one of which it cannot be said where it leads.
pub proof fn law_symlinks_do_not_escape(
    policy: PolicyModel,
    path: Seq<char>,
    resolution: Resolution,
)
    requires
        policy.roots() is Some,
        led(resolution, path) matches WalkModel::Leads(place) ==> !is_within(
            resolution,
            policy.roots()->Some_0,
            place.components(resolution.style),
        ),
    ensures
        !policy.allows_path(path, resolution),
{
    let roots = policy.roots()->Some_0;
    if policy.allows_path(path, resolution) {
        let place = led(resolution, path)->Leads_0;
        let i = choose|i: int|
            0 <= i < roots.len() && #[trigger] is_held(resolution, roots[i], place);
        assert(pathname::is_under(
            place.components(resolution.style),
            root_components(resolution, roots[i]),
        ));
    }
}

/// A confined daemon touches nothing outside its roots: an allowed path leads to
/// one of the roots followed by names below it, none of which leads back up, and
/// every directory that is not there yet and that it leads through lies under a
/// root too.
pub proof fn law_confined_to_roots(policy: PolicyModel, path: Seq<char>, resolution: Resolution)
    requires
        policy.roots() is Some,
        policy.allows_path(path, resolution),
    ensures
        led(resolution, path) is Leads,
        ({
            let place = led(resolution, path)->Leads_0;
            &&& exists|i: int|
                0 <= i < policy.roots()->Some_0.len() && #[trigger] pathname::is_inside(
                    place.components(resolution.style),
                    root_components(resolution, policy.roots()->Some_0[i]),
                )
            &&& forall|j: int|
                0 <= j < place.passed.len() ==> is_within(
                    resolution,
                    policy.roots()->Some_0,
                    #[trigger] place.passed[j],
                )
        }),
{
    let roots = policy.roots()->Some_0;
    let place = led(resolution, path)->Leads_0;
    let i = choose|i: int|
        0 <= i < roots.len() && #[trigger] is_held(resolution, roots[i], place);
    let all = place.components(resolution.style);
    let root = root_components(resolution, roots[i]);
    let below = all.skip(root.len() as int);
    if below.contains(pathname::climb()) {
        let k = choose|k: int| 0 <= k < below.len() && below[k] == pathname::climb();
        assert(all[root.len() + k] == pathname::climb());
    }
    assert(pathname::is_inside(all, root_components(resolution, roots[i])));
}

/// A new file is made where its directory really is: where something is still to
/// be made at an allowed path, the deepest directory that is there lies under a
/// root, unless that root is still to be made itself.
pub proof fn law_new_files_stay_inside(
    policy: PolicyModel,
    path: Seq<char>,
    resolution: Resolution,
)
    requires
        policy.roots() is Some,
        policy.allows_path(path, resolution),
    ensures
        led(resolution, path) is Leads,
        exists|i: int|
            0 <= i < policy.roots()->Some_0.len() && {
                let root = #[trigger] policy.roots()->Some_0[i];
                is_there(resolution, root) ==> pathname::is_under(
                    pathname::components(resolution.style, led(resolution, path)->Leads_0.canon),
                    root_components(resolution, root),
                )
            },
{
    let roots = policy.roots()->Some_0;
    let place = led(resolution, path)->Leads_0;
    let i = choose|i: int|
        0 <= i < roots.len() && #[trigger] is_held(resolution, roots[i], place);
    let root = policy.roots()->Some_0[i];
    assert(is_held(resolution, root, place));
}

/// Whatever lies below a place that policy allows is allowed too.
pub proof fn law_allowed_below_allowed(
    policy: PolicyModel,
    path: Seq<char>,
    below: Seq<char>,
    resolution: Resolution,
)
    requires
        policy.allows_path(path, resolution),
        led(resolution, path) is Leads,
        led(resolution, below) is Leads,
        ({
            let upper = led(resolution, path)->Leads_0;
            let lower = led(resolution, below)->Leads_0;
            let style = resolution.style;
            &&& pathname::is_inside(lower.components(style), upper.components(style))
            &&& pathname::is_under(
                pathname::components(style, lower.canon),
                pathname::components(style, upper.canon),
            )
            &&& lower.passed.len() == 0
        }),
    ensures
        policy.allows_path(below, resolution),
{
    match policy.roots() {
        None => {},
        Some(roots) => {
            let style = resolution.style;
            let upper = led(resolution, path)->Leads_0;
            let lower = led(resolution, below)->Leads_0;
            let i = choose|i: int|
                0 <= i < roots.len() && #[trigger] is_held(resolution, roots[i], upper);
            let root = root_components(resolution, roots[i]);
            let all = lower.components(style);
            let base = upper.components(style);
            pathname::law_under_is_a_preorder(all, base, root);
            pathname::law_under_is_a_preorder(
                pathname::components(style, lower.canon),
                pathname::components(style, upper.canon),
                root,
            );
            assert(is_held(resolution, roots[i], lower));
            if all.contains(pathname::climb()) {
                let k = choose|k: int| 0 <= k < all.len() && all[k] == pathname::climb();
                if k < base.len() {
                    assert(base[k] == all.take(base.len() as int)[k]);
                } else {
                    assert(all.skip(base.len() as int)[k - base.len()] == pathname::climb());
                }
            }
        },
    }
}

proof fn lemma_wanted(resolution: Resolution, paths: Seq<Seq<char>>)
    ensures
        match wanted_of(resolution, paths) {
            Some(asked) => resolve::answer_to(resolution.answers@, asked) is None,
            None => forall|i: int|
                0 <= i < paths.len() ==> !(#[trigger] led(resolution, paths[i]) is Wants),
        },
    decreases paths.len(),
{
    if paths.len() > 0 {
        resolve::law_wanted_is_new(resolution, vstd::utf8::encode_utf8(paths[0]));
        lemma_wanted(resolution, paths.skip(1));
        assert forall|i: int|
            0 <= i < paths.len() && wanted_of(resolution, paths) is None implies !(
        #[trigger] led(resolution, paths[i]) is Wants) by {
            if i > 0 {
                assert(paths[i] == paths.skip(1)[i - 1]);
            }
        }
    }
}

/// No place is looked up twice before the policy is asked for a path.
pub proof fn law_lookups_are_new(policy: PolicyModel, path: Seq<char>, resolution: Resolution)
    ensures
        policy.wants(path, resolution) matches Some(asked) ==> resolve::answer_to(
            resolution.answers@,
            asked,
        ) is None,
{
    match policy.roots() {
        None => {},
        Some(roots) => {
            lemma_wanted(resolution, seq![path] + roots);
        },
    }
}

/// Once no place is wanted any more, looking up others does not change what the
/// policy says of a path.
pub proof fn law_decisions_are_final(
    policy: PolicyModel,
    path: Seq<char>,
    resolution: Resolution,
    new: Answer,
    more: Resolution,
)
    requires
        policy.wants(path, resolution) is None,
        resolve::answer_to(resolution.answers@, new.asked@) is None,
        more.style == resolution.style,
        more.answers@ == resolution.answers@.push(new),
    ensures
        policy.allows_path(path, more) == policy.allows_path(path, resolution),
{
    match policy.roots() {
        None => {},
        Some(roots) => {
            let paths = seq![path] + roots;
            lemma_wanted(resolution, paths);
            assert forall|i: int| 0 <= i < paths.len() implies #[trigger] led(more, paths[i])
                == led(resolution, paths[i]) by {
                resolve::law_places_are_final(
                    resolution,
                    more,
                    new,
                    vstd::utf8::encode_utf8(paths[i]),
                );
            }
            assert(paths[0] == path);
            assert(led(more, paths[0]) == led(resolution, path));
            assert forall|i: int| 0 <= i < roots.len() implies #[trigger] root_components(
                more,
                roots[i],
            ) == root_components(resolution, roots[i]) && is_there(more, roots[i]) == is_there(
                resolution,
                roots[i],
            ) by {
                assert(paths[i + 1] == roots[i]);
                assert(led(more, paths[i + 1]) == led(resolution, roots[i]));
            }
            if led(resolution, path) is Leads {
                let place = led(resolution, path)->Leads_0;
                assert forall|i: int| 0 <= i < roots.len() implies #[trigger] is_held(
                    more,
                    roots[i],
                    place,
                ) == is_held(resolution, roots[i], place) by {
                    assert(root_components(more, roots[i]) == root_components(resolution, roots[i]));
                }
                lemma_same_holder(resolution, more, roots, place);
                assert forall|j: int| 0 <= j < place.passed.len() implies is_within(
                    more,
                    roots,
                    #[trigger] place.passed[j],
                ) == is_within(resolution, roots, place.passed[j]) by {
                    lemma_same_roots(resolution, more, roots, place.passed[j]);
                }
                assert(admits(more, roots, place) == admits(resolution, roots, place));
            }
        },
    }
}

proof fn lemma_same_holder(
    a: Resolution,
    b: Resolution,
    roots: Seq<Seq<char>>,
    place: PlaceModel,
)
    requires
        forall|i: int|
            0 <= i < roots.len() ==> #[trigger] is_held(b, roots[i], place) == is_held(
                a,
                roots[i],
                place,
            ),
    ensures
        (exists|i: int| 0 <= i < roots.len() && #[trigger] is_held(a, roots[i], place)) == (exists|
            i: int,
        |
            0 <= i < roots.len() && #[trigger] is_held(b, roots[i], place)),
{
    if exists|i: int| 0 <= i < roots.len() && #[trigger] is_held(a, roots[i], place) {
        let i = choose|i: int| 0 <= i < roots.len() && #[trigger] is_held(a, roots[i], place);
        assert(is_held(b, roots[i], place));
    }
}

proof fn lemma_same_roots(a: Resolution, b: Resolution, roots: Seq<Seq<char>>, all: Seq<Seq<u8>>)
    requires
        forall|i: int|
            0 <= i < roots.len() ==> #[trigger] root_components(b, roots[i]) == root_components(
                a,
                roots[i],
            ),
    ensures
        is_within(a, roots, all) == is_within(b, roots, all),
{
    if is_within(a, roots, all) {
        let i = choose|i: int|
            0 <= i < roots.len() && #[trigger] pathname::is_under(all, root_components(a, roots[i]));
        assert(root_components(b, roots[i]) == root_components(a, roots[i]));
        assert(pathname::is_under(all, root_components(b, roots[i])));
    }
    if is_within(b, roots, all) {
        let i = choose|i: int|
            0 <= i < roots.len() && #[trigger] pathname::is_under(all, root_components(b, roots[i]));
        assert(root_components(b, roots[i]) == root_components(a, roots[i]));
        assert(pathname::is_under(all, root_components(a, roots[i])));
    }
}

// ── Laws of the modes ───────────────────────────────────────────────

/// A mode confines paths to exactly the roots that it was given, in their order;
/// the unrestricted one confines them to none.
pub proof fn law_modes_keep_their_roots(roots: Seq<Seq<char>>, exec_allowlist: Seq<Seq<char>>)
    ensures
        (PolicyModel::Unrestricted).roots() is None,
        (PolicyModel::Workspace { roots }).roots() == Some(roots),
        (PolicyModel::WorkspaceAllowlistExec { roots, exec_allowlist }).roots() == Some(roots),
        (PolicyModel::ReadOnly { roots }).roots() == Some(roots),
{
}

/// Full power is full power: an unrestricted daemon may touch every path, write,
/// and run every command, and has nothing to look up first.
pub proof fn law_unrestricted_allows_everything(
    path: Seq<char>,
    cmd: Seq<char>,
    resolution: Resolution,
)
    ensures
        (PolicyModel::Unrestricted).allows_path(path, resolution),
        (PolicyModel::Unrestricted).allows_writes(),
        (PolicyModel::Unrestricted).allows_exec(cmd, resolution.style),
        (PolicyModel::Unrestricted).wants(path, resolution) is None,
{
}

/// Writes are denied by one mode only: with or without roots, with or without an
/// allowlist, every mode but the read-only one allows them.
pub proof fn law_only_read_only_denies_writes(
    roots: Seq<Seq<char>>,
    exec_allowlist: Seq<Seq<char>>,
)
    ensures
        (PolicyModel::Unrestricted).allows_writes(),
        (PolicyModel::Workspace { roots }).allows_writes(),
        (PolicyModel::WorkspaceAllowlistExec { roots, exec_allowlist }).allows_writes(),
        !(PolicyModel::ReadOnly { roots }).allows_writes(),
{
}

/// A workspace confines paths and not commands; a read-only daemon runs none.
pub proof fn law_workspace_runs_every_command(
    roots: Seq<Seq<char>>,
    cmd: Seq<char>,
    style: Style,
)
    ensures
        (PolicyModel::Workspace { roots }).allows_exec(cmd, style),
        !(PolicyModel::ReadOnly { roots }).allows_exec(cmd, style),
{
}

/// Modes with the same roots allow the same paths, and look the same places up.
pub proof fn law_paths_go_by_roots_alone(
    roots: Seq<Seq<char>>,
    exec_allowlist: Seq<Seq<char>>,
    path: Seq<char>,
    resolution: Resolution,
)
    ensures
        (PolicyModel::Workspace { roots }).allows_path(path, resolution) == (
        PolicyModel::ReadOnly { roots }).allows_path(path, resolution),
        (PolicyModel::Workspace { roots }).allows_path(path, resolution) == (
        PolicyModel::WorkspaceAllowlistExec { roots, exec_allowlist }).allows_path(
            path,
            resolution,
        ),
        (PolicyModel::Workspace { roots }).wants(path, resolution) == (
        PolicyModel::ReadOnly { roots }).wants(path, resolution),
        (PolicyModel::Workspace { roots }).wants(path, resolution) == (
        PolicyModel::WorkspaceAllowlistExec { roots, exec_allowlist }).wants(path, resolution),
{
}

/// Each mode goes by a name of its own.
pub proof fn law_modes_are_named(roots: Seq<Seq<char>>, exec_allowlist: Seq<Seq<char>>)
    ensures
        (PolicyModel::Unrestricted).mode_name() == "Unrestricted"@,
        (PolicyModel::Workspace { roots }).mode_name() == "Workspace"@,
        (PolicyModel::WorkspaceAllowlistExec { roots, exec_allowlist }).mode_name()
            == "WorkspaceAllowlistExec"@,
        (PolicyModel::ReadOnly { roots }).mode_name() == "ReadOnly"@,
{
}

// ── Laws of confinement ─────────────────────────────────────────────

/// Whether components begin with those of the place that a root leads to, or with
/// those that it is written with where it cannot be said where it leads.
pub open spec fn begins_at_root(
    resolution: Resolution,
    root: Seq<char>,
    all: Seq<Seq<u8>>,
) -> bool {
    match resolution.leads(vstd::utf8::encode_utf8(root)) {
        WalkModel::Leads(base) => (pathname::components(resolution.style, base.canon)
            + base.rest).is_prefix_of(all),
        _ => pathname::components(
            resolution.style,
            vstd::utf8::encode_utf8(root),
        ).is_prefix_of(all),
    }
}

/// Every root counts: a path that leads to a place under any of them, without
/// climbing, is allowed. If the root is there, what is there of the path must lie
/// under it; and whatever the path leads through that is not there yet must lie
/// under some root too.
pub proof fn law_every_root_counts(
    policy: PolicyModel,
    roots: Seq<Seq<char>>,
    path: Seq<char>,
    resolution: Resolution,
    place: PlaceModel,
    i: int,
)
    requires
        policy.roots() == Some(roots),
        0 <= i < roots.len(),
        resolution.leads(vstd::utf8::encode_utf8(path)) == WalkModel::Leads(place),
        ({
            let solid = pathname::components(resolution.style, place.canon);
            let all = solid + place.rest;
            &&& !all.contains(seq![pathname::DOT, pathname::DOT])
            &&& begins_at_root(resolution, roots[i], all)
            &&& (resolution.leads(vstd::utf8::encode_utf8(roots[i])) matches WalkModel::Leads(base)
                && base.rest.len() == 0) ==> begins_at_root(resolution, roots[i], solid)
        }),
        forall|j: int|
            0 <= j < place.passed.len() ==> exists|k: int|
                0 <= k < roots.len() && begins_at_root(
                    resolution,
                    #[trigger] roots[k],
                    #[trigger] place.passed[j],
                ),
    ensures
        policy.allows_path(path, resolution),
{
    assert(is_held(resolution, roots[i], place));
    assert forall|j: int| 0 <= j < place.passed.len() implies is_within(
        resolution,
        roots,
        #[trigger] place.passed[j],
    ) by {
        let k = choose|k: int|
            0 <= k < roots.len() && begins_at_root(
                resolution,
                #[trigger] roots[k],
                place.passed[j],
            );
        assert(pathname::is_under(place.passed[j], root_components(resolution, roots[k])));
    }
}

/// A confined daemon touches nothing outside: an allowed path leads somewhere,
/// does not climb there, and begins at one of the roots; what is there of it does
/// too if that root is there, and so does all that it leads through on the way.
pub proof fn law_allowed_paths_begin_at_a_root(
    policy: PolicyModel,
    roots: Seq<Seq<char>>,
    path: Seq<char>,
    resolution: Resolution,
)
    requires
        policy.roots() == Some(roots),
        policy.allows_path(path, resolution),
    ensures
        resolution.leads(vstd::utf8::encode_utf8(path)) is Leads,
        ({
            let place = resolution.leads(vstd::utf8::encode_utf8(path))->Leads_0;
            let solid = pathname::components(resolution.style, place.canon);
            let all = solid + place.rest;
            &&& !all.contains(seq![pathname::DOT, pathname::DOT])
            &&& exists|i: int|
                0 <= i < roots.len() && {
                    &&& begins_at_root(resolution, #[trigger] roots[i], all)
                    &&& (resolution.leads(
                        vstd::utf8::encode_utf8(roots[i]),
                    ) matches WalkModel::Leads(base) && base.rest.len() == 0) ==> begins_at_root(
                        resolution,
                        roots[i],
                        solid,
                    )
                }
            &&& forall|j: int|
                0 <= j < place.passed.len() ==> exists|k: int|
                    0 <= k < roots.len() && begins_at_root(
                        resolution,
                        #[trigger] roots[k],
                        #[trigger] place.passed[j],
                    )
        }),
{
    let place = led(resolution, path)->Leads_0;
    let i = choose|i: int|
        0 <= i < roots.len() && #[trigger] is_held(resolution, roots[i], place);
    let root = roots[i];
    assert(begins_at_root(resolution, root, place.components(resolution.style)));
    assert forall|j: int| 0 <= j < place.passed.len() implies exists|k: int|
        0 <= k < roots.len() && begins_at_root(
            resolution,
            #[trigger] roots[k],
            #[trigger] place.passed[j],
        ) by {
        assert(is_within(resolution, roots, place.passed[j]));
        let k = choose|k: int|
            0 <= k < roots.len() && #[trigger] pathname::is_under(
                place.passed[j],
                root_components(resolution, roots[k]),
            );
        let other = roots[k];
        assert(begins_at_root(resolution, other, place.passed[j]));
    }
}

/// More roots allow more: a path that some roots allow is allowed by any roots
/// that hold all of them, in whatever order and however often.
pub proof fn law_more_roots_allow_more(
    fewer: Seq<Seq<char>>,
    more: Seq<Seq<char>>,
    path: Seq<char>,
    resolution: Resolution,
)
    requires
        forall|i: int| 0 <= i < fewer.len() ==> more.contains(#[trigger] fewer[i]),
        (PolicyModel::Workspace { roots: fewer }).allows_path(path, resolution),
    ensures
        (PolicyModel::Workspace { roots: more }).allows_path(path, resolution),
{
    let place = led(resolution, path)->Leads_0;
    let i = choose|i: int|
        0 <= i < fewer.len() && #[trigger] is_held(resolution, fewer[i], place);
    assert(more.contains(fewer[i]));
    let m = choose|m: int| 0 <= m < more.len() && more[m] == fewer[i];
    assert(is_held(resolution, more[m], place));
    assert forall|j: int| 0 <= j < place.passed.len() implies is_within(
        resolution,
        more,
        #[trigger] place.passed[j],
    ) by {
        assert(is_within(resolution, fewer, place.passed[j]));
        let k = choose|k: int|
            0 <= k < fewer.len() && #[trigger] pathname::is_under(
                place.passed[j],
                root_components(resolution, fewer[k]),
            );
        assert(more.contains(fewer[k]));
        let n = choose|n: int| 0 <= n < more.len() && more[n] == fewer[k];
        assert(pathname::is_under(place.passed[j], root_components(resolution, more[n])));
    }
}

/// The order of the roots does not matter, nor does naming one twice.
pub proof fn law_order_of_roots_does_not_matter(
    a: Seq<Seq<char>>,
    b: Seq<Seq<char>>,
    path: Seq<char>,
    resolution: Resolution,
)
    requires
        forall|i: int| 0 <= i < a.len() ==> b.contains(#[trigger] a[i]),
        forall|i: int| 0 <= i < b.len() ==> a.contains(#[trigger] b[i]),
    ensures
        (PolicyModel::Workspace { roots: a }).allows_path(path, resolution) == (
        PolicyModel::Workspace { roots: b }).allows_path(path, resolution),
{
    if (PolicyModel::Workspace { roots: a }).allows_path(path, resolution) {
        law_more_roots_allow_more(a, b, path, resolution);
    }
    if (PolicyModel::Workspace { roots: b }).allows_path(path, resolution) {
        law_more_roots_allow_more(b, a, path, resolution);
    }
}

/// Where there are no symlinks, confinement is what it reads like. On Unix, for
/// an absolute path and an absolute root that do not climb, of which everything
/// was looked up and which are there: under the one root, the path is allowed
/// exactly if its components begin with those of the root.
pub proof fn law_plain_paths_are_confined_by_name(
    root: Seq<char>,
    path: Seq<char>,
    resolution: Resolution,
)
    requires
        resolution.style == Style::Unix,
        resolve::is_linkless(resolution.answers@),
        ({
            let p = vstd::utf8::encode_utf8(path);
            let r = vstd::utf8::encode_utf8(root);
            &&& p.len() > 0 && p[0] == pathname::SLASH
            &&& r.len() > 0 && r[0] == pathname::SLASH
            &&& !pathname::names(Style::Unix, p).contains(seq![pathname::DOT, pathname::DOT])
            &&& !pathname::names(Style::Unix, r).contains(seq![pathname::DOT, pathname::DOT])
            &&& resolution.leads(p) matches WalkModel::Leads(place) && place.rest.len() == 0
            &&& resolution.leads(r) matches WalkModel::Leads(base) && base.rest.len() == 0
        }),
    ensures
        (PolicyModel::Workspace { roots: seq![root] }).allows_path(path, resolution) <==> (
        pathname::components(Style::Unix, vstd::utf8::encode_utf8(root)).is_prefix_of(
            pathname::components(Style::Unix, vstd::utf8::encode_utf8(path)),
        )),
{
    let p = vstd::utf8::encode_utf8(path);
    let r = vstd::utf8::encode_utf8(root);
    let roots = seq![root];
    let policy = PolicyModel::Workspace { roots };
    resolve::law_plain_paths_lead_to_themselves(resolution, p);
    resolve::law_plain_paths_lead_to_themselves(resolution, r);
    let place = resolution.leads(p)->Leads_0;
    let base = resolution.leads(r)->Leads_0;
    let all = pathname::components(Style::Unix, p);
    assert(pathname::components(Style::Unix, place.canon) + place.rest =~= pathname::components(
        Style::Unix,
        place.canon,
    ));
    assert(roots[0] == root);
    if pathname::components(Style::Unix, r).is_prefix_of(all) {
        assert(!all.contains(pathname::climb())) by {
            if all.contains(pathname::climb()) {
                let k = choose|k: int| 0 <= k < all.len() && all[k] == pathname::climb();
                let lead = pathname::lead(Style::Unix, p);
                if k < lead.len() {
                    assert(lead[k].len() == 2);
                } else {
                    assert(pathname::names(Style::Unix, p)[k - lead.len()] == pathname::climb());
                }
            }
        }
        law_every_root_counts(policy, roots, path, resolution, place, 0);
    }
    if policy.allows_path(path, resolution) {
        law_allowed_paths_begin_at_a_root(policy, roots, path, resolution);
    }
}

/// What is to be looked up is what is not known yet: nothing is wanted for a path
/// once it is known where it and all the roots lead, and as long as that is not
/// known, what is wanted is the next step of one of them.
pub proof fn law_lookups_end_when_all_is_known(
    policy: PolicyModel,
    roots: Seq<Seq<char>>,
    path: Seq<char>,
    resolution: Resolution,
)
    requires
        policy.roots() == Some(roots),
    ensures
        policy.wants(path, resolution) is None <==> {
            &&& !(resolution.leads(vstd::utf8::encode_utf8(path)) is Wants)
            &&& forall|i: int|
                0 <= i < roots.len() ==> !(resolution.leads(
                    vstd::utf8::encode_utf8(#[trigger] roots[i]),
                ) is Wants)
        },
        policy.wants(path, resolution) matches Some(asked) ==> {
            ||| resolution.leads(vstd::utf8::encode_utf8(path)) == WalkModel::Wants(asked)
            ||| exists|i: int|
                0 <= i < roots.len() && resolution.leads(
                    vstd::utf8::encode_utf8(#[trigger] roots[i]),
                ) == WalkModel::Wants(asked)
        },
{
    let paths = seq![path] + roots;
    lemma_first_wanted(resolution, paths);
    assert(paths[0] == path);
    if policy.wants(path, resolution) is None {
        assert forall|i: int| 0 <= i < roots.len() implies !(resolution.leads(
            vstd::utf8::encode_utf8(#[trigger] roots[i]),
        ) is Wants) by {
            assert(paths[i + 1] == roots[i]);
        }
    } else {
        let k = choose|k: int|
            0 <= k < paths.len() && resolution.leads(
                vstd::utf8::encode_utf8(#[trigger] paths[k]),
            ) == WalkModel::Wants(policy.wants(path, resolution)->Some_0);
        if k > 0 {
            assert(roots[k - 1] == paths[k]);
        }
    }
}

proof fn lemma_first_wanted(resolution: Resolution, paths: Seq<Seq<char>>)
    ensures
        match wanted_of(resolution, paths) {
            None => forall|i: int|
                0 <= i < paths.len() ==> !(resolution.leads(
                    vstd::utf8::encode_utf8(#[trigger] paths[i]),
                ) is Wants),
            Some(asked) => exists|k: int|
                0 <= k < paths.len() && resolution.leads(
                    vstd::utf8::encode_utf8(#[trigger] paths[k]),
                ) == WalkModel::Wants(asked),
        },
    decreases paths.len(),
{
    if paths.len() > 0 {
        let more = paths.skip(1);
        lemma_first_wanted(resolution, more);
        match wanted_of(resolution, paths) {
            None => {
                assert forall|i: int| 0 <= i < paths.len() implies !(resolution.leads(
                    vstd::utf8::encode_utf8(#[trigger] paths[i]),
                ) is Wants) by {
                    if i > 0 {
                        assert(more[i - 1] == paths[i]);
                    } else {
                        assert(led(resolution, paths[0]) == resolution.leads(
                            vstd::utf8::encode_utf8(paths[0]),
                        ));
                    }
                }
            },
            Some(asked) => {
                if led(resolution, paths[0]) is Wants {
                    assert(resolution.leads(vstd::utf8::encode_utf8(paths[0]))
                        == WalkModel::Wants(asked));
                } else {
                    let k = choose|k: int|
                        0 <= k < more.len() && resolution.leads(
                            vstd::utf8::encode_utf8(#[trigger] more[k]),
                        ) == WalkModel::Wants(asked);
                    assert(paths[k + 1] == more[k]);
                }
            },
        }
    }
}

// ── Laws of the allowlist ───────────────────────────────────────────

/// An entry that covers the binary is enough.
proof fn lemma_covered(
    roots: Seq<Seq<char>>,
    exec_allowlist: Seq<Seq<char>>,
    i: int,
    cmd: Seq<char>,
    style: Style,
)
    requires
        0 <= i < exec_allowlist.len(),
        covers(
            style,
            vstd::utf8::encode_utf8(exec_allowlist[i]),
            vstd::utf8::encode_utf8(text::first_word_of(cmd)),
        ),
    ensures
        (PolicyModel::WorkspaceAllowlistExec { roots, exec_allowlist }).allows_exec(cmd, style),
{
    let policy = PolicyModel::WorkspaceAllowlistExec { roots, exec_allowlist };
    assert(covers(
        style,
        vstd::utf8::encode_utf8(policy->exec_allowlist[i]),
        vstd::utf8::encode_utf8(text::first_word_of(cmd)),
    ));
    assert(policy.allows_exec(cmd, style));
}

/// More binaries allow more: a command that an allowlist covers is covered by
/// every list that holds all of its entries, in whatever order.
pub proof fn law_longer_allowlist_allows_more(
    roots: Seq<Seq<char>>,
    fewer: Seq<Seq<char>>,
    more: Seq<Seq<char>>,
    cmd: Seq<char>,
    style: Style,
)
    requires
        forall|i: int| 0 <= i < fewer.len() ==> more.contains(#[trigger] fewer[i]),
        (PolicyModel::WorkspaceAllowlistExec { roots, exec_allowlist: fewer }).allows_exec(
            cmd,
            style,
        ),
    ensures
        (PolicyModel::WorkspaceAllowlistExec { roots, exec_allowlist: more }).allows_exec(
            cmd,
            style,
        ),
{
    let bin = vstd::utf8::encode_utf8(text::first_word_of(cmd));
    let i = choose|i: int|
        0 <= i < fewer.len() && #[trigger] covers(style, vstd::utf8::encode_utf8(fewer[i]), bin);
    assert(more.contains(fewer[i]));
    let m = choose|m: int| 0 <= m < more.len() && more[m] == fewer[i];
    lemma_covered(roots, more, m, cmd, style);
}

/// Whether a text is a command that runs this binary: the binary is its first
/// word, white space before it aside.
pub open spec fn runs(cmd: Seq<char>, bin: Seq<char>) -> bool {
    &&& forall|i: int| 0 <= i < bin.len() ==> !text::is_white_space(#[trigger] bin[i])
    &&& bin.len() > 0
    &&& exists|lead: Seq<char>, tail: Seq<char>|
        {
            &&& text::is_blank(lead)
            &&& tail.len() > 0 ==> text::is_white_space(tail[0])
            &&& cmd == #[trigger] (lead + bin + tail)
        }
}

proof fn lemma_runs(cmd: Seq<char>, bin: Seq<char>)
    requires
        runs(cmd, bin),
    ensures
        text::first_word_of(cmd) == bin,
{
    let (lead, tail) = choose|lead: Seq<char>, tail: Seq<char>|
        {
            &&& text::is_blank(lead)
            &&& tail.len() > 0 ==> text::is_white_space(tail[0])
            &&& cmd == #[trigger] (lead + bin + tail)
        };
    text::law_first_word(lead, bin, tail);
}

/// A command is judged by its binary: whatever its arguments are, and whatever
/// white space is around, two commands that run the same binary are both allowed
/// or both denied.
pub proof fn law_arguments_do_not_matter(
    policy: PolicyModel,
    a: Seq<char>,
    b: Seq<char>,
    bin: Seq<char>,
    style: Style,
)
    requires
        runs(a, bin),
        runs(b, bin),
    ensures
        policy.allows_exec(a, style) == policy.allows_exec(b, style),
{
    lemma_runs(a, bin);
    lemma_runs(b, bin);
}

/// A binary that is on the allowlist as it is written may be run.
pub proof fn law_listed_binaries_run(
    roots: Seq<Seq<char>>,
    exec_allowlist: Seq<Seq<char>>,
    cmd: Seq<char>,
    bin: Seq<char>,
    style: Style,
)
    requires
        runs(cmd, bin),
        exec_allowlist.contains(bin),
    ensures
        (PolicyModel::WorkspaceAllowlistExec { roots, exec_allowlist }).allows_exec(cmd, style),
{
    lemma_runs(cmd, bin);
    let i = choose|i: int| 0 <= i < exec_allowlist.len() && exec_allowlist[i] == bin;
    lemma_covered(roots, exec_allowlist, i, cmd, style);
}

/// Whether bytes are a name that a path can end with: not empty, with no
/// separator, and neither `.` nor `..`.
pub open spec fn is_plain_name(name: Seq<u8>) -> bool {
    &&& name.len() > 0
    &&& pathname::is_unseparated(Style::Unix, name)
    &&& name != seq![pathname::DOT]
    &&& name != seq![pathname::DOT, pathname::DOT]
}

/// Whether bytes are a name, or a path on Unix that ends with it.
pub open spec fn ends_with_name(path: Seq<u8>, name: Seq<u8>) -> bool {
    path == name || exists|dir: Seq<u8>| path == #[trigger] dir.push(pathname::SLASH) + name
}

proof fn lemma_ends_with_name(path: Seq<u8>, name: Seq<u8>)
    requires
        is_plain_name(name),
        ends_with_name(path, name),
    ensures
        pathname::file_name_of(Style::Unix, path) == Some(name),
{
    if path == name {
        pathname::law_name_is_its_own_file_name(name);
    } else {
        let dir = choose|dir: Seq<u8>| path == #[trigger] dir.push(pathname::SLASH) + name;
        pathname::law_file_name_comes_last(dir, name);
    }
}

/// Binaries go by their name: an entry of the allowlist covers a binary of the
/// same name, each of them written as a bare name or as a path, wherever the entry
/// stands in the list.
pub proof fn law_binaries_go_by_their_name(
    roots: Seq<Seq<char>>,
    exec_allowlist: Seq<Seq<char>>,
    i: int,
    cmd: Seq<char>,
    bin: Seq<char>,
    name: Seq<u8>,
)
    requires
        0 <= i < exec_allowlist.len(),
        runs(cmd, bin),
        is_plain_name(name),
        ends_with_name(vstd::utf8::encode_utf8(exec_allowlist[i]), name),
        ends_with_name(vstd::utf8::encode_utf8(bin), name),
    ensures
        (PolicyModel::WorkspaceAllowlistExec { roots, exec_allowlist }).allows_exec(
            cmd,
            Style::Unix,
        ),
{
    lemma_runs(cmd, bin);
    lemma_ends_with_name(vstd::utf8::encode_utf8(exec_allowlist[i]), name);
    lemma_ends_with_name(vstd::utf8::encode_utf8(bin), name);
    lemma_covered(roots, exec_allowlist, i, cmd, Style::Unix);
}

/// Nothing else may be run: where the names of all entries are other names than
/// that of the binary, the command is denied. An empty list denies every command.
pub proof fn law_unlisted_binaries_do_not_run(
    roots: Seq<Seq<char>>,
    exec_allowlist: Seq<Seq<char>>,
    listed: Seq<Seq<u8>>,
    cmd: Seq<char>,
    bin: Seq<char>,
    name: Seq<u8>,
)
    requires
        runs(cmd, bin),
        is_plain_name(name),
        ends_with_name(vstd::utf8::encode_utf8(bin), name),
        listed.len() == exec_allowlist.len(),
        forall|i: int|
            0 <= i < listed.len() ==> {
                &&& is_plain_name(#[trigger] listed[i])
                &&& listed[i] != name
                &&& ends_with_name(vstd::utf8::encode_utf8(exec_allowlist[i]), listed[i])
            },
    ensures
        !(PolicyModel::WorkspaceAllowlistExec { roots, exec_allowlist }).allows_exec(
            cmd,
            Style::Unix,
        ),
{
    lemma_runs(cmd, bin);
    let word = vstd::utf8::encode_utf8(bin);
    lemma_ends_with_name(word, name);
    pathname::law_name_is_its_own_file_name(name);
    assert forall|i: int| 0 <= i < exec_allowlist.len() implies !#[trigger] covers(
        Style::Unix,
        vstd::utf8::encode_utf8(exec_allowlist[i]),
        word,
    ) by {
        assert(is_plain_name(listed[i]));
        lemma_ends_with_name(vstd::utf8::encode_utf8(exec_allowlist[i]), listed[i]);
    }
}

/// An allowlist never covers the empty command, unless it lists the empty name.
pub proof fn law_empty_command_is_denied(
    roots: Seq<Seq<char>>,
    exec_allowlist: Seq<Seq<char>>,
    cmd: Seq<char>,
    style: Style,
)
    requires
        text::is_blank(cmd),
        forall|i: int|
            0 <= i < exec_allowlist.len() ==> (#[trigger] exec_allowlist[i]).len() > 0,
    ensures
        !(PolicyModel::WorkspaceAllowlistExec { roots, exec_allowlist }).allows_exec(cmd, style),
{
    text::law_blank_has_no_word(cmd);
    let none = Seq::<u8>::empty();
    assert(vstd::utf8::encode_utf8(text::first_word_of(cmd)) =~= none);
    pathname::lemma_no_names_in_nothing(style);
    assert forall|i: int| 0 <= i < exec_allowlist.len() implies !#[trigger] covers(
        style,
        vstd::utf8::encode_utf8(exec_allowlist[i]),
        none,
    ) by {
        let entry = exec_allowlist[i];
        assert(entry.len() > 0);
        vstd::utf8::encode_utf8_decode_utf8(entry);
        let bytes = vstd::utf8::encode_utf8(entry);
        if bytes.len() == 0 {
            assert(bytes =~= none);
            vstd::utf8::encode_utf8_decode_utf8(Seq::<char>::empty());
            assert(vstd::utf8::encode_utf8(Seq::<char>::empty()) =~= none);
            assert(entry =~= Seq::<char>::empty());
        }
        pathname::lemma_names(style, bytes);
    }
}

// ── Laws of the configuration ───────────────────────────────────────

/// The default configuration is unrestricted, with a minute for a command, a
/// mebibyte for its output and sixteen for a file.
pub proof fn law_defaults()
    ensures
        ({
            let d = ConfigModel::effective(None, None);
            &&& d.endpoint == "https://cloud.membrane.example.com:443"@
            &&& d.policy is Unrestricted
            &&& d.max_exec_timeout_ms == 60_000
            &&& d.max_output_bytes == 1024 * 1024
            &&& d.max_read_bytes == 16 * 1024 * 1024
        }),
{
}

/// Whichever files there are, every field is the organisation's value if its file
/// is there and sets it, else the user's if their file is there and sets it, else
/// the default; the exec timeout is then cut to ten minutes.
pub proof fn law_every_field_is_chosen(
    user: Option<PolicyFileModel>,
    system: Option<PolicyFileModel>,
)
    ensures
        ({
            let d = ConfigModel::effective(None, None);
            let c = ConfigModel::effective(user, system);
            let ms = match (system, user) {
                (Some(PolicyFileModel { max_exec_timeout_ms: Some(ms), .. }), _) => ms,
                (_, Some(PolicyFileModel { max_exec_timeout_ms: Some(ms), .. })) => ms,
                _ => d.max_exec_timeout_ms,
            };
            &&& c.endpoint == match (system, user) {
                (Some(PolicyFileModel { endpoint: Some(value), .. }), _) => value,
                (_, Some(PolicyFileModel { endpoint: Some(value), .. })) => value,
                _ => d.endpoint,
            }
            &&& c.policy == match (system, user) {
                (Some(PolicyFileModel { policy: Some(value), .. }), _) => value,
                (_, Some(PolicyFileModel { policy: Some(value), .. })) => value,
                _ => d.policy,
            }
            &&& c.max_exec_timeout_ms == if ms > 600_000 {
                600_000
            } else {
                ms
            }
            &&& c.max_output_bytes == match (system, user) {
                (Some(PolicyFileModel { max_output_bytes: Some(value), .. }), _) => value,
                (_, Some(PolicyFileModel { max_output_bytes: Some(value), .. })) => value,
                _ => d.max_output_bytes,
            }
            &&& c.max_read_bytes == match (system, user) {
                (Some(PolicyFileModel { max_read_bytes: Some(value), .. }), _) => value,
                (_, Some(PolicyFileModel { max_read_bytes: Some(value), .. })) => value,
                _ => d.max_read_bytes,
            }
        }),
{
}

/// A file that sets nothing is as good as none.
pub proof fn law_empty_file_changes_nothing(other: Option<PolicyFileModel>)
    ensures
        ({
            let empty = PolicyFileModel {
                endpoint: None,
                policy: None,
                max_exec_timeout_ms: None,
                max_output_bytes: None,
                max_read_bytes: None,
            };
            &&& ConfigModel::effective(Some(empty), other) == ConfigModel::effective(None, other)
            &&& ConfigModel::effective(other, Some(empty)) == ConfigModel::effective(other, None)
        }),
{
}

/// A configuration that was saved comes back: a user's file that sets every field
/// is the effective configuration where no organisation's file is there, but for a
/// timeout beyond the ceiling.
pub proof fn law_saved_configuration_comes_back(cfg: ConfigModel)
    requires
        cfg.max_exec_timeout_ms <= 600_000,
    ensures
        ConfigModel::effective(
            Some(
                PolicyFileModel {
                    endpoint: Some(cfg.endpoint),
                    policy: Some(cfg.policy),
                    max_exec_timeout_ms: Some(cfg.max_exec_timeout_ms),
                    max_output_bytes: Some(cfg.max_output_bytes),
                    max_read_bytes: Some(cfg.max_read_bytes),
                },
            ),
            None,
        ) == cfg,
{
}

/// A command gets the time that it asks for as far as the configuration goes, and
/// all of what the configuration gives if it asks for none.
pub proof fn law_requested_time_is_granted(cfg: ConfigModel, requested: u32)
    ensures
        0 < requested <= cfg.max_exec_timeout_ms ==> cfg.exec_timeout(requested) == requested,
        requested == 0 || requested > cfg.max_exec_timeout_ms ==> cfg.exec_timeout(requested)
            == cfg.max_exec_timeout_ms,
{
}

/// What a configuration, a policy and a policy file say is what they hold.
pub proof fn law_configurations_say_what_they_hold(
    cfg: Config,
    file: PolicyFile,
    roots: Vec<String>,
    list: Vec<String>,
    i: int,
)
    ensures
        cfg@.endpoint == cfg.endpoint@,
        cfg@.policy == cfg.policy@,
        cfg@.max_exec_timeout_ms == cfg.max_exec_timeout_ms,
        cfg@.max_output_bytes == cfg.max_output_bytes,
        cfg@.max_read_bytes == cfg.max_read_bytes,
        file@.endpoint is Some <==> file.endpoint is Some,
        file.endpoint matches Some(endpoint) ==> file@.endpoint == Some(endpoint@),
        file@.policy is Some <==> file.policy is Some,
        file.policy matches Some(policy) ==> file@.policy == Some(policy@),
        file@.max_exec_timeout_ms == file.max_exec_timeout_ms,
        file@.max_output_bytes == file.max_output_bytes,
        file@.max_read_bytes == file.max_read_bytes,
        PolicyMode::Unrestricted@ is Unrestricted,
        (PolicyMode::Workspace { roots })@ == (PolicyModel::Workspace { roots: texts(roots@) }),
        (PolicyMode::ReadOnly { roots })@ == (PolicyModel::ReadOnly { roots: texts(roots@) }),
        (PolicyMode::WorkspaceAllowlistExec { roots, exec_allowlist: list })@ == (
        PolicyModel::WorkspaceAllowlistExec {
            roots: texts(roots@),
            exec_allowlist: texts(list@),
        }),
        texts(roots@).len() == roots@.len(),
        0 <= i < roots@.len() ==> texts(roots@)[i] == roots@[i]@,
        model(Some(file)) == Some(file@),
        model(None) is None,
{
}

/// On every platform, a binary goes by the last component of its path: it may be
/// run if an entry of the allowlist is that name, or ends with it.
pub proof fn law_file_names_are_covered(
    roots: Seq<Seq<char>>,
    exec_allowlist: Seq<Seq<char>>,
    i: int,
    cmd: Seq<char>,
    bin: Seq<char>,
    name: Seq<u8>,
    style: Style,
)
    requires
        runs(cmd, bin),
        pathname::file_name_of(style, vstd::utf8::encode_utf8(bin)) == Some(name),
        0 <= i < exec_allowlist.len(),
        vstd::utf8::encode_utf8(exec_allowlist[i]) == name || pathname::file_name_of(
            style,
            vstd::utf8::encode_utf8(exec_allowlist[i]),
        ) == Some(name),
    ensures
        (PolicyModel::WorkspaceAllowlistExec { roots, exec_allowlist }).allows_exec(cmd, style),
{
    lemma_runs(cmd, bin);
    lemma_covered(roots, exec_allowlist, i, cmd, style);
}

/// On every platform, a binary that no entry of the allowlist is, nor is named
/// like, may not be run.
pub proof fn law_other_binaries_are_not_covered(
    roots: Seq<Seq<char>>,
    exec_allowlist: Seq<Seq<char>>,
    cmd: Seq<char>,
    bin: Seq<char>,
    name: Seq<u8>,
    style: Style,
)
    requires
        runs(cmd, bin),
        pathname::file_name_of(style, vstd::utf8::encode_utf8(bin)) == Some(name),
        forall|i: int|
            0 <= i < exec_allowlist.len() ==> {
                let entry = vstd::utf8::encode_utf8(#[trigger] exec_allowlist[i]);
                &&& entry != vstd::utf8::encode_utf8(bin)
                &&& entry != name
                &&& pathname::file_name_of(style, entry) != Some(name)
            },
    ensures
        !(PolicyModel::WorkspaceAllowlistExec { roots, exec_allowlist }).allows_exec(cmd, style),
{
    lemma_runs(cmd, bin);
    let word = vstd::utf8::encode_utf8(bin);
    assert forall|i: int| 0 <= i < exec_allowlist.len() implies !#[trigger] covers(
        style,
        vstd::utf8::encode_utf8(exec_allowlist[i]),
        word,
    ) by {
        let entry = exec_allowlist[i];
    }
}

} // verus!
