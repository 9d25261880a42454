//! Development-mode filesystem roots for the Tauri desktop shell prototype.
//!
//! The prototype has no packaged layout yet: every path resolves inside the
//! repository checkout and the shared `apps/desktop` development build tree,
//! exactly the inputs the Electron development launcher prepares.
//!
//! Resolution is a walk of [`ResolveStep`]s: each says what has to be asked of
//! the machine next, whether a directory is there or what Node reports, and
//! the answer leads to the next step.

use vstd::prelude::*;

use crate::path::{join, parent};
use crate::text::{same_text, text_of_bytes, trim};

verus! {

/// Resolved shell-owned process and document roots.
#[derive(Debug)]
pub struct ShellPaths {
    /// Node executable that runs the Desktop Host (system Node in development).
    pub node: String,
    /// Directory of private shell launchers injected into package-install PATH.
    pub node_bin: String,
    /// Bundled pnpm entry for profile package operations.
    pub pnpm: String,
    /// Development project carrying the linked dsh runtime packages.
    pub dsh_dir: String,
    /// Isolated Harness home for the Tauri shell (separate from Electron dev).
    pub home: String,
    /// Desktop profile directory the Host boots.
    pub profile: String,
    /// Bundled primary runtime payload (Python/Node interpreters).
    pub primary_runtime: String,
    /// Packaged Web client static document root.
    pub dist: String,
}

/// The texts of [`ShellPaths`].
pub struct ShellPathsView {
    pub node: Seq<char>,
    pub node_bin: Seq<char>,
    pub pnpm: Seq<char>,
    pub dsh_dir: Seq<char>,
    pub home: Seq<char>,
    pub profile: Seq<char>,
    pub primary_runtime: Seq<char>,
    pub dist: Seq<char>,
}

impl View for ShellPaths {
    type V = ShellPathsView;

    open spec fn view(&self) -> ShellPathsView {
        ShellPathsView {
            node: self.node@,
            node_bin: self.node_bin@,
            pnpm: self.pnpm@,
            dsh_dir: self.dsh_dir@,
            home: self.home@,
            profile: self.profile@,
            primary_runtime: self.primary_runtime@,
            dist: self.dist@,
        }
    }
}

impl Clone for ShellPaths {
    fn clone(&self) -> (same: ShellPaths)
        ensures
            same@ == self@,
    {
        ShellPaths {
            node: self.node.clone(),
            node_bin: self.node_bin.clone(),
            pnpm: self.pnpm.clone(),
            dsh_dir: self.dsh_dir.clone(),
            home: self.home.clone(),
            profile: self.profile.clone(),
            primary_runtime: self.primary_runtime.clone(),
            dist: self.dist.clone(),
        }
    }
}

/// What the process environment says.
pub struct ShellEnvironment {
    /// `DSH_TAURI_REPO_ROOT`, where it is set.
    pub repo_root: Option<String>,
    /// The manifest directory of the build.
    pub manifest_dir: String,
    /// The name of the operating system.
    pub os: String,
    /// The name of the processor architecture.
    pub arch: String,
    /// `DSH_TAURI_NODE`, where it is set.
    pub node: Option<String>,
}

/// The texts of a [`ShellEnvironment`].
pub struct EnvironmentView {
    pub repo_root: Option<Seq<char>>,
    pub manifest_dir: Seq<char>,
    pub os: Seq<char>,
    pub arch: Seq<char>,
    pub node: Option<Seq<char>>,
}

/// The text of an optional string.
pub open spec fn optional_text(text: Option<String>) -> Option<Seq<char>> {
    match text {
        Some(found) => Some(found@),
        None => None,
    }
}

impl View for ShellEnvironment {
    type V = EnvironmentView;

    open spec fn view(&self) -> EnvironmentView {
        EnvironmentView {
            repo_root: optional_text(self.repo_root),
            manifest_dir: self.manifest_dir@,
            os: self.os@,
            arch: self.arch@,
            node: optional_text(self.node),
        }
    }
}

/// A prepared artifact that has to be there.
pub enum Artifact {
    Project,
    WebDist,
    PrimaryRuntime,
}

/// What resolution needs next.
pub enum ResolveStep {
    /// Whether `probe` is a directory: `root` comes from the environment.
    Declared { root: String, probe: String },
    /// Whether `probe` is a directory: `root` is above the manifest directory.
    Candidate { root: String, probe: String },
    /// Whether `probe` is a directory: the artifact of the checkout `repo`.
    Prepared { repo: String, target: String, artifact: Artifact, probe: String },
    /// What `candidate -p process.execPath` prints.
    Node { repo: String, target: String, candidate: String },
    /// Nothing: the roots are resolved.
    Resolved(ShellPaths),
    /// Nothing: resolution failed with this message.
    Failed(String),
}

/// The texts of a [`ResolveStep`].
pub enum ResolveView {
    Declared { root: Seq<char>, probe: Seq<char> },
    Candidate { root: Seq<char>, probe: Seq<char> },
    Prepared { repo: Seq<char>, target: Seq<char>, artifact: Artifact, probe: Seq<char> },
    Node { repo: Seq<char>, target: Seq<char>, candidate: Seq<char> },
    Resolved(ShellPathsView),
    Failed(Seq<char>),
}

impl View for ResolveStep {
    type V = ResolveView;

    open spec fn view(&self) -> ResolveView {
        match *self {
            ResolveStep::Declared { root, probe } => ResolveView::Declared {
                root: root@,
                probe: probe@,
            },
            ResolveStep::Candidate { root, probe } => ResolveView::Candidate {
                root: root@,
                probe: probe@,
            },
            ResolveStep::Prepared { repo, target, artifact, probe } => ResolveView::Prepared {
                repo: repo@,
                target: target@,
                artifact,
                probe: probe@,
            },
            ResolveStep::Node { repo, target, candidate } => ResolveView::Node {
                repo: repo@,
                target: target@,
                candidate: candidate@,
            },
            ResolveStep::Resolved(paths) => ResolveView::Resolved(paths@),
            ResolveStep::Failed(message) => ResolveView::Failed(message@),
        }
    }
}

/// What came of running Node.
pub enum NodeRun {
    /// It could not be run, for this reason.
    Failed(String),
    Ran { success: bool, stdout: Vec<u8> },
}

/// The texts of a [`NodeRun`].
pub enum NodeRunView {
    Failed(Seq<char>),
    Ran { success: bool, stdout: Seq<u8> },
}

impl View for NodeRun {
    type V = NodeRunView;

    open spec fn view(&self) -> NodeRunView {
        match *self {
            NodeRun::Failed(reason) => NodeRunView::Failed(reason@),
            NodeRun::Ran { success, stdout } => NodeRunView::Ran { success, stdout: stdout@ },
        }
    }
}

/// The directory that marks a checkout.
pub open spec fn marker(root: Seq<char>) -> Seq<char> {
    crate::path::joined(root, "apps/desktop-tauri"@)
}

/// The shared development build tree of a checkout.
pub open spec fn build_dir(repo: Seq<char>) -> Seq<char> {
    crate::path::joined(repo, "apps/desktop/.desktop-build"@)
}

/// The development project of a checkout.
pub open spec fn project_dir(repo: Seq<char>) -> Seq<char> {
    crate::path::joined(build_dir(repo), "development/project"@)
}

/// The Web client document root of a checkout.
pub open spec fn dist_dir(repo: Seq<char>) -> Seq<char> {
    crate::path::joined(
        project_dir(repo),
        "node_modules/@deepseek-ai/dsh-web-frontend/dist"@,
    )
}

/// The primary runtime of a checkout for a build target.
pub open spec fn runtime_dir(repo: Seq<char>, target: Seq<char>) -> Seq<char> {
    crate::path::joined(
        crate::path::joined(crate::path::joined(build_dir(repo), "targets"@), target),
        "runtime/primary-runtime"@,
    )
}

/// The roots of the checkout `repo`, for a build target and a Node executable.
pub open spec fn layout(repo: Seq<char>, target: Seq<char>, node: Seq<char>) -> ShellPathsView {
    ShellPathsView {
        node,
        node_bin: crate::path::joined(repo, "apps/desktop/scripts/node-bin"@),
        pnpm: crate::path::joined(repo, "apps/desktop/node_modules/pnpm/bin/pnpm.mjs"@),
        dsh_dir: project_dir(repo),
        home: crate::path::joined(build_dir(repo), "development/home-tauri"@),
        profile: crate::path::joined(
            build_dir(repo),
            "development/home-tauri/profiles/desktop"@,
        ),
        primary_runtime: runtime_dir(repo, target),
        dist: dist_dir(repo),
    }
}

/// The development build target of a platform, or why there is none.
pub open spec fn build_target(os: Seq<char>, arch: Seq<char>) -> Result<Seq<char>, Seq<char>> {
    if os == "macos"@ && arch == "aarch64"@ {
        Ok("mac-arm64"@)
    } else if os == "macos"@ && arch == "x86_64"@ {
        Ok("mac-x64"@)
    } else if os == "windows"@ && arch == "x86_64"@ {
        Ok("win-x64"@)
    } else {
        Err("dsh desktop tauri: unsupported development platform "@ + os + "-"@ + arch)
    }
}

/// Where an artifact has to be.
pub open spec fn artifact_dir(
    repo: Seq<char>,
    target: Seq<char>,
    artifact: Artifact,
) -> Seq<char> {
    match artifact {
        Artifact::Project => project_dir(repo),
        Artifact::WebDist => dist_dir(repo),
        Artifact::PrimaryRuntime => runtime_dir(repo, target),
    }
}

/// How an artifact is called.
pub open spec fn subject(artifact: Artifact) -> Seq<char> {
    match artifact {
        Artifact::Project => "development project"@,
        Artifact::WebDist => "Web client dist"@,
        Artifact::PrimaryRuntime => "primary runtime"@,
    }
}

/// The message for an artifact that is not there.
pub open spec fn missing(artifact: Artifact, at: Seq<char>) -> Seq<char> {
    "dsh desktop tauri: missing "@ + subject(artifact) + " at "@ + at
        + "; run `pnpm run dev:desktop-tauri` to prepare it"@
}

/// The Node executable to ask.
pub open spec fn node_candidate(environment: EnvironmentView) -> Seq<char> {
    match environment.node {
        Some(node) => node,
        None => "node"@,
    }
}

/// The absolute executable path in what Node printed, or why there is none.
pub open spec fn reported_node(
    candidate: Seq<char>,
    success: bool,
    printed: Seq<char>,
) -> Result<Seq<char>, Seq<char>> {
    let path = crate::text::trimmed(printed);
    if success && path.len() > 0 && path[0] == '/' {
        Ok(path)
    } else {
        Err("resolving the Node executable via `"@ + candidate + "` failed"@)
    }
}

/// The Node executable that a run of `candidate` found, or why there is none.
pub open spec fn node_found(candidate: Seq<char>, run: NodeRunView) -> Result<
    Seq<char>,
    Seq<char>,
> {
    match run {
        NodeRunView::Failed(reason) => Err(
            "running Node `"@ + candidate + "` from PATH: "@ + reason + "; set DSH_TAURI_NODE"@,
        ),
        NodeRunView::Ran { success, stdout } => reported_node(
            candidate,
            success,
            crate::text::decoded(stdout),
        ),
    }
}

/// The message for a declared root that is no checkout.
pub open spec fn wrong_root(root: Seq<char>) -> Seq<char> {
    "dsh desktop tauri: DSH_TAURI_REPO_ROOT does not contain apps/desktop-tauri: "@ + root
}

/// The message where no checkout is found.
pub open spec fn no_root() -> Seq<char> {
    "dsh desktop tauri: cannot locate the repository root; set DSH_TAURI_REPO_ROOT"@
}

/// The step that looks at a directory above the manifest directory.
pub open spec fn candidate_step(root: Option<Seq<char>>) -> ResolveView {
    match root {
        Some(root) => ResolveView::Candidate { root, probe: marker(root) },
        None => ResolveView::Failed(no_root()),
    }
}

/// The directory two above a manifest directory.
pub open spec fn above_manifest(manifest_dir: Seq<char>) -> Option<Seq<char>> {
    match crate::path::parent_of(manifest_dir) {
        Some(upper) => crate::path::parent_of(upper),
        None => None,
    }
}

/// The first step.
pub open spec fn first_step(environment: EnvironmentView) -> ResolveView {
    match environment.repo_root {
        Some(root) => ResolveView::Declared { root, probe: marker(root) },
        None => candidate_step(above_manifest(environment.manifest_dir)),
    }
}

/// The step behind the checkout `repo`.
pub open spec fn located_step(environment: EnvironmentView, repo: Seq<char>) -> ResolveView {
    match build_target(environment.os, environment.arch) {
        Ok(target) => ResolveView::Prepared {
            repo,
            target,
            artifact: Artifact::Project,
            probe: artifact_dir(repo, target, Artifact::Project),
        },
        Err(message) => ResolveView::Failed(message),
    }
}

/// The step behind an answer on whether the probed directory is there. A step
/// that probes nothing stays.
pub open spec fn probed_step(
    environment: EnvironmentView,
    step: ResolveView,
    present: bool,
) -> ResolveView {
    match step {
        ResolveView::Declared { root, .. } => if present {
            located_step(environment, root)
        } else {
            ResolveView::Failed(wrong_root(root))
        },
        ResolveView::Candidate { root, .. } => if present {
            located_step(environment, root)
        } else {
            candidate_step(crate::path::parent_of(root))
        },
        ResolveView::Prepared { repo, target, artifact, probe } => if !present {
            ResolveView::Failed(missing(artifact, probe))
        } else {
            match artifact {
                Artifact::Project => ResolveView::Prepared {
                    repo,
                    target,
                    artifact: Artifact::WebDist,
                    probe: artifact_dir(repo, target, Artifact::WebDist),
                },
                Artifact::WebDist => ResolveView::Prepared {
                    repo,
                    target,
                    artifact: Artifact::PrimaryRuntime,
                    probe: artifact_dir(repo, target, Artifact::PrimaryRuntime),
                },
                Artifact::PrimaryRuntime => ResolveView::Node {
                    repo,
                    target,
                    candidate: node_candidate(environment),
                },
            }
        },
        other => other,
    }
}

/// The step behind a run of Node. A step that runs nothing stays.
pub open spec fn node_step(step: ResolveView, run: NodeRunView) -> ResolveView {
    match step {
        ResolveView::Node { repo, target, candidate } => match node_found(candidate, run) {
            Ok(node) => ResolveView::Resolved(layout(repo, target, node)),
            Err(message) => ResolveView::Failed(message),
        },
        other => other,
    }
}

/// Texts put together, from left to right.
fn concat3(first: &str, second: &str, third: &str) -> (whole: String)
    ensures
        whole@ == first@ + second@ + third@,
{
    let mut whole = first.to_owned();
    whole.append(second);
    whole.append(third);
    whole
}

/// The development build target of a platform.
pub fn desktop_build_target(os: &str, arch: &str) -> (target: Result<&'static str, String>)
    ensures
        match target {
            Ok(found) => build_target(os@, arch@) == Ok::<Seq<char>, Seq<char>>(found@),
            Err(message) => build_target(os@, arch@) == Err::<Seq<char>, Seq<char>>(message@),
        },
{
    if same_text(os, "macos") && same_text(arch, "aarch64") {
        Ok("mac-arm64")
    } else if same_text(os, "macos") && same_text(arch, "x86_64") {
        Ok("mac-x64")
    } else if same_text(os, "windows") && same_text(arch, "x86_64") {
        Ok("win-x64")
    } else {
        let mut message = concat3("dsh desktop tauri: unsupported development platform ", os, "-");
        message.append(arch);
        Err(message)
    }
}

/// The absolute executable path in what Node printed.
///
/// The Desktop Host inherits a PATH whose `node` is the private `node-bin`
/// launcher that execs `$DSH_DESKTOP_NODE_EXECUTABLE`; a relative value there
/// would re-enter the launcher and recurse, so it is refused.
pub fn printed_node(candidate: &str, success: bool, printed: &str) -> (node: Result<String, String>)
    ensures
        match node {
            Ok(found) => reported_node(candidate@, success, printed@) == Ok::<Seq<char>, Seq<char>>(
                found@,
            ),
            Err(message) => reported_node(candidate@, success, printed@) == Err::<
                Seq<char>,
                Seq<char>,
            >(message@),
        },
{
    let path = trim(printed);
    if success && path.as_str().unicode_len() > 0 && path.as_str().get_char(0) == '/' {
        Ok(path)
    } else {
        Err(concat3("resolving the Node executable via `", candidate, "` failed"))
    }
}

/// The Node executable that a run of `candidate` found.
pub fn resolve_node(candidate: &str, run: &NodeRun) -> (node: Result<String, String>)
    ensures
        match node {
            Ok(found) => node_found(candidate@, run@) == Ok::<Seq<char>, Seq<char>>(found@),
            Err(message) => node_found(candidate@, run@) == Err::<Seq<char>, Seq<char>>(message@),
        },
{
    match run {
        NodeRun::Failed(reason) => {
            let mut message = concat3("running Node `", candidate, "` from PATH: ");
            message.append(reason.as_str());
            message.append("; set DSH_TAURI_NODE");
            Err(message)
        },
        NodeRun::Ran { success, stdout } => printed_node(
            candidate,
            *success,
            text_of_bytes(stdout.as_slice()).as_str(),
        ),
    }
}

/// The step that looks at a directory above the manifest directory.
fn candidate(root: Option<String>) -> (step: ResolveStep)
    ensures
        step@ == candidate_step(optional_text(root)),
{
    match root {
        Some(root) => {
            let probe = join(root.as_str(), "apps/desktop-tauri");
            ResolveStep::Candidate { root, probe }
        },
        None => ResolveStep::Failed(
            "dsh desktop tauri: cannot locate the repository root; set DSH_TAURI_REPO_ROOT".to_owned(),
        ),
    }
}

/// Start to look for the repository root.
pub fn repository_root(environment: &ShellEnvironment) -> (step: ResolveStep)
    ensures
        step@ == first_step(environment@),
{
    match &environment.repo_root {
        Some(root) => ResolveStep::Declared {
            root: root.clone(),
            probe: join(root.as_str(), "apps/desktop-tauri"),
        },
        None => match parent(environment.manifest_dir.as_str()) {
            Some(upper) => candidate(parent(upper.as_str())),
            None => candidate(None),
        },
    }
}

fn artifact_path(repo: &str, target: &str, artifact: &Artifact) -> (path: String)
    ensures
        path@ == artifact_dir(repo@, target@, *artifact),
{
    let build = join(repo, "apps/desktop/.desktop-build");
    match artifact {
        Artifact::Project => join(build.as_str(), "development/project"),
        Artifact::WebDist => join(
            join(build.as_str(), "development/project").as_str(),
            "node_modules/@deepseek-ai/dsh-web-frontend/dist",
        ),
        Artifact::PrimaryRuntime => join(
            join(join(build.as_str(), "targets").as_str(), target).as_str(),
            "runtime/primary-runtime",
        ),
    }
}

fn artifact_subject(artifact: &Artifact) -> (name: &'static str)
    ensures
        name@ == subject(*artifact),
{
    match artifact {
        Artifact::Project => "development project",
        Artifact::WebDist => "Web client dist",
        Artifact::PrimaryRuntime => "primary runtime",
    }
}

fn prepared(repo: String, target: String, artifact: Artifact) -> (step: ResolveStep)
    ensures
        step@ == (ResolveView::Prepared {
            repo: repo@,
            target: target@,
            artifact,
            probe: artifact_dir(repo@, target@, artifact),
        }),
{
    let probe = artifact_path(repo.as_str(), target.as_str(), &artifact);
    ResolveStep::Prepared { repo, target, artifact, probe }
}

fn located(environment: &ShellEnvironment, repo: String) -> (step: ResolveStep)
    ensures
        step@ == located_step(environment@, repo@),
{
    match desktop_build_target(environment.os.as_str(), environment.arch.as_str()) {
        Ok(target) => prepared(repo, target.to_owned(), Artifact::Project),
        Err(message) => ResolveStep::Failed(message),
    }
}

impl ShellPaths {
    /// The roots of the checkout `repo`.
    pub fn in_checkout(repo: &str, target: &str, node: String) -> (paths: ShellPaths)
        ensures
            paths@ == layout(repo@, target@, node@),
    {
        let build = join(repo, "apps/desktop/.desktop-build");
        ShellPaths {
            node,
            node_bin: join(repo, "apps/desktop/scripts/node-bin"),
            pnpm: join(repo, "apps/desktop/node_modules/pnpm/bin/pnpm.mjs"),
            dsh_dir: artifact_path(repo, target, &Artifact::Project),
            home: join(build.as_str(), "development/home-tauri"),
            profile: join(build.as_str(), "development/home-tauri/profiles/desktop"),
            primary_runtime: artifact_path(repo, target, &Artifact::PrimaryRuntime),
            dist: artifact_path(repo, target, &Artifact::WebDist),
        }
    }

    /// Resolve development roots and verify the prepared artifacts exist: the
    /// step behind an answer on whether the directory that `step` probes is
    /// there.
    pub fn resolve(environment: &ShellEnvironment, step: ResolveStep, present: bool) -> (next:
        ResolveStep)
        ensures
            next@ == probed_step(environment@, step@, present),
    {
        match step {
            ResolveStep::Declared { root, .. } => {
                if present {
                    located(environment, root)
                } else {
                    let mut message: String =
                        "dsh desktop tauri: DSH_TAURI_REPO_ROOT does not contain apps/desktop-tauri: ".to_owned();
                    message.append(root.as_str());
                    ResolveStep::Failed(message)
                }
            },
            ResolveStep::Candidate { root, .. } => {
                if present {
                    located(environment, root)
                } else {
                    candidate(parent(root.as_str()))
                }
            },
            ResolveStep::Prepared { repo, target, artifact, probe } => {
                if !present {
                    let mut message = concat3(
                        "dsh desktop tauri: missing ",
                        artifact_subject(&artifact),
                        " at ",
                    );
                    message.append(probe.as_str());
                    message.append("; run `pnpm run dev:desktop-tauri` to prepare it");
                    return ResolveStep::Failed(message);
                }
                match artifact {
                    Artifact::Project => prepared(repo, target, Artifact::WebDist),
                    Artifact::WebDist => prepared(repo, target, Artifact::PrimaryRuntime),
                    Artifact::PrimaryRuntime => {
                        let candidate: String = match &environment.node {
                            Some(node) => node.clone(),
                            None => "node".to_owned(),
                        };
                        ResolveStep::Node { repo, target, candidate }
                    },
                }
            },
            other => other,
        }
    }

    /// The step behind a run of Node.
    pub fn with_node(step: ResolveStep, run: &NodeRun) -> (next: ResolveStep)
        ensures
            next@ == node_step(step@, run@),
    {
        match step {
            ResolveStep::Node { repo, target, candidate } => match resolve_node(
                candidate.as_str(),
                run,
            ) {
                Ok(node) => ResolveStep::Resolved(
                    ShellPaths::in_checkout(repo.as_str(), target.as_str(), node),
                ),
                Err(message) => ResolveStep::Failed(message),
            },
            other => other,
        }
    }
}

/// The nearest of `candidate` and the directories above it that is a checkout,
/// where `there` tells which directories exist.
pub open spec fn nearest_checkout(
    candidate: Option<Seq<char>>,
    there: spec_fn(Seq<char>) -> bool,
) -> Option<Seq<char>>
    decreases
            (match candidate {
                Some(root) => root.len() + 1,
                None => 0,
            }),
{
    match candidate {
        Some(root) => {
            if there(marker(root)) {
                Some(root)
            } else {
                proof {
                    crate::path::lemma_parent_shorter(root);
                }
                nearest_checkout(crate::path::parent_of(root), there)
            }
        },
        None => None,
    }
}

/// The repository root: the declared one, or the nearest checkout above the
/// manifest directory.
pub open spec fn root_of(
    environment: EnvironmentView,
    there: spec_fn(Seq<char>) -> bool,
) -> Result<Seq<char>, Seq<char>> {
    match environment.repo_root {
        Some(root) => if there(marker(root)) {
            Ok(root)
        } else {
            Err(wrong_root(root))
        },
        None => match nearest_checkout(above_manifest(environment.manifest_dir), there) {
            Some(root) => Ok(root),
            None => Err(no_root()),
        },
    }
}

/// What resolution comes to on a machine where `there` tells which directories
/// exist and `run` is what comes of running Node.
pub open spec fn resolution(
    environment: EnvironmentView,
    there: spec_fn(Seq<char>) -> bool,
    run: NodeRunView,
) -> Result<ShellPathsView, Seq<char>> {
    match root_of(environment, there) {
        Ok(repo) => match build_target(environment.os, environment.arch) {
            Ok(target) => if !there(project_dir(repo)) {
                Err(missing(Artifact::Project, project_dir(repo)))
            } else if !there(dist_dir(repo)) {
                Err(missing(Artifact::WebDist, dist_dir(repo)))
            } else if !there(runtime_dir(repo, target)) {
                Err(missing(Artifact::PrimaryRuntime, runtime_dir(repo, target)))
            } else {
                match node_found(node_candidate(environment), run) {
                    Ok(node) => Ok(layout(repo, target, node)),
                    Err(message) => Err(message),
                }
            },
            Err(message) => Err(message),
        },
        Err(message) => Err(message),
    }
}

/// The step that is reached from `step` when every question is answered.
pub open spec fn settled(
    environment: EnvironmentView,
    step: ResolveView,
    there: spec_fn(Seq<char>) -> bool,
    run: NodeRunView,
) -> ResolveView
    decreases
            (match step {
                ResolveView::Declared { .. } => 3int,
                ResolveView::Candidate { .. } => 2int,
                ResolveView::Prepared { .. } => 1int,
                _ => 0int,
            }),
            (match step {
                ResolveView::Candidate { root, .. } => root.len() as int,
                ResolveView::Prepared { artifact, .. } => match artifact {
                    Artifact::Project => 3int,
                    Artifact::WebDist => 2int,
                    Artifact::PrimaryRuntime => 1int,
                },
                _ => 0int,
            }),
{
    match step {
        ResolveView::Declared { probe, .. } => settled(
            environment,
            probed_step(environment, step, there(probe)),
            there,
            run,
        ),
        ResolveView::Candidate { root, probe } => {
            proof {
                crate::path::lemma_parent_shorter(root);
            }
            settled(environment, probed_step(environment, step, there(probe)), there, run)
        },
        ResolveView::Prepared { probe, .. } => settled(
            environment,
            probed_step(environment, step, there(probe)),
            there,
            run,
        ),
        other => node_step(other, run),
    }
}

/// The answer as the last step.
pub open spec fn as_step(answer: Result<ShellPathsView, Seq<char>>) -> ResolveView {
    match answer {
        Ok(paths) => ResolveView::Resolved(paths),
        Err(message) => ResolveView::Failed(message),
    }
}

/// What follows a located checkout.
proof fn lemma_settled_from(
    environment: EnvironmentView,
    repo: Seq<char>,
    there: spec_fn(Seq<char>) -> bool,
    run: NodeRunView,
)
    ensures
        settled(environment, located_step(environment, repo), there, run) == as_step(
            match build_target(environment.os, environment.arch) {
                Ok(target) => if !there(project_dir(repo)) {
                    Err(missing(Artifact::Project, project_dir(repo)))
                } else if !there(dist_dir(repo)) {
                    Err(missing(Artifact::WebDist, dist_dir(repo)))
                } else if !there(runtime_dir(repo, target)) {
                    Err(missing(Artifact::PrimaryRuntime, runtime_dir(repo, target)))
                } else {
                    match node_found(node_candidate(environment), run) {
                        Ok(node) => Ok(layout(repo, target, node)),
                        Err(message) => Err(message),
                    }
                },
                Err(message) => Err(message),
            },
        ),
{
    reveal_with_fuel(settled, 5);
}

/// What follows a walk up from a candidate.
proof fn lemma_settled_candidate(
    environment: EnvironmentView,
    candidate: Option<Seq<char>>,
    there: spec_fn(Seq<char>) -> bool,
    run: NodeRunView,
)
    ensures
        settled(environment, candidate_step(candidate), there, run) == (match nearest_checkout(
            candidate,
            there,
        ) {
            Some(root) => settled(environment, located_step(environment, root), there, run),
            None => ResolveView::Failed(no_root()),
        }),
    decreases
            (match candidate {
                Some(root) => root.len() + 1,
                None => 0,
            }),
{
    if let Some(root) = candidate {
        if !there(marker(root)) {
            crate::path::lemma_parent_shorter(root);
            lemma_settled_candidate(environment, crate::path::parent_of(root), there, run);
        }
    }
}

/// Answering every step, from the first on, comes to the resolution: the
/// declared root or the nearest checkout above the manifest directory, its
/// artifacts in their order, and the Node executable last. Every walk ends.
pub proof fn law_walk_resolves(
    environment: EnvironmentView,
    there: spec_fn(Seq<char>) -> bool,
    run: NodeRunView,
)
    ensures
        settled(environment, first_step(environment), there, run) == as_step(
            resolution(environment, there, run),
        ),
{
    match environment.repo_root {
        Some(root) => {
            reveal_with_fuel(settled, 2);
            lemma_settled_from(environment, root, there, run);
        },
        None => {
            let start = above_manifest(environment.manifest_dir);
            lemma_settled_candidate(environment, start, there, run);
            if let Some(root) = nearest_checkout(start, there) {
                lemma_settled_from(environment, root, there, run);
            }
        },
    }
}

/// The desktop profile stands in the isolated Harness home of the shell, and
/// the Web client in the development project.
pub proof fn law_profile_in_home(repo: Seq<char>, target: Seq<char>, node: Seq<char>)
    ensures
        layout(repo, target, node).profile == crate::path::joined(
            layout(repo, target, node).home,
            "profiles/desktop"@,
        ),
        crate::text::begins_with(
            layout(repo, target, node).dist,
            layout(repo, target, node).dsh_dir,
        ),
{
    reveal_strlit("development/home-tauri");
    reveal_strlit("profiles/desktop");
    reveal_strlit("development/home-tauri/profiles/desktop");
    reveal_strlit("node_modules/@deepseek-ai/dsh-web-frontend/dist");
    let whole = "development/home-tauri/profiles/desktop"@;
    assert(whole =~= "development/home-tauri"@.push('/') + "profiles/desktop"@);
    let paths = layout(repo, target, node);
    assert(paths.profile =~= crate::path::joined(paths.home, "profiles/desktop"@));
    assert(paths.dist.take(paths.dsh_dir.len() as int) =~= paths.dsh_dir);
}

/// Whatever the machine answers, the Node executable of resolved roots is an
/// absolute path, so the private launcher does not re-enter itself.
pub proof fn law_node_is_absolute(
    environment: EnvironmentView,
    there: spec_fn(Seq<char>) -> bool,
    run: NodeRunView,
)
    ensures
        resolution(environment, there, run) matches Ok(paths) ==> paths.node.len() > 0
            && paths.node[0] == '/',
{
}

} // verus!
