//! Laws of the development roots.

use vstd::prelude::*;

use crate::path::{join, parent};
use crate::paths::{
    desktop_build_target, printed_node, repository_root, resolve_node, Artifact, NodeRun,
    ResolveStep, ShellEnvironment, ShellPaths,
};

verus! {

/// A directory path without a trailing separator.
pub open spec fn open_end(dir: Seq<char>) -> bool {
    dir.len() > 0 && dir.last() != '/'
}

/// A name without a separator.
pub open spec fn plain_name(name: Seq<char>) -> bool {
    name.len() > 0 && !name.contains('/')
}

/// The primary runtime of a checkout for a build target.
pub open spec fn runtime_at(repo: Seq<char>, target: Seq<char>) -> Seq<char> {
    repo + "/apps/desktop/.desktop-build/targets/"@ + target + "/runtime/primary-runtime"@
}

/// The development project of a checkout.
pub open spec fn project_at(repo: Seq<char>) -> Seq<char> {
    repo + "/apps/desktop/.desktop-build/development/project"@
}

/// The Web client of a checkout.
pub open spec fn dist_at(repo: Seq<char>) -> Seq<char> {
    repo
        + "/apps/desktop/.desktop-build/development/project/node_modules/@deepseek-ai/dsh-web-frontend/dist"@
}

/// The directory that marks a checkout.
pub open spec fn marker_at(repo: Seq<char>) -> Seq<char> {
    repo + "/apps/desktop-tauri"@
}

proof fn lemma_marker(repo: Seq<char>)
    requires
        open_end(repo),
    ensures
        crate::paths::marker(repo) == marker_at(repo),
{
    reveal_strlit("apps/desktop-tauri");
    reveal_strlit("/apps/desktop-tauri");
    assert(crate::paths::marker(repo) =~= marker_at(repo));
}

proof fn lemma_build(repo: Seq<char>)
    requires
        open_end(repo),
    ensures
        crate::paths::build_dir(repo) == repo + "/apps/desktop/.desktop-build"@,
        open_end(crate::paths::build_dir(repo)),
{
    reveal_strlit("apps/desktop/.desktop-build");
    reveal_strlit("/apps/desktop/.desktop-build");
    assert(crate::paths::build_dir(repo) =~= repo + "/apps/desktop/.desktop-build"@);
}

proof fn lemma_project(repo: Seq<char>)
    requires
        open_end(repo),
    ensures
        crate::paths::project_dir(repo) == project_at(repo),
        open_end(project_at(repo)),
{
    lemma_build(repo);
    reveal_strlit("/apps/desktop/.desktop-build");
    reveal_strlit("development/project");
    reveal_strlit("/apps/desktop/.desktop-build/development/project");
    assert("/apps/desktop/.desktop-build/development/project"@
        =~= "/apps/desktop/.desktop-build"@ + seq!['/'] + "development/project"@);
    assert(crate::paths::project_dir(repo) =~= project_at(repo));
}

proof fn lemma_dist(repo: Seq<char>)
    requires
        open_end(repo),
    ensures
        crate::paths::dist_dir(repo) == dist_at(repo),
{
    lemma_project(repo);
    reveal_strlit("/apps/desktop/.desktop-build/development/project");
    reveal_strlit("node_modules/@deepseek-ai/dsh-web-frontend/dist");
    reveal_strlit(
        "/apps/desktop/.desktop-build/development/project/node_modules/@deepseek-ai/dsh-web-frontend/dist",
    );
    assert("/apps/desktop/.desktop-build/development/project/node_modules/@deepseek-ai/dsh-web-frontend/dist"@
        =~= "/apps/desktop/.desktop-build/development/project"@ + seq!['/']
        + "node_modules/@deepseek-ai/dsh-web-frontend/dist"@);
    assert(crate::paths::dist_dir(repo) =~= dist_at(repo));
}

proof fn lemma_runtime(repo: Seq<char>, target: Seq<char>)
    requires
        open_end(repo),
        plain_name(target),
    ensures
        crate::paths::runtime_dir(repo, target) == runtime_at(repo, target),
{
    lemma_build(repo);
    reveal_strlit("/apps/desktop/.desktop-build");
    reveal_strlit("targets");
    reveal_strlit("runtime/primary-runtime");
    reveal_strlit("/runtime/primary-runtime");
    reveal_strlit("/apps/desktop/.desktop-build/targets/");
    assert(target[0] != '/' && target[target.len() - 1] != '/');
    let front = "/apps/desktop/.desktop-build/targets/"@;
    assert(front =~= "/apps/desktop/.desktop-build"@ + seq!['/'] + "targets"@ + seq!['/']);
    assert("/runtime/primary-runtime"@ =~= seq!['/'] + "runtime/primary-runtime"@);
    let targets = crate::path::joined(crate::paths::build_dir(repo), "targets"@);
    assert(targets =~= repo + "/apps/desktop/.desktop-build"@ + seq!['/'] + "targets"@);
    let own = crate::path::joined(targets, target);
    assert(own =~= repo + front + target);
    assert(own.last() == target[target.len() - 1]);
    assert(crate::paths::runtime_dir(repo, target) =~= runtime_at(repo, target));
}

/// Every root of a checkout stands at its place below it: the runtime in the
/// directory of its own build target, and the Node executable as given.
pub proof fn law_roots_stand_in_the_checkout(
    repo: &str,
    target: &str,
    node: String,
    paths: ShellPaths,
)
    requires
        call_ensures(ShellPaths::in_checkout, (repo, target, node), paths),
        open_end(repo@),
        plain_name(target@),
    ensures
        paths.node@ == node@,
        paths.node_bin@ == repo@ + "/apps/desktop/scripts/node-bin"@,
        paths.pnpm@ == repo@ + "/apps/desktop/node_modules/pnpm/bin/pnpm.mjs"@,
        paths.dsh_dir@ == project_at(repo@),
        paths.home@ == repo@ + "/apps/desktop/.desktop-build/development/home-tauri"@,
        paths.profile@ == repo@
            + "/apps/desktop/.desktop-build/development/home-tauri/profiles/desktop"@,
        paths.primary_runtime@ == runtime_at(repo@, target@),
        paths.dist@ == dist_at(repo@),
{
    lemma_layout(repo@, target@, node@);
}

proof fn lemma_layout(repo: Seq<char>, target: Seq<char>, node: Seq<char>)
    requires
        open_end(repo),
        plain_name(target),
    ensures
        ({
            let paths = crate::paths::layout(repo, target, node);
            &&& paths.node == node
            &&& paths.node_bin == repo + "/apps/desktop/scripts/node-bin"@
            &&& paths.pnpm == repo + "/apps/desktop/node_modules/pnpm/bin/pnpm.mjs"@
            &&& paths.dsh_dir == project_at(repo)
            &&& paths.home == repo + "/apps/desktop/.desktop-build/development/home-tauri"@
            &&& paths.profile == repo
                + "/apps/desktop/.desktop-build/development/home-tauri/profiles/desktop"@
            &&& paths.primary_runtime == runtime_at(repo, target)
            &&& paths.dist == dist_at(repo)
        }),
{
    lemma_build(repo);
    lemma_project(repo);
    lemma_dist(repo);
    lemma_runtime(repo, target);
    let paths = crate::paths::layout(repo, target, node);
    assert(paths.node_bin =~= repo + "/apps/desktop/scripts/node-bin"@) by {
        reveal_strlit("apps/desktop/scripts/node-bin");
        reveal_strlit("/apps/desktop/scripts/node-bin");
    }
    assert(paths.pnpm =~= repo + "/apps/desktop/node_modules/pnpm/bin/pnpm.mjs"@) by {
        reveal_strlit("apps/desktop/node_modules/pnpm/bin/pnpm.mjs");
        reveal_strlit("/apps/desktop/node_modules/pnpm/bin/pnpm.mjs");
    }
    assert(paths.home =~= repo + "/apps/desktop/.desktop-build/development/home-tauri"@) by {
        reveal_strlit("/apps/desktop/.desktop-build");
        reveal_strlit("development/home-tauri");
        reveal_strlit("/apps/desktop/.desktop-build/development/home-tauri");
        assert("/apps/desktop/.desktop-build/development/home-tauri"@
            =~= "/apps/desktop/.desktop-build"@ + seq!['/'] + "development/home-tauri"@);
    }
    assert(paths.profile =~= repo
        + "/apps/desktop/.desktop-build/development/home-tauri/profiles/desktop"@) by {
        reveal_strlit("/apps/desktop/.desktop-build");
        reveal_strlit("development/home-tauri/profiles/desktop");
        reveal_strlit("/apps/desktop/.desktop-build/development/home-tauri/profiles/desktop");
        assert("/apps/desktop/.desktop-build/development/home-tauri/profiles/desktop"@
            =~= "/apps/desktop/.desktop-build"@ + seq!['/']
            + "development/home-tauri/profiles/desktop"@);
    }
}

/// Different build targets of one checkout have different runtimes.
pub proof fn law_targets_have_their_own_runtimes(
    repo: &str,
    one: &str,
    other: &str,
    node: String,
    first: ShellPaths,
    second: ShellPaths,
)
    requires
        call_ensures(ShellPaths::in_checkout, (repo, one, node), first),
        call_ensures(ShellPaths::in_checkout, (repo, other, node), second),
        open_end(repo@),
        plain_name(one@),
        plain_name(other@),
        first.primary_runtime@ == second.primary_runtime@,
    ensures
        one@ == other@,
{
    lemma_runtime(repo@, one@);
    lemma_runtime(repo@, other@);
    let front = repo@ + "/apps/desktop/.desktop-build/targets/"@;
    let tail = "/runtime/primary-runtime"@;
    let path = first.primary_runtime@;
    let from = front.len() as int;
    assert(path.len() == from + one@.len() + tail.len());
    assert(path.len() == from + other@.len() + tail.len());
    assert(path.subrange(from, path.len() - tail.len()) =~= one@);
    assert(path.subrange(from, path.len() - tail.len()) =~= other@);
}

/// Each platform has its own build target, and the message for one without
/// names it.
pub proof fn law_platforms_have_targets(os: &str, arch: &str, target: Result<&'static str, String>)
    requires
        call_ensures(desktop_build_target, (os, arch), target),
    ensures
        os@ == "macos"@ && arch@ == "aarch64"@ ==> (target matches Ok(name) && name@
            == "mac-arm64"@),
        os@ == "macos"@ && arch@ == "x86_64"@ ==> (target matches Ok(name) && name@ == "mac-x64"@),
        os@ == "windows"@ && arch@ == "x86_64"@ ==> (target matches Ok(name) && name@
            == "win-x64"@),
        !(os@ == "macos"@ && arch@ == "aarch64"@) && !(os@ == "macos"@ && arch@ == "x86_64"@) && !(
        os@ == "windows"@ && arch@ == "x86_64"@) ==> (target matches Err(message) && message@
            == "dsh desktop tauri: unsupported development platform "@ + os@ + "-"@ + arch@),
{
    lemma_platforms();
}

proof fn lemma_platforms()
    ensures
        "macos"@ != "windows"@,
        "aarch64"@ != "x86_64"@,
        plain_name("mac-arm64"@),
        plain_name("mac-x64"@),
        plain_name("win-x64"@),
{
    reveal_strlit("macos");
    reveal_strlit("windows");
    reveal_strlit("aarch64");
    reveal_strlit("x86_64");
    reveal_strlit("mac-arm64");
    reveal_strlit("mac-x64");
    reveal_strlit("win-x64");
    assert("macos"@.len() == 5 && "windows"@.len() == 7);
    assert("aarch64"@.len() == 7 && "x86_64"@.len() == 6);
}

/// What Node prints between its outer white space is taken whole where it is an
/// absolute path and Node succeeded; anything else is a failure that names the
/// candidate.
pub proof fn law_printed_paths_are_taken_whole(
    candidate: &str,
    success: bool,
    printed: &str,
    left: Seq<char>,
    core: Seq<char>,
    right: Seq<char>,
    node: Result<String, String>,
)
    requires
        call_ensures(printed_node, (candidate, success, printed), node),
        printed@ == left + core + right,
        forall|i: int| 0 <= i < left.len() ==> crate::text::is_white_space(#[trigger] left[i]),
        forall|i: int| 0 <= i < right.len() ==> crate::text::is_white_space(#[trigger] right[i]),
        core.len() > 0 ==> !crate::text::is_white_space(core[0])
            && !crate::text::is_white_space(core.last()),
    ensures
        success && core.len() > 0 && core[0] == '/' ==> (node matches Ok(path) && path@ == core),
        !(success && core.len() > 0 && core[0] == '/') ==> (node matches Err(message) && message@
            == "resolving the Node executable via `"@ + candidate@ + "` failed"@),
{
    crate::laws::text::lemma_trimmed(left, core, right);
}

/// A run of Node is read as the text that it printed, and a run that failed is
/// reported with the candidate and the whole reason.
pub proof fn law_runs_are_read_as_printed(
    candidate: &str,
    success: bool,
    stdout: Vec<u8>,
    printed: &str,
    reason: String,
    of_run: Result<String, String>,
    of_text: Result<String, String>,
    of_failure: Result<String, String>,
)
    requires
        call_ensures(resolve_node, (candidate, &NodeRun::Ran { success, stdout }), of_run),
        call_ensures(printed_node, (candidate, success, printed), of_text),
        call_ensures(resolve_node, (candidate, &NodeRun::Failed(reason)), of_failure),
        stdout@ == vstd::utf8::encode_utf8(printed@),
    ensures
        of_run is Ok <==> of_text is Ok,
        of_run is Ok ==> of_run->Ok_0@ == of_text->Ok_0@,
        of_run is Err ==> of_run->Err_0@ == of_text->Err_0@,
        of_failure matches Err(message) && message@ == "running Node `"@ + candidate@
            + "` from PATH: "@ + reason@ + "; set DSH_TAURI_NODE"@,
{
    vstd::utf8::encode_utf8_valid_utf8(printed@);
    vstd::utf8::encode_utf8_decode_utf8(printed@);
}

/// The declared root is asked for first; without one the walk starts two
/// directories above the manifest.
pub proof fn law_the_walk_starts(
    environment: &ShellEnvironment,
    dir: Seq<char>,
    upper: Seq<char>,
    lower: Seq<char>,
    step: ResolveStep,
)
    requires
        call_ensures(repository_root, (environment,), step),
    ensures
        environment.repo_root matches Some(root) ==> open_end(root@) ==> (
        step matches ResolveStep::Declared { root: asked, probe } && asked@ == root@ && probe@
            == marker_at(root@)),
        environment.repo_root is None && environment.manifest_dir@ == dir + seq!['/'] + upper
            + seq!['/'] + lower && open_end(dir) && dir.last() != '.' && plain_name(upper)
            && upper.last() != '.' && plain_name(lower) && lower != seq!['.'] ==> (
        step matches ResolveStep::Candidate { root, probe } && root@ == dir && probe@ == marker_at(
            dir,
        )),
{
    if let Some(root) = environment.repo_root {
        if open_end(root@) {
            lemma_marker(root@);
        }
    } else if environment.manifest_dir@ == dir + seq!['/'] + upper + seq!['/'] + lower && open_end(
        dir,
    ) && dir.last() != '.' && plain_name(upper) && upper.last() != '.' && plain_name(lower) && lower
        != seq!['.'] {
        let middle = dir + seq!['/'] + upper;
        assert(middle.last() == upper[upper.len() - 1]);
        assert(upper != seq!['.']) by {
            if upper == seq!['.'] {
                assert(upper.last() == '.');
            }
        }
        crate::laws::paths::lemma_parent(middle, lower);
        crate::laws::paths::lemma_parent(dir, upper);
        lemma_marker(dir);
    }
}

/// Behind a checkout its project is asked for, unless the platform has no
/// target.
pub open spec fn asks_for_the_project(
    environment: ShellEnvironment,
    repo: Seq<char>,
    step: ResolveStep,
) -> bool {
    let mac = environment.os@ == "macos"@;
    let arm = environment.arch@ == "aarch64"@;
    let intel = environment.arch@ == "x86_64"@;
    let windows = environment.os@ == "windows"@;
    if (mac && (arm || intel)) || (windows && intel) {
        &&& step matches ResolveStep::Prepared { repo: at, target, artifact, probe }
        &&& at@ == repo
        &&& target@ == (if mac && arm {
            "mac-arm64"@
        } else if mac {
            "mac-x64"@
        } else {
            "win-x64"@
        })
        &&& artifact is Project
        &&& probe@ == project_at(repo)
    } else {
        step matches ResolveStep::Failed(message) && message@
            == "dsh desktop tauri: unsupported development platform "@ + environment.os@ + "-"@
            + environment.arch@
    }
}

/// A root that is a checkout is taken; a declared one that is not fails with its
/// path, and from another the walk goes up to the parent.
pub proof fn law_roots_are_looked_at(
    environment: &ShellEnvironment,
    root: String,
    probe: String,
    dir: Seq<char>,
    name: Seq<char>,
    declared: ResolveStep,
    undeclared: ResolveStep,
    candidate: ResolveStep,
    passed: ResolveStep,
)
    requires
        call_ensures(
            ShellPaths::resolve,
            (environment, ResolveStep::Declared { root, probe }, true),
            declared,
        ),
        call_ensures(
            ShellPaths::resolve,
            (environment, ResolveStep::Declared { root, probe }, false),
            undeclared,
        ),
        call_ensures(
            ShellPaths::resolve,
            (environment, ResolveStep::Candidate { root, probe }, true),
            candidate,
        ),
        call_ensures(
            ShellPaths::resolve,
            (environment, ResolveStep::Candidate { root, probe }, false),
            passed,
        ),
        open_end(root@),
    ensures
        asks_for_the_project(*environment, root@, declared),
        asks_for_the_project(*environment, root@, candidate),
        undeclared matches ResolveStep::Failed(message) && message@
            == "dsh desktop tauri: DSH_TAURI_REPO_ROOT does not contain apps/desktop-tauri: "@
            + root@,
        root@ == dir + seq!['/'] + name && open_end(dir) && dir.last() != '.' && plain_name(name)
            && name != seq!['.'] ==> (passed matches ResolveStep::Candidate { root: next, probe: at }
            && next@ == dir && at@ == marker_at(dir)),
{
    lemma_project(root@);
    lemma_platforms();
    if root@ == dir + seq!['/'] + name && open_end(dir) && dir.last() != '.' && plain_name(name)
        && name != seq!['.'] {
        crate::laws::paths::lemma_parent(dir, name);
        lemma_marker(dir);
    }
}

/// The walk ends above the top directory.
pub proof fn law_the_walk_ends_at_the_top(
    environment: &ShellEnvironment,
    root: String,
    probe: String,
    passed: ResolveStep,
)
    requires
        call_ensures(
            ShellPaths::resolve,
            (environment, ResolveStep::Candidate { root, probe }, false),
            passed,
        ),
        root@ == seq!['/'] || root@.len() == 0,
    ensures
        passed matches ResolveStep::Failed(message) && message@
            == "dsh desktop tauri: cannot locate the repository root; set DSH_TAURI_REPO_ROOT"@,
{
}

/// The artifacts of a checkout are asked for one by one, each at its own place
/// and the runtime at that of the build target; then Node is asked for. One
/// that is not there fails with its name and path.
pub proof fn law_artifacts_are_asked_for(
    environment: &ShellEnvironment,
    repo: String,
    target: String,
    probe: String,
    project: ResolveStep,
    dist: ResolveStep,
    runtime: ResolveStep,
    no_project: ResolveStep,
    no_dist: ResolveStep,
    no_runtime: ResolveStep,
)
    requires
        call_ensures(
            ShellPaths::resolve,
            (
                environment,
                ResolveStep::Prepared { repo, target, artifact: Artifact::Project, probe },
                true,
            ),
            project,
        ),
        call_ensures(
            ShellPaths::resolve,
            (
                environment,
                ResolveStep::Prepared { repo, target, artifact: Artifact::WebDist, probe },
                true,
            ),
            dist,
        ),
        call_ensures(
            ShellPaths::resolve,
            (
                environment,
                ResolveStep::Prepared { repo, target, artifact: Artifact::PrimaryRuntime, probe },
                true,
            ),
            runtime,
        ),
        call_ensures(
            ShellPaths::resolve,
            (
                environment,
                ResolveStep::Prepared { repo, target, artifact: Artifact::Project, probe },
                false,
            ),
            no_project,
        ),
        call_ensures(
            ShellPaths::resolve,
            (
                environment,
                ResolveStep::Prepared { repo, target, artifact: Artifact::WebDist, probe },
                false,
            ),
            no_dist,
        ),
        call_ensures(
            ShellPaths::resolve,
            (
                environment,
                ResolveStep::Prepared { repo, target, artifact: Artifact::PrimaryRuntime, probe },
                false,
            ),
            no_runtime,
        ),
        open_end(repo@),
        plain_name(target@),
    ensures
        ({
            &&& project matches ResolveStep::Prepared { repo: r, target: t, artifact, probe: p }
            &&& r@ == repo@ && t@ == target@ && artifact is WebDist && p@ == dist_at(repo@)
        }),
        ({
            &&& dist matches ResolveStep::Prepared { repo: r, target: t, artifact, probe: p }
            &&& r@ == repo@ && t@ == target@ && artifact is PrimaryRuntime
            &&& p@ == runtime_at(repo@, target@)
        }),
        ({
            &&& runtime matches ResolveStep::Node { repo: r, target: t, candidate }
            &&& r@ == repo@ && t@ == target@
            &&& candidate@ == (match environment.node {
                Some(node) => node@,
                None => "node"@,
            })
        }),
        no_project matches ResolveStep::Failed(message) && message@
            == "dsh desktop tauri: missing "@ + "development project"@ + " at "@ + probe@
            + "; run `pnpm run dev:desktop-tauri` to prepare it"@,
        no_dist matches ResolveStep::Failed(message) && message@ == "dsh desktop tauri: missing "@
            + "Web client dist"@ + " at "@ + probe@
            + "; run `pnpm run dev:desktop-tauri` to prepare it"@,
        no_runtime matches ResolveStep::Failed(message) && message@
            == "dsh desktop tauri: missing "@ + "primary runtime"@ + " at "@ + probe@
            + "; run `pnpm run dev:desktop-tauri` to prepare it"@,
{
    lemma_dist(repo@);
    lemma_runtime(repo@, target@);
}

/// With the Node executable the roots of the checkout are resolved; without it
/// resolution fails with the reason.
pub proof fn law_node_resolves_the_roots(
    repo: String,
    target: String,
    candidate: String,
    run: &NodeRun,
    node: Result<String, String>,
    asked: &str,
    next: ResolveStep,
)
    requires
        asked@ == candidate@,
        call_ensures(
            ShellPaths::with_node,
            (ResolveStep::Node { repo, target, candidate }, run),
            next,
        ),
        call_ensures(resolve_node, (asked, run), node),
        open_end(repo@),
        plain_name(target@),
    ensures
        node matches Ok(path) ==> {
            &&& next matches ResolveStep::Resolved(paths)
            &&& paths.node@ == path@
            &&& paths.node_bin@ == repo@ + "/apps/desktop/scripts/node-bin"@
            &&& paths.pnpm@ == repo@ + "/apps/desktop/node_modules/pnpm/bin/pnpm.mjs"@
            &&& paths.dsh_dir@ == project_at(repo@)
            &&& paths.home@ == repo@ + "/apps/desktop/.desktop-build/development/home-tauri"@
            &&& paths.profile@ == repo@
                + "/apps/desktop/.desktop-build/development/home-tauri/profiles/desktop"@
            &&& paths.primary_runtime@ == runtime_at(repo@, target@)
            &&& paths.dist@ == dist_at(repo@)
        },
        node matches Err(reason) ==> (next matches ResolveStep::Failed(message) && message@
            == reason@),
{
    if let Ok(path) = node {
        lemma_layout(repo@, target@, path@);
    }
}

/// Resolution comes to roots only where the checkout and all of its artifacts
/// are there, and to those of that checkout and of the platform's target.
pub proof fn law_resolved_roots_are_there(
    environment: crate::paths::EnvironmentView,
    there: spec_fn(Seq<char>) -> bool,
    run: crate::paths::NodeRunView,
    repo: Seq<char>,
)
    requires
        open_end(repo),
        environment.repo_root == Some(repo),
        environment.os == "macos"@,
        environment.arch == "aarch64"@ || environment.arch == "x86_64"@,
    ensures
        ({
            let target = if environment.arch == "aarch64"@ {
                "mac-arm64"@
            } else {
                "mac-x64"@
            };
            let outcome = crate::paths::settled(
                environment,
                crate::paths::first_step(environment),
                there,
                run,
            );
            &&& outcome matches crate::paths::ResolveView::Resolved(paths) ==> {
                &&& there(marker_at(repo))
                &&& there(project_at(repo))
                &&& there(dist_at(repo))
                &&& there(runtime_at(repo, target))
                &&& paths.primary_runtime == runtime_at(repo, target)
                &&& paths.dsh_dir == project_at(repo)
                &&& paths.dist == dist_at(repo)
            }
            &&& outcome is Resolved || outcome is Failed
            &&& there(marker_at(repo)) && there(project_at(repo)) && there(dist_at(repo)) && there(
                runtime_at(repo, target),
            ) && (crate::paths::node_found(
                match environment.node {
                    Some(node) => node,
                    None => "node"@,
                },
                run,
            ) is Ok) ==> outcome is Resolved
        }),
{
    lemma_platforms();
    crate::paths::law_walk_resolves(environment, there, run);
    lemma_marker(repo);
    lemma_project(repo);
    lemma_dist(repo);
    let target = if environment.arch == "aarch64"@ {
        "mac-arm64"@
    } else {
        "mac-x64"@
    };
    lemma_runtime(repo, target);
}

/// A trailing separator of the checkout makes no difference to its roots.
pub proof fn law_closed_checkouts_are_the_same(
    repo: &str,
    closed: &str,
    target: &str,
    node: String,
    of_repo: ShellPaths,
    of_closed: ShellPaths,
)
    requires
        call_ensures(ShellPaths::in_checkout, (repo, target, node), of_repo),
        call_ensures(ShellPaths::in_checkout, (closed, target, node), of_closed),
        open_end(repo@),
        closed@ == repo@.push('/'),
    ensures
        of_closed@ == of_repo@,
{
    lemma_closed_join(repo@, "apps/desktop/.desktop-build"@);
    lemma_closed_join(repo@, "apps/desktop/scripts/node-bin"@);
    lemma_closed_join(repo@, "apps/desktop/node_modules/pnpm/bin/pnpm.mjs"@);
}

proof fn lemma_closed_join(repo: Seq<char>, part: Seq<char>)
    requires
        open_end(repo),
    ensures
        crate::path::joined(repo.push('/'), part) == crate::path::joined(repo, part),
{
}

/// The walk starts at the declared root, or at the parent of the parent of the
/// manifest directory, and looks for the marker below it.
pub proof fn law_the_walk_starts_anywhere(
    environment: &ShellEnvironment,
    manifest: &str,
    middle: &str,
    start: &str,
    part: &str,
    upper: Option<String>,
    top: Option<String>,
    probe: String,
    step: ResolveStep,
)
    requires
        call_ensures(repository_root, (environment,), step),
        part@ == "apps/desktop-tauri"@,
        manifest@ == environment.manifest_dir@,
        call_ensures(parent, (manifest,), upper),
        upper is Some ==> middle@ == upper->0@,
        call_ensures(parent, (middle,), top),
        call_ensures(join, (start, part), probe),
    ensures
        environment.repo_root is Some && start@ == environment.repo_root->0@ ==> (
        step matches ResolveStep::Declared { root, probe: at } && root@ == start@ && at@ == probe@),
        environment.repo_root is None && upper is Some && top is Some && start@ == top->0@ ==> (
        step matches ResolveStep::Candidate { root, probe: at } && root@ == start@ && at@
            == probe@),
        environment.repo_root is None && (upper is None || top is None) ==> (
        step matches ResolveStep::Failed(message) && message@
            == "dsh desktop tauri: cannot locate the repository root; set DSH_TAURI_REPO_ROOT"@),
{
}

/// From a candidate that is no checkout the walk goes to its parent, and fails
/// where it has none.
pub proof fn law_the_walk_goes_up(
    environment: &ShellEnvironment,
    root: String,
    probe: String,
    below: &str,
    above: &str,
    part: &str,
    upper: Option<String>,
    marked: String,
    step: ResolveStep,
)
    requires
        call_ensures(
            ShellPaths::resolve,
            (environment, ResolveStep::Candidate { root, probe }, false),
            step,
        ),
        below@ == root@,
        part@ == "apps/desktop-tauri"@,
        call_ensures(parent, (below,), upper),
        upper is Some ==> above@ == upper->0@,
        call_ensures(join, (above, part), marked),
    ensures
        upper is Some ==> (step matches ResolveStep::Candidate { root: next, probe: at } && next@
            == above@ && at@ == marked@),
        upper is None ==> (step matches ResolveStep::Failed(message) && message@
            == "dsh desktop tauri: cannot locate the repository root; set DSH_TAURI_REPO_ROOT"@),
{
}

/// Steps that ask nothing of a kind stay as they are.
pub proof fn law_other_steps_stay(
    environment: &ShellEnvironment,
    step: ResolveStep,
    present: bool,
    run: &NodeRun,
    probed: ResolveStep,
    ran: ResolveStep,
)
    requires
        call_ensures(ShellPaths::resolve, (environment, step, present), probed),
        call_ensures(ShellPaths::with_node, (step, run), ran),
    ensures
        step is Node || step is Resolved || step is Failed ==> probed@ == step@,
        step !is Node ==> ran@ == step@,
{
}

/// A copy of the roots has every one of them.
pub proof fn law_copies_of_roots_are_whole(paths: &ShellPaths, same: ShellPaths)
    requires
        call_ensures(ShellPaths::clone, (paths,), same),
    ensures
        same.node@ == paths.node@,
        same.node_bin@ == paths.node_bin@,
        same.pnpm@ == paths.pnpm@,
        same.dsh_dir@ == paths.dsh_dir@,
        same.home@ == paths.home@,
        same.profile@ == paths.profile@,
        same.primary_runtime@ == paths.primary_runtime@,
        same.dist@ == paths.dist@,
{
    let one = same@;
    let other = paths@;
    assert(one == other);
    assert(one.node == other.node && one.node_bin == other.node_bin && one.pnpm == other.pnpm);
}

} // verus!
