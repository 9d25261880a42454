//! Development roots: the walk to the checkout, its artifacts and Node.

use std::path::Path;

use dsh_desktop_tauri::path::{extension, join, parent};
use dsh_desktop_tauri::paths::{
    desktop_build_target, printed_node, repository_root, resolve_node, NodeRun, ResolveStep,
    ShellEnvironment, ShellPaths,
};

fn environment(repo_root: Option<&str>, manifest_dir: &str) -> ShellEnvironment {
    ShellEnvironment {
        repo_root: repo_root.map(String::from),
        manifest_dir: String::from(manifest_dir),
        os: String::from("macos"),
        arch: String::from("aarch64"),
        node: None,
    }
}

fn printed(text: &[u8]) -> NodeRun {
    NodeRun::Ran { success: true, stdout: text.to_vec() }
}

fn walk(environment: &ShellEnvironment, there: &[&str], run: &NodeRun) -> Result<ShellPaths, String> {
    let mut step = repository_root(environment);
    loop {
        step = match step {
            ResolveStep::Declared { ref probe, .. }
            | ResolveStep::Candidate { ref probe, .. }
            | ResolveStep::Prepared { ref probe, .. } => {
                let present = there.contains(&probe.as_str());
                ShellPaths::resolve(environment, step, present)
            }
            ResolveStep::Node { .. } => ShellPaths::with_node(step, run),
            ResolveStep::Resolved(paths) => return Ok(paths),
            ResolveStep::Failed(message) => return Err(message),
        }
    }
}

const PROJECT: &str = "/repo/apps/desktop/.desktop-build/development/project";
const DIST: &str = "/repo/apps/desktop/.desktop-build/development/project/node_modules/@deepseek-ai/dsh-web-frontend/dist";
const RUNTIME: &str =
    "/repo/apps/desktop/.desktop-build/targets/mac-arm64/runtime/primary-runtime";
const MARKER: &str = "/repo/apps/desktop-tauri";

#[test]
fn declared_roots_resolve() {
    let environment = environment(Some("/repo"), "/elsewhere");
    let paths =
        walk(&environment, &[MARKER, PROJECT, DIST, RUNTIME], &printed(b"/bin/node\n")).unwrap();
    assert_eq!(paths.node, "/bin/node");
    assert_eq!(paths.node_bin, "/repo/apps/desktop/scripts/node-bin");
    assert_eq!(paths.pnpm, "/repo/apps/desktop/node_modules/pnpm/bin/pnpm.mjs");
    assert_eq!(paths.dsh_dir, PROJECT);
    assert_eq!(paths.home, "/repo/apps/desktop/.desktop-build/development/home-tauri");
    assert_eq!(
        paths.profile,
        "/repo/apps/desktop/.desktop-build/development/home-tauri/profiles/desktop"
    );
    assert_eq!(paths.primary_runtime, RUNTIME);
    assert_eq!(paths.dist, DIST);
}

#[test]
fn declared_roots_must_be_checkouts() {
    let environment = environment(Some("/other"), "/repo/apps/desktop-tauri/src-tauri");
    assert_eq!(
        walk(&environment, &[MARKER, PROJECT, DIST, RUNTIME], &printed(b"/n")).err(),
        Some(String::from(
            "dsh desktop tauri: DSH_TAURI_REPO_ROOT does not contain apps/desktop-tauri: /other"
        ))
    );
}

#[test]
fn the_nearest_checkout_is_found() {
    let deep = environment(None, "/repo/apps/desktop-tauri/src-tauri");
    let there = [MARKER, PROJECT, DIST, RUNTIME];
    assert_eq!(walk(&deep, &there, &printed(b"/n")).unwrap().dist, DIST);
    let deeper = environment(None, "/repo/a/b/c/d/e");
    assert_eq!(walk(&deeper, &there, &printed(b"/n")).unwrap().dist, DIST);
}

#[test]
fn a_checkout_may_be_nowhere() {
    let nowhere = "dsh desktop tauri: cannot locate the repository root; set DSH_TAURI_REPO_ROOT";
    for manifest in ["/a/b/c", "/a", "/", "", "a/b"] {
        let environment = environment(None, manifest);
        assert_eq!(walk(&environment, &[], &printed(b"/n")).err(), Some(String::from(nowhere)));
    }
}

#[test]
fn artifacts_are_asked_for_in_order() {
    let environment = environment(Some("/repo"), "");
    let missing = |subject: &str, path: &str| {
        Some(format!(
            "dsh desktop tauri: missing {subject} at {path}; run `pnpm run dev:desktop-tauri` to prepare it"
        ))
    };
    assert_eq!(
        walk(&environment, &[MARKER], &printed(b"/n")).err(),
        missing("development project", PROJECT)
    );
    assert_eq!(
        walk(&environment, &[MARKER, PROJECT], &printed(b"/n")).err(),
        missing("Web client dist", DIST)
    );
    assert_eq!(
        walk(&environment, &[MARKER, PROJECT, DIST], &printed(b"/n")).err(),
        missing("primary runtime", RUNTIME)
    );
}

#[test]
fn platforms_have_targets() {
    assert_eq!(desktop_build_target("macos", "aarch64"), Ok("mac-arm64"));
    assert_eq!(desktop_build_target("macos", "x86_64"), Ok("mac-x64"));
    assert_eq!(desktop_build_target("windows", "x86_64"), Ok("win-x64"));
    assert_eq!(
        desktop_build_target("linux", "x86_64"),
        Err(String::from("dsh desktop tauri: unsupported development platform linux-x86_64"))
    );
    let mut linux = environment(Some("/repo"), "");
    linux.os = String::from("linux");
    assert_eq!(
        walk(&linux, &[MARKER], &printed(b"/n")).err(),
        Some(String::from("dsh desktop tauri: unsupported development platform linux-aarch64"))
    );
}

#[test]
fn node_reports_its_path() {
    assert_eq!(resolve_node("node", &printed(b" /bin/node \r\n")), Ok(String::from("/bin/node")));
    let failed = Err(String::from("resolving the Node executable via `n` failed"));
    assert_eq!(resolve_node("n", &printed(b" \n")), failed);
    let unhappy = NodeRun::Ran { success: false, stdout: b"/bin/node".to_vec() };
    assert_eq!(resolve_node("n", &unhappy), failed);
    assert_eq!(
        resolve_node("n", &NodeRun::Failed(String::from("gone"))),
        Err(String::from("running Node `n` from PATH: gone; set DSH_TAURI_NODE"))
    );
    assert_eq!(resolve_node("n", &printed(b"/b\xff")), Ok(String::from("/b\u{fffd}")));
    assert_eq!(resolve_node("n", &printed(b"node\n")), failed);
    assert_eq!(printed_node("n", true, "bin/node"), failed);
    assert_eq!(printed_node("n", true, "./node"), failed);
    assert_eq!(printed_node("n", true, "\u{a0}/x\u{2003}"), Ok(String::from("/x")));
}

#[test]
fn a_declared_node_is_asked() {
    let mut environment = environment(Some("/repo"), "");
    environment.node = Some(String::from("/opt/node"));
    let gone = NodeRun::Failed(String::from("gone"));
    assert_eq!(
        walk(&environment, &[MARKER, PROJECT, DIST, RUNTIME], &gone).err(),
        Some(String::from("running Node `/opt/node` from PATH: gone; set DSH_TAURI_NODE"))
    );
    environment.node = None;
    assert_eq!(
        walk(&environment, &[MARKER, PROJECT, DIST, RUNTIME], &gone).err(),
        Some(String::from("running Node `node` from PATH: gone; set DSH_TAURI_NODE"))
    );
}

#[test]
fn paths_agree_with_std() {
    let paths = [
        "", "/", ".", "..", "a", "a/", "a/b", "/a", "/a/", "/a/b", "a//b", "a/./b", "./a", "a/.",
        "/.", "//", "a/b/.", "a/..", "/a.b", "a.b/c", ".a", "a.", "..a", "a..b", "x/.a.b",
    ];
    for path in paths {
        let wanted = Path::new(path).parent().map(|found| found.to_str().unwrap().to_string());
        assert_eq!(parent(path), wanted, "parent of {path:?}");
        let wanted = Path::new(path).extension().map(|found| found.to_str().unwrap().to_string());
        assert_eq!(extension(path), wanted, "extension of {path:?}");
        for part in ["x", "/x", "", "x/y"] {
            let wanted = Path::new(path).join(part);
            assert_eq!(join(path, part), wanted.to_str().unwrap());
        }
    }
}
