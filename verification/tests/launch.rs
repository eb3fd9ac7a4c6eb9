use git_notes::launch::{
    begin_launch, resume_launch, Architecture, Asset, FileType, LaunchEvent, LaunchStep, Os,
    Release,
};

fn asset(name: &str, url: &str) -> Asset {
    Asset { name: name.to_string(), download_url: url.to_string() }
}

fn release() -> Release {
    Release {
        version: "v1.2".to_string(),
        assets: vec![
            asset("git-notes-lsp-x86_64-apple-darwin.tar.gz", "u1"),
            asset("git-notes-lsp-x86_64-unknown-linux-gnu.tar.gz", "u2"),
            asset("git-notes-lsp-x86_64-unknown-linux-gnu.tar.gz", "u3"),
        ],
    }
}

/// A launch after some events.
fn after(events: Vec<LaunchEvent>) -> LaunchStep {
    let mut step = begin_launch("git-notes-lsp");
    for event in events {
        step = resume_launch(step, event);
    }
    step
}

fn failure(step: LaunchStep) -> String {
    match step {
        LaunchStep::Done(Err(e)) => e,
        _ => panic!("no failure"),
    }
}

#[test]
fn only_our_server_is_started() {
    match begin_launch("git-notes-lsp") {
        LaunchStep::FindBinary { name } => assert_eq!(name, "git-notes-lsp"),
        _ => panic!("not looked for"),
    }
    assert_eq!(failure(begin_launch("other")), "Unknown language server: other");
}

#[test]
fn installed_servers_are_started() {
    match after(vec![LaunchEvent::Found(Some("/bin/x".to_string()))]) {
        LaunchStep::Done(Ok(server)) => {
            assert_eq!(server.command, "/bin/x");
            assert!(server.args.is_empty());
            assert!(server.shell_env);
        }
        _ => panic!("not done"),
    }
}

fn target(os: Os, arch: Architecture) -> String {
    match after(vec![LaunchEvent::Found(None), LaunchEvent::Platform(os, arch)]) {
        LaunchStep::FetchRelease { query, target } => {
            assert_eq!(query.repository, "kennyg/zed-git-notes");
            assert!(query.require_assets);
            assert!(!query.pre_release);
            target
        }
        step => failure(step),
    }
}

#[test]
fn platforms_have_targets() {
    assert_eq!(target(Os::Mac, Architecture::Aarch64), "aarch64-apple-darwin");
    assert_eq!(target(Os::Mac, Architecture::X8664), "x86_64-apple-darwin");
    assert_eq!(target(Os::Linux, Architecture::X8664), "x86_64-unknown-linux-gnu");
    assert_eq!(target(Os::Linux, Architecture::Aarch64), "aarch64-unknown-linux-gnu");
    assert_eq!(target(Os::Mac, Architecture::X86), "Unsupported platform");
    assert_eq!(target(Os::Linux, Architecture::X86), "Unsupported platform");
    assert_eq!(target(Os::Windows, Architecture::Aarch64), "Unsupported platform");
    assert_eq!(target(Os::Windows, Architecture::X86), "Unsupported platform");
    assert_eq!(target(Os::Windows, Architecture::X8664), "Unsupported platform");
}

fn fetched(os: Os, arch: Architecture, release: Result<Release, String>) -> LaunchStep {
    after(vec![
        LaunchEvent::Found(None),
        LaunchEvent::Platform(os, arch),
        LaunchEvent::Fetched(release),
    ])
}

#[test]
fn the_first_archive_for_the_target_is_downloaded() {
    let announced = match fetched(Os::Linux, Architecture::X8664, Ok(release())) {
        LaunchStep::Announce { server, download } => {
            assert_eq!(server, "git-notes-lsp");
            assert_eq!(download.url, "u2");
            LaunchStep::Announce { server, download }
        }
        _ => panic!("not announced"),
    };
    match resume_launch(announced, LaunchEvent::Announced) {
        LaunchStep::Fetch(download) => {
            assert_eq!(download.url, "u2");
            assert_eq!(download.dir, "git-notes-lsp-v1.2");
            assert!(matches!(download.file_type, FileType::GzipTar));
        }
        _ => panic!("no download"),
    }
    assert_eq!(
        failure(fetched(Os::Mac, Architecture::Aarch64, Ok(release()))),
        "No release asset for aarch64-apple-darwin"
    );
    assert_eq!(
        failure(fetched(Os::Linux, Architecture::X8664, Err("offline".to_string()))),
        "Failed to fetch release: offline"
    );
}

#[test]
fn the_downloaded_program_is_started() {
    let announced = || fetched(Os::Linux, Architecture::X8664, Ok(release()));
    let download = || resume_launch(announced(), LaunchEvent::Announced);
    assert_eq!(
        failure(resume_launch(download(), LaunchEvent::Unpacked(Err("x".to_string())))),
        "Failed to download: x"
    );
    let unpacked = || resume_launch(download(), LaunchEvent::Unpacked(Ok(())));
    match unpacked() {
        LaunchStep::MakeExecutable { path } => assert_eq!(path, "git-notes-lsp-v1.2/git-notes-lsp"),
        _ => panic!("not unpacked"),
    }
    assert_eq!(
        failure(resume_launch(unpacked(), LaunchEvent::Allowed(Err("y".to_string())))),
        "Failed to make executable: y"
    );
    match resume_launch(unpacked(), LaunchEvent::Allowed(Ok(()))) {
        LaunchStep::Done(Ok(server)) => {
            assert_eq!(server.command, "git-notes-lsp-v1.2/git-notes-lsp");
            assert!(server.args.is_empty());
            assert!(server.shell_env);
        }
        _ => panic!("not done"),
    }
}

#[test]
fn events_that_answer_nothing_change_nothing() {
    match after(vec![LaunchEvent::Allowed(Ok(())), LaunchEvent::Unpacked(Ok(()))]) {
        LaunchStep::FindBinary { name } => assert_eq!(name, "git-notes-lsp"),
        _ => panic!("not looked for any more"),
    }
}
