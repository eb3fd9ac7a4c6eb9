//! Starting the language server in the editor: an installed one, or one that is downloaded first.
//!
//! [`begin_launch`] says what is to be done first, and [`resume_launch`] what is to be done next,
//! given what came of it. Whoever drives a launch does what it says.

use crate::git::opt_text;
use crate::text::{same_text, texts};
use crate::tools::result_text;
use vstd::prelude::*;
use vstd::string::*;

verus! {

/// The operating systems that the editor runs on.
pub enum Os {
    Mac,
    Linux,
    Windows,
}

/// The processors that the editor runs on.
pub enum Architecture {
    Aarch64,
    X86,
    X8664,
}

/// A file of a release.
pub struct Asset {
    pub name: String,
    pub download_url: String,
}

/// A release of the language server.
pub struct Release {
    pub version: String,
    pub assets: Vec<Asset>,
}

/// The mathematical reading of a [`Release`]: each asset is its name and where to get it.
pub struct ReleaseInfo {
    pub version: Seq<char>,
    pub assets: Seq<(Seq<char>, Seq<char>)>,
}

/// The mathematical reading of some assets.
pub open spec fn asset_texts(v: Seq<Asset>) -> Seq<(Seq<char>, Seq<char>)> {
    Seq::new(v.len(), |i: int| (v[i].name@, v[i].download_url@))
}

impl View for Release {
    type V = ReleaseInfo;

    open spec fn view(&self) -> ReleaseInfo {
        ReleaseInfo { version: self.version@, assets: asset_texts(self.assets@) }
    }
}

/// The forms in which a file can be downloaded.
pub enum FileType {
    Gzip,
    GzipTar,
    Zip,
    Uncompressed,
}

/// A file to download, where to put it, and the form that it comes in.
pub struct Download {
    pub url: String,
    pub dir: String,
    pub file_type: FileType,
}

/// The mathematical reading of a [`Download`].
pub struct DownloadTexts {
    pub url: Seq<char>,
    pub dir: Seq<char>,
    pub file_type: FileType,
}

impl View for Download {
    type V = DownloadTexts;

    open spec fn view(&self) -> DownloadTexts {
        DownloadTexts { url: self.url@, dir: self.dir@, file_type: self.file_type }
    }
}

/// Which release is wanted: the latest one of a repository, among those that have assets, where
/// that is required, and among previews too, where those will do.
pub struct ReleaseQuery {
    pub repository: String,
    pub require_assets: bool,
    pub pre_release: bool,
}

/// The mathematical reading of a [`ReleaseQuery`].
pub struct QueryTexts {
    pub repository: Seq<char>,
    pub require_assets: bool,
    pub pre_release: bool,
}

impl View for ReleaseQuery {
    type V = QueryTexts;

    open spec fn view(&self) -> QueryTexts {
        QueryTexts {
            repository: self.repository@,
            require_assets: self.require_assets,
            pre_release: self.pre_release,
        }
    }
}

/// How a language server is started: the program, its arguments, and whether it is given the
/// environment of the shell in the worktree.
pub struct ServerCommand {
    pub command: String,
    pub args: Vec<String>,
    pub shell_env: bool,
}

/// The mathematical reading of a [`ServerCommand`].
pub struct CommandTexts {
    pub command: Seq<char>,
    pub args: Seq<Seq<char>>,
    pub shell_env: bool,
}

impl View for ServerCommand {
    type V = CommandTexts;

    open spec fn view(&self) -> CommandTexts {
        CommandTexts {
            command: self.command@,
            args: texts(self.args@),
            shell_env: self.shell_env,
        }
    }
}

/// A program is started without arguments, in the environment of the shell.
pub open spec fn command_of(path: Seq<char>) -> CommandTexts {
    CommandTexts { command: path, args: Seq::empty(), shell_env: true }
}

/// The program of the language server, which is also what the editor calls it.
pub open spec fn server_name() -> Seq<char> {
    "git-notes-lsp"@
}

/// The program to look for, for the language server that the editor asks for.
pub open spec fn sought_binary(id: Seq<char>) -> Result<Seq<char>, Seq<char>> {
    if id == server_name() {
        Ok(server_name())
    } else {
        Err("Unknown language server: "@ + id)
    }
}

/// The platform, as releases name it.
pub open spec fn target_of(os: Os, arch: Architecture) -> Result<Seq<char>, Seq<char>> {
    match (os, arch) {
        (Os::Mac, Architecture::Aarch64) => Ok("aarch64-apple-darwin"@),
        (Os::Mac, Architecture::X8664) => Ok("x86_64-apple-darwin"@),
        (Os::Linux, Architecture::X8664) => Ok("x86_64-unknown-linux-gnu"@),
        (Os::Linux, Architecture::Aarch64) => Ok("aarch64-unknown-linux-gnu"@),
        _ => Err("Unsupported platform"@),
    }
}

/// The archive for a platform.
pub open spec fn asset_name(target: Seq<char>) -> Seq<char> {
    server_name() + "-"@ + target + ".tar.gz"@
}

/// Where to get the first asset of a name.
pub open spec fn asset_url(assets: Seq<(Seq<char>, Seq<char>)>, name: Seq<char>) -> Option<
    Seq<char>,
>
    decreases assets.len(),
{
    if assets.len() == 0 {
        None
    } else if assets[0].0 == name {
        Some(assets[0].1)
    } else {
        asset_url(assets.drop_first(), name)
    }
}

/// The directory for a version.
pub open spec fn version_dir(version: Seq<char>) -> Seq<char> {
    server_name() + "-"@ + version
}

/// What to download of the latest release.
pub open spec fn download_of(target: Seq<char>, release: Result<ReleaseInfo, Seq<char>>) -> Result<
    DownloadTexts,
    Seq<char>,
> {
    match release {
        Ok(info) => match asset_url(info.assets, asset_name(target)) {
            Some(url) => Ok(
                DownloadTexts {
                    url,
                    dir: version_dir(info.version),
                    file_type: FileType::GzipTar,
                },
            ),
            None => Err("No release asset for "@ + target),
        },
        Err(e) => Err("Failed to fetch release: "@ + e),
    }
}

/// The program in a directory that a release was unpacked into, once that is done.
pub open spec fn unpacked(dir: Seq<char>, downloaded: Result<(), Seq<char>>) -> Result<
    Seq<char>,
    Seq<char>,
> {
    match downloaded {
        Ok(_) => Ok(dir + "/"@ + server_name()),
        Err(e) => Err("Failed to download: "@ + e),
    }
}

/// The command that starts a program, once it may be run.
pub open spec fn runnable(path: Seq<char>, allowed: Result<(), Seq<char>>) -> Result<
    CommandTexts,
    Seq<char>,
> {
    match allowed {
        Ok(_) => Ok(command_of(path)),
        Err(e) => Err("Failed to make executable: "@ + e),
    }
}

/// The texts of a result that holds nothing where it succeeded.
pub open spec fn unit_text(r: Result<(), String>) -> Result<(), Seq<char>> {
    match r {
        Ok(u) => Ok(u),
        Err(e) => Err(e@),
    }
}

/// The mathematical reading of what came of asking for the latest release.
pub open spec fn release_info(r: Result<Release, String>) -> Result<ReleaseInfo, Seq<char>> {
    match r {
        Ok(release) => Ok(release@),
        Err(e) => Err(e@),
    }
}

/// The mathematical reading of what to download.
pub open spec fn download_texts(r: Result<Download, String>) -> Result<DownloadTexts, Seq<char>> {
    match r {
        Ok(d) => Ok(d@),
        Err(e) => Err(e@),
    }
}

/// The mathematical reading of what a launch came to.
pub open spec fn command_texts(r: Result<ServerCommand, String>) -> Result<
    CommandTexts,
    Seq<char>,
> {
    match r {
        Ok(c) => Ok(c@),
        Err(e) => Err(e@),
    }
}

/// Two texts, one behind the other.
fn joined(a: &str, b: &str) -> (r: String)
    ensures
        r@ == a@ + b@,
{
    let mut r = a.to_owned();
    r.append(b);
    r
}

/// The program to look for, for the language server that the editor asks for.
fn find_server(id: &str) -> (r: Result<String, String>)
    ensures
        result_text(r) == sought_binary(id@),
{
    if same_text(id, "git-notes-lsp") {
        Ok("git-notes-lsp".to_owned())
    } else {
        Err(joined("Unknown language server: ", id))
    }
}

/// The platform, as releases name it.
fn release_target(os: Os, arch: Architecture) -> (r: Result<String, String>)
    ensures
        result_text(r) == target_of(os, arch),
{
    match (os, arch) {
        (Os::Mac, Architecture::Aarch64) => Ok("aarch64-apple-darwin".to_owned()),
        (Os::Mac, Architecture::X8664) => Ok("x86_64-apple-darwin".to_owned()),
        (Os::Linux, Architecture::X8664) => Ok("x86_64-unknown-linux-gnu".to_owned()),
        (Os::Linux, Architecture::Aarch64) => Ok("aarch64-unknown-linux-gnu".to_owned()),
        _ => Err("Unsupported platform".to_owned()),
    }
}

/// Where to get the first asset of a name.
fn find_asset(assets: &Vec<Asset>, name: &str) -> (r: Option<String>)
    ensures
        match r {
            Some(url) => asset_url(asset_texts(assets@), name@) == Some(url@),
            None => asset_url(asset_texts(assets@), name@) is None,
        },
{
    let ghost all = asset_texts(assets@);
    let mut i: usize = 0;
    assert(all.skip(0) == all);
    while i < assets.len()
        invariant
            i <= assets@.len(),
            all == asset_texts(assets@),
            asset_url(all.skip(i as int), name@) == asset_url(all, name@),
        decreases assets@.len() - i,
    {
        assert(all.skip(i as int)[0] == all[i as int]);
        assert(all.skip(i as int).drop_first() == all.skip(i + 1));
        if same_text(assets[i].name.as_str(), name) {
            return Some(assets[i].download_url.as_str().to_owned());
        }
        i += 1;
    }
    None
}

/// What to download, given what came of asking for the latest release.
fn choose_download(target: &str, release: Result<Release, String>) -> (r: Result<
    Download,
    String,
>)
    ensures
        download_texts(r) == download_of(target@, release_info(release)),
{
    match release {
        Ok(release) => {
            let mut name = joined("git-notes-lsp", "-");
            name.append(target);
            name.append(".tar.gz");
            match find_asset(&release.assets, name.as_str()) {
                Some(url) => {
                    let mut dir = joined("git-notes-lsp", "-");
                    dir.append(release.version.as_str());
                    Ok(Download { url, dir, file_type: FileType::GzipTar })
                },
                None => Err(joined("No release asset for ", target)),
            }
        },
        Err(e) => Err(joined("Failed to fetch release: ", e.as_str())),
    }
}

/// The program to make executable, given what came of the download.
fn unpacked_server(dir: &str, downloaded: Result<(), String>) -> (r: Result<String, String>)
    ensures
        result_text(r) == unpacked(dir@, unit_text(downloaded)),
{
    match downloaded {
        Ok(_) => {
            let mut path = joined(dir, "/");
            path.append("git-notes-lsp");
            Ok(path)
        },
        Err(e) => Err(joined("Failed to download: ", e.as_str())),
    }
}

/// The command that starts a program.
fn command_for(path: String) -> (r: ServerCommand)
    ensures
        r@ == command_of(path@),
{
    let r = ServerCommand { command: path, args: Vec::new(), shell_env: true };
    assert(r@.args =~= Seq::<Seq<char>>::empty());
    r
}

/// The command that starts the downloaded program, given what came of making it executable.
fn server_command(path: String, allowed: Result<(), String>) -> (r: Result<ServerCommand, String>)
    ensures
        command_texts(r) == runnable(path@, unit_text(allowed)),
{
    match allowed {
        Ok(_) => Ok(command_for(path)),
        Err(e) => Err(joined("Failed to make executable: ", e.as_str())),
    }
}

/// What a launch asks for.
pub enum LaunchStep {
    /// The path of an installed program of this name.
    FindBinary { name: String },
    /// The platform that the editor runs on.
    AskPlatform,
    /// A release. What is wanted of it is the archive for the target.
    FetchRelease { query: ReleaseQuery, target: String },
    /// That the editor shows that the language server of this name is being downloaded, which is
    /// what comes next.
    Announce { server: String, download: Download },
    /// The download.
    Fetch(Download),
    /// That a file is made executable.
    MakeExecutable { path: String },
    /// Nothing more: this is the command, or why there is none.
    Done(Result<ServerCommand, String>),
}

/// The mathematical reading of a [`LaunchStep`].
pub enum Launch {
    FindBinary { name: Seq<char> },
    AskPlatform,
    FetchRelease { query: QueryTexts, target: Seq<char> },
    Announce { server: Seq<char>, download: DownloadTexts },
    Fetch(DownloadTexts),
    MakeExecutable { path: Seq<char> },
    Done(Result<CommandTexts, Seq<char>>),
}

impl View for LaunchStep {
    type V = Launch;

    open spec fn view(&self) -> Launch {
        match *self {
            LaunchStep::FindBinary { name } => Launch::FindBinary { name: name@ },
            LaunchStep::AskPlatform => Launch::AskPlatform,
            LaunchStep::FetchRelease { query, target } => Launch::FetchRelease {
                query: query@,
                target: target@,
            },
            LaunchStep::Announce { server, download } => Launch::Announce {
                server: server@,
                download: download@,
            },
            LaunchStep::Fetch(download) => Launch::Fetch(download@),
            LaunchStep::MakeExecutable { path } => Launch::MakeExecutable { path: path@ },
            LaunchStep::Done(r) => Launch::Done(command_texts(r)),
        }
    }
}

/// What came of a step.
pub enum LaunchEvent {
    Found(Option<String>),
    Platform(Os, Architecture),
    Fetched(Result<Release, String>),
    Announced,
    Unpacked(Result<(), String>),
    Allowed(Result<(), String>),
}

/// The mathematical reading of a [`LaunchEvent`].
pub enum Event {
    Found(Option<Seq<char>>),
    Platform(Os, Architecture),
    Fetched(Result<ReleaseInfo, Seq<char>>),
    Announced,
    Unpacked(Result<(), Seq<char>>),
    Allowed(Result<(), Seq<char>>),
}

impl View for LaunchEvent {
    type V = Event;

    open spec fn view(&self) -> Event {
        match *self {
            LaunchEvent::Found(path) => Event::Found(opt_text(path)),
            LaunchEvent::Platform(os, arch) => Event::Platform(os, arch),
            LaunchEvent::Fetched(r) => Event::Fetched(release_info(r)),
            LaunchEvent::Announced => Event::Announced,
            LaunchEvent::Unpacked(r) => Event::Unpacked(unit_text(r)),
            LaunchEvent::Allowed(r) => Event::Allowed(unit_text(r)),
        }
    }
}

/// The release that the language server is taken from.
pub open spec fn wanted_release() -> QueryTexts {
    QueryTexts {
        repository: "kennyg/zed-git-notes"@,
        require_assets: true,
        pre_release: false,
    }
}

/// The first step of a launch.
pub open spec fn first_launch(id: Seq<char>) -> Launch {
    match sought_binary(id) {
        Ok(name) => Launch::FindBinary { name },
        Err(e) => Launch::Done(Err(e)),
    }
}

/// The step after one, given what came of it. A step that the event does not answer stays.
pub open spec fn next_launch(step: Launch, event: Event) -> Launch {
    match (step, event) {
        (Launch::FindBinary { .. }, Event::Found(Some(path))) => Launch::Done(
            Ok(command_of(path)),
        ),
        (Launch::FindBinary { .. }, Event::Found(None)) => Launch::AskPlatform,
        (Launch::AskPlatform, Event::Platform(os, arch)) => match target_of(os, arch) {
            Ok(target) => Launch::FetchRelease { query: wanted_release(), target },
            Err(e) => Launch::Done(Err(e)),
        },
        (Launch::FetchRelease { target, .. }, Event::Fetched(r)) => match download_of(target, r) {
            Ok(download) => Launch::Announce { server: server_name(), download },
            Err(e) => Launch::Done(Err(e)),
        },
        (Launch::Announce { download, .. }, Event::Announced) => Launch::Fetch(download),
        (Launch::Fetch(download), Event::Unpacked(r)) => match unpacked(download.dir, r) {
            Ok(path) => Launch::MakeExecutable { path },
            Err(e) => Launch::Done(Err(e)),
        },
        (Launch::MakeExecutable { path }, Event::Allowed(r)) => Launch::Done(runnable(path, r)),
        _ => step,
    }
}

/// The first step of a launch.
pub fn begin_launch(id: &str) -> (r: LaunchStep)
    ensures
        r@ == first_launch(id@),
{
    match find_server(id) {
        Ok(name) => LaunchStep::FindBinary { name },
        Err(e) => LaunchStep::Done(Err(e)),
    }
}

/// The step after one, given what came of it. A step that the event does not answer stays.
pub fn resume_launch(step: LaunchStep, event: LaunchEvent) -> (r: LaunchStep)
    ensures
        r@ == next_launch(step@, event@),
{
    match (step, event) {
        (LaunchStep::FindBinary { .. }, LaunchEvent::Found(Some(path))) => LaunchStep::Done(
            Ok(command_for(path)),
        ),
        (LaunchStep::FindBinary { .. }, LaunchEvent::Found(None)) => LaunchStep::AskPlatform,
        (LaunchStep::AskPlatform, LaunchEvent::Platform(os, arch)) => match release_target(
            os,
            arch,
        ) {
            Ok(target) => LaunchStep::FetchRelease {
                query: ReleaseQuery {
                    repository: "kennyg/zed-git-notes".to_owned(),
                    require_assets: true,
                    pre_release: false,
                },
                target,
            },
            Err(e) => LaunchStep::Done(Err(e)),
        },
        (
            LaunchStep::FetchRelease { target, .. },
            LaunchEvent::Fetched(release),
        ) => match choose_download(target.as_str(), release) {
            Ok(download) => LaunchStep::Announce { server: "git-notes-lsp".to_owned(), download },
            Err(e) => LaunchStep::Done(Err(e)),
        },
        (LaunchStep::Announce { download, .. }, LaunchEvent::Announced) => LaunchStep::Fetch(
            download,
        ),
        (LaunchStep::Fetch(download), LaunchEvent::Unpacked(r)) => match unpacked_server(
            download.dir.as_str(),
            r,
        ) {
            Ok(path) => LaunchStep::MakeExecutable { path },
            Err(e) => LaunchStep::Done(Err(e)),
        },
        (LaunchStep::MakeExecutable { path }, LaunchEvent::Allowed(r)) => LaunchStep::Done(
            server_command(path, r),
        ),
        (step, _) => step,
    }
}

/// What the editor finds, step by step.
pub struct Surroundings {
    /// The installed program of a name.
    pub installed: spec_fn(Seq<char>) -> Option<Seq<char>>,
    pub os: Os,
    pub arch: Architecture,
    /// What comes of asking for a release.
    pub release: spec_fn(QueryTexts) -> Result<ReleaseInfo, Seq<char>>,
    /// What comes of a download.
    pub downloaded: spec_fn(DownloadTexts) -> Result<(), Seq<char>>,
    /// What comes of making a file executable.
    pub allowed: spec_fn(Seq<char>) -> Result<(), Seq<char>>,
}

/// The command that starts a language server: the steps one after the other.
pub open spec fn launched(id: Seq<char>, s: Surroundings) -> Result<CommandTexts, Seq<char>> {
    match sought_binary(id) {
        Ok(binary) => match (s.installed)(binary) {
            Some(path) => Ok(command_of(path)),
            None => match target_of(s.os, s.arch) {
                Ok(target) => match download_of(target, (s.release)(wanted_release())) {
                    Ok(download) => match unpacked(download.dir, (s.downloaded)(download)) {
                        Ok(path) => runnable(path, (s.allowed)(path)),
                        Err(e) => Err(e),
                    },
                    Err(e) => Err(e),
                },
                Err(e) => Err(e),
            },
        },
        Err(e) => Err(e),
    }
}

/// What came of a step, where the editor finds these surroundings.
pub open spec fn answered(step: Launch, s: Surroundings) -> Event {
    match step {
        Launch::FindBinary { name } => Event::Found((s.installed)(name)),
        Launch::AskPlatform => Event::Platform(s.os, s.arch),
        Launch::FetchRelease { query, .. } => Event::Fetched((s.release)(query)),
        Launch::Announce { .. } => Event::Announced,
        Launch::Fetch(download) => Event::Unpacked((s.downloaded)(download)),
        Launch::MakeExecutable { path } => Event::Allowed((s.allowed)(path)),
        Launch::Done(_) => Event::Announced,
    }
}

/// Where a launch is after this many steps more.
pub open spec fn launch_after(step: Launch, s: Surroundings, steps: nat) -> Launch
    decreases steps,
{
    if steps == 0 {
        step
    } else {
        launch_after(next_launch(step, answered(step, s)), s, (steps - 1) as nat)
    }
}

/// A launch ends after at most six steps, with the command that `launched` tells of.
pub proof fn law_launches_end(id: Seq<char>, s: Surroundings)
    ensures
        launch_after(first_launch(id), s, 6) == Launch::Done(launched(id, s)),
{
    reveal_with_fuel(launch_after, 7);
}

/// Nothing is downloaded but right after the editor has been told so.
pub proof fn law_downloads_are_announced(step: Launch, event: Event)
    requires
        !(step is Fetch),
        next_launch(step, event) is Fetch,
    ensures
        event is Announced,
        step == (Launch::Announce {
            server: step->server,
            download: next_launch(step, event)->Fetch_0,
        }),
{
}

/// No other language server is started.
pub proof fn law_other_servers_are_refused(id: Seq<char>, s: Surroundings)
    requires
        id != server_name(),
    ensures
        launched(id, s) == Err::<CommandTexts, Seq<char>>("Unknown language server: "@ + id),
{
}

/// An installed program is started as it is, on every platform and whatever releases there are.
pub proof fn law_installed_servers_are_started(s: Surroundings)
    requires
        (s.installed)(server_name()) is Some,
    ensures
        launched(server_name(), s) == Ok::<CommandTexts, Seq<char>>(
            command_of((s.installed)(server_name())->Some_0),
        ),
{
}

/// Where no program is installed, one is started if and only if the platform is supported, there
/// is a release with the archive for it, and that can be unpacked and run. It is then the program
/// in the directory for the version.
pub proof fn law_released_servers_are_started(s: Surroundings)
    requires
        (s.installed)(server_name()) is None,
    ensures
        match (target_of(s.os, s.arch), (s.release)(wanted_release())) {
            (Ok(target), Ok(info)) => match asset_url(info.assets, asset_name(target)) {
                Some(url) => {
                    let dir = version_dir(info.version);
                    let path = dir + "/"@ + server_name();
                    let download = DownloadTexts { url, dir, file_type: FileType::GzipTar };
                    if (s.downloaded)(download) is Ok && (s.allowed)(path) is Ok {
                        launched(server_name(), s) == Ok::<CommandTexts, Seq<char>>(
                            command_of(path),
                        )
                    } else {
                        launched(server_name(), s) is Err
                    }
                },
                None => launched(server_name(), s) is Err,
            },
            _ => launched(server_name(), s) is Err,
        },
{
}

/// Whether asset `i` is the first of this name.
pub open spec fn is_first_asset(
    assets: Seq<(Seq<char>, Seq<char>)>,
    name: Seq<char>,
    i: int,
) -> bool {
    &&& 0 <= i < assets.len()
    &&& assets[i].0 == name
    &&& forall|k: int| 0 <= k < i ==> (#[trigger] assets[k]).0 != name
}

/// The first asset of a name is taken, as it is; where there is none of the name, none is.
pub proof fn law_the_first_asset_is_taken(
    assets: Seq<(Seq<char>, Seq<char>)>,
    name: Seq<char>,
    i: int,
)
    ensures
        is_first_asset(assets, name, i) ==> asset_url(assets, name) == Some(assets[i].1),
        (forall|k: int| 0 <= k < assets.len() ==> (#[trigger] assets[k]).0 != name) ==> asset_url(
            assets,
            name,
        ) is None,
    decreases assets.len(),
{
    if assets.len() > 0 {
        let rest = assets.drop_first();
        law_the_first_asset_is_taken(rest, name, i - 1);
        assert(forall|k: int| 0 <= k < rest.len() ==> #[trigger] rest[k] == assets[k + 1]);
        if is_first_asset(assets, name, i) && i > 0 {
            assert(assets[0].0 != name);
            assert forall|k: int| 0 <= k < i - 1 implies (#[trigger] rest[k]).0 != name by {
                assert(assets[k + 1].0 != name);
            }
            assert(is_first_asset(rest, name, i - 1));
        }
        if forall|k: int| 0 <= k < assets.len() ==> (#[trigger] assets[k]).0 != name {
            assert(assets[0].0 != name);
            assert forall|k: int| 0 <= k < rest.len() implies (#[trigger] rest[k]).0 != name by {
                assert(assets[k + 1].0 != name);
            }
        }
    }
}

/// The launch, step by step, where nothing is installed: on a Mac or on Linux the latest release
/// with assets that is no preview is asked for, and the archive for the platform in it is announced,
/// unpacked into the directory for the version, and the program in it made executable and started.
pub proof fn law_launches_go_step_by_step(
    target: Seq<char>,
    version: Seq<char>,
    assets: Seq<(Seq<char>, Seq<char>)>,
    i: int,
)
    requires
        is_first_asset(assets, "git-notes-lsp"@ + seq!['-'] + target + ".tar.gz"@, i),
    ensures
        first_launch("git-notes-lsp"@) == (Launch::FindBinary { name: "git-notes-lsp"@ }),
        next_launch((Launch::FindBinary { name: "git-notes-lsp"@ }), Event::Found(None))
            == Launch::AskPlatform,
        next_launch(
            (Launch::FetchRelease {
                query: (QueryTexts {
                    repository: "kennyg/zed-git-notes"@,
                    require_assets: true,
                    pre_release: false,
                }),
                target,
            }),
            Event::Fetched(Ok((ReleaseInfo { version, assets }))),
        ) == (Launch::Announce {
            server: "git-notes-lsp"@,
            download: (DownloadTexts {
                url: assets[i].1,
                dir: "git-notes-lsp"@ + seq!['-'] + version,
                file_type: FileType::GzipTar,
            }),
        }),
        forall|download: DownloadTexts, server: Seq<char>|
            #[trigger] next_launch((Launch::Announce { server, download }), Event::Announced)
                == Launch::Fetch(download),
        forall|download: DownloadTexts|
            #[trigger] next_launch(Launch::Fetch(download), Event::Unpacked(Ok(())))
                == (Launch::MakeExecutable {
                path: download.dir + seq!['/'] + "git-notes-lsp"@,
            }),
        forall|path: Seq<char>|
            #[trigger] next_launch((Launch::MakeExecutable { path }), Event::Allowed(Ok(())))
                == Launch::Done(
                Ok(
                    (CommandTexts {
                        command: path,
                        args: Seq::<Seq<char>>::empty(),
                        shell_env: true,
                    }),
                ),
            ),
        forall|path: Seq<char>, name: Seq<char>|
            #[trigger] next_launch((Launch::FindBinary { name }), Event::Found(Some(path)))
                == Launch::Done(
                Ok(
                    (CommandTexts {
                        command: path,
                        args: Seq::<Seq<char>>::empty(),
                        shell_env: true,
                    }),
                ),
            ),
{
    reveal_strlit("-");
    reveal_strlit("/");
    assert("-"@ == seq!['-']);
    assert("/"@ == seq!['/']);
    law_the_first_asset_is_taken(
        assets,
        "git-notes-lsp"@ + seq!['-'] + target + ".tar.gz"@,
        i,
    );
}

/// The platforms that there are archives for.
pub proof fn law_platforms_have_targets(os: Os, arch: Architecture)
    ensures
        next_launch(Launch::AskPlatform, Event::Platform(os, arch)) == if (os is Mac || os is Linux)
            && !(arch is X86) {
            Launch::FetchRelease {
                query: (QueryTexts {
                    repository: "kennyg/zed-git-notes"@,
                    require_assets: true,
                    pre_release: false,
                }),
                target: (if arch is Aarch64 {
                    "aarch64-"@
                } else {
                    "x86_64-"@
                }) + (if os is Mac {
                    "apple-darwin"@
                } else {
                    "unknown-linux-gnu"@
                }),
            }
        } else {
            Launch::Done(Err("Unsupported platform"@))
        },
{
    reveal_strlit("aarch64-");
    reveal_strlit("x86_64-");
    reveal_strlit("apple-darwin");
    reveal_strlit("unknown-linux-gnu");
    reveal_strlit("aarch64-apple-darwin");
    reveal_strlit("x86_64-apple-darwin");
    reveal_strlit("x86_64-unknown-linux-gnu");
    reveal_strlit("aarch64-unknown-linux-gnu");
    assert("aarch64-"@ + "apple-darwin"@ =~= "aarch64-apple-darwin"@);
    assert("x86_64-"@ + "apple-darwin"@ =~= "x86_64-apple-darwin"@);
    assert("x86_64-"@ + "unknown-linux-gnu"@ =~= "x86_64-unknown-linux-gnu"@);
    assert("aarch64-"@ + "unknown-linux-gnu"@ =~= "aarch64-unknown-linux-gnu"@);
}

/// Where a step fails, the launch ends and says which step it was and what the editor said.
pub proof fn law_launch_failures_are_told(
    e: Seq<char>,
    target: Seq<char>,
    query: QueryTexts,
    download: DownloadTexts,
    path: Seq<char>,
    info: ReleaseInfo,
)
    ensures
        next_launch((Launch::FetchRelease { query, target }), Event::Fetched(Err(e)))
            == Launch::Done(Err("Failed to fetch release: "@ + e)),
        next_launch(Launch::Fetch(download), Event::Unpacked(Err(e))) == Launch::Done(
            Err("Failed to download: "@ + e),
        ),
        next_launch((Launch::MakeExecutable { path }), Event::Allowed(Err(e))) == Launch::Done(
            Err("Failed to make executable: "@ + e),
        ),
        (forall|k: int|
            0 <= k < info.assets.len() ==> (#[trigger] info.assets[k]).0 != "git-notes-lsp"@
                + seq!['-'] + target + ".tar.gz"@) ==> next_launch(
            (Launch::FetchRelease { query, target }),
            Event::Fetched(Ok(info)),
        ) == Launch::Done(Err("No release asset for "@ + target)),
        e != "git-notes-lsp"@ ==> first_launch(e) == Launch::Done(
            Err("Unknown language server: "@ + e),
        ),
{
    reveal_strlit("-");
    assert("-"@ == seq!['-']);
    law_the_first_asset_is_taken(
        info.assets,
        "git-notes-lsp"@ + seq!['-'] + target + ".tar.gz"@,
        0,
    );
}

/// Whether an event is what a step of a launch waits for.
pub open spec fn is_awaited(step: Launch, event: Event) -> bool {
    ||| step is FindBinary && event is Found
    ||| step is AskPlatform && event is Platform
    ||| step is FetchRelease && event is Fetched
    ||| step is Announce && event is Announced
    ||| step is Fetch && event is Unpacked
    ||| step is MakeExecutable && event is Allowed
}

/// A launch goes on with what it waits for, and stands still at anything else.
pub proof fn law_launches_wait(step: Launch, event: Event)
    ensures
        is_awaited(step, event) ==> next_launch(step, event) != step,
        !is_awaited(step, event) ==> next_launch(step, event) == step,
{
}

} // verus!
