//! The decisions of a launch: which modloaders are accepted, and which
//! version description the requested game version resolves to.

use vstd::prelude::*;

use crate::options::{LaunchOptions, ModLoader};
use crate::plan::{is_path_join, join_path};
use crate::version::{
    find_version_url, has_version, is_first_with_id, VersionJson, VersionManifestV2,
};

verus! {

/// Handle to a launched game process.
#[derive(Debug)]
pub struct LaunchHandle {
    _private: (),
}

impl LaunchHandle {
    /// The handle of a game process that was started and has exited.
    pub fn finished() -> LaunchHandle {
        LaunchHandle { _private: () }
    }
}

/// An error that stops a launch, carrying its message.
#[derive(Debug)]
pub struct LaunchError {
    message: String,
}

impl View for LaunchError {
    type V = Seq<char>;

    closed spec fn view(&self) -> Seq<char> {
        self.message@
    }
}

impl LaunchError {
    /// An error with the message `msg`.
    pub fn new(msg: String) -> (e: LaunchError)
        ensures
            e@ == msg@,
    {
        LaunchError { message: msg }
    }

    /// The message of this error, as it is displayed.
    pub fn message(&self) -> (m: &str)
        ensures
            m@ == self@,
    {
        self.message.as_str()
    }
}

/// The message given when a modloader other than Vanilla is requested.
pub open spec fn unsupported_modloader_message() -> Seq<char> {
    "Only Vanilla Minecraft is supported currently. Use ModLoader::Vanilla. Fabric, Forge, and Quilt support coming soon."@
}

/// Accepts Vanilla and refuses every other modloader with its message.
pub fn check_modloader(modloader: &ModLoader) -> (r: Result<(), LaunchError>)
    ensures
        r is Ok <==> modloader is Vanilla,
        r matches Err(e) ==> e@ == unsupported_modloader_message(),
{
    match modloader {
        ModLoader::Vanilla => Ok(()),
        _ => Err(
            LaunchError::new(
                "Only Vanilla Minecraft is supported currently. Use ModLoader::Vanilla. Fabric, Forge, and Quilt support coming soon.".to_owned(),
            ),
        ),
    }
}

/// The message given when the manifest lists no version `game_version`.
pub open spec fn version_not_found_message(game_version: Seq<char>) -> Seq<char> {
    "Game version '"@ + game_version + "' not found in manifest"@
}

/// The description URL of `game_version` in `manifest`, or the launch error
/// that names the missing version.
pub fn resolve_version_url(manifest: &VersionManifestV2, game_version: &str) -> (r: Result<
    String,
    LaunchError,
>)
    ensures
        r is Ok <==> has_version(manifest.versions@, game_version@),
        r matches Ok(url) ==> (exists|i: int|
            is_first_with_id(manifest.versions@, game_version@, i) && url@
                == manifest.versions@[i].url@),
        r matches Err(e) ==> e@ == version_not_found_message(game_version@),
{
    match find_version_url(manifest, game_version) {
        Some(url) => Ok(url),
        None => {
            let mut m = "Game version '".to_owned();
            m.append(game_version);
            m.append("' not found in manifest");
            Err(LaunchError::new(m))
        },
    }
}

/// What the launcher last learned: that the launch begins, or the outcome of
/// the outside work that the previous step asked for.
#[derive(Debug)]
pub enum LaunchEvent {
    Begin,
    ManifestFetched(Result<VersionManifestV2, String>),
    VersionFetched(Result<VersionJson, String>),
    /// The user's data directory for the launcher, found for this version.
    DataDirLocated(VersionJson, String),
    GameExited(Result<(), String>),
}

/// What the launcher does next.
#[derive(Debug)]
pub enum LaunchAction {
    /// Fetch the version manifest.
    FetchManifest,
    /// Fetch the version description at this URL.
    FetchVersion(String),
    /// Find the user's data directory for the launcher, for this version.
    LocateDataDir(VersionJson),
    /// Prepare the files of this version in this game directory, start the
    /// game and wait for it.
    RunGame { version: VersionJson, game_dir: String },
    /// Stop with this outcome.
    Finish(Result<LaunchHandle, LaunchError>),
}

/// Decides the next step of launching `options` from the last event: refuse
/// other modloaders before any work, fetch the manifest, resolve the
/// requested version, fetch its description, run the game in the instance
/// directory or else in `game` under the user's data directory, and stop with
/// the first error met, its message unchanged.
pub fn launch_step(options: &LaunchOptions, event: LaunchEvent) -> (action: LaunchAction)
    ensures
        match event {
            LaunchEvent::Begin => if options.modloader is Vanilla {
                action is FetchManifest
            } else {
                action matches LaunchAction::Finish(Err(e)) && e@ == unsupported_modloader_message()
            },
            LaunchEvent::ManifestFetched(Err(m)) => action matches LaunchAction::Finish(Err(e))
                && e@ == m@,
            LaunchEvent::ManifestFetched(Ok(manifest)) => if has_version(
                manifest.versions@,
                options.game_version@,
            ) {
                action matches LaunchAction::FetchVersion(url) && exists|i: int|
                    is_first_with_id(manifest.versions@, options.game_version@, i) && url@
                        == manifest.versions@[i].url@
            } else {
                action matches LaunchAction::Finish(Err(e)) && e@ == version_not_found_message(
                    options.game_version@,
                )
            },
            LaunchEvent::VersionFetched(Err(m)) => action matches LaunchAction::Finish(Err(e))
                && e@ == m@,
            LaunchEvent::VersionFetched(Ok(v)) => match options.instance_dir {
                Some(dir) => action == (LaunchAction::RunGame { version: v, game_dir: dir }),
                None => action == LaunchAction::LocateDataDir(v),
            },
            LaunchEvent::DataDirLocated(v, data_dir) => action matches LaunchAction::RunGame {
                version,
                game_dir,
            } && version == v && is_path_join(data_dir@, "game"@, game_dir@),
            LaunchEvent::GameExited(Err(m)) => action matches LaunchAction::Finish(Err(e)) && e@
                == m@,
            LaunchEvent::GameExited(Ok(())) => action matches LaunchAction::Finish(Ok(_)),
        },
{
    match event {
        LaunchEvent::Begin => match check_modloader(&options.modloader) {
            Ok(()) => LaunchAction::FetchManifest,
            Err(e) => LaunchAction::Finish(Err(e)),
        },
        LaunchEvent::ManifestFetched(Err(m)) => LaunchAction::Finish(Err(LaunchError::new(m))),
        LaunchEvent::ManifestFetched(Ok(manifest)) => match resolve_version_url(
            &manifest,
            options.game_version.as_str(),
        ) {
            Ok(url) => LaunchAction::FetchVersion(url),
            Err(e) => LaunchAction::Finish(Err(e)),
        },
        LaunchEvent::VersionFetched(Err(m)) => LaunchAction::Finish(Err(LaunchError::new(m))),
        LaunchEvent::VersionFetched(Ok(v)) => match &options.instance_dir {
            Some(dir) => LaunchAction::RunGame { version: v, game_dir: dir.clone() },
            None => LaunchAction::LocateDataDir(v),
        },
        LaunchEvent::DataDirLocated(v, data_dir) => {
            let game_dir = join_path(data_dir.as_str(), "game");
            LaunchAction::RunGame { version: v, game_dir }
        },
        LaunchEvent::GameExited(Err(m)) => LaunchAction::Finish(Err(LaunchError::new(m))),
        LaunchEvent::GameExited(Ok(())) => LaunchAction::Finish(Ok(LaunchHandle::finished())),
    }
}

} // verus!
