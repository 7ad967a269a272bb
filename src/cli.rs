//! The command line's settings and the checks made on them before a download.
use vstd::prelude::*;
use crate::engine::{Phase, TorrentEngine};

verus! {

/// The settings of a run.
#[derive(Debug)]
pub struct Arguments {
    /// Name or path of the .torrent file.
    pub file: String,
    /// How many peer sessions may be open at once.
    pub threads: usize,
    /// A pattern that selects the files to download.
    pub select: Option<String>,
    /// A pattern that excludes files from the download.
    pub exclude: Option<String>,
    /// The folder that receives the downloaded files.
    pub output: Option<String>,
}

/// Why a run cannot start.
#[derive(Debug, Clone, Copy, PartialEq, Eq, Structural)]
pub enum CliError {
    /// Nothing is at the torrent file's path.
    NoTorrentFile,
    /// The torrent file's path is a directory.
    IsDirectory,
}

impl CliError {
    pub fn message(&self) -> (r: &'static str)
        ensures
            *self == CliError::NoTorrentFile ==> r@ == "Torrent file doesn't exists"@,
            *self == CliError::IsDirectory ==> r@ == "Provided file is a directory"@,
    {
        match self {
            CliError::NoTorrentFile => "Torrent file doesn't exists",
            CliError::IsDirectory => "Provided file is a directory",
        }
    }
}

/// A run of the command line.
pub struct Cli {
    pub args: Arguments,
}

impl Cli {
    pub fn new(args: Arguments) -> (r: Self)
        ensures
            r.args == args,
    {
        Cli { args }
    }

    /// Whether the torrent file, of which the caller found whether something
    /// exists at its path and whether that is a file, can be read.
    pub fn check_file_existence(&self, exists: bool, is_file: bool) -> (r: Result<(), CliError>)
        ensures
            !exists ==> r == Err::<(), CliError>(CliError::NoTorrentFile),
            exists && !is_file ==> r == Err::<(), CliError>(CliError::IsDirectory),
            exists && is_file ==> r is Ok,
    {
        if !exists {
            return Err(CliError::NoTorrentFile);
        }
        if !is_file {
            return Err(CliError::IsDirectory);
        }
        Ok(())
    }

    /// Checks the torrent file and starts an engine that keeps at most
    /// `threads` peer sessions (at least one) connecting or open at once.
    pub fn process(&self, exists: bool, is_file: bool) -> (r: Result<TorrentEngine, CliError>)
        ensures
            !exists ==> (r matches Err(e) && e == CliError::NoTorrentFile),
            exists && !is_file ==> (r matches Err(e) && e == CliError::IsDirectory),
            exists && is_file ==> (r matches Ok(engine) && engine.wf() && engine.phase() == Phase::Idle
                && engine.max_sessions() == if self.args.threads == 0 { 1 } else { self.args.threads as int }),
    {
        self.check_file_existence(exists, is_file)?;
        Ok(TorrentEngine::start(self.args.threads))
    }
}

} // verus!
