//! Where the exporter delivers to.

use vstd::prelude::*;

verus! {

/// The destination of the exported events.
#[derive(Debug)]
pub enum ExporterMode {
    /// The Loki server at `url`.
    Loki { url: String },
    /// Two files in the directory `dir`, which take at most `size_limit` bytes together.
    File { dir: String, size_limit: usize },
    /// None: the events are taken from the channel and go nowhere.
    Disabled,
}

/// Why no destination could be chosen.
#[derive(Clone, Copy, Debug, PartialEq, Eq, Structural)]
pub enum ModeError {
    /// Files are to be written, and no directory is given.
    MissingEventsDir,
    /// Files are to be written, and no size limit is given.
    MissingDirSizeLimit,
}

/// What is reported of a [`ModeError`].
pub open spec fn mode_error_text(error: ModeError) -> Seq<char> {
    match error {
        ModeError::MissingEventsDir => "--events-dir is required when --loki-enabled is false"@,
        ModeError::MissingDirSizeLimit =>
            "--dir-size-limit is required when --loki-enabled is false"@,
    }
}

impl ModeError {
    /// What is reported of the error.
    pub fn message(&self) -> (message: &'static str)
        ensures
            message@ == mode_error_text(*self),
    {
        match self {
            ModeError::MissingEventsDir => "--events-dir is required when --loki-enabled is false",
            ModeError::MissingDirSizeLimit =>
                "--dir-size-limit is required when --loki-enabled is false",
        }
    }
}

impl ExporterMode {
    /// The destination's name in the log.
    pub fn destination(&self) -> (name: &'static str)
        ensures
            name@ == (match self {
                ExporterMode::Loki { .. } => "loki"@,
                ExporterMode::File { .. } => "file"@,
                ExporterMode::Disabled => "disabled"@,
            }),
    {
        match self {
            ExporterMode::Loki { .. } => "loki",
            ExporterMode::File { .. } => "file",
            ExporterMode::Disabled => "disabled",
        }
    }
}

/// Chooses the destination from the command line: with Loki enabled nothing is written to disk;
/// otherwise the directory and its size limit are both needed, and a missing directory is reported
/// first.
pub fn select_mode(
    loki_enabled: bool,
    events_dir: Option<String>,
    dir_size_limit: Option<usize>,
) -> (mode: Result<ExporterMode, ModeError>)
    ensures
        mode == (if loki_enabled {
            Ok::<ExporterMode, ModeError>(ExporterMode::Disabled)
        } else if events_dir is None {
            Err(ModeError::MissingEventsDir)
        } else if dir_size_limit is None {
            Err(ModeError::MissingDirSizeLimit)
        } else {
            Ok(
                ExporterMode::File {
                    dir: events_dir->Some_0,
                    size_limit: dir_size_limit->Some_0,
                },
            )
        }),
{
    if loki_enabled {
        Ok(ExporterMode::Disabled)
    } else {
        match events_dir {
            Some(dir) => match dir_size_limit {
                Some(size_limit) => Ok(ExporterMode::File { dir, size_limit }),
                None => Err(ModeError::MissingDirSizeLimit),
            },
            None => Err(ModeError::MissingEventsDir),
        }
    }
}

} // verus!
