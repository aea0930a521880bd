use vstd::prelude::*;

use crate::playout::FatalError;
use crate::text::same_text;

verus! {

/// Where the schedule comes from.
#[derive(Clone, Copy, Debug, PartialEq, Eq, Structural)]
pub enum SourceMode {
    /// Every media file of a folder, in turn.
    Folder,
    /// A timed playlist.
    Playlist,
}

/// Where the encoder sends its output.
#[derive(Clone, Copy, Debug, PartialEq, Eq, Structural)]
pub enum OutputMode {
    /// A preview window on the desktop.
    Desktop,
    /// A network stream.
    Stream,
}

/// The configured source mode, by name.
pub fn source_mode(name: &str) -> (r: Result<SourceMode, FatalError>)
    ensures
        r == (if name@ == "folder"@ {
            Ok::<SourceMode, FatalError>(SourceMode::Folder)
        } else if name@ == "playlist"@ {
            Ok(SourceMode::Playlist)
        } else {
            Err(FatalError::UnknownSourceMode)
        }),
{
    if same_text(name, "folder") {
        Ok(SourceMode::Folder)
    } else if same_text(name, "playlist") {
        Ok(SourceMode::Playlist)
    } else {
        Err(FatalError::UnknownSourceMode)
    }
}

/// The configured output mode, by name.
pub fn output_mode(name: &str) -> (r: Result<OutputMode, FatalError>)
    ensures
        r == (if name@ == "desktop"@ {
            Ok::<OutputMode, FatalError>(OutputMode::Desktop)
        } else if name@ == "stream"@ {
            Ok(OutputMode::Stream)
        } else {
            Err(FatalError::UnknownOutputMode)
        }),
{
    if same_text(name, "desktop") {
        Ok(OutputMode::Desktop)
    } else if same_text(name, "stream") {
        Ok(OutputMode::Stream)
    } else {
        Err(FatalError::UnknownOutputMode)
    }
}

} // verus!
