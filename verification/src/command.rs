//! The commands of the tool, as plain data.

use vstd::prelude::*;

verus! {

/// `std::path::PathBuf`, an owned file-system path. The library carries paths
/// from the command to whoever opens the files and never looks inside one.
#[verifier::external_type_specification]
#[verifier::external_body]
pub struct ExPathBuf(std::path::PathBuf);

/// What the tool can be asked to do.
#[derive(Debug)]
pub enum Commands {
    /// Pad a spritesheet by a given amount of pixels.
    Pad {
        /// Width of a sprite frame.
        width: u32,
        /// Height of a sprite frame.
        height: u32,
        /// Amount of padding to add between sprites.
        padding: u32,
        /// Path to the spritesheet to pad.
        sheet_path: std::path::PathBuf,
        /// Where to write the padded sheet; the default name is derived from
        /// the sheet's name, the frame size and the padding.
        output_path: Option<std::path::PathBuf>,
    },
}

} // verus!
