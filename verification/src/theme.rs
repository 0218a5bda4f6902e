use vstd::prelude::*;

verus! {

/// The colours of the design, by the names it gives them.
#[derive(Clone, Copy, Debug, PartialEq, Eq, Structural)]
pub enum ThemeColor {
    EdgeUncommitted,
    EdgeNeutral,
    EdgeAgainstMain,
    RunMetaLive,
    RunMetaEnded,
    FilenameSeen,
    FilenameUnseen,
    TextFaint,
    TextFainter,
    TextDim,
    TextGhost,
    TextGhoster,
    TextHeading,
    TextSecondary,
    TextStrong,
    StatusAsk,
    StatusFail,
    TreeAdded,
    TreeModified,
    SelectedEdge,
    RowSelected,
    DropTarget,
    IndentGuide,
    ButtonGreen,
    ButtonGreenText,
    ButtonBorder,
    ToggleOn,
    ChipNeutral,
    Transparent,
}

} // verus!
