use vstd::prelude::*;

verus! {

/// How the engine segments a page into text.
#[allow(non_camel_case_types)]
#[derive(Debug, Clone, Copy, PartialEq, Eq, Structural)]
pub enum TessPageSegMode {
    /// Orientation and script detection only.
    PSM_OSD_ONLY,
    /// Automatic segmentation with orientation and script detection.
    PSM_AUTO_OSD,
    /// Automatic segmentation, without detection or recognition.
    PSM_AUTO_ONLY,
    /// Fully automatic segmentation, without orientation and script detection.
    PSM_AUTO,
    /// A single column of text of variable sizes.
    PSM_SINGLE_COLUMN,
    /// A single uniform block of vertically aligned text.
    PSM_SINGLE_BLOCK_VERT_TEXT,
    /// A single uniform block of text.
    PSM_SINGLE_BLOCK,
    /// A single text line.
    PSM_SINGLE_LINE,
    /// A single word.
    PSM_SINGLE_WORD,
    /// A single word in a circle.
    PSM_CIRCLE_WORD,
    /// A single character.
    PSM_SINGLE_CHAR,
    /// As much text as possible, in no particular order.
    PSM_SPARSE_TEXT,
    /// Sparse text with orientation and script detection.
    PSM_SPARSE_TEXT_OSD,
    /// A single text line, bypassing engine-specific hacks.
    PSM_RAW_LINE,
    /// The number of modes.
    PSM_COUNT,
}

/// The code the engine uses for a mode.
pub open spec fn mode_code(mode: TessPageSegMode) -> i32 {
    match mode {
        TessPageSegMode::PSM_OSD_ONLY => 0,
        TessPageSegMode::PSM_AUTO_OSD => 1,
        TessPageSegMode::PSM_AUTO_ONLY => 2,
        TessPageSegMode::PSM_AUTO => 3,
        TessPageSegMode::PSM_SINGLE_COLUMN => 4,
        TessPageSegMode::PSM_SINGLE_BLOCK_VERT_TEXT => 5,
        TessPageSegMode::PSM_SINGLE_BLOCK => 6,
        TessPageSegMode::PSM_SINGLE_LINE => 7,
        TessPageSegMode::PSM_SINGLE_WORD => 8,
        TessPageSegMode::PSM_CIRCLE_WORD => 9,
        TessPageSegMode::PSM_SINGLE_CHAR => 10,
        TessPageSegMode::PSM_SPARSE_TEXT => 11,
        TessPageSegMode::PSM_SPARSE_TEXT_OSD => 12,
        TessPageSegMode::PSM_RAW_LINE => 13,
        TessPageSegMode::PSM_COUNT => 14,
    }
}

/// Distinct modes have distinct codes, all between 0 and 14.
pub proof fn lemma_mode_codes(a: TessPageSegMode, b: TessPageSegMode)
    ensures
        0 <= mode_code(a) <= 14,
        mode_code(a) == mode_code(b) ==> a == b,
{
}

impl TessPageSegMode {
    /// The code the engine uses for this mode.
    pub fn code(&self) -> (r: i32)
        ensures
            r == mode_code(*self),
    {
        match self {
            TessPageSegMode::PSM_OSD_ONLY => 0,
            TessPageSegMode::PSM_AUTO_OSD => 1,
            TessPageSegMode::PSM_AUTO_ONLY => 2,
            TessPageSegMode::PSM_AUTO => 3,
            TessPageSegMode::PSM_SINGLE_COLUMN => 4,
            TessPageSegMode::PSM_SINGLE_BLOCK_VERT_TEXT => 5,
            TessPageSegMode::PSM_SINGLE_BLOCK => 6,
            TessPageSegMode::PSM_SINGLE_LINE => 7,
            TessPageSegMode::PSM_SINGLE_WORD => 8,
            TessPageSegMode::PSM_CIRCLE_WORD => 9,
            TessPageSegMode::PSM_SINGLE_CHAR => 10,
            TessPageSegMode::PSM_SPARSE_TEXT => 11,
            TessPageSegMode::PSM_SPARSE_TEXT_OSD => 12,
            TessPageSegMode::PSM_RAW_LINE => 13,
            TessPageSegMode::PSM_COUNT => 14,
        }
    }

    /// The mode the engine means by `code`, if it means one.
    pub fn from_code(code: i32) -> (r: Option<Self>)
        ensures
            r is Some <==> 0 <= code <= 14,
            r is Some ==> mode_code(r->Some_0) == code,
    {
        match code {
            0 => Some(TessPageSegMode::PSM_OSD_ONLY),
            1 => Some(TessPageSegMode::PSM_AUTO_OSD),
            2 => Some(TessPageSegMode::PSM_AUTO_ONLY),
            3 => Some(TessPageSegMode::PSM_AUTO),
            4 => Some(TessPageSegMode::PSM_SINGLE_COLUMN),
            5 => Some(TessPageSegMode::PSM_SINGLE_BLOCK_VERT_TEXT),
            6 => Some(TessPageSegMode::PSM_SINGLE_BLOCK),
            7 => Some(TessPageSegMode::PSM_SINGLE_LINE),
            8 => Some(TessPageSegMode::PSM_SINGLE_WORD),
            9 => Some(TessPageSegMode::PSM_CIRCLE_WORD),
            10 => Some(TessPageSegMode::PSM_SINGLE_CHAR),
            11 => Some(TessPageSegMode::PSM_SPARSE_TEXT),
            12 => Some(TessPageSegMode::PSM_SPARSE_TEXT_OSD),
            13 => Some(TessPageSegMode::PSM_RAW_LINE),
            14 => Some(TessPageSegMode::PSM_COUNT),
            _ => None,
        }
    }
}

} // verus!
