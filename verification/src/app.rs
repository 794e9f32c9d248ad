//! The editor's plain state: what the surrounding user interface reads and
//! writes between frames.

use vstd::prelude::*;

use crate::hex_pattern::{HexCoord, HexPattern};

verus! {

/// What happened to the node the pointer last touched while drawing.
#[derive(PartialEq, Eq, Structural, Clone, Copy, Debug)]
pub enum LastNodeState {
    Added,
    Neutral,
    Removed,
}

/// The editor's state: the notation text and its canonical rendering, the
/// pattern being drawn, and the drawing bookkeeping.
#[derive(PartialEq, Debug)]
pub struct HexeditApp {
    pub show_canonical: bool,
    pub are_drawing: bool,
    pub pattern_text: String,
    pub canonical_text: String,
    pub drawing_pattern: Option<HexPattern>,
    pub start_draw_node: Option<HexCoord>,
    pub last_draw_node: Option<HexCoord>,
    pub last_node_status: LastNodeState,
}

impl Default for HexeditApp {
    /// The state a fresh editor starts from: not drawing, nothing drawn,
    /// and a sample pattern in the text box.
    fn default() -> (app: HexeditApp)
        ensures
            !app.show_canonical,
            !app.are_drawing,
            app.pattern_text@ == "HexPattern(aqweqad, NORTH_WEST)"@,
            app.canonical_text@ == Seq::<char>::empty(),
            (app.drawing_pattern is None),
            (app.start_draw_node is None),
            (app.last_draw_node is None),
            app.last_node_status == LastNodeState::Added,
    {
        HexeditApp {
            show_canonical: false,
            are_drawing: false,
            pattern_text: String::from_str("HexPattern(aqweqad, NORTH_WEST)"),
            canonical_text: String::new(),
            drawing_pattern: None,
            start_draw_node: None,
            last_draw_node: None,
            last_node_status: LastNodeState::Added,
        }
    }
}

} // verus!
