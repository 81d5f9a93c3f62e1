//! The control logic of a casting bridge for Orion Drift overlays: the round
//! bookkeeping, the decisions taken on polls, overlay queries and operator
//! input, and the text (URLs, labels, file names) that the bridge sends out.
pub mod state;
pub mod round_map;
pub mod rounds;
pub mod text;
pub mod endpoints;
pub mod logos;
pub mod modal;
pub mod odc;
pub mod session;
pub mod overlay;
pub mod appdata;
pub mod widgets;
