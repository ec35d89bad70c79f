//! A live view of a JSON document as a flat table of strings: flattening and
//! change detection, text layout into bounded terminal cells, and the state
//! that a viewer's event loop carries from one iteration to the next.

pub mod flatten;
pub mod json;
pub mod layout;
pub mod picker;
pub mod scroll;
pub mod snapshot;
pub mod table;
pub mod text;
pub mod viewer;
