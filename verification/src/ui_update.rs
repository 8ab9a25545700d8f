//! What an operation produces for the screen: plain values, built on a worker
//! thread and applied back on the event loop. `None` keeps the current value
//! of a property.
use vstd::prelude::*;

verus! {

/// One row of the catalog, in plain strings.
#[derive(Debug, Clone, PartialEq, Eq)]
pub struct RowData {
    pub title: String,
    pub game_id: String,
    pub media: String,
    pub size: String,
    /// Raw file name of the image, shown in the metadata editor (the title
    /// may be derived or overridden).
    pub file_name: String,
}

/// Screen updates produced by an operation.
#[derive(Debug, Clone, PartialEq, Eq)]
pub struct UiUpdate {
    pub status: Option<String>,
    /// New server state (configuration applied?), for the toggle button.
    pub active: Option<bool>,
    /// Summary line of the catalog (count and size).
    pub summary: Option<String>,
    /// Rows of the catalog.
    pub rows: Option<Vec<RowData>>,
    /// New target folder (filled by the folder picker).
    pub dir: Option<String>,
    /// Hint about the target folder: text, and whether it is a warning.
    pub hint: Option<(String, bool)>,
    pub message: String,
}

impl Default for UiUpdate {
    fn default() -> (r: Self)
        ensures
            r.status is None,
            r.active is None,
            r.summary is None,
            r.rows is None,
            r.dir is None,
            r.hint is None,
            r.message@ == Seq::<char>::empty(),
    {
        UiUpdate {
            status: None,
            active: None,
            summary: None,
            rows: None,
            dir: None,
            hint: None,
            message: String::new(),
        }
    }
}

impl UiUpdate {
    /// Only a message (an error, say); status and catalog stay as they are.
    pub fn message(msg: String) -> (r: Self)
        ensures
            r.message == msg,
            r.status is None,
            r.active is None,
            r.summary is None,
            r.rows is None,
            r.dir is None,
            r.hint is None,
    {
        UiUpdate {
            status: None,
            active: None,
            summary: None,
            rows: None,
            dir: None,
            hint: None,
            message: msg,
        }
    }
}

} // verus!
