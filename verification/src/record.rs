//! The repository record: one unit of work and result. It is created at
//! discovery and enriched stage by stage inside one worker task (status,
//! diff, ahead check, behind check); the collector consumes it once.

use vstd::prelude::*;
use crate::interpret::{ahead_marker, ahead_pattern, behind_marker, behind_pattern, bracketed,
    contains_bracketed};

verus! {

/// One discovered repository and its synchronization state.
#[derive(Debug, Clone)]
pub struct Gsr {
    /// Path of the repository root, as bytes.
    pub pb: Vec<u8>,
    /// True if the working tree has uncommitted changes.
    pub df: bool,
    /// Captured raw status text; absent until the status query ran, or if it
    /// captured nothing.
    pub st: Option<Vec<u8>>,
    /// True if the local branch has commits missing on the remote.
    pub ahead: bool,
    /// True if the remote has commits missing on the local branch.
    pub behind: bool,
}

/// The ahead flag the interpreter assigns, given the record's status text:
/// absent text leaves the flag as it was.
pub open spec fn ahead_of(g: Gsr) -> bool {
    match g.st {
        Some(out) => bracketed(out@, ahead_marker()),
        None => g.ahead,
    }
}

/// The behind flag the interpreter assigns, given the record's status text.
pub open spec fn behind_of(g: Gsr) -> bool {
    match g.st {
        Some(out) => bracketed(out@, behind_marker()),
        None => g.behind,
    }
}

impl Gsr {
    /// A fresh record for a newly discovered repository: no flag set, no
    /// status text captured.
    pub fn new(p: Vec<u8>) -> (g: Gsr)
        ensures
            g.pb == p,
            g.df == false,
            g.st is None,
            g.ahead == false,
            g.behind == false,
    {
        Gsr { pb: p, df: false, st: None, ahead: false, behind: false }
    }

    /// Records the captured output of the status query, leaving every other
    /// field as it was.
    pub fn status(self, out: Option<Vec<u8>>) -> (g: Gsr)
        ensures
            g.pb == self.pb,
            g.df == self.df,
            g.st == out,
            g.ahead == self.ahead,
            g.behind == self.behind,
    {
        Gsr { st: out, ..self }
    }

    /// Records the outcome of the quiet working-tree comparison: a clean
    /// comparison means not dirty, anything else means dirty.
    pub fn diff(self, clean: bool) -> (g: Gsr)
        ensures
            g.pb == self.pb,
            g.df == !clean,
            g.st == self.st,
            g.ahead == self.ahead,
            g.behind == self.behind,
    {
        Gsr { df: !clean, ..self }
    }

    /// Sets the ahead flag from the captured status text: true exactly when
    /// a line holds `ahead` inside a bracketed tracking annotation. Absent
    /// text leaves the record untouched.
    pub fn is_ahead(self) -> (g: Gsr)
        ensures
            g.pb == self.pb,
            g.df == self.df,
            g.st == self.st,
            g.ahead == ahead_of(self),
            g.behind == self.behind,
    {
        let a = match &self.st {
            Some(out) => contains_bracketed(out, &ahead_pattern()),
            None => self.ahead,
        };
        Gsr { ahead: a, ..self }
    }

    /// Sets the behind flag from the captured status text: true exactly when
    /// a line holds `behind` inside a bracketed tracking annotation. Absent
    /// text leaves the record untouched.
    pub fn is_behind(self) -> (g: Gsr)
        ensures
            g.pb == self.pb,
            g.df == self.df,
            g.st == self.st,
            g.ahead == self.ahead,
            g.behind == behind_of(self),
    {
        let b = match &self.st {
            Some(out) => contains_bracketed(out, &behind_pattern()),
            None => self.behind,
        };
        Gsr { behind: b, ..self }
    }

    /// One whole worker task after its external calls: record the status
    /// text and the comparison outcome, then interpret both flags, in the
    /// fixed stage order status, diff, ahead check, behind check.
    pub fn process(self, out: Option<Vec<u8>>, clean: bool) -> (g: Gsr)
        ensures
            g.pb == self.pb,
            g.df == !clean,
            g.st == out,
            g.ahead == (match g.st {
                Some(o) => bracketed(o@, ahead_marker()),
                None => self.ahead,
            }),
            g.behind == (match g.st {
                Some(o) => bracketed(o@, behind_marker()),
                None => self.behind,
            }),
    {
        self.status(out).diff(clean).is_ahead().is_behind()
    }
}

} // verus!
