//! Revision preconditions for conditional requests.
//!
//! Dates are carried as the formatted text that goes into the conditional
//! headers; building the actual headers is the transport layer's job.

use vstd::prelude::*;

verus! {

/// The preconditions attached to a conditional request: revision IDs,
/// dates and entity tags, for both the modified and unmodified sides.
#[derive(Debug, Clone, PartialEq)]
pub struct RevisionMatch {
    pub modified_since_revisions: Vec<u64>,
    pub modified_since_date: Option<String>,
    pub unmodified_since_revisions: Vec<u64>,
    pub unmodified_since_date: Option<String>,
    pub if_match: Vec<String>,
    pub if_none_match: Vec<String>,
}

impl RevisionMatch {
    /// Returns the modified-since revision IDs.
    pub fn modified_since_revisions(&self) -> (r: &Vec<u64>)
        ensures
            r == &self.modified_since_revisions,
    {
        &self.modified_since_revisions
    }

    /// Sets the modified-since revision IDs.
    pub fn set_modified_since_revisions(&mut self, modified_since_revisions: Vec<u64>)
        ensures
            final(self).modified_since_revisions == modified_since_revisions,
            final(self).modified_since_date == old(self).modified_since_date,
            final(self).unmodified_since_revisions == old(self).unmodified_since_revisions,
            final(self).unmodified_since_date == old(self).unmodified_since_date,
            final(self).if_match == old(self).if_match,
            final(self).if_none_match == old(self).if_none_match,
    {
        self.modified_since_revisions = modified_since_revisions;
    }

    /// Returns the modified-since date.
    pub fn modified_since_date(&self) -> (r: &Option<String>)
        ensures
            r == &self.modified_since_date,
    {
        &self.modified_since_date
    }

    /// Sets the modified-since date.
    pub fn set_modified_since_date(&mut self, modified_since_date: Option<String>)
        ensures
            final(self).modified_since_date == modified_since_date,
            final(self).modified_since_revisions == old(self).modified_since_revisions,
            final(self).unmodified_since_revisions == old(self).unmodified_since_revisions,
            final(self).unmodified_since_date == old(self).unmodified_since_date,
            final(self).if_match == old(self).if_match,
            final(self).if_none_match == old(self).if_none_match,
    {
        self.modified_since_date = modified_since_date;
    }

    /// Returns the unmodified-since revision IDs.
    pub fn unmodified_since_revisions(&self) -> (r: &Vec<u64>)
        ensures
            r == &self.unmodified_since_revisions,
    {
        &self.unmodified_since_revisions
    }

    /// Sets the unmodified-since revision IDs.
    pub fn set_unmodified_since_revisions(&mut self, unmodified_since_revisions: Vec<u64>)
        ensures
            final(self).unmodified_since_revisions == unmodified_since_revisions,
            final(self).modified_since_revisions == old(self).modified_since_revisions,
            final(self).modified_since_date == old(self).modified_since_date,
            final(self).unmodified_since_date == old(self).unmodified_since_date,
            final(self).if_match == old(self).if_match,
            final(self).if_none_match == old(self).if_none_match,
    {
        self.unmodified_since_revisions = unmodified_since_revisions;
    }

    /// Returns the unmodified-since date.
    pub fn unmodified_since_date(&self) -> (r: &Option<String>)
        ensures
            r == &self.unmodified_since_date,
    {
        &self.unmodified_since_date
    }

    /// Sets the unmodified-since date.
    pub fn set_unmodified_since_date(&mut self, unmodified_since_date: Option<String>)
        ensures
            final(self).unmodified_since_date == unmodified_since_date,
            final(self).modified_since_revisions == old(self).modified_since_revisions,
            final(self).modified_since_date == old(self).modified_since_date,
            final(self).unmodified_since_revisions == old(self).unmodified_since_revisions,
            final(self).if_match == old(self).if_match,
            final(self).if_none_match == old(self).if_none_match,
    {
        self.unmodified_since_date = unmodified_since_date;
    }

    /// Returns the if-match entity tags.
    pub fn if_match(&self) -> (r: &Vec<String>)
        ensures
            r == &self.if_match,
    {
        &self.if_match
    }

    /// Sets the if-match entity tags.
    pub fn set_if_match(&mut self, if_match: Vec<String>)
        ensures
            final(self).if_match == if_match,
            final(self).modified_since_revisions == old(self).modified_since_revisions,
            final(self).modified_since_date == old(self).modified_since_date,
            final(self).unmodified_since_revisions == old(self).unmodified_since_revisions,
            final(self).unmodified_since_date == old(self).unmodified_since_date,
            final(self).if_none_match == old(self).if_none_match,
    {
        self.if_match = if_match;
    }

    /// Returns the if-none-match entity tags.
    pub fn if_none_match(&self) -> (r: &Vec<String>)
        ensures
            r == &self.if_none_match,
    {
        &self.if_none_match
    }

    /// Sets the if-none-match entity tags.
    pub fn set_if_none_match(&mut self, if_none_match: Vec<String>)
        ensures
            final(self).if_none_match == if_none_match,
            final(self).modified_since_revisions == old(self).modified_since_revisions,
            final(self).modified_since_date == old(self).modified_since_date,
            final(self).unmodified_since_revisions == old(self).unmodified_since_revisions,
            final(self).unmodified_since_date == old(self).unmodified_since_date,
            final(self).if_match == old(self).if_match,
    {
        self.if_none_match = if_none_match;
    }
}

impl Default for RevisionMatch {
    /// The default precondition set is empty.
    fn default() -> (r: RevisionMatch)
        ensures
            r.modified_since_revisions@.len() == 0,
            r.modified_since_date is None,
            r.unmodified_since_revisions@.len() == 0,
            r.unmodified_since_date is None,
            r.if_match@.len() == 0,
            r.if_none_match@.len() == 0,
    {
        RevisionMatch {
            modified_since_revisions: Vec::new(),
            modified_since_date: None,
            unmodified_since_revisions: Vec::new(),
            unmodified_since_date: None,
            if_match: Vec::new(),
            if_none_match: Vec::new(),
        }
    }
}

} // verus!
