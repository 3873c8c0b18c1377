//! Statement ranks.

use vstd::prelude::*;
use crate::error::RestApiError;
use crate::json::str_eq;
use crate::language_string::{lower_ascii, spec_lower_all};

verus! {

/// The rank of a statement.
#[derive(Debug, Clone, Copy, PartialEq, Eq, Structural, Default)]
pub enum StatementRank {
    #[default]
    Normal,
    Preferred,
    Deprecated,
}

/// The wire name of a rank.
pub open spec fn spec_rank_str(r: StatementRank) -> Seq<char> {
    match r {
        StatementRank::Normal => "normal"@,
        StatementRank::Preferred => "preferred"@,
        StatementRank::Deprecated => "deprecated"@,
    }
}

/// The rank names are already lower case, so lowercasing them changes
/// nothing.
pub proof fn lemma_rank_str_lower(r: StatementRank)
    ensures
        spec_lower_all(spec_rank_str(r)) == spec_rank_str(r),
{
    reveal_strlit("normal");
    reveal_strlit("preferred");
    reveal_strlit("deprecated");
    match r {
        StatementRank::Normal => {
            assert(spec_lower_all("normal"@) =~= "normal"@) by {
                assert("normal"@.len() == 6);
                assert(spec_lower_all("normal"@)[0] == 'n');
                assert(spec_lower_all("normal"@)[1] == 'o');
                assert(spec_lower_all("normal"@)[2] == 'r');
                assert(spec_lower_all("normal"@)[3] == 'm');
                assert(spec_lower_all("normal"@)[4] == 'a');
                assert(spec_lower_all("normal"@)[5] == 'l');
            }
        },
        StatementRank::Preferred => {
            assert(spec_lower_all("preferred"@) =~= "preferred"@) by {
                assert("preferred"@.len() == 9);
                assert(spec_lower_all("preferred"@)[0] == 'p');
                assert(spec_lower_all("preferred"@)[1] == 'r');
                assert(spec_lower_all("preferred"@)[2] == 'e');
                assert(spec_lower_all("preferred"@)[3] == 'f');
                assert(spec_lower_all("preferred"@)[4] == 'e');
                assert(spec_lower_all("preferred"@)[5] == 'r');
                assert(spec_lower_all("preferred"@)[6] == 'r');
                assert(spec_lower_all("preferred"@)[7] == 'e');
                assert(spec_lower_all("preferred"@)[8] == 'd');
            }
        },
        StatementRank::Deprecated => {
            assert(spec_lower_all("deprecated"@) =~= "deprecated"@) by {
                assert("deprecated"@.len() == 10);
                assert(spec_lower_all("deprecated"@)[0] == 'd');
                assert(spec_lower_all("deprecated"@)[1] == 'e');
                assert(spec_lower_all("deprecated"@)[2] == 'p');
                assert(spec_lower_all("deprecated"@)[3] == 'r');
                assert(spec_lower_all("deprecated"@)[4] == 'e');
                assert(spec_lower_all("deprecated"@)[5] == 'c');
                assert(spec_lower_all("deprecated"@)[6] == 'a');
                assert(spec_lower_all("deprecated"@)[7] == 't');
                assert(spec_lower_all("deprecated"@)[8] == 'e');
                assert(spec_lower_all("deprecated"@)[9] == 'd');
            }
        },
    }
}

/// Two ranks with the same wire name are the same rank.
pub proof fn lemma_rank_str_injective(a: StatementRank, b: StatementRank)
    requires
        spec_rank_str(a) == spec_rank_str(b),
    ensures
        a == b,
{
    reveal_strlit("normal");
    reveal_strlit("preferred");
    reveal_strlit("deprecated");
    assert("normal"@.len() == 6);
    assert("preferred"@.len() == 9);
    assert("deprecated"@.len() == 10);
}

impl StatementRank {
    /// Parses a rank name, case-insensitively over ASCII; an unknown name
    /// is rejected.
    pub fn new(s: &str) -> (r: Result<StatementRank, RestApiError>)
        ensures
            match r {
                Ok(rank) => spec_lower_all(s@) == spec_rank_str(rank),
                Err(e) => spec_lower_all(s@) != "normal"@ && spec_lower_all(s@) != "preferred"@
                    && spec_lower_all(s@) != "deprecated"@ && (e matches
                RestApiError::UnknownStatementRank(t) && t@ == spec_lower_all(s@)),
            },
    {
        let lowered = lower_ascii(s);
        if str_eq(lowered.as_str(), "normal") {
            Ok(StatementRank::Normal)
        } else if str_eq(lowered.as_str(), "preferred") {
            Ok(StatementRank::Preferred)
        } else if str_eq(lowered.as_str(), "deprecated") {
            Ok(StatementRank::Deprecated)
        } else {
            Err(RestApiError::UnknownStatementRank(lowered))
        }
    }

    /// Returns the wire name of the rank.
    pub fn as_str(&self) -> (r: &'static str)
        ensures
            r@ == spec_rank_str(*self),
    {
        match self {
            StatementRank::Normal => "normal",
            StatementRank::Preferred => "preferred",
            StatementRank::Deprecated => "deprecated",
        }
    }
}

} // verus!
