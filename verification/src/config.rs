//! Run-time configuration of the reconciliation run.

use vstd::prelude::*;

use crate::text::str_eq;

verus! {

/// Settings that govern one apply/sync run.
#[derive(Debug)]
pub struct Config {
    /// Whether `SaveChanges` may issue remove calls at all.
    pub allow_removing_songs: bool,
    /// Suffix appended to the names of playlists this tool creates; playlists
    /// whose name carries it are skipped during artist-query gathering.
    pub mixstack_suffix: String,
    /// Whether created playlists get a description listing their contributors.
    pub write_description: bool,
}

/// True iff `s` is the literal text `true` or `false`.
pub open spec fn spec_is_bool_text(s: Seq<char>) -> bool {
    s == "true"@ || s == "false"@
}

/// Parses the literal text `true` or `false`; anything else is rejected.
pub fn parse_bool_setting(raw: &str) -> (r: Option<bool>)
    ensures
        r == Some(true) <==> raw@ == "true"@,
        r == Some(false) <==> raw@ == "false"@,
        r is None <==> !spec_is_bool_text(raw@),
{
    proof {
        reveal_strlit("true");
        reveal_strlit("false");
        assert("true"@.len() == 4);
        assert("false"@.len() == 5);
    }
    if str_eq(raw, "true") {
        Some(true)
    } else if str_eq(raw, "false") {
        Some(false)
    } else {
        None
    }
}

} // verus!
