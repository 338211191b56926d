//! Reading the run configuration from its raw textual settings.

use vstd::prelude::*;

use crate::config::{parse_bool_setting, spec_is_bool_text, Config};
use crate::errors::Error;

verus! {

/// Builds the configuration from the raw setting texts: the two boolean
/// settings take exactly `true` or `false`; anything else is rejected with
/// the setting's key and the offending text.
pub fn parse_config(
    allow_removing_songs: &str,
    mixstack_suffix: String,
    write_description: &str,
) -> (r: Result<Config, Error>)
    ensures
        r matches Ok(c) ==> {
            &&& spec_is_bool_text(allow_removing_songs@)
            &&& spec_is_bool_text(write_description@)
            &&& c.allow_removing_songs == (allow_removing_songs@ == "true"@)
            &&& c.write_description == (write_description@ == "true"@)
            &&& c.mixstack_suffix == mixstack_suffix
        },
        !spec_is_bool_text(allow_removing_songs@) ==> (r matches Err(e)
            && (e matches Error::InvalidSetting { key, raw } && key@ == "ALLOW_REMOVING_SONGS"@
            && raw@ == allow_removing_songs@)),
        spec_is_bool_text(allow_removing_songs@) && !spec_is_bool_text(write_description@) ==> (
        r matches Err(e) && (e matches Error::InvalidSetting { key, raw } && key@
            == "CREATE_PLAYLIST_DESCRIPTION"@ && raw@ == write_description@)),
        (r is Ok) == (spec_is_bool_text(allow_removing_songs@) && spec_is_bool_text(
            write_description@,
        )),
{
    let allow = match parse_bool_setting(allow_removing_songs) {
        Some(b) => b,
        None => {
            return Err(
                Error::InvalidSetting {
                    key: "ALLOW_REMOVING_SONGS".to_owned(),
                    raw: allow_removing_songs.to_owned(),
                },
            );
        },
    };
    let write = match parse_bool_setting(write_description) {
        Some(b) => b,
        None => {
            return Err(
                Error::InvalidSetting {
                    key: "CREATE_PLAYLIST_DESCRIPTION".to_owned(),
                    raw: write_description.to_owned(),
                },
            );
        },
    };
    Ok(Config { allow_removing_songs: allow, mixstack_suffix, write_description: write })
}

} // verus!
