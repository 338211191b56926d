//! Snapshot selection: which of the listed snapshot files a run works on,
//! and the texts a fresh snapshot starts from. Listing and reading the files
//! themselves stays with the caller.

use vstd::prelude::*;

use vstd::string::StringExecFns;

use crate::errors::Error;

verus! {

/// Picks the one snapshot content with the wanted suffix from the listed
/// candidates: none found and more than one found are both hard errors,
/// since the run cannot know which file was meant.
pub fn read_snapshot_file(contents: Vec<String>, suffix: &str) -> (r: Result<String, Error>)
    ensures
        contents@.len() == 1 ==> r == Ok::<String, Error>(contents@[0]),
        contents@.len() == 0 ==> (r matches Err(e) && (e matches Error::NoSnapshotFile {
            suffix: s,
        } && s@ == suffix@)),
        contents@.len() > 1 ==> (r matches Err(e) && (e matches Error::AmbiguousSnapshotFile {
            suffix: s,
        } && s@ == suffix@)),
{
    let mut contents = contents;
    if contents.len() == 0 {
        Err(Error::NoSnapshotFile { suffix: suffix.to_owned() })
    } else if contents.len() > 1 {
        Err(Error::AmbiguousSnapshotFile { suffix: suffix.to_owned() })
    } else {
        match contents.pop() {
            Some(c) => Ok(c),
            None => Err(Error::NoSnapshotFile { suffix: suffix.to_owned() }),
        }
    }
}

/// The header a snapshot copied from an applied one carries, above the
/// copied content.
pub fn snapshot_with_header(name: &str, created_at: &str, content: &str) -> (r: String)
    ensures
        r@ == "// Name: "@ + name@ + "\n// Created at: "@ + created_at@
            + "\n// -------------------------------\n"@ + content@,
{
    let mut out = String::new();
    out.append("// Name: ");
    out.append(name);
    out.append("\n// Created at: ");
    out.append(created_at);
    out.append("\n// -------------------------------\n");
    out.append(content);
    out
}

/// The example graph a first snapshot starts from.
pub fn default_snapshot(name: &str, created_at: &str) -> (r: String)
    ensures
        r@ == "// Name: "@ + name@ + "\n// Created at: "@ + created_at@ + "\n\n"@
            + "digraph G {\n"@
            + "    Chill_lofi [URL=\"https://open.spotify.com/playlist/44xuOOjdOcWDeVsIthiEUG\"];\n"@
            + "    More_Lofi [URL=\"https://open.spotify.com/playlist/6wrY4pcN1Q1yQV8fmmf4Dk\"];\n"@
            + "    Lofi [label=\"all Lofi songs\"];\n\n"@ + "    Chill_lofi -> Lofi;\n"@
            + "    More_Lofi -> Lofi;\n"@ + "    New_Lofi_that_might_not_be_good -> Test;\n"@
            + "    Lofi -> Test;\n}\n"@,
{
    let mut out = String::new();
    out.append("// Name: ");
    out.append(name);
    out.append("\n// Created at: ");
    out.append(created_at);
    out.append("\n\n");
    out.append("digraph G {\n");
    out.append("    Chill_lofi [URL=\"https://open.spotify.com/playlist/44xuOOjdOcWDeVsIthiEUG\"];\n");
    out.append("    More_Lofi [URL=\"https://open.spotify.com/playlist/6wrY4pcN1Q1yQV8fmmf4Dk\"];\n");
    out.append("    Lofi [label=\"all Lofi songs\"];\n\n");
    out.append("    Chill_lofi -> Lofi;\n");
    out.append("    More_Lofi -> Lofi;\n");
    out.append("    New_Lofi_that_might_not_be_good -> Test;\n");
    out.append("    Lofi -> Test;\n}\n");
    out
}

} // verus!
