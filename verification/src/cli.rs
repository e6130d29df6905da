//! The output formats the command line can ask for. Flag parsing itself
//! happens outside; the library only knows the closed set of formats.

use vstd::prelude::*;
use crate::strutil::str_eq;

verus! {

/// How the run's result is presented.
#[derive(Debug, Clone, Copy, PartialEq, Eq, Structural)]
pub enum OutputFormat {
    Table,
    Json,
}

impl OutputFormat {
    /// Parses a format name, as the command line spells it.
    pub fn from_name(s: &str) -> (r: Option<OutputFormat>)
        ensures
            s@ == "table"@ ==> r == Some(OutputFormat::Table),
            s@ == "json"@ ==> r == Some(OutputFormat::Json),
            (s@ != "table"@ && s@ != "json"@) ==> r is None,
    {
        proof {
            reveal_strlit("table");
            reveal_strlit("json");
            assert("table"@.len() == 5 && "json"@.len() == 4);
        }
        if str_eq(s, "table") {
            Some(OutputFormat::Table)
        } else if str_eq(s, "json") {
            Some(OutputFormat::Json)
        } else {
            None
        }
    }
}

} // verus!
