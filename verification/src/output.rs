//! Output format selection for the listing commands.

use vstd::prelude::*;
use crate::errors::TwinError;
use crate::text;

verus! {

/// The lowercase form of an ASCII letter; other characters are unchanged.
pub open spec fn lower_char(c: char) -> char {
    if 65 <= c as u32 <= 90 {
        ((c as u32 + 32) as u8) as char
    } else {
        c
    }
}

/// The string with every ASCII letter lowercased.
pub open spec fn spec_lower(s: Seq<char>) -> Seq<char> {
    s.map_values(|c: char| lower_char(c))
}

/// Whether `a`, lowercased, equals `b`.
fn lower_eq(a: &str, b: &str) -> (r: bool)
    ensures
        r == (spec_lower(a@) == b@),
{
    let al = a.unicode_len();
    let bl = b.unicode_len();
    if al != bl {
        proof {
            assert(spec_lower(a@).len() == a@.len());
        }
        return false;
    }
    let mut i: usize = 0;
    while i < al
        invariant
            0 <= i <= al == a@.len() == b@.len(),
            forall|j: int| 0 <= j < i ==> lower_char(a@[j]) == b@[j],
        decreases al - i,
    {
        let ch = a.get_char(i);
        let c = ch as u32;
        let low = if 65 <= c && c <= 90 {
            ((c + 32) as u8) as char
        } else {
            ch
        };
        proof {
            assert(low == lower_char(a@[i as int]));
        }
        if low != b.get_char(i) {
            proof {
                assert(spec_lower(a@)[i as int] == lower_char(a@[i as int]));
            }
            return false;
        }
        i += 1;
    }
    proof {
        assert forall|j: int| 0 <= j < a@.len() implies #[trigger] spec_lower(a@)[j]
            == b@[j] by {
            assert(spec_lower(a@)[j] == lower_char(a@[j]));
        }
        assert(spec_lower(a@) =~= b@);
    }
    true
}

/// How a listing is rendered.
#[derive(Debug, Clone, PartialEq, Eq, Structural)]
pub enum OutputFormat {
    /// A human-readable table.
    Table,
    /// A machine-readable document.
    Json,
    /// One branch per line.
    Simple,
}

impl OutputFormat {
    /// The format named by a string, case-insensitively: `table`, `json` or
    /// `simple`; any other name is an invalid argument.
    pub fn from_str(s: &str) -> (r: Result<OutputFormat, TwinError>)
        ensures
            spec_lower(s@) == "table"@ ==> (r matches Ok(f) && f == OutputFormat::Table),
            spec_lower(s@) == "json"@ ==> (r matches Ok(f) && f == OutputFormat::Json),
            spec_lower(s@) == "simple"@ ==> (r matches Ok(f) && f == OutputFormat::Simple),
            (spec_lower(s@) != "table"@ && spec_lower(s@) != "json"@ && spec_lower(s@)
                != "simple"@) ==> (r matches Err(e) && e is InvalidArgument),
    {
        proof {
            reveal_strlit("table");
            reveal_strlit("json");
            reveal_strlit("simple");
            assert("table"@.len() == 5);
            assert("json"@.len() == 4);
            assert("simple"@.len() == 6);
        }
        if lower_eq(s, "table") {
            Ok(OutputFormat::Table)
        } else if lower_eq(s, "json") {
            Ok(OutputFormat::Json)
        } else if lower_eq(s, "simple") {
            Ok(OutputFormat::Simple)
        } else {
            Err(
                TwinError::invalid_argument(text::concat2("Invalid output format: ", s)),
            )
        }
    }
}

/// Holds the chosen output format, falling back to the table form when the
/// name is unknown.
#[derive(Debug)]
pub struct OutputFormatter {
    /// The chosen format.
    pub format: OutputFormat,
}

impl OutputFormatter {
    /// A formatter for the named format, `table` when the name is unknown.
    pub fn new(format_str: &str) -> (r: OutputFormatter)
        ensures
            spec_lower(format_str@) == "json"@ ==> r.format == OutputFormat::Json,
            spec_lower(format_str@) == "simple"@ ==> r.format == OutputFormat::Simple,
            (spec_lower(format_str@) != "json"@ && spec_lower(format_str@) != "simple"@)
                ==> r.format == OutputFormat::Table,
    {
        let format = match OutputFormat::from_str(format_str) {
            Ok(f) => f,
            Err(_) => OutputFormat::Table,
        };
        OutputFormatter { format }
    }
}

} // verus!
