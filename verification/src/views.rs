//! Saved views: query conditions, order and column presets, kept in the project store.

use vstd::prelude::*;

use crate::compile::byte_len;
use crate::error::EngineError;
use crate::ext::str_chars;
use crate::query::{LogFilter, SortOrder};
use crate::text::{chars_to_string, push_str, str_eq, strings_view, trim_chars, trimmed};

verus! {

/// A view definition.
#[derive(Debug, Clone, PartialEq, Eq)]
pub struct ViewDefinition {
    /// Conditions.
    pub filter: LogFilter,
    /// Order.
    pub sort: SortOrder,
    /// Columns shown (names from the allowed list); empty for the default.
    pub columns: Vec<String>,
    /// The rule text (YARA-like) the conditions were made from, reopened for editing.
    pub rule_source: Option<String>,
}

/// A saved view.
#[derive(Debug, Clone, PartialEq, Eq)]
pub struct SavedView {
    /// ID.
    pub view_id: i64,
    /// Name.
    pub name: String,
    /// Definition.
    pub definition: ViewDefinition,
}

/// The column names a view may show.
pub const VIEW_COLUMNS: [&'static str; 7] = ["timestamp_utc", "client_ip", "method", "request_target", "status", "bytes_sent", "source"];

/// A column name a view may show.
pub open spec fn view_column(c: Seq<char>) -> bool {
    c == "timestamp_utc"@ || c == "client_ip"@ || c == "method"@ || c == "request_target"@ || c == "status"@
        || c == "bytes_sent"@ || c == "source"@
}

fn is_view_column(c: &str) -> (r: bool)
    ensures
        r == view_column(c@),
{
    str_eq(c, "timestamp_utc") || str_eq(c, "client_ip") || str_eq(c, "method") || str_eq(c, "request_target")
        || str_eq(c, "status") || str_eq(c, "bytes_sent") || str_eq(c, "source")
}

/// Why a view cannot be saved under `name`: a trimmed name of 1 to 64 bytes is needed,
/// then the first column not on the allowed list is refused.
pub open spec fn view_error(name: Seq<char>, columns: Seq<Seq<char>>) -> Option<Seq<char>> {
    let t = trimmed(name);
    if t.len() == 0 || byte_len(t) > 64 {
        Some("뷰 이름은 1~64자"@)
    } else if exists|i: int| 0 <= i < columns.len() && !view_column(#[trigger] columns[i]) {
        let k = choose|i: int| 0 <= i < columns.len() && !view_column(#[trigger] columns[i])
            && forall|j: int| 0 <= j < i ==> view_column(#[trigger] columns[j]);
        Some("허용되지 않는 컬럼: "@ + columns[k])
    } else {
        None
    }
}

/// Checks a view before it is saved and gives the name it is saved under (trimmed).
pub fn check_view(name: &str, definition: &ViewDefinition) -> (r: Result<String, EngineError>)
    ensures
        match view_error(name@, strings_view(definition.columns@)) {
            Some(m) => r matches Err(EngineError::Query(x)) && x@ == m,
            None => r matches Ok(n) && n@ == trimmed(name@),
        },
{
    let c = str_chars(name);
    let t = trim_chars(&c);
    let ts = chars_to_string(&t);
    let tlen = ts.as_str().len();
    assert(tlen == byte_len(ts@));
    if t.len() == 0 || tlen > 64 {
        return Err(EngineError::Query("뷰 이름은 1~64자".to_owned()));
    }
    let ghost cols = strings_view(definition.columns@);
    let mut i: usize = 0;
    while i < definition.columns.len()
        invariant
            i <= definition.columns.len(),
            cols == strings_view(definition.columns@),
            forall|j: int| 0 <= j < i ==> view_column(#[trigger] cols[j]),
            !(trimmed(name@).len() == 0 || byte_len(trimmed(name@)) > 64),
        decreases definition.columns.len() - i,
    {
        assert(cols[i as int] == definition.columns@[i as int]@);
        if !is_view_column(definition.columns[i].as_str()) {
            proof {
                assert(!view_column(cols[i as int]));
                let k = choose|x: int| 0 <= x < cols.len() && !view_column(#[trigger] cols[x])
                    && forall|j: int| 0 <= j < x ==> view_column(#[trigger] cols[j]);
                assert(k == i as int) by {
                    if k < i {
                        assert(view_column(cols[k]));
                    }
                    if k > i {
                        assert(view_column(cols[i as int]));
                    }
                }
            }
            let mut m: Vec<char> = Vec::new();
            push_str(&mut m, "허용되지 않는 컬럼: ");
            push_str(&mut m, definition.columns[i].as_str());
            return Err(EngineError::Query(chars_to_string(&m)));
        }
        i = i + 1;
    }
    Ok(ts)
}

} // verus!
