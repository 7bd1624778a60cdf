//! Stream messages: what a line of a saved stream file contributes.
use vstd::prelude::*;
use crate::json::JsonValue;
use crate::text::{str_eq, opt_str_view};

verus! {

/// A stream message kept for replay: its publish time and its market changes.
pub struct ParsedMessage {
    /// Publish time in epoch milliseconds.
    pub publish_time: i64,
    pub market_changes: Vec<JsonValue>,
}

/// What a message line contributes: its publish time (`pt`, zero when absent)
/// and its market changes, which are the elements of its `mc` array or, for a
/// message that carries a market definition or runner changes itself, the
/// message alone.  A message with neither, or whose publish time is not
/// positive, contributes nothing.
pub open spec fn message_of(msg: JsonValue) -> Option<(i64, Seq<JsonValue>)> {
    let pt = msg.field_i64("pt"@).unwrap_or(0);
    let changes = match msg.field_array("mc"@) {
        Some(mc) => Some(mc),
        None => if msg.field("marketDefinition"@) is Some || msg.field("rc"@) is Some {
            Some(seq![msg])
        } else {
            None
        },
    };
    match changes {
        Some(c) => if pt > 0 {
            Some((pt, c))
        } else {
            None
        },
        None => None,
    }
}

/// The message a parsed line contributes, if any (see [`message_of`]).
pub fn message_from_json(msg: JsonValue) -> (r: Option<ParsedMessage>)
    ensures
        match r {
            Some(m) => message_of(msg) == Some((m.publish_time, m.market_changes@)),
            None => message_of(msg) is None,
        },
{
    let ghost msg0 = msg;
    let pt = msg.get_i64("pt").unwrap_or(0);
    let has_mc = msg.get_array("mc").is_some();
    let has_own = msg.get("marketDefinition").is_some() || msg.get("rc").is_some();
    let changes = if has_mc {
        match msg.take_field("mc") {
            Some(JsonValue::Array(v)) => v,
            _ => {
                proof {
                    assert(false);
                }
                return None;
            },
        }
    } else if has_own {
        vec![msg]
    } else {
        return None;
    };
    if pt > 0 {
        proof {
            if !has_mc {
                assert(changes@ =~= seq![msg0]);
            }
        }
        Some(ParsedMessage { publish_time: pt, market_changes: changes })
    } else {
        None
    }
}

/// Whether `c` is white space (the Unicode `White_Space` property).
pub open spec fn spec_is_white_space(c: char) -> bool {
    let u = c as u32;
    (0x9 <= u <= 0xd) || u == 0x20 || u == 0x85 || u == 0xa0 || u == 0x1680 || (0x2000 <= u
        <= 0x200a) || u == 0x2028 || u == 0x2029 || u == 0x202f || u == 0x205f || u == 0x3000
}

/// Whether `c` is white space.
pub fn is_white_space(c: char) -> (r: bool)
    ensures
        r == spec_is_white_space(c),
{
    let u = c as u32;
    (0x9 <= u && u <= 0xd) || u == 0x20 || u == 0x85 || u == 0xa0 || u == 0x1680 || (0x2000 <= u
        && u <= 0x200a) || u == 0x2028 || u == 0x2029 || u == 0x202f || u == 0x205f || u == 0x3000
}

/// Whether a line holds nothing but white space; such lines are skipped.
pub fn is_blank_line(line: &str) -> (r: bool)
    ensures
        r == forall|i: int| 0 <= i < line@.len() ==> spec_is_white_space(#[trigger] line@[i]),
{
    let mut all_white = true;
    for c in iter: line.chars()
        invariant
            iter.seq() == line@,
            all_white == forall|j: int| 0 <= j < iter.index() ==> spec_is_white_space(
                #[trigger] line@[j],
            ),
    {
        if !is_white_space(c) {
            all_white = false;
        }
    }
    all_white
}

/// What `std::path::Path::extension` gives for a path: the part of its file
/// name after the last `.`, or nothing.
pub uninterp spec fn spec_path_extension(path: Seq<char>) -> Option<Seq<char>>;

/// Calls `std::path::Path::extension` on `path`.  Claimed: the result is
/// [`spec_path_extension`] of the path, and a path without any `.` has no
/// extension (the function's documentation: nothing when the file name has no
/// embedded `.`).
#[verifier::external_body]
fn path_extension(path: &str) -> (r: Option<String>)
    ensures
        opt_str_view(r) == spec_path_extension(path@),
        !path@.contains('.') ==> r is None,
{
    std::path::Path::new(path).extension().map(|e| e.to_string_lossy().into_owned())
}

/// Whether an extension marks a gzip file: `gz` or `gzip`.
pub fn is_gzip_extension(ext: Option<&str>) -> (r: bool)
    ensures
        r == match ext {
            Some(e) => e@ == "gz"@ || e@ == "gzip"@,
            None => false,
        },
{
    match ext {
        Some(e) => str_eq(e, "gz") || str_eq(e, "gzip"),
        None => false,
    }
}

/// Whether the file at `path` is to be read through gzip: its extension is
/// `gz` or `gzip`.
pub fn is_gzipped(path: &str) -> (r: bool)
    ensures
        r == match spec_path_extension(path@) {
            Some(e) => e == "gz"@ || e == "gzip"@,
            None => false,
        },
{
    let ext = path_extension(path);
    match ext {
        Some(e) => is_gzip_extension(Some(e.as_str())),
        None => is_gzip_extension(None),
    }
}

} // verus!
