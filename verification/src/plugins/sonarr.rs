//! The series-lookup plugin. The backend query itself is an external
//! collaborator; this module parses the `term;query` argument and builds
//! the catalog entry and status messages.

use vstd::prelude::*;
use vstd::string::StringExecFns;

verus! {

use crate::plugins::PluginReturn;
use crate::text::{find_char, string_from_chars};

/// The series-lookup plugin's catalog entry, shown to the model.
pub fn get_plugin_data() -> (r: String)
    ensures
        r@ == ("[SONARR_LOOKUP~series;query]: Looks on server for a series or movie, replies with found series, and ones not on the server that match, can specify what data to request back, such as resolution, file sizes etc")@,
{
    String::from_str("[SONARR_LOOKUP~series;query]: Looks on server for a series or movie, replies with found series, and ones not on the server that match, can specify what data to request back, such as resolution, file sizes etc")
}

/// Status line while a series lookup runs.
pub fn processing_message_lookup(query: &String) -> (r: String)
    ensures
        r@ == "🎬 Looking up series with query "@ + query@,
{
    let mut s = String::from_str("🎬 Looking up series with query ");
    s.append(query.as_str());
    s
}

/// Parse a lookup argument of the shape `term;query`. Without a `;` the
/// argument is invalid and an error result is produced; with one, the
/// lookup is acknowledged with a status naming everything after the first
/// `;`. The backend answer itself is filled in by the caller.
pub fn sonarr_lookup(search: &String) -> (r: PluginReturn)
    ensures
        !search@.contains(';') ==> {
            &&& r.result@ == "Invalid sonarr query"@
            &&& r.to_user@ == "❌ Sonarr lookup failed"@
        },
        search@.contains(';') ==> {
            let pos = choose|pos: int|
                0 <= pos < search@.len() && search@[pos] == ';'
                && forall|j: int| 0 <= j < pos ==> search@[j] != ';';
            &&& r.result@ =~= Seq::<char>::empty()
            &&& r.to_user@ == "🎬 Looking up series with query "@
                + search@.subrange(pos + 1, search@.len() as int)
        },
{
    let chars = crate::text::chars_of(search.as_str());
    match find_char(&chars, ';') {
        None => {
            proof {
                if search@.contains(';') {
                    let j = choose|j: int| 0 <= j < search@.len() && search@[j] == ';';
                }
            }
            PluginReturn {
                result: String::from_str("Invalid sonarr query"),
                to_user: String::from_str("❌ Sonarr lookup failed"),
            }
        },
        Some(i) => {
            let n = chars.len();
            let mut query_chars: Vec<char> = Vec::new();
            let mut j: usize = i + 1;
            while j < n
                invariant
                    n == chars.len(),
                    i < n,
                    i + 1 <= j <= n,
                    query_chars@ == chars@.subrange(i as int + 1, j as int),
                decreases n - j,
            {
                query_chars.push(chars[j]);
                proof {
                    assert(query_chars@ =~= chars@.subrange(i as int + 1, j as int + 1));
                }
                j += 1;
            }
            let query = string_from_chars(&query_chars);
            let to_user = processing_message_lookup(&query);
            proof {
                assert(0 <= i < search@.len() && search@[i as int] == ';'
                    && forall|k: int| 0 <= k < i ==> search@[k] != ';');
                let pos = choose|pos: int|
                    0 <= pos < search@.len() && search@[pos] == ';'
                    && forall|k: int| 0 <= k < pos ==> search@[k] != ';';
                assert(search@[i as int] == ';');
                if pos < i {
                    assert(search@[pos] != ';');
                }
                if i < pos {
                    assert(search@[i as int] != ';');
                }
                assert(pos == i);
            }
            PluginReturn { result: String::new(), to_user }
        },
    }
}

} // verus!
