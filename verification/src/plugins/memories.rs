//! The memories plugin: per-user fact storage. The storage itself is an
//! external collaborator; this module holds its catalog entry and the
//! status messages shown while a memory command runs.

use vstd::prelude::*;
use vstd::string::StringExecFns;

verus! {

/// The memories plugin's catalog entry, shown to the model.
pub fn get_plugin_data() -> (r: String)
    ensures
        r@ == ("[MEM_GET~query]: Looks in users memories for a query, replies with the answered query, did user say they liked movie, what did they rate it\n[MEM_SET~query]: Updates a users memories with a query, user rated show 5/10, user said they liked movie, memories are only for storing users opinions")@,
{
    String::from_str("[MEM_GET~query]: Looks in users memories for a query, replies with the answered query, did user say they liked movie, what did they rate it\n[MEM_SET~query]: Updates a users memories with a query, user rated show 5/10, user said they liked movie, memories are only for storing users opinions")
}

/// Status line while a memory lookup runs.
pub fn processing_message_get(query: &String) -> (r: String)
    ensures
        r@ == "🧠 Looking in memories for query "@ + query@,
{
    let mut s = String::from_str("🧠 Looking in memories for query ");
    s.append(query.as_str());
    s
}

/// Status line while a memory update runs.
pub fn processing_message_set(query: &String) -> (r: String)
    ensures
        r@ == "🧠 Setting memories for query "@ + query@,
{
    let mut s = String::from_str("🧠 Setting memories for query ");
    s.append(query.as_str());
    s
}

} // verus!
