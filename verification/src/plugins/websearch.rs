//! The web-search plugin. Fetching and scraping are external collaborators;
//! this module holds the catalog entry and the running-status message.

use vstd::prelude::*;
use vstd::string::StringExecFns;

verus! {

use crate::catalog::{Func, Param};

/// The web-search tool of the catalog.
pub fn get_functions() -> (r: Vec<Func>)
    ensures
        r@.len() == 1,
        r@[0].name@ == "web_search"@,
        r@[0].parameters@.len() == 1,
        crate::plugins::media::is_free_param(r@[0].parameters@[0], "query"@),
{
    let mut params: Vec<Param> = Vec::new();
    params.push(Param::new(
        "query",
        "A query for information to be answered, phrased as a question",
    ));
    let mut functions: Vec<Func> = Vec::new();
    functions.push(Func::new("web_search", "Search web for query", params));
    functions
}

/// The web-search plugin's catalog entry, shown to the model.
pub fn get_plugin_data() -> (r: String)
    ensures
        r@ == ("[WEB~query]: Searches the web for a query, replies with the answered query, query should be phrased as a question")@,
{
    String::from_str("[WEB~query]: Searches the web for a query, replies with the answered query, query should be phrased as a question")
}

/// Status line while a web search runs.
pub fn processing_message(query: &String) -> (r: String)
    ensures
        r@ == "🌐 Searching web for query "@ + query@,
{
    let mut s = String::from_str("🌐 Searching web for query ");
    s.append(query.as_str());
    s
}

} // verus!
