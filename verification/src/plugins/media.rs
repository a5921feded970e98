//! The media plugin: lookups, requests and resolution changes against the
//! media server. The HTTP calls are external collaborators; this module
//! holds the pure pieces: the format and quality-profile mappings, the
//! catalog entry and the status messages.

use vstd::prelude::*;
use vstd::string::StringExecFns;

verus! {

use crate::catalog::{Func, Param};
use crate::text::{chars_of, find_char, string_from_chars};

/// The kind of media a command addresses.
#[derive(Clone, Copy, PartialEq, Eq, Structural, Debug)]
pub enum Format {
    Movie,
    Series,
}

impl Format {
    /// The capitalised format name used in messages and request paths.
    pub fn name(&self) -> (r: &'static str)
        ensures
            *self is Movie ==> r@ == "Movie"@,
            *self is Series ==> r@ == "Series"@,
    {
        match self {
            Format::Movie => "Movie",
            Format::Series => "Series",
        }
    }
}

/// The format a command's `format` argument selects: `series` picks
/// series, anything else falls back to movies.
pub fn get_format(value: &str) -> (r: Format)
    ensures
        value@ == "series"@ ==> r is Series,
        value@ != "series"@ ==> r is Movie,
{
    if value.to_owned().eq(&String::from_str("series")) {
        Format::Series
    } else {
        Format::Movie
    }
}

/// The quality-profile id each quality name maps to; an unknown name
/// falls back to 4, the 1080p profile.
pub open spec fn quality_profile_of(quality: Seq<char>) -> u8 {
    if quality == "SD"@ {
        2
    } else if quality == "720p"@ {
        3
    } else if quality == "1080p"@ {
        4
    } else if quality == "2160p"@ {
        5
    } else if quality == "720p/1080p"@ {
        6
    } else if quality == "Any"@ {
        7
    } else {
        4
    }
}

/// The quality-profile id a quality name maps to.
pub fn get_quality_profile_id(quality: &str) -> (r: u8)
    ensures
        r == quality_profile_of(quality@),
{
    let q = quality.to_owned();
    if q.eq(&String::from_str("SD")) {
        2
    } else if q.eq(&String::from_str("720p")) {
        3
    } else if q.eq(&String::from_str("1080p")) {
        4
    } else if q.eq(&String::from_str("2160p")) {
        5
    } else if q.eq(&String::from_str("720p/1080p")) {
        6
    } else if q.eq(&String::from_str("Any")) {
        7
    } else {
        4
    }
}

/// The media plugin's catalog entry, shown to the model.
pub fn get_plugin_data() -> (r: String)
    ensures
        r@ == ("[MOVIES_LOOKUP~query]: Looks up a movie on the server, replies with matches and their ids\n[MOVIES_ADD~id]: Adds a movie to the server by database id and marks it wanted\n[MOVIES_SETRES~id;quality]: Changes the targeted resolution of a movie\n[MOVIES_REMOVE~id]: Removes the users request for a movie\n[MOVIES_WANTED~user]: Lists movies requested by the user, or by noone\nThe same commands exist with the SERIES_ prefix for series")@,
{
    String::from_str("[MOVIES_LOOKUP~query]: Looks up a movie on the server, replies with matches and their ids\n[MOVIES_ADD~id]: Adds a movie to the server by database id and marks it wanted\n[MOVIES_SETRES~id;quality]: Changes the targeted resolution of a movie\n[MOVIES_REMOVE~id]: Removes the users request for a movie\n[MOVIES_WANTED~user]: Lists movies requested by the user, or by noone\nThe same commands exist with the SERIES_ prefix for series")
}

/// Split a command argument of the shape `head;tail` at its first `;`;
/// without one, the whole argument is the head and the tail is empty.
pub fn split_arg(arg: &str) -> (r: (String, String))
    ensures
        !arg@.contains(';') ==> {
            &&& r.0@ == arg@
            &&& r.1@ == Seq::<char>::empty()
        },
        arg@.contains(';') ==> {
            let pos = choose|pos: int|
                0 <= pos < arg@.len() && arg@[pos] == ';'
                && forall|j: int| 0 <= j < pos ==> arg@[j] != ';';
            &&& r.0@ == arg@.subrange(0, pos)
            &&& r.1@ == arg@.subrange(pos + 1, arg@.len() as int)
        },
{
    let chars = chars_of(arg);
    match find_char(&chars, ';') {
        None => {
            proof {
                if arg@.contains(';') {
                    let j = choose|j: int| 0 <= j < arg@.len() && arg@[j] == ';';
                }
            }
            (arg.to_owned(), String::new())
        },
        Some(i) => {
            let n = chars.len();
            let mut head: Vec<char> = Vec::new();
            let mut j: usize = 0;
            while j < i
                invariant
                    i < chars@.len(),
                    j <= i,
                    head@ == chars@.subrange(0, j as int),
                decreases i - j,
            {
                head.push(chars[j]);
                proof {
                    assert(head@ =~= chars@.subrange(0, j as int + 1));
                }
                j += 1;
            }
            let mut tail: Vec<char> = Vec::new();
            let mut j: usize = i + 1;
            while j < n
                invariant
                    n == chars@.len(),
                    i < n,
                    i + 1 <= j <= n,
                    tail@ == chars@.subrange(i as int + 1, j as int),
                decreases n - j,
            {
                tail.push(chars[j]);
                proof {
                    assert(tail@ =~= chars@.subrange(i as int + 1, j as int + 1));
                }
                j += 1;
            }
            proof {
                assert(0 <= i < arg@.len() && arg@[i as int] == ';'
                    && forall|k: int| 0 <= k < i ==> arg@[k] != ';');
                let pos = choose|pos: int|
                    0 <= pos < arg@.len() && arg@[pos] == ';'
                    && forall|k: int| 0 <= k < pos ==> arg@[k] != ';';
                if pos < i {
                    assert(arg@[pos] != ';');
                }
                if i < pos {
                    assert(arg@[i as int] != ';');
                }
                assert(pos == i);
            }
            (string_from_chars(&head), string_from_chars(&tail))
        },
    }
}

/// A required parameter restricted to `movie` or `series`.
pub open spec fn is_format_param(p: Param) -> bool {
    &&& p.name@ == "format"@
    &&& p.required
    &&& p.enum_values is Some
    &&& p.enum_values->0.deep_view() == seq!["movie"@, "series"@]
}

/// A required parameter restricted to the quality names.
pub open spec fn is_quality_param(p: Param) -> bool {
    &&& p.name@ == "quality"@
    &&& p.required
    &&& p.enum_values is Some
    &&& p.enum_values->0.deep_view()
        == seq!["SD"@, "720p"@, "1080p"@, "2160p"@, "720p/1080p"@, "Any"@]
}

/// A required free-form string parameter under the given name.
pub open spec fn is_free_param(p: Param, name: Seq<char>) -> bool {
    &&& p.name@ == name
    &&& p.required
    &&& p.enum_values is None
}

/// The media tools of the catalog, in their standing order.
pub fn get_functions() -> (r: Vec<Func>)
    ensures
        r@.len() == 7,
        r@[0].name@ == "media_query"@ && r@[0].parameters@.len() == 3
            && is_format_param(r@[0].parameters@[0])
            && is_free_param(r@[0].parameters@[1], "query"@)
            && is_free_param(r@[0].parameters@[2], "details"@),
        r@[1].name@ == "media_lookup"@ && r@[1].parameters@.len() == 3
            && is_format_param(r@[1].parameters@[0])
            && is_free_param(r@[1].parameters@[1], "searches"@)
            && is_free_param(r@[1].parameters@[2], "query"@),
        r@[2].name@ == "media_add"@ && r@[2].parameters@.len() == 3
            && is_format_param(r@[2].parameters@[0])
            && is_free_param(r@[2].parameters@[1], "db_id"@)
            && is_quality_param(r@[2].parameters@[2]),
        r@[3].name@ == "media_setres"@ && r@[3].parameters@.len() == 3
            && is_format_param(r@[3].parameters@[0])
            && is_free_param(r@[3].parameters@[1], "id"@)
            && is_quality_param(r@[3].parameters@[2]),
        r@[4].name@ == "media_remove"@ && r@[4].parameters@.len() == 2
            && is_format_param(r@[4].parameters@[0])
            && is_free_param(r@[4].parameters@[1], "id"@),
        r@[5].name@ == "media_wanted"@ && r@[5].parameters@.len() == 2
            && is_format_param(r@[5].parameters@[0])
            && r@[5].parameters@[1].name@ == "user"@
            && r@[5].parameters@[1].required
            && r@[5].parameters@[1].enum_values is Some
            && r@[5].parameters@[1].enum_values->0.deep_view() == seq!["self"@, "none"@],
        r@[6].name@ == "media_downloads"@ && r@[6].parameters@.len() == 0,
{
    let mut functions: Vec<Func> = Vec::new();

    let mut query_params: Vec<Param> = Vec::new();
    query_params.push(format_param());
    query_params.push(Param::new(
        "query",
        "A query for information to be answered, phrased as a question, for example \"What action movies are available?\"",
    ));
    query_params.push(Param::new(
        "details",
        "Details to be included in the search, comma separated list from the following (use as few as possible, 3 at most): \"quality,added_by,database_id,file_details,genres\"",
    ));
    functions.push(Func::new(
        "media_query",
        "Performs a query against media on the server",
        query_params,
    ));

    let mut lookup_params: Vec<Param> = Vec::new();
    lookup_params.push(format_param());
    lookup_params.push(Param::new(
        "searches",
        "List of movies/series to search for separated by pipe |, for example \"Game of Thrones|Watchmen|Cats\"",
    ));
    lookup_params.push(Param::new(
        "query",
        "A query for information to be answered, query should be phrased as a question, if multiple results are returned, ask user for clarification",
    ));
    functions.push(Func::new(
        "media_lookup",
        "Search the media server for query information about a piece of media",
        lookup_params,
    ));

    let mut add_params: Vec<Param> = Vec::new();
    add_params.push(format_param());
    add_params.push(Param::new("db_id", "The tmdbId/tvdbId of the media item"));
    add_params.push(quality_param());
    functions.push(Func::new(
        "media_add",
        "Adds media to the server and mark it as wanted by user, if media is already on server it just marks as wanted, perform a lookup first to get the tmdbId/tvdbId",
        add_params,
    ));

    let mut setres_params: Vec<Param> = Vec::new();
    setres_params.push(format_param());
    setres_params.push(Param::new("id", "The id of the media item"));
    setres_params.push(quality_param());
    functions.push(Func::new(
        "media_setres",
        "Change the targeted resolution of a piece of media on the server, perform a lookup first to get the id on server (not the tmdbId/tvdbId)",
        setres_params,
    ));

    let mut remove_params: Vec<Param> = Vec::new();
    remove_params.push(format_param());
    remove_params.push(Param::new("id", "The id of the media item"));
    functions.push(Func::new(
        "media_remove",
        "Removes media from users requests, media items remain on the server if another user has requested also, perform a lookup first to get the id on server (not the tmdbId/tvdbId)",
        remove_params,
    ));

    let mut wanted_params: Vec<Param> = Vec::new();
    wanted_params.push(format_param());
    let user_values: &[&str] = &["self", "none"];
    let user_param = Param::new(
        "user",
        "Self for the user that spoke, none to get a list of movies or series that noone has requested",
    ).with_enum_values(user_values);
    proof {
        assert(user_param.enum_values->0.deep_view() =~~= seq!["self"@, "none"@]);
    }
    wanted_params.push(user_param);
    functions.push(Func::new(
        "media_wanted",
        "Returns a list of series that user or noone has requested, aim for the most condensed list while retaining clarity",
        wanted_params,
    ));

    functions.push(Func::new(
        "media_downloads",
        "Returns a list of series or movies that are downloading and their status, if user asks how long until a series is on etc",
        Vec::new(),
    ));

    functions
}

/// The shared `format` parameter of the media tools.
fn format_param() -> (r: Param)
    ensures
        is_format_param(r),
{
    let values: &[&str] = &["movie", "series"];
    let p = Param::new("format", "The format of the media to be searched for")
        .with_enum_values(values);
    proof {
        assert(p.enum_values->0.deep_view() =~~= seq!["movie"@, "series"@]);
    }
    p
}

/// The shared `quality` parameter of the media tools.
fn quality_param() -> (r: Param)
    ensures
        is_quality_param(r),
{
    let values: &[&str] = &["SD", "720p", "1080p", "2160p", "720p/1080p", "Any"];
    let p = Param::new(
        "quality",
        "The quality to set the media to, default to 1080p if not specified",
    ).with_enum_values(values);
    proof {
        assert(p.enum_values->0.deep_view()
            =~~= seq!["SD"@, "720p"@, "1080p"@, "2160p"@, "720p/1080p"@, "Any"@]);
    }
    p
}

/// Status line while a media lookup runs.
pub fn processing_message_lookup(query: &String) -> (r: String)
    ensures
        r@ == "🎬 Looking up media with query "@ + query@,
{
    let mut s = String::from_str("🎬 Looking up media with query ");
    s.append(query.as_str());
    s
}

/// Status line while media is added.
pub fn processing_message_add(query: &String) -> (r: String)
    ensures
        r@ == "🎬 Adding media with query "@ + query@,
{
    let mut s = String::from_str("🎬 Adding media with query ");
    s.append(query.as_str());
    s
}

/// Status line while a resolution change runs.
pub fn processing_message_setres(query: &String) -> (r: String)
    ensures
        r@ == "🎬 Changing resolution with query "@ + query@,
{
    let mut s = String::from_str("🎬 Changing resolution with query ");
    s.append(query.as_str());
    s
}

/// Status line while a media removal runs.
pub fn processing_message_remove(query: &String) -> (r: String)
    ensures
        r@ == "🎬 Removing media with query "@ + query@,
{
    let mut s = String::from_str("🎬 Removing media with query ");
    s.append(query.as_str());
    s
}

/// Status line while a wanted-media listing runs.
pub fn processing_message_wanted(query: &String) -> (r: String)
    ensures
        r@ == "🎬 Checking wanted media with query "@ + query@,
{
    let mut s = String::from_str("🎬 Checking wanted media with query ");
    s.append(query.as_str());
    s
}

} // verus!
