//! The plugin layer: the catalog text shown to the model, the routing of
//! raw commands to plugins, and the status messages shown while a command
//! runs. The plugins' own network and file work is an external
//! collaborator; what a command means is decided here.

use vstd::prelude::*;
use vstd::string::StringExecFns;

pub mod media;
pub mod memories;
pub mod sonarr;
pub mod websearch;

verus! {

use crate::extract::{command_name, split_by};
use crate::text::{chars_of, string_from_chars};
use crate::plugins::media::Format;

/// A tool's dual-channel result: `result` is folded back into the model's
/// context, `to_user` is the short status shown to the user.
#[derive(Debug)]
pub struct PluginReturn {
    pub result: String,
    pub to_user: String,
}

/// The second `~`-separated part of a raw command: its first argument, or
/// empty where the command has none.
pub open spec fn second_arg(cmd: Seq<char>) -> Seq<char> {
    if split_by(cmd, '~').len() >= 2 {
        split_by(cmd, '~')[1]
    } else {
        Seq::empty()
    }
}

/// The command names the plugins answer to.
pub open spec fn is_known_command(name: Seq<char>) -> bool {
    ||| name == "WEB"@
    ||| name == "MEM_GET"@
    ||| name == "MEM_SET"@
    ||| name == "MOVIES_LOOKUP"@
    ||| name == "SERIES_LOOKUP"@
    ||| name == "MOVIES_ADD"@
    ||| name == "SERIES_ADD"@
    ||| name == "MOVIES_SETRES"@
    ||| name == "SERIES_SETRES"@
    ||| name == "MOVIES_REMOVE"@
    ||| name == "SERIES_REMOVE"@
    ||| name == "MOVIES_WANTED"@
    ||| name == "SERIES_WANTED"@
}

fn name_is(name: &String, lit: &str) -> (b: bool)
    ensures
        b == (name@ == lit@),
{
    name.eq(&lit.to_owned())
}

/// The full plugin catalog handed to the model: every plugin's entry plus
/// the calling convention of the embedded command syntax.
pub fn get_data() -> (r: String)
    ensures
        r@ == ("You have access to the following plugins:\n\n")@
            + ("[WEB~query]: Searches the web for a query, replies with the answered query, query should be phrased as a question")@
            + "\n"@
            + ("[MEM_GET~query]: Looks in users memories for a query, replies with the answered query, did user say they liked movie, what did they rate it\n[MEM_SET~query]: Updates a users memories with a query, user rated show 5/10, user said they liked movie, memories are only for storing users opinions")@
            + "\n"@
            + ("[MOVIES_LOOKUP~query]: Looks up a movie on the server, replies with matches and their ids\n[MOVIES_ADD~id]: Adds a movie to the server by database id and marks it wanted\n[MOVIES_SETRES~id;quality]: Changes the targeted resolution of a movie\n[MOVIES_REMOVE~id]: Removes the users request for a movie\n[MOVIES_WANTED~user]: Lists movies requested by the user, or by noone\nThe same commands exist with the SERIES_ prefix for series")@
            + "\n"@
            + ("\nYou can query a plugin with the syntax [plugin~query]\nFor example [WEB~how far is the moon?]I'm looking this up\nSystem will respond with results [WEB~how far is the moon?~The average distance between the Earth and the Moon is 384,400km]\nAlways use plugins to get or set data when needed, after a plugin is queried write a message to let the user know its being processed, plugin calls should always be first in the message")@,
{
    let mut data = String::from_str("You have access to the following plugins:\n\n");
    data.append(websearch::get_plugin_data().as_str());
    data.append("\n");
    data.append(memories::get_plugin_data().as_str());
    data.append("\n");
    data.append(media::get_plugin_data().as_str());
    data.append("\n");
    data.append("\nYou can query a plugin with the syntax [plugin~query]\nFor example [WEB~how far is the moon?]I'm looking this up\nSystem will respond with results [WEB~how far is the moon?~The average distance between the Earth and the Moon is 384,400km]\nAlways use plugins to get or set data when needed, after a plugin is queried write a message to let the user know its being processed, plugin calls should always be first in the message");
    proof {
        assert(data@ =~= ("You have access to the following plugins:\n\n")@
            + ("[WEB~query]: Searches the web for a query, replies with the answered query, query should be phrased as a question")@
            + "\n"@
            + ("[MEM_GET~query]: Looks in users memories for a query, replies with the answered query, did user say they liked movie, what did they rate it\n[MEM_SET~query]: Updates a users memories with a query, user rated show 5/10, user said they liked movie, memories are only for storing users opinions")@
            + "\n"@
            + ("[MOVIES_LOOKUP~query]: Looks up a movie on the server, replies with matches and their ids\n[MOVIES_ADD~id]: Adds a movie to the server by database id and marks it wanted\n[MOVIES_SETRES~id;quality]: Changes the targeted resolution of a movie\n[MOVIES_REMOVE~id]: Removes the users request for a movie\n[MOVIES_WANTED~user]: Lists movies requested by the user, or by noone\nThe same commands exist with the SERIES_ prefix for series")@
            + "\n"@
            + ("\nYou can query a plugin with the syntax [plugin~query]\nFor example [WEB~how far is the moon?]I'm looking this up\nSystem will respond with results [WEB~how far is the moon?~The average distance between the Earth and the Moon is 384,400km]\nAlways use plugins to get or set data when needed, after a plugin is queried write a message to let the user know its being processed, plugin calls should always be first in the message")@);
    }
    data
}

/// The status line shown while a command runs, chosen by the command's
/// name in priority order; an unknown name gets the error status.
pub open spec fn processing_message_of(cmd: Seq<char>) -> Seq<char> {
    let name = command_name(cmd);
    let arg = second_arg(cmd);
    if name == "WEB"@ {
        "🌐 Searching web for query "@ + arg
    } else if name == "MEM_GET"@ {
        "🧠 Looking in memories for query "@ + arg
    } else if name == "MEM_SET"@ {
        "🧠 Setting memories for query "@ + arg
    } else if name == "MOVIES_LOOKUP"@ || name == "SERIES_LOOKUP"@ {
        "🎬 Looking up media with query "@ + arg
    } else if name == "MOVIES_ADD"@ || name == "SERIES_ADD"@ {
        "🎬 Adding media with query "@ + arg
    } else if name == "MOVIES_SETRES"@ || name == "SERIES_SETRES"@ {
        "🎬 Changing resolution with query "@ + arg
    } else if name == "MOVIES_REMOVE"@ || name == "SERIES_REMOVE"@ {
        "🎬 Removing media with query "@ + arg
    } else if name == "MOVIES_WANTED"@ || name == "SERIES_WANTED"@ {
        "🎬 Checking wanted media with query "@ + arg
    } else {
        "❌ Unknown command"@
    }
}

/// The status line shown while `command` runs.
pub fn get_processing_message(command: &str) -> (r: String)
    ensures
        r@ == processing_message_of(command@),
{
    let chars = chars_of(command);
    let parts = crate::extract::split_chars(&chars, '~');
    proof {
        assert(parts.deep_view()[0] == parts@[0].deep_view());
        assert(parts@[0].deep_view() =~= parts@[0]@);
    }
    let name = string_from_chars(&parts[0]);
    let arg = if parts.len() >= 2 {
        proof {
            assert(parts.deep_view()[1] == parts@[1].deep_view());
            assert(parts@[1].deep_view() =~= parts@[1]@);
        }
        string_from_chars(&parts[1])
    } else {
        String::new()
    };
    if name_is(&name, "WEB") {
        websearch::processing_message(&arg)
    } else if name_is(&name, "MEM_GET") {
        memories::processing_message_get(&arg)
    } else if name_is(&name, "MEM_SET") {
        memories::processing_message_set(&arg)
    } else if name_is(&name, "MOVIES_LOOKUP") || name_is(&name, "SERIES_LOOKUP") {
        media::processing_message_lookup(&arg)
    } else if name_is(&name, "MOVIES_ADD") || name_is(&name, "SERIES_ADD") {
        media::processing_message_add(&arg)
    } else if name_is(&name, "MOVIES_SETRES") || name_is(&name, "SERIES_SETRES") {
        media::processing_message_setres(&arg)
    } else if name_is(&name, "MOVIES_REMOVE") || name_is(&name, "SERIES_REMOVE") {
        media::processing_message_remove(&arg)
    } else if name_is(&name, "MOVIES_WANTED") || name_is(&name, "SERIES_WANTED") {
        media::processing_message_wanted(&arg)
    } else {
        String::from_str("❌ Unknown command")
    }
}

/// Which plugin call a command name selects.
pub enum CommandRoute {
    Web,
    MemoryGet,
    MemorySet,
    MediaLookup(Format),
    MediaAdd(Format),
    MediaSetres(Format),
    MediaRemove(Format),
    MediaWanted(Format),
    Unknown,
}

/// The plugin call each command name selects, in priority order; an
/// unknown name selects none.
pub open spec fn route_of(name: Seq<char>) -> CommandRoute {
    if name == "WEB"@ {
        CommandRoute::Web
    } else if name == "MEM_GET"@ {
        CommandRoute::MemoryGet
    } else if name == "MEM_SET"@ {
        CommandRoute::MemorySet
    } else if name == "MOVIES_LOOKUP"@ {
        CommandRoute::MediaLookup(Format::Movie)
    } else if name == "SERIES_LOOKUP"@ {
        CommandRoute::MediaLookup(Format::Series)
    } else if name == "MOVIES_ADD"@ {
        CommandRoute::MediaAdd(Format::Movie)
    } else if name == "SERIES_ADD"@ {
        CommandRoute::MediaAdd(Format::Series)
    } else if name == "MOVIES_SETRES"@ {
        CommandRoute::MediaSetres(Format::Movie)
    } else if name == "SERIES_SETRES"@ {
        CommandRoute::MediaSetres(Format::Series)
    } else if name == "MOVIES_REMOVE"@ {
        CommandRoute::MediaRemove(Format::Movie)
    } else if name == "SERIES_REMOVE"@ {
        CommandRoute::MediaRemove(Format::Series)
    } else if name == "MOVIES_WANTED"@ {
        CommandRoute::MediaWanted(Format::Movie)
    } else if name == "SERIES_WANTED"@ {
        CommandRoute::MediaWanted(Format::Series)
    } else {
        CommandRoute::Unknown
    }
}

/// Route a command name to its plugin. An unknown name routes nowhere:
/// the dispatcher answers it locally with an error result.
pub fn route_command(name: &String) -> (r: CommandRoute)
    ensures
        r == route_of(name@),
        !is_known_command(name@) ==> r == CommandRoute::Unknown,
{
    if name_is(name, "WEB") {
        CommandRoute::Web
    } else if name_is(name, "MEM_GET") {
        CommandRoute::MemoryGet
    } else if name_is(name, "MEM_SET") {
        CommandRoute::MemorySet
    } else if name_is(name, "MOVIES_LOOKUP") {
        CommandRoute::MediaLookup(Format::Movie)
    } else if name_is(name, "SERIES_LOOKUP") {
        CommandRoute::MediaLookup(Format::Series)
    } else if name_is(name, "MOVIES_ADD") {
        CommandRoute::MediaAdd(Format::Movie)
    } else if name_is(name, "SERIES_ADD") {
        CommandRoute::MediaAdd(Format::Series)
    } else if name_is(name, "MOVIES_SETRES") {
        CommandRoute::MediaSetres(Format::Movie)
    } else if name_is(name, "SERIES_SETRES") {
        CommandRoute::MediaSetres(Format::Series)
    } else if name_is(name, "MOVIES_REMOVE") {
        CommandRoute::MediaRemove(Format::Movie)
    } else if name_is(name, "SERIES_REMOVE") {
        CommandRoute::MediaRemove(Format::Series)
    } else if name_is(name, "MOVIES_WANTED") {
        CommandRoute::MediaWanted(Format::Movie)
    } else if name_is(name, "SERIES_WANTED") {
        CommandRoute::MediaWanted(Format::Series)
    } else {
        CommandRoute::Unknown
    }
}

/// Whether the plugins answer to this command name.
pub fn known_command(name: &String) -> (b: bool)
    ensures
        b == is_known_command(name@),
{
    name_is(name, "WEB") || name_is(name, "MEM_GET") || name_is(name, "MEM_SET")
        || name_is(name, "MOVIES_LOOKUP") || name_is(name, "SERIES_LOOKUP")
        || name_is(name, "MOVIES_ADD") || name_is(name, "SERIES_ADD")
        || name_is(name, "MOVIES_SETRES") || name_is(name, "SERIES_SETRES")
        || name_is(name, "MOVIES_REMOVE") || name_is(name, "SERIES_REMOVE")
        || name_is(name, "MOVIES_WANTED") || name_is(name, "SERIES_WANTED")
}

} // verus!
