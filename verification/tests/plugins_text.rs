use cinematic::apis::ArrService;
use cinematic::catalog::Param;
use cinematic::context::build_persona_now;
use cinematic::plugins::{
    get_data, get_processing_message, known_command, route_command, CommandRoute,
};
use cinematic::plugins::media::{self, Format};
use cinematic::plugins::{memories, sonarr, websearch};
use cinematic::progress::{compose_payload, Glyph, Publisher};

#[test]
fn processing_messages_by_command_name() {
    assert_eq!(
        get_processing_message("WEB~how far is the moon?"),
        "🌐 Searching web for query how far is the moon?"
    );
    assert_eq!(
        get_processing_message("MEM_GET~liked movies"),
        "🧠 Looking in memories for query liked movies"
    );
    assert_eq!(
        get_processing_message("MEM_SET~rated cats 3/10"),
        "🧠 Setting memories for query rated cats 3/10"
    );
    assert_eq!(
        get_processing_message("MOVIES_LOOKUP~cats"),
        "🎬 Looking up media with query cats"
    );
    assert_eq!(
        get_processing_message("SERIES_ADD~12345"),
        "🎬 Adding media with query 12345"
    );
    assert_eq!(
        get_processing_message("MOVIES_SETRES~5;1080p"),
        "🎬 Changing resolution with query 5;1080p"
    );
    assert_eq!(
        get_processing_message("SERIES_REMOVE~9"),
        "🎬 Removing media with query 9"
    );
    assert_eq!(
        get_processing_message("MOVIES_WANTED~self"),
        "🎬 Checking wanted media with query self"
    );
    assert_eq!(get_processing_message("BOGUS~x"), "❌ Unknown command");
    assert_eq!(get_processing_message("WEB"), "🌐 Searching web for query ");
}

#[test]
fn command_routing() {
    assert!(matches!(route_command(&"WEB".to_string()), CommandRoute::Web));
    assert!(matches!(route_command(&"MEM_GET".to_string()), CommandRoute::MemoryGet));
    assert!(matches!(route_command(&"MEM_SET".to_string()), CommandRoute::MemorySet));
    assert!(matches!(
        route_command(&"MOVIES_LOOKUP".to_string()),
        CommandRoute::MediaLookup(Format::Movie)
    ));
    assert!(matches!(
        route_command(&"SERIES_ADD".to_string()),
        CommandRoute::MediaAdd(Format::Series)
    ));
    assert!(matches!(
        route_command(&"MOVIES_SETRES".to_string()),
        CommandRoute::MediaSetres(Format::Movie)
    ));
    assert!(matches!(
        route_command(&"SERIES_REMOVE".to_string()),
        CommandRoute::MediaRemove(Format::Series)
    ));
    assert!(matches!(
        route_command(&"MOVIES_WANTED".to_string()),
        CommandRoute::MediaWanted(Format::Movie)
    ));
    assert!(matches!(route_command(&"web".to_string()), CommandRoute::Unknown));
    assert!(known_command(&"SERIES_SETRES".to_string()));
    assert!(!known_command(&"SONARR_LOOKUP".to_string()));
}

#[test]
fn plugin_catalog_lists_every_plugin() {
    let data = get_data();
    assert!(data.starts_with("You have access to the following plugins:\n\n"));
    assert!(data.contains("[WEB~query]"));
    assert!(data.contains("[MEM_GET~query]"));
    assert!(data.contains("[MOVIES_LOOKUP~query]"));
    assert!(data.contains("[WEB~how far is the moon?~The average distance"));
}

#[test]
fn argument_splitting_at_first_separator() {
    assert_eq!(media::split_arg("5;1080p"), ("5".to_string(), "1080p".to_string()));
    assert_eq!(media::split_arg("just-id"), ("just-id".to_string(), String::new()));
    assert_eq!(media::split_arg("a;b;c"), ("a".to_string(), "b;c".to_string()));
    assert_eq!(media::split_arg(";tail"), (String::new(), "tail".to_string()));
}

#[test]
fn quality_profiles_map_exactly() {
    assert_eq!(media::get_quality_profile_id("SD"), 2);
    assert_eq!(media::get_quality_profile_id("720p"), 3);
    assert_eq!(media::get_quality_profile_id("1080p"), 4);
    assert_eq!(media::get_quality_profile_id("2160p"), 5);
    assert_eq!(media::get_quality_profile_id("720p/1080p"), 6);
    assert_eq!(media::get_quality_profile_id("Any"), 7);
    assert_eq!(media::get_quality_profile_id("potato"), 4);
}

#[test]
fn format_selection_defaults_to_movie() {
    assert!(matches!(media::get_format("series"), Format::Series));
    assert!(matches!(media::get_format("movie"), Format::Movie));
    assert!(matches!(media::get_format("anything"), Format::Movie));
    assert_eq!(Format::Movie.name(), "Movie");
    assert_eq!(Format::Series.name(), "Series");
}

#[test]
fn arr_service_names() {
    assert_eq!(ArrService::Sonarr.name(), "sonarr");
    assert_eq!(ArrService::Radarr.name(), "radarr");
}

#[test]
fn plugin_status_messages() {
    assert_eq!(
        websearch::processing_message(&"q".to_string()),
        "🌐 Searching web for query q"
    );
    assert_eq!(
        memories::processing_message_get(&"q".to_string()),
        "🧠 Looking in memories for query q"
    );
    assert_eq!(
        memories::processing_message_set(&"q".to_string()),
        "🧠 Setting memories for query q"
    );
    assert_eq!(
        media::processing_message_lookup(&"q".to_string()),
        "🎬 Looking up media with query q"
    );
    assert_eq!(
        sonarr::processing_message_lookup(&"q".to_string()),
        "🎬 Looking up series with query q"
    );
    assert!(memories::get_plugin_data().contains("[MEM_GET~query]"));
    assert!(sonarr::get_plugin_data().contains("[SONARR_LOOKUP~series;query]"));
}

#[test]
fn sonarr_lookup_parses_term_and_query() {
    let bad = sonarr::sonarr_lookup(&"no separator here".to_string());
    assert_eq!(bad.result, "Invalid sonarr query");
    assert_eq!(bad.to_user, "❌ Sonarr lookup failed");

    let good = sonarr::sonarr_lookup(&"Stargate SG1;what resolution".to_string());
    assert_eq!(good.result, "");
    assert_eq!(good.to_user, "🎬 Looking up series with query what resolution");
}

#[test]
fn tool_catalog_entries() {
    let p = Param::new("query", "a question");
    assert_eq!(p.name, "query");
    assert!(p.required);
    assert!(p.enum_values.is_none());
    let p = p.with_enum_values(&["movie", "series"]);
    assert_eq!(
        p.enum_values.unwrap(),
        vec!["movie".to_string(), "series".to_string()]
    );

    let media_tools = media::get_functions();
    let names: Vec<&str> = media_tools.iter().map(|f| f.name.as_str()).collect();
    assert_eq!(
        names,
        vec![
            "media_query",
            "media_lookup",
            "media_add",
            "media_setres",
            "media_remove",
            "media_wanted",
            "media_downloads"
        ]
    );
    assert_eq!(media_tools[6].parameters.len(), 0);

    let web_tools = websearch::get_functions();
    assert_eq!(web_tools.len(), 1);
    assert_eq!(web_tools[0].name, "web_search");
    assert_eq!(web_tools[0].parameters[0].name, "query");
}

#[test]
fn publisher_throttles_to_one_per_interval() {
    let mut publisher = Publisher::new(1000);
    assert!(publisher.try_publish(0, true));
    assert!(!publisher.try_publish(400, true));
    assert!(!publisher.try_publish(999, true));
    assert!(publisher.try_publish(1000, true));
    assert!(!publisher.try_publish(2500, false));
    assert!(publisher.try_publish(2500, true));
    publisher.final_flush();
    assert!(publisher.flushed);
}

#[test]
fn payload_composition() {
    let payload = compose_payload("💬 add cats\n", "🎬 Ran lookup\n", Glyph::Success, "Done!");
    assert_eq!(payload, "💬 add cats\n🎬 Ran lookup\n✅ Done!");
    assert_eq!(Glyph::Pending.symbol(), "⌛");
    assert_eq!(Glyph::Failure.symbol(), "❌");
}

#[test]
fn persona_carries_the_clock() {
    let persona = build_persona_now();
    assert!(persona.contains("CineMatic"));
    assert!(persona.contains("The current date is "));
    assert!(persona.contains(", the current time is "));
}
