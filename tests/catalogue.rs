use chandesk::api::{boards_endpoint, catalog_endpoint, thread_endpoint};
use chandesk::boards::{board_matches, categorize_board, get_all_boards_info, BoardCategory};
use chandesk::posting::check_rate_limit;
use chandesk::media::{cache_key_for_url, get_mime_type, get_video_server_url, media_url, video_content_type};

#[test]
fn boards_are_categorized() {
    assert_eq!(categorize_board("a"), BoardCategory::JapaneseCulture);
    assert_eq!(categorize_board("vg"), BoardCategory::VideoGames);
    assert_eq!(categorize_board("g"), BoardCategory::Interests);
    assert_eq!(categorize_board("3"), BoardCategory::Creative);
    assert_eq!(categorize_board("biz"), BoardCategory::Other);
    assert_eq!(categorize_board("b"), BoardCategory::Misc);
    assert_eq!(categorize_board("gif"), BoardCategory::Adult);
    assert_eq!(categorize_board("nope"), BoardCategory::Other);
    assert_eq!(categorize_board(""), BoardCategory::Other);
}

#[test]
fn catalogue_agrees_with_categorize() {
    let boards = get_all_boards_info();
    assert_eq!(boards.len(), 74);
    assert_eq!(boards[0].id, "a");
    assert_eq!(boards[0].name, "Anime & Manga");
    for b in &boards {
        assert_eq!(categorize_board(&b.id), b.category, "board {}", b.id);
        assert_eq!(b.nsfw, matches!(b.category, BoardCategory::Misc | BoardCategory::Adult));
        assert!(b.description.is_none());
    }
    assert!(boards.iter().any(|b| b.name == "Pok\u{e9}mon"));
}

#[test]
fn categories_have_names_and_icons() {
    assert_eq!(BoardCategory::Misc.display_name(), "Misc. (NSFW)");
    assert_eq!(BoardCategory::JapaneseCulture.display_name(), "Japanese Culture");
    assert_eq!(BoardCategory::Favorites.icon(), "\u{2b50}");
    assert_eq!(BoardCategory::Adult.icon(), "\u{26d4}");
}

#[test]
fn endpoints_are_built_from_board_and_thread() {
    assert_eq!(boards_endpoint(), "/boards.json");
    assert_eq!(catalog_endpoint("g"), "/g/catalog.json");
    assert_eq!(thread_endpoint("g", 98765), "/g/thread/98765.json");
    assert_eq!(thread_endpoint("vg", 0), "/vg/thread/0.json");
}

#[test]
fn media_cache_key_is_the_last_url_segment() {
    assert_eq!(cache_key_for_url("https://i.4cdn.org/g/1700000000123.webm"), "1700000000123.webm");
    assert_eq!(cache_key_for_url("plain.gif"), "plain.gif");
    assert_eq!(cache_key_for_url("https://host/dir/"), "");
}

#[test]
fn media_types_follow_the_extension() {
    assert_eq!(get_mime_type("a.jpg"), "image/jpeg");
    assert_eq!(get_mime_type("a.jpeg"), "image/jpeg");
    assert_eq!(get_mime_type("a.png"), "image/png");
    assert_eq!(get_mime_type("a.gif"), "image/gif");
    assert_eq!(get_mime_type("a.webp"), "image/webp");
    assert_eq!(get_mime_type("a.bmp"), "image/jpeg");
    assert_eq!(video_content_type("a.webm"), "video/webm");
    assert_eq!(video_content_type("a.mp4"), "video/mp4");
    assert_eq!(video_content_type("a.swf"), "application/x-shockwave-flash");
    assert_eq!(video_content_type("a.mkv"), "video/webm");
}

#[test]
fn server_url_needs_a_port() {
    assert_eq!(get_video_server_url(0), None);
    assert_eq!(get_video_server_url(8080), Some("http://127.0.0.1:8080".to_string()));
    assert_eq!(get_video_server_url(65535), Some("http://127.0.0.1:65535".to_string()));
}

#[test]
fn search_ignores_letter_case() {
    let found = chandesk::boards::search_boards("TECHNOLOGY");
    assert_eq!(found.len(), 1);
    assert_eq!(found[0].id, "g");
    let found = chandesk::boards::search_boards("Anime");
    let ids: Vec<&str> = found.iter().map(|b| b.id.as_str()).collect();
    assert_eq!(ids, vec!["a", "c", "w"]);
}

#[test]
fn search_matches_ids_and_names_in_catalogue_order() {
    let ids: Vec<String> = chandesk::boards::search_boards("vr").into_iter().map(|b| b.id).collect();
    assert_eq!(ids, vec!["vr".to_string(), "vrpg".to_string()]);
    assert_eq!(chandesk::boards::search_boards("").len(), 74);
    assert!(chandesk::boards::search_boards("zzzz").is_empty());
}

#[test]
fn board_match_needs_the_query_in_id_or_name() {
    assert!(board_matches("vg", "video game generals", "game"));
    assert!(board_matches("vg", "video game generals", "vg"));
    assert!(board_matches("vg", "video game generals", ""));
    assert!(!board_matches("vg", "video game generals", "games"));
}

#[test]
fn rate_limit_counts_down_a_minute() {
    assert_eq!(check_rate_limit(None), None);
    assert_eq!(check_rate_limit(Some(0)), Some(60));
    assert_eq!(check_rate_limit(Some(59)), Some(1));
    assert_eq!(check_rate_limit(Some(60)), None);
    assert_eq!(check_rate_limit(Some(u64::MAX)), None);
}

#[test]
fn media_url_joins_server_and_name() {
    assert_eq!(media_url("http://127.0.0.1:8080", "a.webm"), "http://127.0.0.1:8080/a.webm");
}
