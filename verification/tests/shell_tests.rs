use basitune::openai::build_lyrics_prompt;
use basitune::openai::build_openai_request;
use basitune::openai::first_choice_content;
use basitune::openai::OpenAIChoice;
use basitune::openai::OpenAIMessage;
use basitune::openai::OpenAIResponse;
use basitune::shell::app_metadata_from_config;
use basitune::shell::js_string_escape;
use basitune::shell::notification_body;
use basitune::shell::notification_summary;
use basitune::shell::now_playing_text;
use basitune::shell::presence_texts;
use basitune::shell::sidebar_resize_layout;
use basitune::shell::sidebar_toggle_layout;
use basitune::shell::tray_menu_layout;
use basitune::shell::update_info_from_check;
use basitune::shell::PlaybackState;
use basitune::shell::TrayEntry;

#[test]
fn playback_state_tracks_state_and_song() {
    let mut p = PlaybackState::new();
    assert_eq!(p.get_state(), "none");
    assert!(!p.is_playing());
    assert_eq!(p.get_current_song(), None);
    p.set_state(String::from("playing"));
    assert!(p.is_playing());
    p.set_current_song(String::from("Yesterday"), String::from("The Beatles"));
    assert_eq!(
        p.get_current_song(),
        Some((String::from("Yesterday"), String::from("The Beatles")))
    );
    p.clear_current_song();
    assert_eq!(p.get_current_song(), None);
    p.set_state(String::from("paused"));
    assert!(!p.is_playing());
}

#[test]
fn tooltip_update_with_empty_fields_clears_the_song() {
    let mut p = PlaybackState::new();
    p.update_current_song(String::from("Yesterday"), String::from("The Beatles"));
    assert!(p.get_current_song().is_some());
    p.update_current_song(String::from(""), String::from("The Beatles"));
    assert_eq!(p.get_current_song(), None);
    p.update_current_song(String::from("Yesterday"), String::from(""));
    assert_eq!(p.get_current_song(), None);
}

#[test]
fn tray_menu_for_each_state() {
    assert_eq!(
        tray_menu_layout("playing", true),
        vec![
            TrayEntry::NowPlaying,
            TrayEntry::Separator,
            TrayEntry::ShowHide,
            TrayEntry::Separator,
            TrayEntry::PreviousTrack,
            TrayEntry::Pause,
            TrayEntry::Stop,
            TrayEntry::NextTrack,
            TrayEntry::Separator,
            TrayEntry::Quit
        ]
    );
    assert_eq!(
        tray_menu_layout("paused", true),
        vec![
            TrayEntry::NowPlaying,
            TrayEntry::Separator,
            TrayEntry::ShowHide,
            TrayEntry::Separator,
            TrayEntry::PreviousTrack,
            TrayEntry::Play,
            TrayEntry::Stop,
            TrayEntry::NextTrack,
            TrayEntry::Separator,
            TrayEntry::Quit
        ]
    );
    assert_eq!(
        tray_menu_layout("none", true),
        vec![
            TrayEntry::NowPlaying,
            TrayEntry::Separator,
            TrayEntry::ShowHide,
            TrayEntry::Separator,
            TrayEntry::PreviousTrack,
            TrayEntry::Play,
            TrayEntry::NextTrack,
            TrayEntry::Separator,
            TrayEntry::Quit
        ]
    );
    assert_eq!(
        tray_menu_layout("playing", false),
        vec![
            TrayEntry::ShowHide,
            TrayEntry::Separator,
            TrayEntry::PreviousTrack,
            TrayEntry::Pause,
            TrayEntry::Stop,
            TrayEntry::NextTrack,
            TrayEntry::Separator,
            TrayEntry::Quit
        ]
    );
}

#[test]
fn menu_and_presence_texts() {
    assert_eq!(
        now_playing_text("Yesterday", "The Beatles"),
        "\u{266a} Yesterday - The Beatles"
    );
    let (details, state) = presence_texts("Yesterday", "The Beatles");
    assert_eq!(details, "Yesterday");
    assert_eq!(state, "by The Beatles");
}

#[test]
fn notification_text_parts() {
    assert_eq!(notification_summary("Yesterday"), "\u{1f3b5} Yesterday");
    assert_eq!(notification_body("The Beatles", None, None), "by The Beatles");
    assert_eq!(
        notification_body(
            "The Beatles",
            Some(String::from("Help!")),
            Some(String::from("2:05"))
        ),
        "by The Beatles \u{2022} from Help! \u{2022} 2:05"
    );
    assert_eq!(
        notification_body("The Beatles", Some(String::from("")), Some(String::from("2:05"))),
        "by The Beatles \u{2022} 2:05"
    );
}

#[test]
fn sidebar_layouts() {
    let shown = sidebar_toggle_layout(1280, 720, 100, 50, 400, true);
    assert_eq!(shown.player_width, 880);
    assert_eq!(shown.sidebar_x, 980);
    assert_eq!(shown.sidebar_y, 50);
    assert_eq!(shown.sidebar_width, 400);
    assert!(shown.show_sidebar);

    let narrow = sidebar_toggle_layout(300, 720, 0, 0, 400, true);
    assert_eq!(narrow.player_width, 0);

    let hidden = sidebar_toggle_layout(1280, 720, 100, 50, 400, false);
    assert_eq!(hidden.player_width, 1280);
    assert!(!hidden.show_sidebar);

    let resized = sidebar_resize_layout(880, 720, 100, 50, 500);
    assert_eq!(resized.player_width, 880);
    assert_eq!(resized.sidebar_x, 980);
    assert_eq!(resized.sidebar_width, 500);
}

#[test]
fn metadata_and_update_info() {
    let m = app_metadata_from_config(None, None, String::from("org.example.app"));
    assert_eq!(m.name, "Basitune");
    assert_eq!(m.version, "Unknown");
    assert_eq!(m.identifier, "org.example.app");

    let u = update_info_from_check(
        String::from("1.0.0"),
        Some((String::from("1.0.0"), String::from("1.1.0"))),
    );
    assert!(u.available);
    assert_eq!(u.current_version, "1.0.0");
    assert_eq!(u.latest_version, "1.1.0");

    let none = update_info_from_check(String::from("1.0.0"), None);
    assert!(!none.available);
    assert_eq!(none.current_version, "1.0.0");
    assert_eq!(none.latest_version, "1.0.0");
}

#[test]
fn javascript_escaping() {
    assert_eq!(js_string_escape("plain"), "plain");
    assert_eq!(js_string_escape("a\"b"), "a\\\"b");
    assert_eq!(js_string_escape("a\\b"), "a\\\\b");
    assert_eq!(js_string_escape("\\\""), "\\\\\\\"");
}

#[test]
fn openai_request_shape() {
    let req = build_openai_request(String::from("the prompt"), 500);
    assert_eq!(req.model, "gpt-4o-mini");
    assert_eq!(req.max_tokens, 500);
    assert_eq!(req.messages.len(), 1);
    assert_eq!(req.messages[0].role, "user");
    assert_eq!(req.messages[0].content, "the prompt");
}

#[test]
fn lyrics_prompt_embeds_raw_text() {
    let p = build_lyrics_prompt("RAW LYRICS");
    assert!(p.starts_with("Clean and format this text."));
    assert!(p.ends_with("Return ONLY the cleaned text.\n\nRAW LYRICS"));
}

#[test]
fn first_choice_is_read_out() {
    let resp = OpenAIResponse {
        choices: vec![OpenAIChoice {
            message: OpenAIMessage { role: String::from("assistant"), content: String::from("hi") },
        }],
    };
    assert_eq!(first_choice_content(&resp), Some(String::from("hi")));
    let empty = OpenAIResponse { choices: vec![] };
    assert_eq!(first_choice_content(&empty), None);
}
