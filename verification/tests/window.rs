use headlines::card::card_from_article;
use headlines::fetcher::publish;
use headlines::ui::{
    BODY_FONT_SIZE, CONTROL_CAPACITY, HEADING_FONT_SIZE, PADDING, WINDOW_HEIGHT, WINDOW_WIDTH,
};
use headlines::{
    Article, Headlines, HeadlinesConfig, Msg, NewsCardData, Palette, SaveOutcome, Screen,
};

fn card(title: &str, url: &str, desc: &str) -> NewsCardData {
    card_from_article(&Article {
        title: Some(title.to_string()),
        url: Some(url.to_string()),
        description: Some(desc.to_string()),
    })
    .expect("well formed")
}

#[test]
fn window_is_named_headlines() {
    assert_eq!(Headlines::new().name(), "Headlines");
}

#[test]
fn window_opens_at_its_size() {
    assert_eq!(WINDOW_WIDTH, 540);
    assert_eq!(WINDOW_HEIGHT, 960);
    assert_eq!(HEADING_FONT_SIZE, 35);
    assert_eq!(BODY_FONT_SIZE, 20);
    assert_eq!(PADDING, 5);
    assert_eq!(CONTROL_CAPACITY, 1);
}

#[test]
fn new_window_is_unconfigured_and_dark() {
    let ui = Headlines::new();
    assert!(!ui.api_key_initialized());
    assert_eq!(ui.screen(), Screen::ConfigPanel);
    assert_eq!(ui.palette(), Palette::Dark);
    assert_eq!(ui.config().api_key(), "");
    assert!(ui.articles().is_empty());
}

#[test]
fn window_with_key_shows_the_feed() {
    let ui = Headlines::with_config(HeadlinesConfig::with_key("demo".to_string()));
    assert!(ui.api_key_initialized());
    assert_eq!(ui.screen(), Screen::Feed);
    assert_eq!(ui.config().api_key(), "demo");
    let blank = Headlines::with_config(HeadlinesConfig::with_key(String::new()));
    assert_eq!(blank.screen(), Screen::ConfigPanel);
}

#[test]
fn empty_key_is_not_saved() {
    let mut ui = Headlines::new();
    let link = ui.connect();
    assert_eq!(ui.save_api_key(""), SaveOutcome::EmptyApiKey);
    assert!(!ui.api_key_initialized());
    assert_eq!(ui.screen(), Screen::ConfigPanel);
    assert_eq!(ui.config().api_key(), "");
    assert!(link.app_rx.try_recv().is_err());
    assert_eq!(ui.accept_api_key(""), None);
    assert!(!ui.api_key_initialized());
}

#[test]
fn key_is_saved_once() {
    let mut ui = Headlines::new();
    let link = ui.connect();
    assert_eq!(ui.save_api_key("k"), SaveOutcome::Saved { announced: true });
    assert_eq!(ui.save_api_key("other"), SaveOutcome::AlreadyConfigured);
    assert_eq!(ui.save_api_key(""), SaveOutcome::AlreadyConfigured);
    assert_eq!(ui.config().api_key(), "k");
    assert_eq!(link.app_rx.try_recv(), Ok(Msg::ApiKeySet("k".to_string())));
    assert!(link.app_rx.try_recv().is_err());
}

#[test]
fn accepted_key_gives_the_message() {
    let mut ui = Headlines::new();
    assert_eq!(ui.accept_api_key("k"), Some(Msg::ApiKeySet("k".to_string())));
    assert!(ui.api_key_initialized());
    assert_eq!(ui.config().api_key(), "k");
    assert_eq!(ui.accept_api_key("other"), None);
    assert_eq!(ui.config().api_key(), "k");
}

#[test]
fn save_without_channel_is_not_announced() {
    let mut ui = Headlines::new();
    assert_eq!(ui.save_api_key("k"), SaveOutcome::Saved { announced: false });
    assert!(ui.api_key_initialized());
    assert_eq!(ui.config().api_key(), "k");
}

#[test]
fn save_after_worker_left_is_not_announced() {
    let mut ui = Headlines::new();
    let link = ui.connect();
    drop(link);
    assert_eq!(ui.save_api_key("k"), SaveOutcome::Saved { announced: false });
    assert_eq!(ui.update(), Screen::Feed);
    assert!(ui.articles().is_empty());
}

#[test]
fn configured_window_stays_configured() {
    let mut ui = Headlines::new();
    let link = ui.connect();
    assert_eq!(ui.save_api_key("k"), SaveOutcome::Saved { announced: true });
    ui.toggle_dark_mode();
    assert!(ui.api_key_initialized());
    ui.set_dark_mode(true);
    assert!(ui.api_key_initialized());
    let _ = ui.save_api_key("");
    assert!(ui.api_key_initialized());
    ui.receive(card("A", "https://a", "da"));
    assert!(ui.api_key_initialized());
    let _ = ui.update();
    assert!(ui.api_key_initialized());
    let _ = ui.connect();
    assert!(ui.api_key_initialized());
    drop(link);
    let _ = ui.update();
    assert!(ui.api_key_initialized());
    assert_eq!(ui.screen(), Screen::Feed);
}

#[test]
fn nothing_is_taken_in_before_a_key_is_saved() {
    let mut ui = Headlines::new();
    let link = ui.connect();
    assert_eq!(publish(&link.news_tx, vec![card("A", "https://a", "da")]), Ok(1));
    assert_eq!(ui.preload_articles(), 0);
    assert_eq!(ui.update(), Screen::ConfigPanel);
    assert!(ui.articles().is_empty());
    assert_eq!(ui.save_api_key("k"), SaveOutcome::Saved { announced: true });
    assert_eq!(ui.update(), Screen::Feed);
    assert_eq!(ui.articles().len(), 1);
    assert_eq!(ui.articles()[0].title(), "A");
}

#[test]
fn nothing_is_taken_in_without_a_channel() {
    let mut ui = Headlines::with_config(HeadlinesConfig::with_key("demo".to_string()));
    assert_eq!(ui.preload_articles(), 0);
    assert_eq!(ui.update(), Screen::Feed);
    assert!(ui.articles().is_empty());
}

#[test]
fn received_card_goes_to_the_end() {
    let mut ui = Headlines::with_config(HeadlinesConfig::with_key("demo".to_string()));
    ui.receive(card("A", "https://a", "da"));
    ui.receive(card("B", "https://b", "db"));
    ui.receive(card("A", "https://a", "da"));
    let list = ui.articles();
    assert_eq!(list.len(), 3);
    assert_eq!(list[0].title(), "A");
    assert_eq!(list[1].title(), "B");
    assert_eq!(list[1].desc(), "db");
    assert_eq!(list[2], list[0]);
}

#[test]
fn drain_keeps_what_was_there() {
    let mut ui = Headlines::with_config(HeadlinesConfig::with_key("demo".to_string()));
    let link = ui.connect();
    ui.receive(card("A", "https://a", "da"));
    assert_eq!(
        publish(&link.news_tx, vec![card("B", "https://b", "db"), card("C", "https://c", "dc")]),
        Ok(2)
    );
    assert_eq!(ui.preload_articles(), 2);
    let titles: Vec<&str> = ui.articles().iter().map(|c| c.title()).collect();
    assert_eq!(titles, vec!["A", "B", "C"]);
    drop(link);
    assert_eq!(ui.preload_articles(), 0);
    assert_eq!(ui.articles().len(), 3);
}

#[test]
fn theme_toggle_keeps_the_rest() {
    let mut ui = Headlines::with_config(HeadlinesConfig::with_key("demo".to_string()));
    ui.receive(card("A", "https://a", "da"));
    ui.toggle_dark_mode();
    assert_eq!(ui.palette(), Palette::Light);
    assert_eq!(ui.config().api_key(), "demo");
    assert_eq!(ui.articles().len(), 1);
    ui.toggle_dark_mode();
    assert_eq!(ui.palette(), Palette::Dark);
    ui.set_dark_mode(false);
    assert_eq!(ui.palette(), Palette::Light);
    assert!(!ui.config().dark_mode());
}

#[test]
fn even_number_of_toggles_gives_back_the_palette() {
    let mut ui = Headlines::new();
    for n in 1..5 {
        for _ in 0..(2 * n) {
            ui.toggle_dark_mode();
        }
        assert_eq!(ui.palette(), Palette::Dark);
    }
}

#[test]
fn link_carries_the_key_at_that_time() {
    let mut ui = Headlines::with_config(HeadlinesConfig::with_key("demo".to_string()));
    let link = ui.connect();
    assert_eq!(link.api_key, "demo");
    let mut blank = Headlines::new();
    assert_eq!(blank.connect().api_key, "");
}

#[test]
fn card_that_was_polled_is_taken_in_and_another_look_is_due() {
    let mut ui = Headlines::with_config(HeadlinesConfig::with_key("demo".to_string()));
    assert!(ui.take_in(Some(card("A", "https://a", "da"))));
    assert!(ui.take_in(Some(card("B", "https://b", "db"))));
    let titles: Vec<&str> = ui.articles().iter().map(|c| c.title()).collect();
    assert_eq!(titles, vec!["A", "B"]);
}

#[test]
fn nothing_polled_ends_the_looking() {
    let mut ui = Headlines::with_config(HeadlinesConfig::with_key("demo".to_string()));
    assert!(!ui.take_in(None));
    assert!(ui.articles().is_empty());
    assert!(ui.take_in(Some(card("A", "https://a", "da"))));
    assert!(!ui.take_in(None));
    assert_eq!(ui.articles().len(), 1);
}

#[test]
fn control_channel_holds_one_message() {
    let mut ui = Headlines::new();
    let link = ui.connect();
    assert_eq!(ui.save_api_key("k"), SaveOutcome::Saved { announced: true });
    assert_eq!(link.app_rx.try_recv(), Ok(Msg::ApiKeySet("k".to_string())));
    let (tx, rx) = std::sync::mpsc::sync_channel(CONTROL_CAPACITY);
    assert!(tx.try_send(Msg::ApiKeySet("a".to_string())).is_ok());
    assert!(tx.try_send(Msg::ApiKeySet("b".to_string())).is_err());
    assert_eq!(rx.try_recv(), Ok(Msg::ApiKeySet("a".to_string())));
}

#[test]
fn card_channel_takes_many_cards_before_a_frame() {
    let mut ui = Headlines::with_config(HeadlinesConfig::with_key("demo".to_string()));
    let link = ui.connect();
    for i in 0..300 {
        let one = vec![card(&format!("t{}", i), "https://a", "d")];
        assert_eq!(publish(&link.news_tx, one), Ok(1));
    }
    assert_eq!(ui.preload_articles(), 300);
    assert_eq!(ui.articles()[299].title(), "t299");
}
