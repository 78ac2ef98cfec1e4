use headlines::card::cards_from_articles;
use headlines::fetcher::{after_send, publish};
use headlines::{
    Article, ChannelSendFailure, Directive, FetchError, Fetcher, Headlines, HeadlinesConfig, Msg,
    PublishStep,
};
use std::sync::mpsc::channel;

fn article(title: &str, url: &str) -> Article {
    Article { title: Some(title.to_string()), url: Some(url.to_string()), description: None }
}

#[test]
fn worker_with_key_fetches_at_once() {
    let fetcher = Fetcher::start("demo".to_string());
    assert_eq!(fetcher.directive(), Directive::Fetch("demo".to_string()));
    assert_eq!(fetcher.cycles(), 0);
}

#[test]
fn worker_without_key_waits() {
    let fetcher = Fetcher::start(String::new());
    assert_eq!(fetcher.directive(), Directive::AwaitControl);
    assert_eq!(fetcher.cycles(), 0);
}

#[test]
fn each_key_message_gives_one_cycle() {
    let mut fetcher = Fetcher::start(String::new());
    for k in 0..7u64 {
        let key = format!("key-{}", k);
        assert_eq!(fetcher.directive(), Directive::AwaitControl);
        fetcher.on_control(Msg::ApiKeySet(key.clone()));
        assert_eq!(fetcher.directive(), Directive::Fetch(key));
        assert_eq!(fetcher.cycles(), k);
        let outcome = if k % 2 == 0 {
            Ok(vec![article("A", "https://a")])
        } else {
            Err(FetchError::NetworkFailure)
        };
        let _ = fetcher.finish_cycle(outcome);
        assert_eq!(fetcher.cycles(), k + 1);
    }
    assert_eq!(fetcher.cycles(), 7);
    assert_eq!(fetcher.directive(), Directive::AwaitControl);
}

#[test]
fn message_during_a_cycle_is_not_taken() {
    let mut fetcher = Fetcher::start("first".to_string());
    fetcher.on_control(Msg::ApiKeySet("second".to_string()));
    assert_eq!(fetcher.directive(), Directive::Fetch("first".to_string()));
    let _ = fetcher.finish_cycle(Ok(Vec::new()));
    assert_eq!(fetcher.cycles(), 1);
    assert_eq!(fetcher.directive(), Directive::AwaitControl);
}

#[test]
fn empty_key_in_a_message_still_gives_a_cycle() {
    let mut fetcher = Fetcher::start(String::new());
    fetcher.on_control(Msg::ApiKeySet(String::new()));
    assert_eq!(fetcher.directive(), Directive::Fetch(String::new()));
    let _ = fetcher.finish_cycle(Err(FetchError::HttpNon2xx(401)));
    assert_eq!(fetcher.cycles(), 1);
}

#[test]
fn answer_without_a_cycle_is_dropped() {
    let mut fetcher = Fetcher::start(String::new());
    let report = fetcher.finish_cycle(Ok(vec![article("A", "https://a")]));
    assert!(report.cards.is_empty());
    assert_eq!(report.skipped, 0);
    assert_eq!(report.failure, None);
    assert_eq!(fetcher.cycles(), 0);
    let report = fetcher.finish_cycle(Err(FetchError::JsonDecodeFailure));
    assert!(report.cards.is_empty());
    assert_eq!(report.failure, None);
    assert_eq!(fetcher.cycles(), 0);
    assert_eq!(fetcher.directive(), Directive::AwaitControl);
}

#[test]
fn report_counts_the_articles_passed_over() {
    let mut fetcher = Fetcher::start("demo".to_string());
    let report = fetcher.finish_cycle(Ok(vec![
        article("A", "https://a"),
        article("", "https://b"),
        article("C", "c"),
        Article { title: None, url: None, description: None },
        article("E", "http://e"),
    ]));
    assert_eq!(report.failure, None);
    assert_eq!(report.skipped, 3);
    assert_eq!(report.cards.len(), 2);
    assert_eq!(report.cards[0].title(), "A");
    assert_eq!(report.cards[1].title(), "E");
    assert_eq!(report.cards[1].desc(), "...");
}

#[test]
fn network_failure_is_reported() {
    let mut fetcher = Fetcher::start("demo".to_string());
    let report = fetcher.finish_cycle(Err(FetchError::NetworkFailure));
    assert_eq!(report.failure, Some(FetchError::NetworkFailure));
    assert!(report.cards.is_empty());
}

#[test]
fn bad_status_is_reported_with_its_code() {
    let mut fetcher = Fetcher::start("demo".to_string());
    let report = fetcher.finish_cycle(Err(FetchError::HttpNon2xx(429)));
    assert_eq!(report.failure, Some(FetchError::HttpNon2xx(429)));
    assert_ne!(report.failure, Some(FetchError::HttpNon2xx(500)));
}

#[test]
fn decode_failure_is_reported() {
    let mut fetcher = Fetcher::start("demo".to_string());
    let report = fetcher.finish_cycle(Err(FetchError::JsonDecodeFailure));
    assert_eq!(report.failure, Some(FetchError::JsonDecodeFailure));
    assert_eq!(report.skipped, 0);
}

#[test]
fn publish_sends_every_card_in_order() {
    let (tx, rx) = channel();
    let cards = cards_from_articles(&vec![
        article("A", "https://a"),
        article("B", "https://b"),
        article("C", "https://c"),
    ]);
    assert_eq!(publish(&tx, cards), Ok(3));
    let titles: Vec<String> = rx.try_iter().map(|c| c.title().to_string()).collect();
    assert_eq!(titles, vec!["A", "B", "C"]);
}

#[test]
fn publish_of_nothing_succeeds() {
    let (tx, rx) = channel();
    assert_eq!(publish(&tx, Vec::new()), Ok(0));
    assert!(rx.try_recv().is_err());
    drop(rx);
    assert_eq!(publish(&tx, Vec::new()), Ok(0));
}

#[test]
fn publish_stops_when_the_window_is_gone() {
    let (tx, rx) = channel();
    drop(rx);
    let cards = cards_from_articles(&vec![article("A", "https://a"), article("B", "https://b")]);
    assert_eq!(publish(&tx, cards), Err(ChannelSendFailure { sent: 0 }));
}

#[test]
fn publish_fails_after_the_window_closed() {
    let mut ui = Headlines::with_config(HeadlinesConfig::with_key("demo".to_string()));
    let link = ui.connect();
    let first = cards_from_articles(&vec![article("A", "https://a")]);
    assert_eq!(publish(&link.news_tx, first), Ok(1));
    drop(ui);
    let second = cards_from_articles(&vec![article("B", "https://b")]);
    assert_eq!(publish(&link.news_tx, second), Err(ChannelSendFailure { sent: 0 }));
}

#[test]
fn next_card_follows_a_card_that_was_taken() {
    assert_eq!(after_send(3, 0, false), PublishStep::Send(1));
    assert_eq!(after_send(3, 1, false), PublishStep::Send(2));
    assert_eq!(after_send(1000, 998, false), PublishStep::Send(999));
}

#[test]
fn last_card_taken_ends_the_publishing() {
    assert_eq!(after_send(3, 2, false), PublishStep::Done(Ok(3)));
    assert_eq!(after_send(1, 0, false), PublishStep::Done(Ok(1)));
    assert_eq!(after_send(usize::MAX, usize::MAX - 1, false), PublishStep::Done(Ok(usize::MAX)));
}

#[test]
fn refusal_ends_the_publishing_at_once() {
    assert_eq!(after_send(3, 0, true), PublishStep::Done(Err(ChannelSendFailure { sent: 0 })));
    assert_eq!(after_send(3, 1, true), PublishStep::Done(Err(ChannelSendFailure { sent: 1 })));
    assert_eq!(after_send(3, 2, true), PublishStep::Done(Err(ChannelSendFailure { sent: 2 })));
    assert_eq!(after_send(1, 0, true), PublishStep::Done(Err(ChannelSendFailure { sent: 0 })));
}

#[test]
fn cycle_with_link_in_capitals_publishes_its_card() {
    let mut fetcher = Fetcher::start("demo".to_string());
    let report = fetcher.finish_cycle(Ok(vec![article("A", "HTTP://a")]));
    assert_eq!(report.skipped, 0);
    assert_eq!(report.cards.len(), 1);
    assert_eq!(report.cards[0].url(), "HTTP://a");
    assert_eq!(report.cards[0].desc(), "...");
}
