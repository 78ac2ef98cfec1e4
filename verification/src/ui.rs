//! The state behind the window.
//!
//! One [`Headlines`] value belongs to the frame loop. Each frame shows either
//! the configuration panel, until a key has been saved, or the feed, which
//! first takes in whatever cards the fetch worker has sent since the frame
//! before. The frame loop never waits: it only looks at what is already there.

use crate::card::{card_views, CardView, NewsCardData};
use crate::channel::{bounded, control_bound, try_recv, try_send, unbounded};
use crate::config::{ConfigView, HeadlinesConfig, Msg, MsgView, Palette};
use std::sync::mpsc::{Receiver, Sender, SyncSender};
use vstd::prelude::*;

verus! {

/// How many messages the control channel holds.
pub const CONTROL_CAPACITY: usize = 1;

/// Width of the window when it opens, in points.
pub const WINDOW_WIDTH: u16 = 540;

/// Height of the window when it opens, in points.
pub const WINDOW_HEIGHT: u16 = 960;

/// Size of the heading font, in points.
pub const HEADING_FONT_SIZE: u16 = 35;

/// Size of the body font, in points.
pub const BODY_FONT_SIZE: u16 = 20;

/// Space between two cards, in points.
pub const PADDING: u16 = 5;

/// What a frame shows.
#[derive(Clone, Copy, Debug, PartialEq, Eq, Structural)]
pub enum Screen {
    /// The panel that asks for the API key.
    ConfigPanel,
    /// The list of headlines.
    Feed,
}

/// What became of a key that the configuration panel was asked to save.
#[derive(Clone, Copy, Debug, PartialEq, Eq, Structural)]
pub enum SaveOutcome {
    /// The text was empty: nothing was saved.
    EmptyApiKey,
    /// A key had been saved before: nothing was saved.
    AlreadyConfigured,
    /// The key was saved. `announced` tells whether the control channel took
    /// the message for the fetch worker.
    Saved { announced: bool },
}

/// The state behind the window as the contracts see it.
pub struct HeadlinesView {
    pub articles: Seq<CardView>,
    pub config: ConfigView,
    pub api_key_initialized: bool,
}

/// What can happen to the state behind the window.
pub enum UiEvent {
    /// The configuration panel was asked to save the text carried.
    Save(Seq<char>),
    /// A card came from the fetch worker.
    Received(CardView),
    /// The theme was set.
    DarkMode(bool),
    /// The theme was toggled.
    ThemeToggled,
}

impl HeadlinesView {
    /// The state at startup: no headlines yet, and configured where the
    /// configuration holds a key.
    pub open spec fn initial(config: ConfigView) -> HeadlinesView {
        HeadlinesView {
            articles: Seq::empty(),
            config,
            api_key_initialized: config.is_initialized(),
        }
    }

    /// What holds of every state: the window is configured exactly when the
    /// configuration holds a key, and every card in the list has a title and
    /// a link that can be opened.
    pub open spec fn is_valid(self) -> bool {
        &&& self.api_key_initialized == self.config.is_initialized()
        &&& forall|i: int| 0 <= i < self.articles.len() ==> (#[trigger] self.articles[i]).is_valid()
    }

    pub open spec fn screen(self) -> Screen {
        if self.api_key_initialized {
            Screen::Feed
        } else {
            Screen::ConfigPanel
        }
    }

    /// The state after the configuration panel was asked to save `input`. The
    /// empty text is not saved, and nothing is saved twice.
    pub open spec fn saved(self, input: Seq<char>) -> HeadlinesView {
        if self.api_key_initialized || input.len() == 0 {
            self
        } else {
            HeadlinesView {
                config: self.config.with_api_key(input),
                api_key_initialized: true,
                ..self
            }
        }
    }

    /// The message that saving `input` sends to the fetch worker.
    pub open spec fn announces(self, input: Seq<char>) -> Option<MsgView> {
        if self.api_key_initialized || input.len() == 0 {
            None
        } else {
            Some(MsgView::ApiKeySet(input))
        }
    }

    /// The state after `card` came: it stands at the end of the list.
    pub open spec fn received(self, card: CardView) -> HeadlinesView {
        HeadlinesView { articles: self.articles.push(card), ..self }
    }

    /// The state after `cards` came out of the card channel one by one, the
    /// first of them first.
    pub open spec fn drained(self, cards: Seq<CardView>) -> HeadlinesView
        decreases cards.len(),
    {
        if cards.len() == 0 {
            self
        } else {
            self.received(cards.first()).drained(cards.drop_first())
        }
    }

    pub open spec fn with_dark_mode(self, dark_mode: bool) -> HeadlinesView {
        HeadlinesView { config: self.config.with_dark_mode(dark_mode), ..self }
    }

    pub open spec fn toggled(self) -> HeadlinesView {
        HeadlinesView { config: self.config.toggled(), ..self }
    }

    pub open spec fn after(self, event: UiEvent) -> HeadlinesView {
        match event {
            UiEvent::Save(input) => self.saved(input),
            UiEvent::Received(card) => self.received(card),
            UiEvent::DarkMode(dark_mode) => self.with_dark_mode(dark_mode),
            UiEvent::ThemeToggled => self.toggled(),
        }
    }

    /// The state after each of `events` happened in turn.
    pub open spec fn after_all(self, events: Seq<UiEvent>) -> HeadlinesView
        decreases events.len(),
    {
        if events.len() == 0 {
            self
        } else {
            self.after_all(events.drop_last()).after(events.last())
        }
    }

    /// How many messages go to the fetch worker while `events` happen in turn.
    pub open spec fn announcements(self, events: Seq<UiEvent>) -> nat
        decreases events.len(),
    {
        if events.len() == 0 {
            0
        } else {
            let earlier = self.announcements(events.drop_last());
            match events.last() {
                UiEvent::Save(input) => if self.after_all(events.drop_last()).announces(input)
                    is Some {
                    earlier + 1
                } else {
                    earlier
                },
                _ => earlier,
            }
        }
    }
}

/// The fetch worker's ends of the two channels, and the key to start it with.
pub struct WorkerLink {
    /// The API key as the configuration held it when the channels were made.
    pub api_key: String,
    /// Where the worker sends its cards.
    pub news_tx: Sender<NewsCardData>,
    /// Where the worker hears of a key.
    pub app_rx: Receiver<Msg>,
}

/// The window's ends of the two channels.
struct WindowLink {
    news_rx: Receiver<NewsCardData>,
    app_tx: SyncSender<Msg>,
}

/// The state behind the window: the headlines received so far, the
/// configuration, and the window's ends of the two channels.
pub struct Headlines {
    articles: Vec<NewsCardData>,
    config: HeadlinesConfig,
    link: Option<WindowLink>,
}

impl View for Headlines {
    type V = HeadlinesView;

    closed spec fn view(&self) -> HeadlinesView {
        HeadlinesView {
            articles: card_views(self.articles@),
            config: self.config@,
            api_key_initialized: self.config@.is_initialized(),
        }
    }
}

impl Headlines {
    /// Every card in the list is valid, whatever the window has been through.
    #[verifier::type_invariant]
    spec fn well_formed(self) -> bool {
        self@.is_valid()
    }

    /// Whether the window holds its ends of the two channels.
    pub closed spec fn is_connected(self) -> bool {
        self.link is Some
    }

    /// How many messages the control channel that the window holds was made
    /// to hold; 0 while the window holds none.
    pub closed spec fn control_capacity(self) -> nat {
        match self.link {
            Some(link) => control_bound(link.app_tx),
            None => 0,
        }
    }

    /// Puts `config` in the place of the configuration held.
    fn set_config(&mut self, config: HeadlinesConfig)
        ensures
            final(self)@ == (HeadlinesView {
                config: config@,
                api_key_initialized: config@.is_initialized(),
                ..old(self)@
            }),
            final(self).is_connected() == old(self).is_connected(),
            final(self).control_capacity() == old(self).control_capacity(),
    {
        proof {
            use_type_invariant(&*self);
        }
        assert(self@.articles == card_views(self.articles@));
        self.config = config;
    }

    /// The state at startup with the default configuration: no key, dark theme.
    pub fn new() -> (ui: Self)
        ensures
            ui@ == HeadlinesView::initial(ConfigView::initial()),
            ui@.is_valid(),
            !ui.is_connected(),
            ui.control_capacity() == 0,
    {
        Headlines::with_config(HeadlinesConfig::new())
    }

    /// The state at startup with a configuration that may hold a key already.
    pub fn with_config(config: HeadlinesConfig) -> (ui: Self)
        ensures
            ui@ == HeadlinesView::initial(config@),
            ui@.is_valid(),
            !ui.is_connected(),
            ui.control_capacity() == 0,
    {
        let articles: Vec<NewsCardData> = Vec::new();
        assert(card_views(articles@) == Seq::<CardView>::empty());
        Headlines { articles, config, link: None }
    }

    /// The title of the window.
    pub fn name(&self) -> (title: &'static str)
        ensures
            title@ == "Headlines"@,
    {
        "Headlines"
    }

    /// Makes the two channels, the card channel without a bound and the
    /// control channel for one message, keeps the window's ends, and returns
    /// the fetch worker's ends with the key as it is now.
    pub fn connect(&mut self) -> (link: WorkerLink)
        ensures
            final(self)@ == old(self)@,
            final(self).is_connected(),
            final(self).control_capacity() == CONTROL_CAPACITY,
            link.api_key@ == old(self)@.config.api_key,
    {
        proof {
            use_type_invariant(&*self);
        }
        let (news_tx, news_rx) = unbounded::<NewsCardData>();
        let (app_tx, app_rx) = bounded(CONTROL_CAPACITY);
        assert(self@.articles == card_views(self.articles@));
        self.link = Some(WindowLink { news_rx, app_tx });
        WorkerLink { api_key: self.config.api_key().to_owned(), news_tx, app_rx }
    }

    pub fn config(&self) -> (config: &HeadlinesConfig)
        ensures
            config@ == self@.config,
    {
        &self.config
    }

    /// The headlines received so far, oldest first.
    pub fn articles(&self) -> (articles: &Vec<NewsCardData>)
        ensures
            card_views(articles@) == self@.articles,
            self@.is_valid(),
    {
        proof {
            use_type_invariant(self);
        }
        &self.articles
    }

    pub fn api_key_initialized(&self) -> (initialized: bool)
        ensures
            initialized == self@.api_key_initialized,
    {
        self.config.is_initialized()
    }

    /// What the next frame shows.
    pub fn screen(&self) -> (screen: Screen)
        ensures
            screen == self@.screen(),
    {
        if self.config.is_initialized() {
            Screen::Feed
        } else {
            Screen::ConfigPanel
        }
    }

    /// The colours of the next frame.
    pub fn palette(&self) -> (palette: Palette)
        ensures
            palette == self@.config.palette(),
    {
        self.config.palette()
    }

    pub fn set_dark_mode(&mut self, dark_mode: bool)
        ensures
            final(self)@ == old(self)@.with_dark_mode(dark_mode),
            final(self).is_connected() == old(self).is_connected(),
            final(self).control_capacity() == old(self).control_capacity(),
    {
        let mut config: HeadlinesConfig = self.config.clone();
        config.set_dark_mode(dark_mode);
        self.set_config(config);
    }

    pub fn toggle_dark_mode(&mut self)
        ensures
            final(self)@ == old(self)@.toggled(),
            final(self).is_connected() == old(self).is_connected(),
            final(self).control_capacity() == old(self).control_capacity(),
    {
        let mut config: HeadlinesConfig = self.config.clone();
        config.toggle_dark_mode();
        self.set_config(config);
    }

    /// Takes the key that the configuration panel was asked to save, and
    /// returns the message that is owed to the fetch worker. The empty text is
    /// not saved, and once a key has been saved no other is.
    pub fn accept_api_key(&mut self, input: &str) -> (announced: Option<Msg>)
        ensures
            final(self)@ == old(self)@.saved(input@),
            final(self).is_connected() == old(self).is_connected(),
            final(self).control_capacity() == old(self).control_capacity(),
            match (announced, old(self)@.announces(input@)) {
                (Some(msg), Some(view)) => msg@ == view,
                (None, None) => true,
                _ => false,
            },
    {
        if self.config.is_initialized() {
            return None;
        }
        let mut config: HeadlinesConfig = self.config.clone();
        let announced: Option<Msg> = config.set_api_key(input);
        self.set_config(config);
        announced
    }

    /// Saves the key as [`Headlines::accept_api_key`] does, and hands the
    /// message to the control channel without waiting for room in it.
    pub fn save_api_key(&mut self, input: &str) -> (outcome: SaveOutcome)
        ensures
            final(self)@ == old(self)@.saved(input@),
            final(self).is_connected() == old(self).is_connected(),
            final(self).control_capacity() == old(self).control_capacity(),
            outcome is AlreadyConfigured <==> old(self)@.api_key_initialized,
            outcome is EmptyApiKey <==> !old(self)@.api_key_initialized && input@.len() == 0,
            outcome matches SaveOutcome::Saved { announced } ==> (announced ==> old(
                self,
            ).is_connected()),
    {
        if self.config.is_initialized() {
            return SaveOutcome::AlreadyConfigured;
        }
        match self.accept_api_key(input) {
            None => SaveOutcome::EmptyApiKey,
            Some(msg) => {
                let announced: bool = match &self.link {
                    Some(link) => try_send(&link.app_tx, msg),
                    None => false,
                };
                SaveOutcome::Saved { announced }
            },
        }
    }

    /// Puts a card at the end of the list.
    pub fn receive(&mut self, card: NewsCardData)
        ensures
            final(self)@ == old(self)@.received(card@),
            final(self).is_connected() == old(self).is_connected(),
            final(self).control_capacity() == old(self).control_capacity(),
    {
        proof {
            use_type_invariant(&*self);
            use_type_invariant(&card);
        }
        let ghost before = self.articles@;
        assert(self@.articles == card_views(before));
        // The list leaves the state while it grows, and an empty one stands in
        // for it: the state is valid at every step.
        let mut articles: Vec<NewsCardData> = Vec::new();
        assert(card_views(articles@) == Seq::<CardView>::empty());
        std::mem::swap(&mut articles, &mut self.articles);
        articles.push(card);
        assert(card_views(articles@) == card_views(before).push(card@));
        std::mem::swap(&mut articles, &mut self.articles);
    }

    /// Takes what one look into the card channel gave, and tells whether to
    /// look again: a card goes to the end of the list and another look is due,
    /// and with nothing there the looking ends.
    pub fn take_in(&mut self, polled: Option<NewsCardData>) -> (again: bool)
        ensures
            final(self)@ == (match polled {
                Some(card) => old(self)@.received(card@),
                None => old(self)@,
            }),
            final(self).is_connected() == old(self).is_connected(),
            final(self).control_capacity() == old(self).control_capacity(),
            again == polled is Some,
    {
        match polled {
            Some(card) => {
                self.receive(card);
                true
            },
            None => false,
        }
    }

    /// Takes in every card that waits in the card channel, in the order in
    /// which they were sent, and returns how many there were. It looks into
    /// the channel for as long as [`Headlines::take_in`] tells it to. Before a key has
    /// been saved, and without a channel, nothing is taken in.
    pub fn preload_articles(&mut self) -> (count: usize)
        ensures
            final(self)@ == old(self)@.drained(
                final(self)@.articles.skip(old(self)@.articles.len() as int),
            ),
            final(self)@.articles.len() == old(self)@.articles.len() + count,
            final(self).is_connected() == old(self).is_connected(),
            final(self).control_capacity() == old(self).control_capacity(),
            !old(self)@.api_key_initialized || !old(self).is_connected() ==> count == 0,
    {
        let mut count: usize = 0;
        proof {
            lemma_drained_appends(self@, Seq::empty());
            assert(self@.articles.skip(self@.articles.len() as int) == Seq::<CardView>::empty());
        }
        if !self.config.is_initialized() {
            return count;
        }
        let mut again: bool = true;
        while again && self.articles.len() < usize::MAX
            invariant
                self@.config == old(self)@.config,
                self@.api_key_initialized == old(self)@.api_key_initialized,
                self.is_connected() == old(self).is_connected(),
                self.control_capacity() == old(self).control_capacity(),
                self@.articles.len() == old(self)@.articles.len() + count,
                self@.articles.take(old(self)@.articles.len() as int) == old(self)@.articles,
                self.articles@.len() == self@.articles.len(),
                count > 0 ==> old(self).is_connected(),
            decreases usize::MAX - self.articles.len() + if again { 1int } else { 0int },
        {
            let polled: Option<NewsCardData> = match &self.link {
                Some(link) => try_recv(&link.news_rx),
                None => None,
            };
            let ghost before = self@.articles;
            again = self.take_in(polled);
            if again {
                assert(self@.articles.take(old(self)@.articles.len() as int) == before.take(
                    old(self)@.articles.len() as int,
                ));
                count = count + 1;
            }
        }
        proof {
            let came = self@.articles.skip(old(self)@.articles.len() as int);
            lemma_drained_appends(old(self)@, came);
            assert(old(self)@.articles + came == self@.articles);
        }
        count
    }

    /// Begins a frame: tells what the frame shows, and for the feed takes in
    /// the cards that wait in the card channel.
    pub fn update(&mut self) -> (screen: Screen)
        ensures
            screen == old(self)@.screen(),
            final(self)@ == old(self)@.drained(
                final(self)@.articles.skip(old(self)@.articles.len() as int),
            ),
            final(self)@.articles.len() >= old(self)@.articles.len(),
            final(self).is_connected() == old(self).is_connected(),
            final(self).control_capacity() == old(self).control_capacity(),
            screen is ConfigPanel || !old(self).is_connected() ==> final(self)@ == old(self)@,
    {
        let screen: Screen = self.screen();
        let _ = self.preload_articles();
        screen
    }
}

/// Cards that are drained go to the end of the list, in the order in which
/// they came, and nothing else changes.
pub proof fn lemma_drained_appends(ui: HeadlinesView, cards: Seq<CardView>)
    ensures
        ui.drained(cards) == (HeadlinesView { articles: ui.articles + cards, ..ui }),
    decreases cards.len(),
{
    if cards.len() == 0 {
        assert(ui.articles + cards == ui.articles);
    } else {
        lemma_drained_appends(ui.received(cards.first()), cards.drop_first());
        assert(ui.articles.push(cards.first()) + cards.drop_first() == ui.articles + cards);
    }
}

/// Once a key has been saved the window stays configured: whatever happens
/// after the first `i` events, a window that was configured then is
/// configured after the first `j` of them too.
pub proof fn lemma_configured_for_good(ui: HeadlinesView, events: Seq<UiEvent>, i: int, j: int)
    requires
        0 <= i <= j <= events.len(),
        ui.after_all(events.take(i)).api_key_initialized,
    ensures
        ui.after_all(events.take(j)).api_key_initialized,
    decreases j - i,
{
    if i < j {
        lemma_configured_for_good(ui, events, i, j - 1);
        assert(events.take(j).drop_last() == events.take(j - 1));
    }
}

/// The window leaves the configuration panel only when a key that is not
/// empty is saved, and that key is then the one configured.
pub proof fn lemma_configured_by_save(ui: HeadlinesView, event: UiEvent)
    requires
        !ui.api_key_initialized,
    ensures
        ui.after(event).api_key_initialized <==> (event matches UiEvent::Save(input) && input.len()
            > 0),
        event matches UiEvent::Save(input) ==> (input.len() > 0 ==> {
            &&& ui.after(event).config.api_key == input
            &&& ui.announces(input) == Some(MsgView::ApiKeySet(input))
        }),
{
}

/// The list of headlines only grows at its end: what was in it stays, in its
/// place.
pub proof fn lemma_articles_only_grow(ui: HeadlinesView, events: Seq<UiEvent>)
    ensures
        ui.articles.len() <= ui.after_all(events).articles.len(),
        ui.after_all(events).articles.take(ui.articles.len() as int) == ui.articles,
    decreases events.len(),
{
    if events.len() == 0 {
        assert(ui.articles.take(ui.articles.len() as int) == ui.articles);
    } else {
        lemma_articles_only_grow(ui, events.drop_last());
        let before = ui.after_all(events.drop_last());
        assert(before.after(events.last()).articles.take(ui.articles.len() as int)
            == before.articles.take(ui.articles.len() as int));
    }
}

/// A valid state stays valid as long as the cards that come are valid, which
/// the cards of the fetch worker always are.
pub proof fn lemma_valid_is_kept(ui: HeadlinesView, events: Seq<UiEvent>)
    requires
        ui.is_valid(),
        forall|i: int|
            0 <= i < events.len() ==> (#[trigger] events[i] matches UiEvent::Received(card)
                ==> card.is_valid()),
    ensures
        ui.after_all(events).is_valid(),
    decreases events.len(),
{
    if events.len() > 0 {
        let earlier = events.drop_last();
        assert forall|i: int| 0 <= i < earlier.len() implies (#[trigger] earlier[i] matches UiEvent::Received(
            card,
        ) ==> card.is_valid()) by {
            assert(earlier[i] == events[i]);
        }
        lemma_valid_is_kept(ui, earlier);
        assert(events[events.len() - 1] == events.last());
    }
}

/// Whatever happens, the window sends the fetch worker at most one message,
/// and none once it is configured: the control channel, which holds one
/// message, is never asked to hold a second.
pub proof fn lemma_control_channel_has_room(ui: HeadlinesView, events: Seq<UiEvent>)
    ensures
        ui.announcements(events) <= CONTROL_CAPACITY,
        ui.api_key_initialized ==> ui.announcements(events) == 0,
        ui.announcements(events) == 1 ==> ui.after_all(events).api_key_initialized,
    decreases events.len(),
{
    if events.len() > 0 {
        lemma_control_channel_has_room(ui, events.drop_last());
        if ui.api_key_initialized {
            assert(events.take(0) == Seq::<UiEvent>::empty());
            assert(events.take(events.len() - 1) == events.drop_last());
            lemma_configured_for_good(ui, events, 0, events.len() - 1);
        }
    }
}

} // verus!
