//! The fetch worker: when it fetches, and what it publishes.
//!
//! The worker itself runs outside this library, where the network is. It asks
//! a [`Fetcher`] what to do next, does it, and reports back what happened. One
//! fetch cycle is one request to the news service: there is no second try.

use crate::card::{
    article_views, card_views, cards_from_articles, cards_of, lemma_cards_are_no_more, Article,
    ArticleView, CardView, NewsCardData,
};
use crate::channel::send;
use crate::config::{Msg, MsgView};
use std::sync::mpsc::Sender;
use vstd::prelude::*;

verus! {

/// Why a fetch cycle brought no articles.
#[derive(Clone, Copy, Debug, PartialEq, Eq, Structural)]
pub enum FetchError {
    /// The news service could not be reached.
    NetworkFailure,
    /// The news service answered with the status carried, which is not a success.
    HttpNon2xx(u16),
    /// The answer could not be read as a list of articles.
    JsonDecodeFailure,
}

/// The card channel has lost its receiving end.
#[derive(Clone, Copy, Debug, PartialEq, Eq, Structural)]
pub struct ChannelSendFailure {
    /// How many cards the channel had taken before.
    pub sent: usize,
}

/// Whether the worker waits for a key or is in a cycle, and with which key.
pub enum PhaseView {
    Waiting,
    Fetching(Seq<char>),
}

/// A directive as the contracts see it.
pub enum DirectiveView {
    AwaitControl,
    Fetch(Seq<char>),
}

/// The worker as the contracts see it: its phase, and how many cycles have ended.
pub struct FetcherView {
    pub phase: PhaseView,
    pub cycles: nat,
}

impl FetcherView {
    /// The worker as it starts: with a key it fetches at once, without one it
    /// waits for the key.
    pub open spec fn started(key: Seq<char>) -> FetcherView {
        FetcherView {
            phase: if key.len() > 0 {
                PhaseView::Fetching(key)
            } else {
                PhaseView::Waiting
            },
            cycles: 0,
        }
    }

    pub open spec fn directive(self) -> DirectiveView {
        match self.phase {
            PhaseView::Waiting => DirectiveView::AwaitControl,
            PhaseView::Fetching(key) => DirectiveView::Fetch(key),
        }
    }

    /// The worker after a message from the window. A waiting worker starts a
    /// cycle with the key that the message carries; one that is fetching
    /// cannot be reached and stays as it is.
    pub open spec fn on_control(self, msg: MsgView) -> FetcherView {
        match self.phase {
            PhaseView::Waiting => FetcherView { phase: PhaseView::Fetching(msg.key()), ..self },
            PhaseView::Fetching(_) => self,
        }
    }

    /// The worker after the cycle it was in has ended, well or badly. The
    /// count of cycles stops at the largest `u64`.
    pub open spec fn cycle_ended(self) -> FetcherView {
        match self.phase {
            PhaseView::Waiting => self,
            PhaseView::Fetching(_) => FetcherView {
                phase: PhaseView::Waiting,
                cycles: if self.cycles < u64::MAX {
                    self.cycles + 1
                } else {
                    self.cycles
                },
            },
        }
    }

    /// The worker after each of `keys` reached it in a message and the cycle
    /// that the message set off has ended.
    pub open spec fn served(self, keys: Seq<Seq<char>>) -> FetcherView
        decreases keys.len(),
    {
        if keys.len() == 0 {
            self
        } else {
            self.served(keys.drop_last()).on_control(MsgView::ApiKeySet(keys.last())).cycle_ended()
        }
    }
}

/// What the worker does next.
#[derive(Debug, PartialEq, Eq)]
pub enum Directive {
    /// Wait for a message from the window.
    AwaitControl,
    /// Ask the news service for the headlines, once, with the key carried.
    Fetch(String),
}

impl View for Directive {
    type V = DirectiveView;

    open spec fn view(&self) -> DirectiveView {
        match self {
            Directive::AwaitControl => DirectiveView::AwaitControl,
            Directive::Fetch(key) => DirectiveView::Fetch(key@),
        }
    }
}

/// A report as the contracts see it.
pub struct ReportView {
    pub cards: Seq<CardView>,
    pub skipped: nat,
    pub failure: Option<FetchError>,
}

/// What a cycle leaves behind for an answer of the news service: the cards of
/// the articles that came, or the failure and no card.
pub open spec fn report_of(outcome: Result<Seq<ArticleView>, FetchError>) -> ReportView {
    match outcome {
        Ok(articles) => ReportView {
            cards: cards_of(articles),
            skipped: (articles.len() - cards_of(articles).len()) as nat,
            failure: None,
        },
        Err(failure) => ReportView { cards: Seq::empty(), skipped: 0, failure: Some(failure) },
    }
}

/// What no cycle leaves behind.
pub open spec fn empty_report() -> ReportView {
    ReportView { cards: Seq::empty(), skipped: 0, failure: None }
}

/// The answer of the news service as the contracts see it.
pub open spec fn outcome_view(outcome: Result<Vec<Article>, FetchError>) -> Result<
    Seq<ArticleView>,
    FetchError,
> {
    match outcome {
        Ok(articles) => Ok(article_views(articles@)),
        Err(failure) => Err(failure),
    }
}

/// What one fetch cycle leaves behind.
#[derive(Debug)]
pub struct CycleReport {
    /// The cards to publish, in the order of their articles.
    pub cards: Vec<NewsCardData>,
    /// How many articles were malformed and passed over.
    pub skipped: usize,
    /// Why the cycle brought nothing, where it brought nothing.
    pub failure: Option<FetchError>,
}

impl View for CycleReport {
    type V = ReportView;

    open spec fn view(&self) -> ReportView {
        ReportView {
            cards: card_views(self.cards@),
            skipped: self.skipped as nat,
            failure: self.failure,
        }
    }
}

#[derive(Debug)]
enum Phase {
    Waiting,
    Fetching(String),
}

/// The state of the fetch worker.
#[derive(Debug)]
pub struct Fetcher {
    phase: Phase,
    cycles: u64,
}

impl View for Fetcher {
    type V = FetcherView;

    closed spec fn view(&self) -> FetcherView {
        FetcherView {
            phase: match self.phase {
                Phase::Waiting => PhaseView::Waiting,
                Phase::Fetching(key) => PhaseView::Fetching(key@),
            },
            cycles: self.cycles as nat,
        }
    }
}

impl Fetcher {
    /// The worker as it starts, with the key that the configuration holds at
    /// that time.
    pub fn start(api_key: String) -> (fetcher: Self)
        ensures
            fetcher@ == FetcherView::started(api_key@),
    {
        if api_key.as_str().is_empty() {
            Fetcher { phase: Phase::Waiting, cycles: 0 }
        } else {
            Fetcher { phase: Phase::Fetching(api_key), cycles: 0 }
        }
    }

    /// What the worker does next.
    pub fn directive(&self) -> (next: Directive)
        ensures
            next@ == self@.directive(),
    {
        match &self.phase {
            Phase::Waiting => Directive::AwaitControl,
            Phase::Fetching(key) => Directive::Fetch(key.clone()),
        }
    }

    /// How many fetch cycles have ended.
    pub fn cycles(&self) -> (cycles: u64)
        ensures
            cycles == self@.cycles,
    {
        self.cycles
    }

    /// Takes a message from the window.
    pub fn on_control(&mut self, msg: Msg)
        ensures
            final(self)@ == old(self)@.on_control(msg@),
    {
        match msg {
            Msg::ApiKeySet(key) => {
                if let Phase::Waiting = self.phase {
                    self.phase = Phase::Fetching(key);
                }
            },
        }
    }

    /// Ends the cycle that the worker is in, with the answer of the news
    /// service. The report holds what is to be published. An answer that
    /// comes while no cycle is under way belongs to none: it is dropped.
    pub fn finish_cycle(&mut self, outcome: Result<Vec<Article>, FetchError>) -> (report:
        CycleReport)
        ensures
            final(self)@ == old(self)@.cycle_ended(),
            report@ == if old(self)@.phase is Fetching {
                report_of(outcome_view(outcome))
            } else {
                empty_report()
            },
    {
        if let Phase::Waiting = self.phase {
            let cards: Vec<NewsCardData> = Vec::new();
            assert(card_views(cards@) == Seq::<CardView>::empty());
            return CycleReport { cards, skipped: 0, failure: None };
        }
        self.phase = Phase::Waiting;
        if self.cycles < u64::MAX {
            self.cycles = self.cycles + 1;
        }
        match outcome {
            Ok(articles) => {
                let cards: Vec<NewsCardData> = cards_from_articles(&articles);
                proof {
                    lemma_cards_are_no_more(article_views(articles@));
                }
                let skipped: usize = articles.len() - cards.len();
                CycleReport { cards, skipped, failure: None }
            },
            Err(failure) => {
                let cards: Vec<NewsCardData> = Vec::new();
                assert(card_views(cards@) == Seq::<CardView>::empty());
                CycleReport { cards, skipped: 0, failure: Some(failure) }
            },
        }
    }
}

/// What comes next while a list of cards is published.
#[derive(Clone, Copy, Debug, PartialEq, Eq)]
pub enum PublishStep {
    /// Send the card at the place carried.
    Send(usize),
    /// Send no more: all cards were taken, or the channel refused one.
    Done(Result<usize, ChannelSendFailure>),
}

/// Tells what follows the sending of the card at `index`, of `count` cards
/// that are sent from the first on. A refusal ends the publishing at once,
/// with the cards before `index` counted as sent. Otherwise the card after
/// it is next, and after the last card all `count` have been sent.
pub fn after_send(count: usize, index: usize, refused: bool) -> (step: PublishStep)
    requires
        index < count,
    ensures
        step == (if refused {
            PublishStep::Done(Err(ChannelSendFailure { sent: index }))
        } else if index + 1 < count {
            PublishStep::Send((index + 1) as usize)
        } else {
            PublishStep::Done(Ok(count))
        }),
{
    if refused {
        PublishStep::Done(Err(ChannelSendFailure { sent: index }))
    } else if index + 1 < count {
        PublishStep::Send(index + 1)
    } else {
        PublishStep::Done(Ok(count))
    }
}

/// Hands the cards to the card channel, one by one from the first on, and
/// does after each what [`after_send`] tells: it stops at the first card that
/// the channel refuses, for the window is gone then.
pub fn publish(tx: &Sender<NewsCardData>, cards: Vec<NewsCardData>) -> (delivered: Result<
    usize,
    ChannelSendFailure,
>)
    ensures
        match delivered {
            Ok(sent) => sent == cards@.len(),
            Err(failure) => failure.sent < cards@.len(),
        },
{
    let count: usize = cards.len();
    if count == 0 {
        return Ok(0);
    }
    let mut index: usize = 0;
    loop
        invariant
            count == cards@.len(),
            index < count,
        decreases count - index,
    {
        let refused: bool = send(tx, cards[index].clone()).is_some();
        match after_send(count, index, refused) {
            PublishStep::Send(next) => {
                index = next;
            },
            PublishStep::Done(delivered) => {
                return delivered;
            },
        }
    }
}

/// Each message that reaches a waiting worker sets off exactly one fetch
/// cycle, with the key that the message carries, and the worker waits again
/// when the cycle has ended: after `keys.len()` messages, `keys.len()` cycles
/// more have ended.
pub proof fn lemma_one_cycle_per_message(fetcher: FetcherView, keys: Seq<Seq<char>>)
    requires
        fetcher.phase is Waiting,
        fetcher.cycles + keys.len() <= u64::MAX,
    ensures
        fetcher.served(keys).phase is Waiting,
        fetcher.served(keys).cycles == fetcher.cycles + keys.len(),
        forall|i: int|
            0 <= i < keys.len() ==> (#[trigger] fetcher.served(keys.take(i)).on_control(
                MsgView::ApiKeySet(keys[i]),
            )).directive() == DirectiveView::Fetch(keys[i]),
    decreases keys.len(),
{
    if keys.len() > 0 {
        let earlier = keys.drop_last();
        lemma_one_cycle_per_message(fetcher, earlier);
        assert forall|i: int| 0 <= i < keys.len() implies (#[trigger] fetcher.served(
            keys.take(i),
        ).on_control(MsgView::ApiKeySet(keys[i]))).directive() == DirectiveView::Fetch(
            keys[i],
        ) by {
            if i < earlier.len() {
                assert(keys.take(i) == earlier.take(i));
                assert(keys[i] == earlier[i]);
            } else {
                assert(keys.take(i) == earlier);
            }
        }
    }
}

} // verus!
