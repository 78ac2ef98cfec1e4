//! What holds of the fetch worker and the window together.
//!
//! The card channel hands over what was sent, in the order in which it was
//! sent. These laws say what the window's list then holds, however the
//! worker's sending and the window's receiving fall in time.

use crate::card::{card_of, cards_of, lemma_cards_keep_order, ArticleView, CardView, MalformedArticle};
use crate::fetcher::{report_of, FetchError};
use crate::ui::{lemma_drained_appends, HeadlinesView};
use vstd::prelude::*;

verus! {

/// The worker's side and the window's side of the card channel: the cards
/// that were sent and not yet received, oldest first, and the window.
pub struct PipelineView {
    pub channel: Seq<CardView>,
    pub ui: HeadlinesView,
}

/// What can happen at the card channel.
pub enum PipelineStep {
    /// The worker sent the card carried.
    Sent(CardView),
    /// The window looked into the channel and took the oldest card, if there
    /// was one.
    Received,
}

impl PipelineView {
    pub open spec fn after(self, step: PipelineStep) -> PipelineView {
        match step {
            PipelineStep::Sent(card) => PipelineView { channel: self.channel.push(card), ..self },
            PipelineStep::Received => if self.channel.len() == 0 {
                self
            } else {
                PipelineView {
                    channel: self.channel.drop_first(),
                    ui: self.ui.received(self.channel.first()),
                }
            },
        }
    }

    /// The two sides after each of `steps` happened in turn.
    pub open spec fn after_all(self, steps: Seq<PipelineStep>) -> PipelineView
        decreases steps.len(),
    {
        if steps.len() == 0 {
            self
        } else {
            self.after_all(steps.drop_last()).after(steps.last())
        }
    }
}

/// The cards that the worker sent in the course of `steps`, in their order.
pub open spec fn sent_cards(steps: Seq<PipelineStep>) -> Seq<CardView>
    decreases steps.len(),
{
    if steps.len() == 0 {
        Seq::empty()
    } else {
        match steps.last() {
            PipelineStep::Sent(card) => sent_cards(steps.drop_last()).push(card),
            PipelineStep::Received => sent_cards(steps.drop_last()),
        }
    }
}

/// However sending and receiving fall in time, no card is lost, doubled or
/// moved: the window's list, followed by what still waits in the channel, is
/// what both held at first, followed by the cards sent since. Once the
/// channel is drained the list alone holds all of it, and only the list has
/// changed in the window.
pub proof fn lemma_cards_arrive_in_order(start: PipelineView, steps: Seq<PipelineStep>)
    ensures
        start.after_all(steps).ui.articles + start.after_all(steps).channel == start.ui.articles
            + start.channel + sent_cards(steps),
        start.after_all(steps).channel.len() == 0 ==> start.after_all(steps).ui.articles
            == start.ui.articles + start.channel + sent_cards(steps),
        start.after_all(steps).ui == (HeadlinesView {
            articles: start.after_all(steps).ui.articles,
            ..start.ui
        }),
    decreases steps.len(),
{
    let end = start.after_all(steps);
    if steps.len() == 0 {
        assert(sent_cards(steps) == Seq::<CardView>::empty());
        assert(start.ui.articles + start.channel + sent_cards(steps) == start.ui.articles
            + start.channel);
    } else {
        lemma_cards_arrive_in_order(start, steps.drop_last());
        let before = start.after_all(steps.drop_last());
        let sent = sent_cards(steps.drop_last());
        match steps.last() {
            PipelineStep::Sent(card) => {
                assert(before.ui.articles + before.channel.push(card) == (before.ui.articles
                    + before.channel).push(card));
                assert(start.ui.articles + start.channel + sent.push(card) == (start.ui.articles
                    + start.channel + sent).push(card));
            },
            PipelineStep::Received => {
                if before.channel.len() > 0 {
                    assert(before.ui.articles.push(before.channel.first())
                        + before.channel.drop_first() == before.ui.articles + before.channel);
                }
            },
        }
    }
    if end.channel.len() == 0 {
        assert(end.ui.articles + end.channel == end.ui.articles);
    }
}

/// After a cycle that brought `articles`, and a frame that drained what the
/// cycle published, the list holds what it held before, followed by the cards
/// of the articles in the articles' order. Where every article is well
/// formed, that is one card for each article.
pub proof fn lemma_order_is_preserved(ui: HeadlinesView, articles: Seq<ArticleView>)
    ensures
        ui.drained(report_of(Ok(articles)).cards).articles == ui.articles + cards_of(articles),
        (forall|i: int| 0 <= i < articles.len() ==> card_of(#[trigger] articles[i]) is Ok) ==> {
            let list = ui.drained(report_of(Ok(articles)).cards).articles;
            &&& list.len() == ui.articles.len() + articles.len()
            &&& forall|i: int|
                0 <= i < articles.len() ==> Ok::<CardView, MalformedArticle>(
                    #[trigger] list[ui.articles.len() + i],
                ) == card_of(articles[i])
        },
{
    lemma_drained_appends(ui, cards_of(articles));
    if forall|i: int| 0 <= i < articles.len() ==> card_of(#[trigger] articles[i]) is Ok {
        lemma_cards_keep_order(articles);
        let list = ui.drained(report_of(Ok(articles)).cards).articles;
        assert forall|i: int| 0 <= i < articles.len() implies Ok::<CardView, MalformedArticle>(
            #[trigger] list[ui.articles.len() + i],
        ) == card_of(articles[i]) by {
            assert(list[ui.articles.len() + i] == cards_of(articles)[i]);
        }
    }
}

/// A cycle that failed publishes nothing: the window is after it as it was
/// before.
pub proof fn lemma_failure_changes_nothing(ui: HeadlinesView, failure: FetchError)
    ensures
        ui.drained(report_of(Err(failure)).cards) == ui,
{
}

} // verus!
