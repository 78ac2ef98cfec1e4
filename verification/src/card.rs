//! News cards and the upstream records they are made from.
//!
//! An [`Article`] is what the news service hands back: any of its fields may be
//! absent. A [`NewsCardData`] is what the window shows: it always has a title
//! and a link that can be opened, because no card is made without them.

use vstd::prelude::*;
use vstd::string::*;

verus! {

/// A character that may not occur in a link: white space and control characters.
pub open spec fn is_link_break(c: char) -> bool {
    c as u32 <= 0x20 || c as u32 == 0x7f
}

/// A character that cannot begin the host of a link.
pub open spec fn is_host_stop(c: char) -> bool {
    c == '/' || c == '?' || c == '#'
}

/// One of the capital letters `A` to `Z`.
pub open spec fn is_capital(c: char) -> bool {
    0x41 <= c as u32 <= 0x5a
}

/// Two characters that are equal, or the capital and the small form of one
/// letter of `A` to `Z`.
pub open spec fn same_letter(a: char, b: char) -> bool {
    ||| a == b
    ||| is_capital(a) && a as u32 + 0x20 == b as u32
    ||| is_capital(b) && b as u32 + 0x20 == a as u32
}

/// `text` begins with `scheme`, whatever the case of its letters.
pub open spec fn has_scheme(text: Seq<char>, scheme: Seq<char>) -> bool {
    scheme.len() <= text.len() && forall|i: int|
        0 <= i < scheme.len() ==> #[trigger] same_letter(text[i], scheme[i])
}

/// What follows the scheme of an `http` or `https` link; `None` for any other text.
pub open spec fn link_body(url: Seq<char>) -> Option<Seq<char>> {
    if has_scheme(url, "https://"@) {
        Some(url.skip("https://"@.len() as int))
    } else if has_scheme(url, "http://"@) {
        Some(url.skip("http://"@.len() as int))
    } else {
        None
    }
}

/// An absolute `http` or `https` link: the scheme, in capital or small
/// letters, then a host that is not empty, and no white space or control
/// character anywhere.
pub open spec fn is_valid_url(url: Seq<char>) -> bool {
    match link_body(url) {
        Some(body) => {
            &&& body.len() > 0
            &&& !is_host_stop(body[0])
            &&& forall|i: int| 0 <= i < url.len() ==> !is_link_break(#[trigger] url[i])
        },
        None => false,
    }
}

/// The description of a card whose article came without one.
pub open spec fn placeholder() -> Seq<char> {
    "..."@
}

/// An article as the news service describes it.
#[derive(Debug, PartialEq, Eq)]
pub struct Article {
    pub title: Option<String>,
    pub url: Option<String>,
    pub description: Option<String>,
}

/// An article as the contracts see it.
pub struct ArticleView {
    pub title: Option<Seq<char>>,
    pub url: Option<Seq<char>>,
    pub description: Option<Seq<char>>,
}

/// The text of an optional string.
pub open spec fn text_of(field: Option<String>) -> Option<Seq<char>> {
    match field {
        Some(s) => Some(s@),
        None => None,
    }
}

impl View for Article {
    type V = ArticleView;

    open spec fn view(&self) -> ArticleView {
        ArticleView {
            title: text_of(self.title),
            url: text_of(self.url),
            description: text_of(self.description),
        }
    }
}

fn copy_of(field: &Option<String>) -> (copy: Option<String>)
    ensures
        text_of(copy) == text_of(*field),
{
    match field {
        Some(text) => Some(text.clone()),
        None => None,
    }
}

impl Clone for Article {
    fn clone(&self) -> (copy: Self)
        ensures
            copy@ == self@,
    {
        Article {
            title: copy_of(&self.title),
            url: copy_of(&self.url),
            description: copy_of(&self.description),
        }
    }
}

/// Why an article gives no card.
#[derive(Clone, Copy, Debug, PartialEq, Eq, Structural)]
pub enum MalformedArticle {
    /// The article has no title.
    MissingTitle,
    /// The title is the empty text.
    EmptyTitle,
    /// The article has no link.
    MissingUrl,
    /// The link is not an absolute `http` or `https` link.
    InvalidUrl,
}

/// A card as the contracts see it.
pub struct CardView {
    pub title: Seq<char>,
    pub url: Seq<char>,
    pub desc: Seq<char>,
}

impl CardView {
    /// What holds of every card: it has a title, and its link can be opened.
    pub open spec fn is_valid(self) -> bool {
        self.title.len() > 0 && is_valid_url(self.url)
    }
}

/// The card that three texts make, or the reason why they make none. The title
/// is judged first.
pub open spec fn card_of_parts(title: Seq<char>, url: Seq<char>, desc: Seq<char>) -> Result<
    CardView,
    MalformedArticle,
> {
    if title.len() == 0 {
        Err(MalformedArticle::EmptyTitle)
    } else if !is_valid_url(url) {
        Err(MalformedArticle::InvalidUrl)
    } else {
        Ok(CardView { title, url, desc })
    }
}

/// The card that an article gives, or the reason why it gives none. A missing
/// description never costs the card: the placeholder stands in for it.
pub open spec fn card_of(article: ArticleView) -> Result<CardView, MalformedArticle> {
    match article.title {
        None => Err(MalformedArticle::MissingTitle),
        Some(title) => if title.len() == 0 {
            Err(MalformedArticle::EmptyTitle)
        } else {
            match article.url {
                None => Err(MalformedArticle::MissingUrl),
                Some(url) => card_of_parts(
                    title,
                    url,
                    match article.description {
                        Some(desc) => desc,
                        None => placeholder(),
                    },
                ),
            }
        },
    }
}

/// The cards that a run of articles gives: each article's card in the
/// article's place, with the malformed articles left out.
pub open spec fn cards_of(articles: Seq<ArticleView>) -> Seq<CardView>
    decreases articles.len(),
{
    if articles.len() == 0 {
        Seq::empty()
    } else {
        let before = cards_of(articles.drop_last());
        match card_of(articles.last()) {
            Ok(card) => before.push(card),
            Err(_) => before,
        }
    }
}

/// The articles as the contracts see them.
pub open spec fn article_views(articles: Seq<Article>) -> Seq<ArticleView> {
    articles.map_values(|a: Article| a@)
}

/// The cards as the contracts see them.
pub open spec fn card_views(cards: Seq<NewsCardData>) -> Seq<CardView> {
    cards.map_values(|c: NewsCardData| c@)
}

/// One headline as the window shows it. A card cannot be changed once made.
#[derive(Debug, PartialEq, Eq)]
pub struct NewsCardData {
    title: String,
    url: String,
    desc: String,
}

impl View for NewsCardData {
    type V = CardView;

    closed spec fn view(&self) -> CardView {
        CardView { title: self.title@, url: self.url@, desc: self.desc@ }
    }
}

impl Clone for NewsCardData {
    fn clone(&self) -> (copy: Self)
        ensures
            copy@ == self@,
    {
        proof {
            use_type_invariant(self);
        }
        NewsCardData { title: self.title.clone(), url: self.url.clone(), desc: self.desc.clone() }
    }
}

impl NewsCardData {
    /// Every card is valid, from the moment it is made.
    #[verifier::type_invariant]
    pub open spec fn well_formed(self) -> bool {
        self@.is_valid()
    }

    /// Makes a card of a title, a link and a description.
    pub fn new(title: String, url: String, desc: String) -> (made: Result<Self, MalformedArticle>)
        ensures
            match (made, card_of_parts(title@, url@, desc@)) {
                (Ok(card), Ok(view)) => card@ == view,
                (Err(e), Err(f)) => e == f,
                _ => false,
            },
    {
        if title.as_str().is_empty() {
            Err(MalformedArticle::EmptyTitle)
        } else if !valid_url(url.as_str()) {
            Err(MalformedArticle::InvalidUrl)
        } else {
            Ok(NewsCardData { title, url, desc })
        }
    }

    pub fn title(&self) -> (title: &str)
        ensures
            title@ == self@.title,
            title@.len() > 0,
    {
        proof {
            use_type_invariant(self);
        }
        self.title.as_str()
    }

    /// The link, letter for letter as the card was made with it: the case of
    /// its scheme is kept too.
    pub fn url(&self) -> (url: &str)
        ensures
            url@ == self@.url,
            is_valid_url(url@),
    {
        proof {
            use_type_invariant(self);
        }
        self.url.as_str()
    }

    pub fn desc(&self) -> (desc: &str)
        ensures
            desc@ == self@.desc,
    {
        self.desc.as_str()
    }
}

fn unbroken(text: &str) -> (clean: bool)
    ensures
        clean == (forall|i: int| 0 <= i < text@.len() ==> !is_link_break(#[trigger] text@[i])),
{
    broadcast use group_string_axioms;

    let mut clean: bool = true;
    for c in it: text.chars()
        invariant
            it.seq() == text@,
            clean == (forall|i: int| 0 <= i < it.index() ==> !is_link_break(#[trigger] text@[i])),
    {
        let code: u32 = c as u32;
        if code <= 0x20 || code == 0x7f {
            clean = false;
        }
    }
    clean
}

fn letters_match(a: char, b: char) -> (same: bool)
    ensures
        same == same_letter(a, b),
{
    let x: u32 = a as u32;
    let y: u32 = b as u32;
    a == b || (0x41 <= x && x <= 0x5a && x + 0x20 == y) || (0x41 <= y && y <= 0x5a && y + 0x20
        == x)
}

fn starts_with_scheme(text: &str, scheme: &str) -> (found: bool)
    ensures
        found == has_scheme(text@, scheme@),
{
    let n: usize = scheme.unicode_len();
    if text.unicode_len() < n {
        return false;
    }
    let mut i: usize = 0;
    while i < n
        invariant
            i <= n,
            n == scheme@.len(),
            n <= text@.len(),
            forall|j: int| 0 <= j < i ==> #[trigger] same_letter(text@[j], scheme@[j]),
        decreases n - i,
    {
        if !letters_match(text.get_char(i), scheme.get_char(i)) {
            return false;
        }
        i += 1;
    }
    true
}

/// Tells whether `url` is an absolute `http` or `https` link.
pub fn valid_url(url: &str) -> (valid: bool)
    ensures
        valid == is_valid_url(url@),
{
    let scheme: &str = if starts_with_scheme(url, "https://") {
        "https://"
    } else if starts_with_scheme(url, "http://") {
        "http://"
    } else {
        return false;
    };
    let n: usize = scheme.unicode_len();
    assert(link_body(url@) == Some(url@.skip(n as int)));
    if url.unicode_len() <= n {
        return false;
    }
    let first: char = url.get_char(n);
    assert(url@.skip(n as int)[0] == first);
    if first == '/' || first == '?' || first == '#' {
        return false;
    }
    unbroken(url)
}

/// Makes the card of one article. An article without a description gets the
/// placeholder `"..."`.
pub fn card_from_article(article: &Article) -> (made: Result<NewsCardData, MalformedArticle>)
    ensures
        match (made, card_of(article@)) {
            (Ok(card), Ok(view)) => card@ == view,
            (Err(e), Err(f)) => e == f,
            _ => false,
        },
{
    let title: String = match &article.title {
        Some(title) => title.clone(),
        None => {
            return Err(MalformedArticle::MissingTitle);
        },
    };
    if title.as_str().is_empty() {
        return Err(MalformedArticle::EmptyTitle);
    }
    let url: String = match &article.url {
        Some(url) => url.clone(),
        None => {
            return Err(MalformedArticle::MissingUrl);
        },
    };
    let desc: String = match &article.description {
        Some(desc) => desc.clone(),
        None => "...".to_owned(),
    };
    NewsCardData::new(title, url, desc)
}

/// Makes the cards of a run of articles, in the articles' order. A malformed
/// article is passed over and the rest still get their cards.
pub fn cards_from_articles(articles: &Vec<Article>) -> (cards: Vec<NewsCardData>)
    ensures
        card_views(cards@) == cards_of(article_views(articles@)),
{
    let mut cards: Vec<NewsCardData> = Vec::new();
    let n: usize = articles.len();
    let mut i: usize = 0;
    assert(article_views(articles@).take(0) == Seq::<ArticleView>::empty());
    assert(card_views(cards@) == Seq::<CardView>::empty());
    while i < n
        invariant
            i <= n,
            n == articles@.len(),
            card_views(cards@) == cards_of(article_views(articles@).take(i as int)),
        decreases n - i,
    {
        let ghost seen = article_views(articles@).take(i as int);
        let ghost next = article_views(articles@).take(i + 1);
        let ghost before = cards@;
        assert(next.drop_last() == seen);
        assert(next.last() == articles@[i as int]@);
        match card_from_article(&articles[i]) {
            Ok(card) => {
                cards.push(card);
                assert(card_views(cards@) == card_views(before).push(card@));
            },
            Err(_) => {},
        }
        i += 1;
    }
    assert(article_views(articles@).take(n as int) == article_views(articles@));
    cards
}

/// Every card made of articles has a title and a link that can be opened.
pub proof fn lemma_cards_are_valid(articles: Seq<ArticleView>)
    ensures
        forall|i: int| 0 <= i < cards_of(articles).len() ==> (#[trigger] cards_of(articles)[i]).is_valid(),
    decreases articles.len(),
{
    if articles.len() > 0 {
        let before = cards_of(articles.drop_last());
        lemma_cards_are_valid(articles.drop_last());
        assert forall|i: int| 0 <= i < cards_of(articles).len() implies (#[trigger] cards_of(
            articles,
        )[i]).is_valid() by {
            if i < before.len() {
                assert(cards_of(articles)[i] == before[i]);
            }
        }
    }
}

/// Articles never give more cards than there are articles.
pub proof fn lemma_cards_are_no_more(articles: Seq<ArticleView>)
    ensures
        cards_of(articles).len() <= articles.len(),
    decreases articles.len(),
{
    if articles.len() > 0 {
        lemma_cards_are_no_more(articles.drop_last());
    }
}

/// The cards of two runs of articles, one after the other, are the cards of the
/// first run followed by the cards of the second.
pub proof fn lemma_cards_of_concat(first: Seq<ArticleView>, second: Seq<ArticleView>)
    ensures
        cards_of(first + second) == cards_of(first) + cards_of(second),
    decreases second.len(),
{
    if second.len() == 0 {
        assert(first + second == first);
        assert(cards_of(first) + cards_of(second) == cards_of(first));
    } else {
        lemma_cards_of_concat(first, second.drop_last());
        assert((first + second).drop_last() == first + second.drop_last());
        assert((first + second).last() == second.last());
        match card_of(second.last()) {
            Ok(card) => {
                assert((cards_of(first) + cards_of(second.drop_last())).push(card) == cards_of(first)
                    + cards_of(second.drop_last()).push(card));
            },
            Err(_) => {},
        }
    }
}

/// Where every article is well formed, there is one card for each article, in
/// the article's place and made of that article.
pub proof fn lemma_cards_keep_order(articles: Seq<ArticleView>)
    requires
        forall|i: int| 0 <= i < articles.len() ==> card_of(#[trigger] articles[i]) is Ok,
    ensures
        cards_of(articles).len() == articles.len(),
        forall|i: int|
            0 <= i < articles.len() ==> Ok::<CardView, MalformedArticle>(
                #[trigger] cards_of(articles)[i],
            ) == card_of(articles[i]),
    decreases articles.len(),
{
    if articles.len() > 0 {
        let before = articles.drop_last();
        assert forall|i: int| 0 <= i < before.len() implies card_of(#[trigger] before[i]) is Ok by {
            assert(before[i] == articles[i]);
        }
        lemma_cards_keep_order(before);
        assert forall|i: int| 0 <= i < articles.len() implies Ok::<CardView, MalformedArticle>(
            #[trigger] cards_of(articles)[i],
        ) == card_of(articles[i]) by {
            if i < before.len() {
                assert(before[i] == articles[i]);
            }
        }
    }
}

/// An article that lacks only its description still gives a card, and that
/// card's description is the placeholder.
pub proof fn lemma_description_fallback(article: ArticleView)
    requires
        article.description is None,
    ensures
        card_of(article) is Ok <==> {
            &&& article.title matches Some(title) && title.len() > 0
            &&& article.url matches Some(url) && is_valid_url(url)
        },
        card_of(article) matches Ok(card) ==> card.desc == placeholder(),
{
}

} // verus!
