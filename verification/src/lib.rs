//! Core logic of a headline reader.
//!
//! A background worker asks a news service for the current headlines and sends
//! them, card by card, to a window that shows them in a list. This library
//! holds what both sides decide and nothing of what they do to the outside
//! world:
//!
//! - [`card`]: the articles that the news service returns, and the cards made
//!   of them;
//! - [`config`]: the API key and the theme;
//! - [`fetcher`]: when the worker fetches, and what it publishes;
//! - [`ui`]: the state behind the window, frame by frame;
//! - [`channel`]: the channels of the standard library that join the two;
//! - [`pipeline`]: what holds of worker and window together.

pub mod card;
pub mod channel;
pub mod config;
pub mod fetcher;
pub mod pipeline;
pub mod ui;

pub use crate::card::{Article, MalformedArticle, NewsCardData};
pub use crate::config::{HeadlinesConfig, Msg, Palette};
pub use crate::fetcher::{
    ChannelSendFailure, CycleReport, Directive, FetchError, Fetcher, PublishStep,
};
pub use crate::ui::{Headlines, SaveOutcome, Screen, WorkerLink};
