//! The configuration store: the API key and the theme.
//!
//! The store starts with no key and the dark theme. The first key that is set
//! is announced to the fetch worker by a [`Msg`]; a store announces its key
//! once and never again.

use vstd::prelude::*;

verus! {

/// What the window tells the fetch worker.
#[derive(Debug, PartialEq, Eq)]
pub enum Msg {
    /// The API key has been set to the text carried.
    ApiKeySet(String),
}

/// A message as the contracts see it.
pub enum MsgView {
    ApiKeySet(Seq<char>),
}

impl MsgView {
    /// The key that the message carries.
    pub open spec fn key(self) -> Seq<char> {
        match self {
            MsgView::ApiKeySet(key) => key,
        }
    }
}

impl View for Msg {
    type V = MsgView;

    open spec fn view(&self) -> MsgView {
        match self {
            Msg::ApiKeySet(key) => MsgView::ApiKeySet(key@),
        }
    }
}

impl Clone for Msg {
    fn clone(&self) -> (copy: Self)
        ensures
            copy@ == self@,
    {
        match self {
            Msg::ApiKeySet(key) => Msg::ApiKeySet(key.clone()),
        }
    }
}

/// One of the two sets of colours.
#[derive(Clone, Copy, Debug, PartialEq, Eq, Structural)]
pub enum Palette {
    Dark,
    Light,
}

/// The configuration as the contracts see it.
pub struct ConfigView {
    pub api_key: Seq<char>,
    pub dark_mode: bool,
}

impl ConfigView {
    /// The store as it is when the program starts: no key, dark theme.
    pub open spec fn initial() -> ConfigView {
        ConfigView { api_key: Seq::empty(), dark_mode: true }
    }

    /// A store is initialized once it holds a key.
    pub open spec fn is_initialized(self) -> bool {
        self.api_key.len() > 0
    }

    /// The store after `key` was offered to it: the empty text changes nothing.
    pub open spec fn with_api_key(self, key: Seq<char>) -> ConfigView {
        if key.len() == 0 {
            self
        } else {
            ConfigView { api_key: key, ..self }
        }
    }

    /// The message that offering `key` sends out: one only when the store had
    /// no key before and has one after.
    pub open spec fn announces(self, key: Seq<char>) -> Option<MsgView> {
        if !self.is_initialized() && key.len() > 0 {
            Some(MsgView::ApiKeySet(key))
        } else {
            None
        }
    }

    pub open spec fn with_dark_mode(self, dark_mode: bool) -> ConfigView {
        ConfigView { dark_mode, ..self }
    }

    pub open spec fn toggled(self) -> ConfigView {
        ConfigView { dark_mode: !self.dark_mode, ..self }
    }

    /// The store after the theme was toggled `times` times.
    pub open spec fn toggled_times(self, times: nat) -> ConfigView
        decreases times,
    {
        if times == 0 {
            self
        } else {
            self.toggled_times((times - 1) as nat).toggled()
        }
    }

    pub open spec fn palette(self) -> Palette {
        if self.dark_mode {
            Palette::Dark
        } else {
            Palette::Light
        }
    }

    /// The store after each of `keys` was offered to it in turn.
    pub open spec fn with_api_keys(self, keys: Seq<Seq<char>>) -> ConfigView
        decreases keys.len(),
    {
        if keys.len() == 0 {
            self
        } else {
            self.with_api_keys(keys.drop_last()).with_api_key(keys.last())
        }
    }

    /// How many messages go out while each of `keys` is offered in turn.
    pub open spec fn announcements(self, keys: Seq<Seq<char>>) -> nat
        decreases keys.len(),
    {
        if keys.len() == 0 {
            0
        } else {
            let before = self.with_api_keys(keys.drop_last());
            let earlier = self.announcements(keys.drop_last());
            if before.announces(keys.last()) is Some {
                earlier + 1
            } else {
                earlier
            }
        }
    }
}

/// The API key and the theme.
#[derive(Debug, PartialEq, Eq)]
pub struct HeadlinesConfig {
    api_key: String,
    dark_mode: bool,
}

impl View for HeadlinesConfig {
    type V = ConfigView;

    closed spec fn view(&self) -> ConfigView {
        ConfigView { api_key: self.api_key@, dark_mode: self.dark_mode }
    }
}

impl Clone for HeadlinesConfig {
    fn clone(&self) -> (copy: Self)
        ensures
            copy@ == self@,
    {
        HeadlinesConfig { api_key: self.api_key.clone(), dark_mode: self.dark_mode }
    }
}

impl Default for HeadlinesConfig {
    fn default() -> (config: Self)
        ensures
            config@ == ConfigView::initial(),
    {
        HeadlinesConfig::new()
    }
}

impl HeadlinesConfig {
    /// A store with no key and the dark theme.
    pub fn new() -> (config: Self)
        ensures
            config@ == ConfigView::initial(),
    {
        HeadlinesConfig { api_key: String::new(), dark_mode: true }
    }

    /// A store that starts out with `api_key`, which may be empty, and the dark
    /// theme. Nothing is announced for a key given here.
    pub fn with_key(api_key: String) -> (config: Self)
        ensures
            config@ == (ConfigView { api_key: api_key@, dark_mode: true }),
    {
        HeadlinesConfig { api_key, dark_mode: true }
    }

    pub fn api_key(&self) -> (key: &str)
        ensures
            key@ == self@.api_key,
    {
        self.api_key.as_str()
    }

    pub fn dark_mode(&self) -> (dark: bool)
        ensures
            dark == self@.dark_mode,
    {
        self.dark_mode
    }

    pub fn is_initialized(&self) -> (initialized: bool)
        ensures
            initialized == self@.is_initialized(),
    {
        !self.api_key.as_str().is_empty()
    }

    pub fn palette(&self) -> (palette: Palette)
        ensures
            palette == self@.palette(),
    {
        if self.dark_mode {
            Palette::Dark
        } else {
            Palette::Light
        }
    }

    /// Offers `key` to the store. The empty text is turned down and changes
    /// nothing. Any other text becomes the key, and where the store had no key
    /// before, the message for the fetch worker is returned.
    pub fn set_api_key(&mut self, key: &str) -> (announced: Option<Msg>)
        ensures
            final(self)@ == old(self)@.with_api_key(key@),
            match (announced, old(self)@.announces(key@)) {
                (Some(msg), Some(view)) => msg@ == view,
                (None, None) => true,
                _ => false,
            },
    {
        if key.is_empty() {
            return None;
        }
        let first: bool = self.api_key.as_str().is_empty();
        self.api_key = key.to_owned();
        if first {
            Some(Msg::ApiKeySet(key.to_owned()))
        } else {
            None
        }
    }

    pub fn set_dark_mode(&mut self, dark_mode: bool)
        ensures
            final(self)@ == old(self)@.with_dark_mode(dark_mode),
    {
        self.dark_mode = dark_mode;
    }

    /// Changes from one palette to the other.
    pub fn toggle_dark_mode(&mut self)
        ensures
            final(self)@ == old(self)@.toggled(),
    {
        self.dark_mode = !self.dark_mode;
    }
}

/// Toggling the theme an even number of times gives back the store, and with
/// it the palette, that one began with.
pub proof fn lemma_toggle_even(config: ConfigView, n: nat)
    ensures
        config.toggled_times(2 * n) == config,
        config.toggled_times(2 * n).palette() == config.palette(),
    decreases n,
{
    if n > 0 {
        lemma_toggle_even(config, (n - 1) as nat);
        assert(config.toggled_times(2 * n) == config.toggled_times((2 * n - 1) as nat).toggled());
        assert(config.toggled_times((2 * n - 1) as nat) == config.toggled_times(
            (2 * (n - 1)) as nat,
        ).toggled());
        assert(config.toggled().toggled() == config);
    }
}

/// A store that is initialized stays so whatever keys are offered to it, and
/// announces nothing more.
pub proof fn lemma_initialized_is_kept(config: ConfigView, keys: Seq<Seq<char>>)
    requires
        config.is_initialized(),
    ensures
        config.with_api_keys(keys).is_initialized(),
        config.announcements(keys) == 0,
    decreases keys.len(),
{
    if keys.len() > 0 {
        lemma_initialized_is_kept(config, keys.drop_last());
    }
}

/// However many keys are offered, the store announces at most one of them:
/// exactly one where it began without a key and some key offered is not empty,
/// none otherwise.
pub proof fn lemma_announces_once(config: ConfigView, keys: Seq<Seq<char>>)
    ensures
        config.announcements(keys) <= 1,
        config.announcements(keys) == 1 <==> !config.is_initialized() && exists|i: int|
            0 <= i < keys.len() && (#[trigger] keys[i]).len() > 0,
        config.with_api_keys(keys).is_initialized() <==> config.is_initialized() || exists|i: int|
            0 <= i < keys.len() && (#[trigger] keys[i]).len() > 0,
    decreases keys.len(),
{
    if keys.len() > 0 {
        let earlier = keys.drop_last();
        lemma_announces_once(config, earlier);
        if exists|i: int| 0 <= i < earlier.len() && (#[trigger] earlier[i]).len() > 0 {
            let i = choose|i: int| 0 <= i < earlier.len() && (#[trigger] earlier[i]).len() > 0;
            assert(keys[i] == earlier[i]);
        }
        if exists|i: int| 0 <= i < keys.len() && (#[trigger] keys[i]).len() > 0 {
            let i = choose|i: int| 0 <= i < keys.len() && (#[trigger] keys[i]).len() > 0;
            if i < earlier.len() {
                assert(earlier[i] == keys[i]);
            } else {
                assert(keys.last() == keys[i]);
            }
        }
        if keys.last().len() > 0 {
            assert(keys[keys.len() - 1] == keys.last());
        }
    }
}

} // verus!
