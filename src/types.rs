//! Settings vocabulary shared by the engines: modes, difficulties, topics,
//! platforms and themes.

use vstd::prelude::*;
use crate::chars::{chars_of, same_chars};

verus! {

#[derive(Debug, Clone, Copy, PartialEq, Eq, Hash, Structural)]
pub enum Platform {
    Desktop,
    Web,
    Mobile,
}

#[derive(Debug, Clone, Copy, PartialEq, Eq, Hash, Structural)]
pub enum GameMode {
    Normal,
    Programming,
    Security,
    Multiplayer,
    Zen,
    Time(u64),
    Words(usize),
    Quote,
}

impl Default for GameMode {
    fn default() -> (r: GameMode)
        ensures
            r == GameMode::Normal,
    {
        GameMode::Normal
    }
}

#[derive(Debug, Clone, Copy, PartialEq, Eq, Hash, Structural)]
pub enum Difficulty {
    Basic,
    Intermediate,
    Advanced,
    Easy,
    Medium,
    Hard,
}

#[derive(Debug, Clone, Copy, PartialEq, Eq, Hash, Structural)]
pub enum Topic {
    General,
    Programming,
    Security,
    DataStructures,
    Algorithms,
    RedTeam,
    BlueTeam,
    Gaming,
}

#[derive(Debug, Clone, Copy, PartialEq, Eq, Structural)]
pub enum Theme {
    Light,
    Dark,
}

impl Default for Theme {
    fn default() -> (r: Theme)
        ensures
            r == Theme::Dark,
    {
        Theme::Dark
    }
}

impl Theme {
    /// The theme's name: "light" or "dark".
    pub open spec fn name_spec(&self) -> Seq<char> {
        match self {
            Theme::Light => "light"@,
            Theme::Dark => "dark"@,
        }
    }

    pub fn name(&self) -> (r: String)
        ensures
            r@ == self.name_spec(),
    {
        match self {
            Theme::Light => String::from_str("light"),
            Theme::Dark => String::from_str("dark"),
        }
    }

    /// The theme called `name`: "light" names the light theme, anything else
    /// the dark one.
    pub fn from_name(name: &str) -> (r: Theme)
        ensures
            r == (if name@ == "light"@ {
                Theme::Light
            } else {
                Theme::Dark
            }),
    {
        let given = chars_of(name);
        let light = chars_of("light");
        if same_chars(given.as_slice(), light.as_slice()) {
            Theme::Light
        } else {
            Theme::Dark
        }
    }
}

#[derive(Debug, Clone)]
pub struct GameConfig {
    pub mode: GameMode,
    pub difficulty: Difficulty,
    pub topic: Topic,
    pub time_limit: Option<u64>,
    pub word_count: Option<usize>,
    pub custom_text: Option<String>,
    pub multiplayer: bool,
    pub quote_length: usize,
    pub theme: Theme,
}

impl Default for GameConfig {
    fn default() -> (r: GameConfig)
        ensures
            r.mode == GameMode::Normal,
            r.difficulty == Difficulty::Basic,
            r.topic == Topic::General,
            r.time_limit is None,
            r.word_count is None,
            r.custom_text is None,
            !r.multiplayer,
            r.quote_length == 50,
            r.theme == Theme::Dark,
    {
        GameConfig {
            mode: GameMode::Normal,
            difficulty: Difficulty::Basic,
            topic: Topic::General,
            time_limit: None,
            word_count: None,
            custom_text: None,
            multiplayer: false,
            quote_length: 50,
            theme: Theme::Dark,
        }
    }
}

/// Read access to the settings of a game.
pub trait GameModeTrait {
    fn get_mode(&self) -> GameMode;

    fn get_difficulty(&self) -> Difficulty;

    fn get_topic(&self) -> Topic;

    fn get_time_limit(&self) -> Option<u64>;

    fn get_word_count(&self) -> Option<usize>;

    fn get_custom_text(&self) -> Option<&str>;

    fn is_multiplayer(&self) -> bool;

    fn get_quote_length(&self) -> usize;

    fn get_theme(&self) -> &Theme;
}

impl GameModeTrait for GameConfig {
    fn get_mode(&self) -> GameMode {
        self.mode
    }

    fn get_difficulty(&self) -> Difficulty {
        self.difficulty
    }

    fn get_topic(&self) -> Topic {
        self.topic
    }

    fn get_time_limit(&self) -> Option<u64> {
        self.time_limit
    }

    fn get_word_count(&self) -> Option<usize> {
        self.word_count
    }

    fn get_custom_text(&self) -> Option<&str> {
        match &self.custom_text {
            Some(s) => Some(s.as_str()),
            None => None,
        }
    }

    fn is_multiplayer(&self) -> bool {
        self.multiplayer
    }

    fn get_quote_length(&self) -> usize {
        self.quote_length
    }

    fn get_theme(&self) -> &Theme {
        &self.theme
    }
}

} // verus!
