//! User settings.

use vstd::prelude::*;

verus! {

#[derive(Debug, Clone)]
pub struct Config {
    pub theme: String,
    pub mode: String,
    pub time: u64,
    pub words: usize,
}

impl Config {
    /// The settings a new user starts with: dark theme, timed mode, 60
    /// seconds, 50 words.
    pub open spec fn is_default(&self) -> bool {
        &&& self.theme@ == "dark"@
        &&& self.mode@ == "time"@
        &&& self.time == 60
        &&& self.words == 50
    }

    pub fn new() -> (r: Config)
        ensures
            r.is_default(),
    {
        Config::default()
    }

    pub fn get_theme(&self) -> (r: String)
        ensures
            r@ == self.theme@,
    {
        self.theme.clone()
    }

    pub fn get_mode(&self) -> (r: String)
        ensures
            r@ == self.mode@,
    {
        self.mode.clone()
    }

    pub fn get_time(&self) -> (r: u64)
        ensures
            r == self.time,
    {
        self.time
    }

    pub fn get_words(&self) -> (r: usize)
        ensures
            r == self.words,
    {
        self.words
    }
}

impl Default for Config {
    fn default() -> (r: Config)
        ensures
            r.is_default(),
    {
        Config {
            theme: String::from_str("dark"),
            mode: String::from_str("time"),
            time: 60,
            words: 50,
        }
    }
}

} // verus!
