//! The languages the interface can be asked for.

use vstd::prelude::*;

verus! {

/// Supported interface languages.
#[derive(Clone, Copy, Debug, PartialEq, Eq, Structural)]
pub enum Language {
    English,
    Ukrainian,
    Russian,
    Chinese,
}

impl Language {
    /// All supported languages, in menu order.
    pub fn all() -> (r: Vec<Language>)
        ensures
            r@ == seq![
                Language::English,
                Language::Ukrainian,
                Language::Russian,
                Language::Chinese,
            ],
    {
        let mut v: Vec<Language> = Vec::new();
        v.push(Language::English);
        v.push(Language::Ukrainian);
        v.push(Language::Russian);
        v.push(Language::Chinese);
        proof {
            assert(v@ =~= seq![
                Language::English,
                Language::Ukrainian,
                Language::Russian,
                Language::Chinese,
            ]);
        }
        v
    }

    /// The language's own name, written in its own script.
    pub open spec fn spec_name(self) -> Seq<char> {
        match self {
            Language::English => "English"@,
            Language::Ukrainian => "Українська"@,
            Language::Russian => "Русский"@,
            Language::Chinese => "中文"@,
        }
    }

    /// Human-readable native name of the language.
    pub fn name(&self) -> (r: &'static str)
        ensures
            r@ == self.spec_name(),
    {
        match self {
            Language::English => "English",
            Language::Ukrainian => "Українська",
            Language::Russian => "Русский",
            Language::Chinese => "中文",
        }
    }

    /// The ISO 639-1 code of the language.
    pub open spec fn spec_code(self) -> Seq<char> {
        match self {
            Language::English => "en"@,
            Language::Ukrainian => "uk"@,
            Language::Russian => "ru"@,
            Language::Chinese => "zh"@,
        }
    }

    /// Language code (ISO 639-1).
    pub fn code(&self) -> (r: &'static str)
        ensures
            r@ == self.spec_code(),
    {
        match self {
            Language::English => "en",
            Language::Ukrainian => "uk",
            Language::Russian => "ru",
            Language::Chinese => "zh",
        }
    }

    /// The language picked by a 1-based menu choice: out-of-range choices
    /// clamp to the menu, as the selection prompt promises.
    pub fn from_choice(choice: usize) -> (r: Language)
        ensures
            choice <= 1 ==> r == Language::English,
            choice == 2 ==> r == Language::Ukrainian,
            choice == 3 ==> r == Language::Russian,
            choice >= 4 ==> r == Language::Chinese,
    {
        if choice <= 1 {
            Language::English
        } else if choice == 2 {
            Language::Ukrainian
        } else if choice == 3 {
            Language::Russian
        } else {
            Language::Chinese
        }
    }
}

} // verus!
