//! The languages of the user interface.

use vstd::prelude::*;

verus! {

/// Whether two texts hold the same characters.
pub fn same_text(a: &str, b: &str) -> (r: bool)
    ensures
        r == (a@ == b@),
{
    a.to_owned() == b.to_owned()
}

/// A language that the interface has texts for.
#[derive(Clone, Copy, Debug, PartialEq, Eq, Structural)]
pub enum Language {
    English,
    German,
}

impl Language {
    /// The code of the language, which also names its file of texts.
    pub open spec fn code_of(self) -> Seq<char> {
        match self {
            Language::English => "en"@,
            Language::German => "de"@,
        }
    }

    /// The language of a code; `None` for a code of no language.
    pub open spec fn coded(code: Seq<char>) -> Option<Language> {
        if code == "en"@ {
            Some(Language::English)
        } else if code == "de"@ {
            Some(Language::German)
        } else {
            None
        }
    }

    /// The language that the button switches to: the other one.
    pub open spec fn following(self) -> Language {
        match self {
            Language::English => Language::German,
            Language::German => Language::English,
        }
    }

    /// The code of the language.
    pub fn code(self) -> (r: &'static str)
        ensures
            r@ == self.code_of(),
    {
        match self {
            Language::English => "en",
            Language::German => "de",
        }
    }

    /// The language of a code.
    pub fn from_code(code: &str) -> (r: Option<Language>)
        ensures
            r == Self::coded(code@),
    {
        if same_text(code, "en") {
            Some(Language::English)
        } else if same_text(code, "de") {
            Some(Language::German)
        } else {
            None
        }
    }

    /// The language that the button switches to.
    pub fn next(self) -> (r: Language)
        ensures
            r == self.following(),
    {
        match self {
            Language::English => Language::German,
            Language::German => Language::English,
        }
    }

    /// The language to start with: German where the browser lists it among
    /// the user's languages, English otherwise.
    pub fn preferred(browser_languages: &Vec<String>) -> (r: Language)
        ensures
            r == (if exists|i: int|
                0 <= i < browser_languages.len() && (#[trigger] browser_languages[i])@ == "de"@ {
                Language::German
            } else {
                Language::English
            }),
    {
        let mut i: usize = 0;
        while i < browser_languages.len()
            invariant
                i <= browser_languages.len(),
                forall|k: int| 0 <= k < i ==> (#[trigger] browser_languages[k])@ != "de"@,
            decreases browser_languages.len() - i,
        {
            if same_text(browser_languages[i].as_str(), "de") {
                return Language::German;
            }
            i += 1;
        }
        Language::English
    }
}

/// The code that follows a code on the language button: the other
/// language's, and German's after a code of no language.
pub open spec fn following_code(code: Seq<char>) -> Seq<char> {
    match Language::coded(code) {
        Some(language) => language.following().code_of(),
        None => "de"@,
    }
}

/// The code that follows a code on the language button.
pub fn next_code(code: &str) -> (r: &'static str)
    ensures
        r@ == following_code(code@),
{
    match Language::from_code(code) {
        Some(language) => language.next().code(),
        None => Language::German.code(),
    }
}

/// The two codes differ, so each language is found again by its code.
pub proof fn lemma_codes_differ(language: Language)
    ensures
        Language::coded(language.code_of()) == Some(language),
        following_code(language.code_of()) == language.following().code_of(),
        language.following().following() == language,
{
    reveal_strlit("en");
    reveal_strlit("de");
    assert("en"@[0] != "de"@[0]);
}

} // verus!
