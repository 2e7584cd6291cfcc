//! The texts of the user interface in one language.

use std::collections::HashMap;
use vstd::prelude::*;
use vstd::std_specs::hash::lemma_hashmap_deepview_dom;

verus! {

/// The error that the JSON parser reports.
#[verifier::external_type_specification]
#[verifier::external_body]
pub struct ExJsonError(serde_json::Error);

/// The lines of one section of the interface, by key.
pub type Lines = Map<Seq<char>, Seq<char>>;

/// What `serde_json::from_str` makes of a text that is read as a map from
/// section names to maps from keys to lines; `None` where it reports an
/// error.
pub uninterp spec fn json_texts(text: Seq<char>) -> Option<Map<Seq<char>, Lines>>;

/// Calls `serde_json::from_str` for a map of maps of strings. The parser
/// reads nothing but the text, so the outcome is a function of the text: it
/// is named `json_texts`, and nothing more is claimed of it.
#[verifier::external_body]
fn parse_texts(text: &str) -> (r: Result<HashMap<String, HashMap<String, String>>, serde_json::Error>)
    ensures
        match r {
            Ok(texts) => json_texts(text@) == Some(texts.deep_view()),
            Err(_) => json_texts(text@) is None,
        },
{
    serde_json::from_str::<HashMap<String, HashMap<String, String>>>(text)
}

/// Calls `HashMap::get` on a map keyed by strings. As std documents, the
/// result is the value stored under the key, and `None` if the map holds no
/// such key; two strings are the same key if they hold the same characters.
#[verifier::external_body]
fn lookup<'a, V: DeepView>(map: &'a HashMap<String, V>, key: &str) -> (r: Option<&'a V>)
    ensures
        match r {
            Some(value) => map.deep_view().contains_key(key@) && map.deep_view()[key@]
                == value.deep_view(),
            None => !map.deep_view().contains_key(key@),
        },
{
    map.get(key)
}

/// The texts of one language: for each section of the interface, the line
/// to show for each key.
#[derive(Clone, Debug)]
pub struct Translation(pub HashMap<String, HashMap<String, String>>);

impl Translation {
    /// The sections by name, each with its lines by key.
    pub open spec fn texts(self) -> Map<Seq<char>, Lines> {
        self.0.deep_view()
    }

    /// The lines of a section; a section that the translation lacks has
    /// none.
    pub open spec fn lines_of(self, name: Seq<char>) -> Lines {
        if self.texts().contains_key(name) {
            self.texts()[name]
        } else {
            Map::empty()
        }
    }

    /// A translation without any section.
    pub fn new() -> (t: Translation)
        ensures
            t.texts() == Map::<Seq<char>, Lines>::empty(),
    {
        let t = Translation(HashMap::new());
        proof {
            lemma_hashmap_deepview_dom(t.0);
            assert(t.texts() =~= Map::<Seq<char>, Lines>::empty());
        }
        t
    }

    /// Parses the texts of a language: a JSON object of sections, each an
    /// object of lines. `None` where the parser rejects the text.
    pub fn from_json(text: &str) -> (r: Option<Translation>)
        ensures
            match r {
                Some(t) => json_texts(text@) == Some(t.texts()),
                None => json_texts(text@) is None,
            },
    {
        match parse_texts(text) {
            Ok(texts) => Some(Translation(texts)),
            Err(_) => None,
        }
    }

    /// The section of a name, if the translation has it.
    pub fn section(&self, name: &str) -> (r: Option<&HashMap<String, String>>)
        ensures
            r is Some <==> self.texts().contains_key(name@),
            r matches Some(lines) ==> lines.deep_view() == self.lines_of(name@),
    {
        lookup(&self.0, name)
    }
}

/// The line to show for a key: the section's line, and the key itself where
/// the section has none.
pub open spec fn line_of(lines: Lines, key: Seq<char>) -> Seq<char> {
    if lines.contains_key(key) {
        lines[key]
    } else {
        key
    }
}

impl Translation {
    /// The line of a section to show for a key: the key itself where the
    /// translation lacks the section or the section lacks the key.
    pub fn text(&self, section: &str, key: &str) -> (r: String)
        ensures
            r@ == line_of(self.lines_of(section@), key@),
    {
        match self.section(section) {
            Some(lines) => line_for(lines, key),
            None => key.to_owned(),
        }
    }
}

/// Looks a key up in a section.
pub fn line_for(lines: &HashMap<String, String>, key: &str) -> (r: String)
    ensures
        r@ == line_of(lines.deep_view(), key@),
{
    match lookup(lines, key) {
        Some(text) => text.clone(),
        None => key.to_owned(),
    }
}

} // verus!
