//! The manuscript configuration: metadata, author, agent and the structure
//! of parts, chapters and text files.
use vstd::prelude::*;

verus! {

/// A whole manuscript configuration.
#[derive(Debug)]
pub struct Config {
    pub metadata: Metadata,
    pub author: Author,
    pub agent: Option<Agent>,
    pub structure: Vec<StructureItem>,
}

/// Title-page and file information.
#[derive(Debug)]
pub struct Metadata {
    pub title: String,
    pub subtitle: Option<String>,
    pub byline: String,
    pub genre: Option<String>,
    /// The title in the page header.
    pub short_title: String,
    /// The author's last name in the page header.
    pub last_name: String,
    /// The name of the output file (`manuscript.docx` when absent).
    pub file_name: Option<String>,
    /// `novel`, `short_story` (or `Short Story`) or anything else, compared
    /// without regard to case (`novel` when absent).
    pub story_type: Option<String>,
}

/// The author's contact details for the title page.
#[derive(Debug)]
pub struct Author {
    pub legal_name: String,
    pub pen_name: Option<String>,
    pub street_address: String,
    pub city_state_zip: String,
    pub phone: String,
    pub email: String,
    pub website: Option<String>,
}

/// The agent's contact details.
#[derive(Debug)]
pub struct Agent {
    pub name: String,
    pub agency: String,
    pub street_address: String,
    pub city_state_zip: String,
    pub phone: String,
    pub email: String,
}

/// One entry of the manuscript's structure.
#[derive(Debug)]
#[allow(inconsistent_fields)]
pub enum StructureItem {
    /// A part: a title page of its own and a list of chapters.
    Part { title: String, content: Vec<StructureItem> },
    /// A chapter, with an optional heading, from one file or from several
    /// scenes separated by a scene break.
    Chapter {
        title: Option<String>,
        number: Option<u32>,
        file: Option<String>,
        files: Option<Vec<String>>,
    },
    /// Text without a heading, from one file or several.
    Text { file: Option<String>, files: Option<Vec<String>> },
}

/// A manuscript file as it was read: its path as the structure names it,
/// and its text, or `None` where it could not be read.
#[derive(Debug)]
pub struct Source {
    pub path: String,
    pub content: Option<String>,
}

/// The text of the first source with path `path`, if it was read.
pub open spec fn source_text(sources: Seq<Source>, path: Seq<char>) -> Option<Seq<char>>
    decreases sources.len(),
{
    if sources.len() == 0 {
        None
    } else if sources[0].path@ == path {
        match sources[0].content {
            Some(c) => Some(c@),
            None => None,
        }
    } else {
        source_text(sources.drop_first(), path)
    }
}

/// The text read for `path`, if any.
pub fn find_source<'a>(sources: &'a Vec<Source>, path: &String) -> (r: Option<&'a String>)
    ensures
        match source_text(sources@, path@) {
            Some(t) => r matches Some(s) && s@ == t,
            None => r is None,
        },
{
    let mut i: usize = 0;
    assert(sources@.skip(0) == sources@);
    while i < sources.len()
        invariant
            i <= sources@.len(),
            source_text(sources@, path@) == source_text(sources@.skip(i as int), path@),
        decreases sources@.len() - i,
    {
        assert(sources@.skip(i as int).drop_first() == sources@.skip(i + 1));
        assert(sources@.skip(i as int)[0] == sources@[i as int]);
        if sources[i].path == *path {
            return match &sources[i].content {
                Some(c) => Some(c),
                None => None,
            };
        }
        i = i + 1;
    }
    None
}

} // verus!
