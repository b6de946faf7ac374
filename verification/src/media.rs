//! The kinds of media a catalog can list.

use vstd::prelude::*;
use vstd::string::*;
use crate::text::{decimal, push_decimal};

verus! {

/// One entry of a catalog.
#[derive(Debug)]
pub enum Media {
    Book { title: String, author: String },
    Movie { title: String, director: String },
    Audiobook { title: String },
    /// A podcast, known by its episode number.
    Podcast(u32),
    Placeholder,
}

impl Media {
    /// The one-line description of this entry, as a sequence of characters.
    pub open spec fn description_text(&self) -> Seq<char> {
        match self {
            Media::Book { title, author } => "Book: "@ + title@ + " by "@ + author@,
            Media::Movie { title, director } => "Movie: "@ + title@ + " by "@ + director@,
            Media::Audiobook { title } => "Audiobook: "@ + title@,
            Media::Podcast(episode_number) => "Podcast episode number: "@ + decimal(
                *episode_number as nat,
            ),
            Media::Placeholder => "Placeholder"@,
        }
    }

    /// A one-line description: the kind of entry, then what identifies it.
    pub fn description(&self) -> (text: String)
        ensures
            text@ == self.description_text(),
    {
        match self {
            Media::Book { title, author } => {
                let mut text = String::from_str("Book: ");
                text.append(title.as_str());
                text.append(" by ");
                text.append(author.as_str());
                text
            },
            Media::Movie { title, director } => {
                let mut text = String::from_str("Movie: ");
                text.append(title.as_str());
                text.append(" by ");
                text.append(director.as_str());
                text
            },
            Media::Audiobook { title } => {
                let mut text = String::from_str("Audiobook: ");
                text.append(title.as_str());
                text
            },
            Media::Podcast(episode_number) => {
                let mut text = String::from_str("Podcast episode number: ");
                push_decimal(&mut text, *episode_number as u128);
                text
            },
            Media::Placeholder => String::from_str("Placeholder"),
        }
    }
}

} // verus!
