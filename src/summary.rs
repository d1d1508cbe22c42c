//! The per-file record that is stored: file identity, the display form of its tags,
//! and its rating.

use vstd::prelude::*;

use crate::pipeline::{Prediction, TaggingResult};
use crate::rating::{rating_label, Rating};
use crate::tag::fix_tag_underscore;
use crate::text::{join, joined};
use crate::video::display_names;

verus! {

/// The tags of one file by category, in display form.
#[derive(Debug, Clone)]
pub struct TaggingResultSimpleTags {
    pub rating: String,
    pub character: Vec<String>,
    pub general: Vec<String>,
}

/// The stored record of one file.
#[derive(Debug, Clone)]
pub struct TaggingResultSimple {
    pub filename: String,
    pub size: u64,
    pub hash: String,
    pub tags: String,
    pub rating: String,
    pub tagger: TaggingResultSimpleTags,
}

pub open spec fn views(v: Seq<String>) -> Seq<Seq<char>> {
    v.map_values(|s: String| s@)
}

/// The display names of a ranked list.
fn names_of(entries: &Prediction) -> (r: Vec<String>)
    ensures
        views(r@) == display_names(entries@),
{
    let mut r: Vec<String> = Vec::new();
    let mut i: usize = 0;
    while i < entries.len()
        invariant
            i <= entries@.len(),
            views(r@) == display_names(entries@.take(i as int)),
        decreases entries@.len() - i,
    {
        r.push(fix_tag_underscore(entries[i].0.as_str()));
        assert(display_names(entries@.take(i + 1)) == display_names(entries@.take(i as int)).push(
            display_names(entries@)[i as int],
        ));
        i = i + 1;
    }
    assert(entries@.take(entries@.len() as int) == entries@);
    r
}

impl TaggingResultSimpleTags {
    /// The top rating tag (empty if none) and the display names of the character and
    /// general tags.
    pub fn from_result(result: &TaggingResult) -> (r: TaggingResultSimpleTags)
        ensures
            r.rating@ == (if result.rating@.len() > 0 {
                result.rating@[0].0@
            } else {
                Seq::<char>::empty()
            }),
            views(r.character@) == display_names(result.character@),
            views(r.general@) == display_names(result.general@),
    {
        let rating = if result.rating.len() > 0 {
            result.rating[0].0.clone()
        } else {
            String::new()
        };
        TaggingResultSimpleTags {
            rating,
            character: names_of(&result.character),
            general: names_of(&result.general),
        }
    }
}

impl TaggingResultSimple {
    /// The record of an image: its tags are the character then the general tags, in
    /// display form, joined by ", ".
    pub fn from_parts(
        result: &TaggingResult,
        filename: String,
        size: u64,
        hash: String,
        rating: String,
    ) -> (r: TaggingResultSimple)
        ensures
            r.filename@ == filename@,
            r.size == size,
            r.hash@ == hash@,
            r.rating@ == rating@,
            r.tags@ == joined(
                display_names(result.character@) + display_names(result.general@),
                ", "@,
            ),
            r.tagger.rating@ == (if result.rating@.len() > 0 {
                result.rating@[0].0@
            } else {
                Seq::<char>::empty()
            }),
            views(r.tagger.character@) == display_names(result.character@),
            views(r.tagger.general@) == display_names(result.general@),
    {
        let tagger = TaggingResultSimpleTags::from_result(result);
        let mut all = tagger.character.clone();
        let mut rest = tagger.general.clone();
        proof {
            assert(views(all@) == views(tagger.character@));
        }
        let ghost a = all@;
        let ghost b = rest@;
        all.append(&mut rest);
        assert(views(all@) == views(a) + views(b));
        let tags = join(&all, ", ");
        TaggingResultSimple { filename, size, hash, tags, rating, tagger }
    }

    /// The record of a video: its tags, joined by ", ", are all general tags, and its
    /// rating stands for both the record and the tagger.
    pub fn for_video(
        filename: String,
        size: u64,
        hash: String,
        rating: Rating,
        tags: Vec<String>,
    ) -> (r: TaggingResultSimple)
        ensures
            r.filename@ == filename@,
            r.size == size,
            r.hash@ == hash@,
            r.rating@ == rating_label(rating),
            r.tags@ == joined(views(tags@), ", "@),
            r.tagger.rating@ == rating_label(rating),
            r.tagger.character@.len() == 0,
            views(r.tagger.general@) == views(tags@),
    {
        let joined_tags = join(&tags, ", ");
        let label = rating.as_str();
        TaggingResultSimple {
            filename,
            size,
            hash,
            tags: joined_tags,
            rating: String::from_str(label),
            tagger: TaggingResultSimpleTags {
                rating: String::from_str(label),
                character: Vec::new(),
                general: tags,
            },
        }
    }
}

} // verus!
