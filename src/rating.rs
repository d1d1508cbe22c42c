//! Content rating of an image from the rating model's scores.

use vstd::prelude::*;

use crate::text::str_eq;

verus! {

/// The result of a rating.
#[derive(Debug, Clone, Copy, PartialEq, Eq, Structural)]
pub enum Rating {
    Nsfw,
    Sfw,
}

/// Why the rating model's output could not be turned into a rating.
#[derive(Debug, Clone, Copy, PartialEq, Eq, Structural)]
pub enum RatingError {
    /// The model returned no scores.
    NoScores,
    /// The label table has no entry for the winning index.
    LabelNotFound { index: usize },
    /// The winning label is neither "nsfw" nor "sfw".
    UnknownLabel,
}

/// The label of a rating.
pub open spec fn rating_label(r: Rating) -> Seq<char> {
    match r {
        Rating::Nsfw => "nsfw"@,
        Rating::Sfw => "sfw"@,
    }
}

impl Rating {
    /// The rating that a label names.
    pub fn from_label(label: &str) -> (r: Result<Rating, RatingError>)
        ensures
            r == (if label@ == "nsfw"@ {
                Ok(Rating::Nsfw)
            } else if label@ == "sfw"@ {
                Ok(Rating::Sfw)
            } else {
                Err(RatingError::UnknownLabel)
            }),
    {
        if str_eq(label, "nsfw") {
            Ok(Rating::Nsfw)
        } else if str_eq(label, "sfw") {
            Ok(Rating::Sfw)
        } else {
            Err(RatingError::UnknownLabel)
        }
    }

    /// The label of this rating.
    pub fn as_str(&self) -> (r: &'static str)
        ensures
            r@ == rating_label(*self),
    {
        match self {
            Rating::Nsfw => "nsfw",
            Rating::Sfw => "sfw",
        }
    }
}

/// `i` holds the largest score, and no later index holds an equal one.
pub open spec fn is_last_max(scores: Seq<u32>, i: int) -> bool {
    &&& 0 <= i < scores.len()
    &&& forall|j: int| 0 <= j < scores.len() ==> #[trigger] scores[j] <= scores[i]
    &&& forall|j: int| i < j < scores.len() ==> #[trigger] scores[j] < scores[i]
}

/// Index of the largest score, the last one among equals; `None` for no scores.
pub fn argmax(scores: &Vec<u32>) -> (r: Option<usize>)
    ensures
        r is None <==> scores@.len() == 0,
        r matches Some(i) ==> is_last_max(scores@, i as int),
{
    if scores.len() == 0 {
        return None;
    }
    let mut best: usize = 0;
    let mut i: usize = 1;
    while i < scores.len()
        invariant
            1 <= i <= scores@.len(),
            best < i,
            forall|j: int| 0 <= j < i ==> #[trigger] scores@[j] <= scores@[best as int],
            forall|j: int| best < j < i ==> #[trigger] scores@[j] < scores@[best as int],
        decreases scores@.len() - i,
    {
        if scores[i] >= scores[best] {
            best = i;
        }
        i = i + 1;
    }
    Some(best)
}

/// Where two indices both hold the last largest score, they are the same index.
proof fn lemma_last_max_unique(scores: Seq<u32>, i: int, j: int)
    requires
        is_last_max(scores, i),
        is_last_max(scores, j),
    ensures
        i == j,
{
    if i < j {
        assert(scores[j] < scores[i]);
        assert(scores[i] <= scores[j]);
    } else if j < i {
        assert(scores[i] < scores[j]);
        assert(scores[j] <= scores[i]);
    }
}

/// The index of the last largest score.
pub open spec fn last_max(scores: Seq<u32>) -> int {
    choose|i: int| is_last_max(scores, i)
}

/// The label of the first entry of `table` whose index is `index`.
pub open spec fn first_label(table: Seq<(usize, String)>, index: usize) -> Option<Seq<char>>
    decreases table.len(),
{
    if table.len() == 0 {
        None
    } else if table[0].0 == index {
        Some(table[0].1@)
    } else {
        first_label(table.skip(1), index)
    }
}

/// The rating that a label names, if any.
pub open spec fn rating_of_label(label: Seq<char>) -> Result<Rating, RatingError> {
    if label == "nsfw"@ {
        Ok(Rating::Nsfw)
    } else if label == "sfw"@ {
        Ok(Rating::Sfw)
    } else {
        Err(RatingError::UnknownLabel)
    }
}

/// The rating given for the winning index `index`.
pub open spec fn rating_for_index(table: Seq<(usize, String)>, index: usize) -> Result<
    Rating,
    RatingError,
> {
    match first_label(table, index) {
        None => Err(RatingError::LabelNotFound { index }),
        Some(label) => rating_of_label(label),
    }
}

/// The rating for the model's scores: the label of the highest score (the last one
/// among equals) is looked up in `id2label` and read as a rating.
pub fn rating_from_scores(scores: &Vec<u32>, id2label: &Vec<(usize, String)>) -> (r: Result<
    Rating,
    RatingError,
>)
    ensures
        scores@.len() == 0 ==> r == Err::<Rating, RatingError>(RatingError::NoScores),
        scores@.len() > 0 ==> r == rating_for_index(id2label@, last_max(scores@) as usize),
{
    let best = match argmax(scores) {
        None => return Err(RatingError::NoScores),
        Some(i) => i,
    };
    proof {
        lemma_last_max_unique(scores@, best as int, last_max(scores@));
    }
    let mut k: usize = 0;
    assert(id2label@.skip(0) == id2label@);
    while k < id2label.len()
        invariant
            k <= id2label@.len(),
            scores@.len() > 0,
            best as int == last_max(scores@),
            first_label(id2label@, best) == first_label(id2label@.skip(k as int), best),
        decreases id2label@.len() - k,
    {
        assert(id2label@.skip(k as int)[0] == id2label@[k as int]);
        if id2label[k].0 == best {
            assert(first_label(id2label@.skip(k as int), best) == Some(id2label@[k as int].1@));
            return Rating::from_label(id2label[k].1.as_str());
        }
        assert(id2label@.skip(k as int).skip(1) == id2label@.skip(k + 1));
        k = k + 1;
    }
    Err(RatingError::LabelNotFound { index: best })
}

} // verus!
