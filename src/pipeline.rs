//! Decoding per-label scores into categorized, threshold-filtered, ranked tags.
//!
//! A score is an order key (see `score`): for confidences that are not NaN, keys
//! compare as the confidences do. A NaN score, or a NaN threshold, never selects a
//! label, as `score >= threshold` is false for a NaN.

use vstd::prelude::*;

use crate::score::{is_nan_key, key_is_nan};
use crate::tags::{LabelTags, Tag, TagCategory};
use crate::text::str_eq;

verus! {

/// A ranked list of tag names with their scores.
pub type Prediction = Vec<(String, u32)>;

/// Tags of one image by category, each list filtered by the threshold and ranked.
#[derive(Debug, Clone)]
pub struct TaggingResult {
    pub rating: Prediction,
    pub character: Prediction,
    pub general: Prediction,
}

/// Why a score vector could not be decoded.
#[derive(Debug, Clone, Copy, PartialEq, Eq, Structural)]
pub enum DecodeError {
    /// The per-label score count differs from the catalog size.
    LengthMismatch { expected: usize, actual: usize },
    /// The raw feature count differs from the embedding matrix's column count.
    FeatureMismatch { expected: usize, actual: usize },
}

impl DecodeError {
    /// A human-readable description.
    pub fn message(&self) -> (r: String)
        ensures
            r@ == (match self {
                DecodeError::LengthMismatch { .. } => "Tags and probabilities length mismatch"@,
                DecodeError::FeatureMismatch { .. } => "Prediction feature size mismatch with embedding dimension"@,
            }),
    {
        match self {
            DecodeError::LengthMismatch { .. } => String::from_str(
                "Tags and probabilities length mismatch",
            ),
            DecodeError::FeatureMismatch { .. } => String::from_str(
                "Prediction feature size mismatch with embedding dimension",
            ),
        }
    }
}

/// The score reaches the threshold: neither is a NaN, and the score is at least the
/// threshold.
pub open spec fn reaches(score: u32, threshold: u32) -> bool {
    !key_is_nan(score) && !key_is_nan(threshold) && score >= threshold
}

/// Label `i` is in `category` and its score reaches `threshold`.
pub open spec fn in_selection(
    tags: Seq<Tag>,
    scores: Seq<u32>,
    category: TagCategory,
    threshold: u32,
    i: int,
) -> bool {
    &&& 0 <= i < tags.len()
    &&& i < scores.len()
    &&& tags[i].spec_category() == category
    &&& reaches(scores[i], threshold)
}

/// Label `a` comes before label `b`: a higher score, or an equal score and an
/// earlier place in the catalog.
pub open spec fn ranks_before(scores: Seq<u32>, a: int, b: int) -> bool {
    scores[a] > scores[b] || (scores[a] == scores[b] && a < b)
}

/// `ix` lists exactly the selected labels, each once, highest score first and
/// catalog order among equal scores.
pub open spec fn is_ranking(
    ix: Seq<usize>,
    tags: Seq<Tag>,
    scores: Seq<u32>,
    category: TagCategory,
    threshold: u32,
) -> bool {
    &&& forall|k: int|
        0 <= k < ix.len() ==> in_selection(tags, scores, category, threshold, #[trigger] ix[k] as int)
    &&& forall|i: int|
        #[trigger] in_selection(tags, scores, category, threshold, i) ==> exists|k: int|
            0 <= k < ix.len() && ix[k] == i
    &&& forall|a: int, b: int|
        0 <= a < b < ix.len() ==> ranks_before(scores, #[trigger] ix[a] as int, #[trigger] ix[b] as int)
}

/// `out` names the labels listed by `ix`, each with its score.
pub open spec fn lists_labels(out: Seq<(String, u32)>, ix: Seq<usize>, tags: Seq<Tag>, scores: Seq<u32>) -> bool {
    &&& out.len() == ix.len()
    &&& forall|k: int|
        0 <= k < out.len() ==> (#[trigger] out[k]).0@ == tags[ix[k] as int].spec_name() && out[k].1
            == scores[ix[k] as int]
}

/// `out` is the decoded list of one category: the labels of `category` whose score
/// reaches `threshold`, ranked.
pub open spec fn is_category_result(
    out: Seq<(String, u32)>,
    tags: Seq<Tag>,
    scores: Seq<u32>,
    category: TagCategory,
    threshold: u32,
) -> bool {
    exists|ix: Seq<usize>|
        is_ranking(ix, tags, scores, category, threshold) && #[trigger] lists_labels(
            out,
            ix,
            tags,
            scores,
        )
}

/// Descending order of two labels' scores: `Less` when `a` scores higher.
pub fn by_score_desc(scores: &Vec<u32>, a: usize, b: usize) -> (r: std::cmp::Ordering)
    requires
        a < scores@.len(),
        b < scores@.len(),
    ensures
        r == (if scores@[a as int] > scores@[b as int] {
            std::cmp::Ordering::Less
        } else if scores@[a as int] == scores@[b as int] {
            std::cmp::Ordering::Equal
        } else {
            std::cmp::Ordering::Greater
        }),
{
    if scores[a] > scores[b] {
        std::cmp::Ordering::Less
    } else if scores[a] == scores[b] {
        std::cmp::Ordering::Equal
    } else {
        std::cmp::Ordering::Greater
    }
}

/// Relies on `itertools::Itertools::sorted_by`, a stable sort: it returns the same
/// indices ordered by `by_score_desc`, equal scores in their input order. For
/// indices given in increasing order that is the order `ranks_before`.
#[verifier::external_body]
fn sort_by_score_desc(ix: Vec<usize>, scores: &Vec<u32>) -> (r: Vec<usize>)
    requires
        forall|k: int| 0 <= k < ix@.len() ==> #[trigger] ix@[k] < scores@.len(),
        forall|a: int, b: int| 0 <= a < b < ix@.len() ==> #[trigger] ix@[a] < #[trigger] ix@[b],
    ensures
        r@.to_multiset() == ix@.to_multiset(),
        forall|a: int, b: int|
            0 <= a < b < r@.len() ==> ranks_before(scores@, #[trigger] r@[a] as int, #[trigger] r@[b] as int),
{
    itertools::Itertools::sorted_by(ix.into_iter(), |a, b| by_score_desc(scores, *a, *b)).collect()
}

/// Indices of the labels of `category` whose score reaches `threshold`, ranked by
/// score, highest first, with ties kept in catalog order.
fn rank_category(tags: &Vec<Tag>, scores: &Vec<u32>, category: TagCategory, threshold: u32) -> (ix:
    Vec<usize>)
    requires
        tags@.len() == scores@.len(),
    ensures
        is_ranking(ix@, tags@, scores@, category, threshold),
{
    let n = tags.len();
    let mut sel: Vec<usize> = Vec::new();
    let mut i: usize = 0;
    while i < n
        invariant
            n == tags@.len() == scores@.len(),
            i <= n,
            forall|k: int|
                0 <= k < sel@.len() ==> #[trigger] sel@[k] < i && in_selection(
                    tags@,
                    scores@,
                    category,
                    threshold,
                    sel@[k] as int,
                ),
            forall|a: int, b: int| 0 <= a < b < sel@.len() ==> #[trigger] sel@[a] < #[trigger] sel@[b],
            forall|j: int|
                0 <= j < i && #[trigger] in_selection(tags@, scores@, category, threshold, j)
                    ==> sel@.contains(j as usize),
        decreases n - i,
    {
        if tags[i].category() == category && !is_nan_key(scores[i]) && !is_nan_key(threshold)
            && scores[i] >= threshold {
            let ghost before = sel@;
            sel.push(i);
            assert forall|j: int|
                0 <= j < i + 1 && #[trigger] in_selection(tags@, scores@, category, threshold, j)
                    implies sel@.contains(j as usize) by {
                if j < i {
                    let k = choose|k: int| 0 <= k < before.len() && before[k] == j as usize;
                    assert(sel@[k] == j as usize);
                } else {
                    assert(sel@[before.len() as int] == j as usize);
                }
            }
        }
        i = i + 1;
    }
    let ghost chosen = sel@;
    let ix = sort_by_score_desc(sel, scores);
    proof {
        broadcast use vstd::seq_lib::group_to_multiset_ensures;

        assert forall|k: int| 0 <= k < ix@.len() implies in_selection(
            tags@,
            scores@,
            category,
            threshold,
            #[trigger] ix@[k] as int,
        ) by {
            assert(ix@.to_multiset().count(ix@[k]) > 0);
            assert(chosen.contains(ix@[k]));
        }
        assert forall|j: int| #[trigger]
            in_selection(tags@, scores@, category, threshold, j) implies exists|k: int|
            0 <= k < ix@.len() && ix@[k] == j by {
            assert(chosen.contains(j as usize));
            assert(chosen.to_multiset().count(j as usize) > 0);
            assert(ix@.contains(j as usize));
        }
    }
    ix
}

/// The names and scores of the labels listed by `ix`.
fn labels_of(tags: &Vec<Tag>, scores: &Vec<u32>, ix: &Vec<usize>) -> (out: Prediction)
    requires
        tags@.len() == scores@.len(),
        forall|k: int| 0 <= k < ix@.len() ==> #[trigger] ix@[k] < tags@.len(),
    ensures
        lists_labels(out@, ix@, tags@, scores@),
{
    let mut out: Prediction = Vec::new();
    let mut k: usize = 0;
    while k < ix.len()
        invariant
            tags@.len() == scores@.len(),
            forall|k: int| 0 <= k < ix@.len() ==> #[trigger] ix@[k] < tags@.len(),
            k <= ix@.len(),
            out@.len() == k,
            forall|q: int|
                0 <= q < k ==> (#[trigger] out@[q]).0@ == tags@[ix@[q] as int].spec_name()
                    && out@[q].1 == scores@[ix@[q] as int],
        decreases ix@.len() - k,
    {
        let idx = ix[k];
        out.push((tags[idx].name(), scores[idx]));
        k = k + 1;
    }
    out
}

/// The labels of one category whose score reaches `threshold`, ranked by score,
/// highest first, ties in catalog order.
pub fn get_tags_for_category(
    labels: &LabelTags,
    scores: &Vec<u32>,
    category: TagCategory,
    threshold: u32,
) -> (r: Prediction)
    requires
        scores@.len() == labels.spec_tags().len(),
    ensures
        is_category_result(r@, labels.spec_tags(), scores@, category, threshold),
{
    let tags = labels.idx2tag();
    let ix = rank_category(tags, scores, category, threshold);
    let out = labels_of(tags, scores, &ix);
    assert(lists_labels(out@, ix@, tags@, scores@));
    out
}

/// Decodes per-label scores (one per catalog entry, in catalog order) into rating,
/// character and general tags. Score `i` belongs to catalog entry `i`, which is
/// listed under its own name and category. A score count other than the catalog size is an
/// error, never truncated or padded.
pub fn decode(labels: &LabelTags, scores: &Vec<u32>, threshold: u32) -> (r: Result<
    TaggingResult,
    DecodeError,
>)
    ensures
        r is Err <==> scores@.len() != labels.spec_tags().len(),
        r is Err ==> r->Err_0 == (DecodeError::LengthMismatch {
            expected: labels.spec_tags().len() as usize,
            actual: scores@.len() as usize,
        }),
        r matches Ok(res) ==> {
            &&& is_category_result(res.rating@, labels.spec_tags(), scores@, TagCategory::Rating, threshold)
            &&& is_category_result(res.character@, labels.spec_tags(), scores@, TagCategory::Character, threshold)
            &&& is_category_result(res.general@, labels.spec_tags(), scores@, TagCategory::General, threshold)
        },
{
    if scores.len() != labels.len() {
        return Err(DecodeError::LengthMismatch { expected: labels.len(), actual: scores.len() });
    }
    let rating = get_tags_for_category(labels, scores, TagCategory::Rating, threshold);
    let character = get_tags_for_category(labels, scores, TagCategory::Character, threshold);
    let general = get_tags_for_category(labels, scores, TagCategory::General, threshold);
    Ok(TaggingResult { rating, character, general })
}

/// The score count that decoding expects from the model: the embedding matrix's
/// column count when the catalog has one, the catalog size otherwise.
pub open spec fn expected_feature_len(labels: LabelTags) -> nat {
    match labels.spec_embedding_dim() {
        Some(d) => d as nat,
        None => labels.spec_tags().len(),
    }
}

/// The error for raw output of `actual` values that the catalog does not expect.
pub open spec fn feature_error(labels: LabelTags, actual: usize) -> DecodeError {
    match labels.spec_embedding_dim() {
        Some(d) => DecodeError::FeatureMismatch { expected: d, actual },
        None => DecodeError::LengthMismatch { expected: labels.spec_tags().len() as usize, actual },
    }
}

/// The per-label scores of raw row `b`: the row itself without an embedding matrix,
/// its projection `projected[b]` with one (empty where no projection was given).
pub open spec fn row_scores(
    labels: LabelTags,
    raw: Seq<u32>,
    projected: Seq<Vec<u32>>,
    b: int,
) -> Seq<u32> {
    match labels.spec_embedding_dim() {
        None => raw,
        Some(_) => if 0 <= b < projected.len() {
            projected[b]@
        } else {
            seq![]
        },
    }
}

/// What is wrong with raw row `b`, if anything: a raw length other than the
/// expected feature length, or per-label scores that are not one per label.
pub open spec fn row_error(
    labels: LabelTags,
    raw: Seq<u32>,
    projected: Seq<Vec<u32>>,
    b: int,
) -> Option<DecodeError> {
    if raw.len() != expected_feature_len(labels) {
        Some(feature_error(labels, raw.len() as usize))
    } else if row_scores(labels, raw, projected, b).len() != labels.spec_tags().len() {
        Some(
            DecodeError::LengthMismatch {
                expected: labels.spec_tags().len() as usize,
                actual: row_scores(labels, raw, projected, b).len() as usize,
            },
        )
    } else {
        None
    }
}

impl LabelTags {
    /// Checks the length of the model's raw output against what the catalog expects:
    /// the embedding matrix's column count, or else the number of labels.
    pub fn check_feature_len(&self, actual: usize) -> (r: Result<(), DecodeError>)
        ensures
            r is Ok <==> actual == expected_feature_len(*self),
            r is Err ==> r->Err_0 == feature_error(*self, actual),
    {
        match self.embedding_dim() {
            Some(d) => if actual == d {
                Ok(())
            } else {
                Err(DecodeError::FeatureMismatch { expected: d, actual })
            },
            None => if actual == self.len() {
                Ok(())
            } else {
                Err(DecodeError::LengthMismatch { expected: self.len(), actual })
            },
        }
    }

    /// Pairs each row of the model's raw output with the label names, in catalog
    /// order. Each raw row must have the expected feature length (see
    /// `check_feature_len`). Without an embedding matrix the raw row is paired
    /// directly; with one, `projected[b]` holds the caller's projection of raw row `b`
    /// onto the labels and is paired instead. The first row that is wrong gives the
    /// error; nothing is truncated or padded.
    pub fn create_probality_pairs(&self, rows: &Vec<Vec<u32>>, projected: &Vec<Vec<u32>>) -> (r:
        Result<Vec<Prediction>, DecodeError>)
        ensures
            r is Ok <==> forall|b: int|
                0 <= b < rows@.len() ==> row_error(*self, (#[trigger] rows@[b])@, projected@, b) is None,
            r is Err ==> exists|b: int|
                0 <= b < rows@.len() && row_error(*self, (#[trigger] rows@[b])@, projected@, b) is Some
                    && (forall|q: int|
                    0 <= q < b ==> row_error(*self, (#[trigger] rows@[q])@, projected@, q) is None)
                    && r->Err_0 == row_error(*self, rows@[b]@, projected@, b)->0,
            r matches Ok(pairs) ==> pairs@.len() == rows@.len() && forall|b: int|
                0 <= b < rows@.len() ==> (#[trigger] pairs@[b])@.len() == self.spec_tags().len()
                    && forall|i: int|
                    0 <= i < self.spec_tags().len() ==> (#[trigger] pairs@[b]@[i]).0@
                        == self.spec_tags()[i].spec_name() && pairs@[b]@[i].1 == row_scores(
                        *self,
                        rows@[b]@,
                        projected@,
                        b,
                    )[i],
    {
        let mut out: Vec<Prediction> = Vec::new();
        let mut b: usize = 0;
        while b < rows.len()
            invariant
                b <= rows@.len(),
                out@.len() == b,
                forall|q: int|
                    0 <= q < b ==> row_error(*self, (#[trigger] rows@[q])@, projected@, q) is None,
                forall|q: int|
                    0 <= q < b ==> (#[trigger] out@[q])@.len() == self.spec_tags().len() && forall|i: int|
                        0 <= i < self.spec_tags().len() ==> (#[trigger] out@[q]@[i]).0@
                            == self.spec_tags()[i].spec_name() && out@[q]@[i].1 == row_scores(
                            *self,
                            rows@[q]@,
                            projected@,
                            q,
                        )[i],
            decreases rows@.len() - b,
        {
            let pairs = self.pair_row(&rows[b], projected, b)?;
            out.push(pairs);
            b = b + 1;
        }
        Ok(out)
    }

    /// The pairs of raw row `b`, or what is wrong with it.
    fn pair_row(&self, raw: &Vec<u32>, projected: &Vec<Vec<u32>>, b: usize) -> (r: Result<
        Prediction,
        DecodeError,
    >)
        ensures
            r is Err <==> row_error(*self, raw@, projected@, b as int) is Some,
            r is Err ==> r->Err_0 == row_error(*self, raw@, projected@, b as int)->0,
            r matches Ok(pairs) ==> pairs@.len() == self.spec_tags().len() && forall|i: int|
                0 <= i < self.spec_tags().len() ==> (#[trigger] pairs@[i]).0@
                    == self.spec_tags()[i].spec_name() && pairs@[i].1 == row_scores(
                    *self,
                    raw@,
                    projected@,
                    b as int,
                )[i],
    {
        let tags = self.idx2tag();
        self.check_feature_len(raw.len())?;
        let empty: Vec<u32> = Vec::new();
        let scores: &Vec<u32> = match self.embedding_dim() {
            None => raw,
            Some(_) => if b < projected.len() {
                &projected[b]
            } else {
                &empty
            },
        };
        assert(scores@ == row_scores(*self, raw@, projected@, b as int));
        if scores.len() != tags.len() {
            return Err(DecodeError::LengthMismatch { expected: tags.len(), actual: scores.len() });
        }
        let mut pairs: Prediction = Vec::new();
        let mut i: usize = 0;
        while i < tags.len()
            invariant
                tags@ == self.spec_tags(),
                scores@.len() == tags@.len(),
                i <= tags@.len(),
                pairs@.len() == i,
                forall|k: int|
                    0 <= k < i ==> (#[trigger] pairs@[k]).0@ == tags@[k].spec_name() && pairs@[k].1
                        == scores@[k],
            decreases tags@.len() - i,
        {
            pairs.push((tags[i].name(), scores[i]));
            i = i + 1;
        }
        Ok(pairs)
    }

    /// The last label with the given name: a later record with the same name takes the
    /// place of an earlier one.
    pub fn label2tag(&self, name: &str) -> (r: Option<Tag>)
        ensures
            r is None <==> forall|i: int|
                0 <= i < self.spec_tags().len() ==> (#[trigger] self.spec_tags()[i]).spec_name()
                    != name@,
            r matches Some(t) ==> exists|i: int|
                0 <= i < self.spec_tags().len() && t.spec_name() == name@ && t.spec_category()
                    == (#[trigger] self.spec_tags()[i]).spec_category() && t.spec_tag_id()
                    == self.spec_tags()[i].spec_tag_id() && t.spec_count()
                    == self.spec_tags()[i].spec_count() && self.spec_tags()[i].spec_name() == name@
                    && forall|j: int|
                    i < j < self.spec_tags().len() ==> (#[trigger] self.spec_tags()[j]).spec_name()
                        != name@,
    {
        let tags = self.idx2tag();
        let mut i: usize = tags.len();
        while i > 0
            invariant
                tags@ == self.spec_tags(),
                i <= tags@.len(),
                forall|j: int| i <= j < tags@.len() ==> (#[trigger] tags@[j]).spec_name() != name@,
            decreases i,
        {
            let k = i - 1;
            let n = tags[k].name();
            if str_eq(n.as_str(), name) {
                return Some(Tag::new(tags[k].tag_id(), n, tags[k].category(), tags[k].count()));
            }
            i = k;
        }
        None
    }
}

/// Every entry of a decoded category reaches the threshold, the scores never
/// increase along the list, and every label of the category whose score reaches the
/// threshold appears in it; so a label that is left out scored below the threshold,
/// has a NaN score, or belongs to another category.
pub proof fn decoded_category_is_filtered_and_sorted(
    out: Seq<(String, u32)>,
    tags: Seq<Tag>,
    scores: Seq<u32>,
    category: TagCategory,
    threshold: u32,
)
    requires
        is_category_result(out, tags, scores, category, threshold),
    ensures
        forall|k: int| 0 <= k < out.len() ==> reaches((#[trigger] out[k]).1, threshold),
        forall|a: int, b: int| 0 <= a < b < out.len() ==> (#[trigger] out[a]).1 >= (#[trigger] out[b]).1,
        forall|i: int|
            0 <= i < tags.len() && i < scores.len() && #[trigger] tags[i].spec_category() == category
                && reaches(scores[i], threshold) ==> exists|k: int|
                0 <= k < out.len() && (#[trigger] out[k]).0@ == tags[i].spec_name() && out[k].1
                    == scores[i],
{
    let ix = choose|ix: Seq<usize>|
        is_ranking(ix, tags, scores, category, threshold) && #[trigger] lists_labels(
            out,
            ix,
            tags,
            scores,
        );
    assert forall|k: int| 0 <= k < out.len() implies reaches((#[trigger] out[k]).1, threshold) by {
        assert(in_selection(tags, scores, category, threshold, ix[k] as int));
    }
    assert forall|a: int, b: int| 0 <= a < b < out.len() implies (#[trigger] out[a]).1 >= (
    #[trigger] out[b]).1 by {
        assert(ranks_before(scores, ix[a] as int, ix[b] as int));
    }
    assert forall|i: int|
        0 <= i < tags.len() && i < scores.len() && #[trigger] tags[i].spec_category() == category
            && reaches(scores[i], threshold) implies exists|k: int|
        0 <= k < out.len() && (#[trigger] out[k]).0@ == tags[i].spec_name() && out[k].1
            == scores[i] by {
        assert(in_selection(tags, scores, category, threshold, i));
        let k = choose|k: int| 0 <= k < ix.len() && ix[k] == i;
        assert(out[k].0@ == tags[i].spec_name());
    }
}

/// Two index lists, each strictly ordered by `ranks_before` and holding the same
/// members, are the same list.
proof fn lemma_same_ranking(x: Seq<usize>, y: Seq<usize>, scores: Seq<u32>)
    requires
        forall|a: int, b: int|
            0 <= a < b < x.len() ==> ranks_before(scores, #[trigger] x[a] as int, #[trigger] x[b] as int),
        forall|a: int, b: int|
            0 <= a < b < y.len() ==> ranks_before(scores, #[trigger] y[a] as int, #[trigger] y[b] as int),
        forall|k: int| 0 <= k < x.len() ==> y.contains(#[trigger] x[k]),
        forall|k: int| 0 <= k < y.len() ==> x.contains(#[trigger] y[k]),
    ensures
        x == y,
    decreases x.len(),
{
    if x.len() == 0 {
        if y.len() > 0 {
            assert(x.contains(y[0]));
        }
        assert(x =~= y);
    } else if y.len() == 0 {
        assert(y.contains(x[0]));
    } else {
        assert(y.contains(x[0]));
        assert(x.contains(y[0]));
        let p = choose|p: int| 0 <= p < y.len() && y[p] == x[0];
        let q = choose|q: int| 0 <= q < x.len() && x[q] == y[0];
        if p > 0 {
            assert(ranks_before(scores, y[0] as int, y[p] as int));
            if q > 0 {
                assert(ranks_before(scores, x[0] as int, x[q] as int));
            }
        }
        assert(x[0] == y[0]);
        let xs = x.skip(1);
        let ys = y.skip(1);
        assert forall|k: int| 0 <= k < xs.len() implies ys.contains(#[trigger] xs[k]) by {
            assert(xs[k] == x[k + 1]);
            assert(ranks_before(scores, x[0] as int, x[k + 1] as int));
            assert(y.contains(x[k + 1]));
            let py = choose|py: int| 0 <= py < y.len() && y[py] == x[k + 1];
            assert(py != 0);
            assert(ys[py - 1] == xs[k]);
        }
        assert forall|k: int| 0 <= k < ys.len() implies xs.contains(#[trigger] ys[k]) by {
            assert(ys[k] == y[k + 1]);
            assert(ranks_before(scores, y[0] as int, y[k + 1] as int));
            assert(x.contains(y[k + 1]));
            let qx = choose|qx: int| 0 <= qx < x.len() && x[qx] == y[k + 1];
            assert(qx != 0);
            assert(xs[qx - 1] == ys[k]);
        }
        assert forall|a: int, b: int| 0 <= a < b < xs.len() implies ranks_before(
            scores,
            #[trigger] xs[a] as int,
            #[trigger] xs[b] as int,
        ) by {
            assert(xs[a] == x[a + 1] && xs[b] == x[b + 1]);
        }
        assert forall|a: int, b: int| 0 <= a < b < ys.len() implies ranks_before(
            scores,
            #[trigger] ys[a] as int,
            #[trigger] ys[b] as int,
        ) by {
            assert(ys[a] == y[a + 1] && ys[b] == y[b + 1]);
        }
        lemma_same_ranking(xs, ys, scores);
        assert(x =~= seq![x[0]] + xs);
        assert(y =~= seq![y[0]] + ys);
    }
}

/// The decoded list of a category is determined by the catalog, the scores and the
/// threshold: any two results for the same inputs hold the same names and scores in
/// the same order.
pub proof fn decoded_category_is_unique(
    out1: Seq<(String, u32)>,
    out2: Seq<(String, u32)>,
    tags: Seq<Tag>,
    scores: Seq<u32>,
    category: TagCategory,
    threshold: u32,
)
    requires
        is_category_result(out1, tags, scores, category, threshold),
        is_category_result(out2, tags, scores, category, threshold),
    ensures
        out1.len() == out2.len(),
        forall|k: int|
            0 <= k < out1.len() ==> (#[trigger] out1[k]).0@ == out2[k].0@ && out1[k].1 == out2[k].1,
{
    let ix1 = choose|ix: Seq<usize>|
        is_ranking(ix, tags, scores, category, threshold) && #[trigger] lists_labels(
            out1,
            ix,
            tags,
            scores,
        );
    let ix2 = choose|ix: Seq<usize>|
        is_ranking(ix, tags, scores, category, threshold) && #[trigger] lists_labels(
            out2,
            ix,
            tags,
            scores,
        );
    assert forall|k: int| 0 <= k < ix1.len() implies ix2.contains(#[trigger] ix1[k]) by {
        assert(in_selection(tags, scores, category, threshold, ix1[k] as int));
        let j = choose|j: int| 0 <= j < ix2.len() && ix2[j] == ix1[k] as int;
        assert(ix2[j] == ix1[k]);
    }
    assert forall|k: int| 0 <= k < ix2.len() implies ix1.contains(#[trigger] ix2[k]) by {
        assert(in_selection(tags, scores, category, threshold, ix2[k] as int));
        let j = choose|j: int| 0 <= j < ix1.len() && ix1[j] == ix2[k] as int;
        assert(ix1[j] == ix2[k]);
    }
    lemma_same_ranking(ix1, ix2, scores);
    assert forall|k: int| 0 <= k < out1.len() implies (#[trigger] out1[k]).0@ == out2[k].0@
        && out1[k].1 == out2[k].1 by {
        assert(out1[k].0@ == tags[ix1[k] as int].spec_name());
        assert(out2[k].0@ == tags[ix2[k] as int].spec_name());
    }
}

} // verus!
