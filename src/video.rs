//! Scene-aware frame sampling, and the folding of per-frame results into one
//! result per video.

use vstd::prelude::*;

use crate::pipeline::TaggingResult;
use crate::raster::{luma8, luma_of, RgbRaster};
use crate::rating::Rating;
use crate::tag::{fix_tag_underscore, fixed_tag};

verus! {

/// Share of full range, in percent, that the mean per-pixel luminance difference must
/// exceed for a frame to count as a new scene.
pub const SCENE_CHANGE_PERCENT: u32 = 10;

/// Sum of `|a[i] - b[i]|` over `i < n`.
pub open spec fn abs_diff_sum(a: Seq<u8>, b: Seq<u8>, n: nat) -> nat
    decreases n,
{
    if n == 0 {
        0
    } else {
        abs_diff_sum(a, b, (n - 1) as nat) + (if a[n - 1] >= b[n - 1] {
            a[n - 1] - b[n - 1]
        } else {
            b[n - 1] - a[n - 1]
        }) as nat
    }
}

/// `frame` differs from `last` by more than `percent` percent of full range on average
/// per pixel of `last` (pixels are compared up to the shorter of the two frames).
pub open spec fn is_scene_change(last: Seq<u8>, frame: Seq<u8>, percent: nat) -> bool {
    let n = if last.len() <= frame.len() {
        last.len()
    } else {
        frame.len()
    };
    100 * abs_diff_sum(last, frame, n) > percent * 255 * last.len()
}

/// Whether a frame is kept, given the last kept frame (if any).
pub open spec fn keeps(last: Option<Seq<u8>>, frame: Seq<u8>, percent: nat) -> bool {
    match last {
        None => true,
        Some(l) => is_scene_change(l, frame, percent),
    }
}

/// Which of `frames` a sampler keeps, and the last kept frame afterwards.
pub open spec fn sampler_run(frames: Seq<Seq<u8>>, percent: nat) -> (Seq<bool>, Option<Seq<u8>>)
    decreases frames.len(),
{
    if frames.len() == 0 {
        (seq![], None)
    } else {
        let (flags, last) = sampler_run(frames.drop_last(), percent);
        let f = frames.last();
        let k = keeps(last, f, percent);
        (flags.push(k), if k {
            Some(f)
        } else {
            last
        })
    }
}

proof fn lemma_abs_diff_bound(a: Seq<u8>, b: Seq<u8>, n: nat)
    ensures
        abs_diff_sum(a, b, n) <= 255 * n,
    decreases n,
{
    if n > 0 {
        lemma_abs_diff_bound(a, b, (n - 1) as nat);
    }
}

/// Keeps the frames that start a new scene. It holds the last kept luminance frame
/// and nothing else.
pub struct SceneSampler {
    last: Option<Vec<u8>>,
    percent: u32,
}

impl SceneSampler {
    pub closed spec fn spec_last(&self) -> Option<Seq<u8>> {
        match self.last {
            None => None,
            Some(v) => Some(v@),
        }
    }

    pub closed spec fn spec_percent(&self) -> nat {
        self.percent as nat
    }

    /// A sampler with the default scene-change threshold.
    pub fn new() -> (r: SceneSampler)
        ensures
            r.spec_last() is None,
            r.spec_percent() == SCENE_CHANGE_PERCENT,
    {
        SceneSampler { last: None, percent: SCENE_CHANGE_PERCENT }
    }

    /// A sampler that keeps a frame when the mean difference exceeds `percent`
    /// percent of full range.
    pub fn with_threshold(percent: u32) -> (r: SceneSampler)
        ensures
            r.spec_last() is None,
            r.spec_percent() == percent,
    {
        SceneSampler { last: None, percent }
    }

    /// Offers the next luminance frame; returns whether it is kept. A kept frame
    /// becomes the one later frames are compared with.
    pub fn offer(&mut self, frame: Vec<u8>) -> (kept: bool)
        ensures
            kept == keeps(old(self).spec_last(), frame@, old(self).spec_percent()),
            final(self).spec_percent() == old(self).spec_percent(),
            final(self).spec_last() == (if kept {
                Some(frame@)
            } else {
                old(self).spec_last()
            }),
    {
        let kept = match &self.last {
            None => true,
            Some(last) => {
                let n = if last.len() <= frame.len() {
                    last.len()
                } else {
                    frame.len()
                };
                let mut sum: u128 = 0;
                let mut i: usize = 0;
                while i < n
                    invariant
                        n <= last@.len(),
                        n <= frame@.len(),
                        i <= n,
                        sum as nat == abs_diff_sum(last@, frame@, i as nat),
                        n <= usize::MAX,
                    decreases n - i,
                {
                    proof {
                        lemma_abs_diff_bound(last@, frame@, i as nat);
                    }
                    let (a, b) = (last[i], frame[i]);
                    let d = if a >= b {
                        a - b
                    } else {
                        b - a
                    };
                    sum = sum + d as u128;
                    i = i + 1;
                }
                let len = last.len() as u128;
                proof {
                    lemma_abs_diff_bound(last@, frame@, n as nat);
                    assert((self.percent as u128) * 255 * len <= 0xffff_ffff * 255
                        * 0x1_0000_0000_0000_0000) by (nonlinear_arith)
                        requires
                            self.percent <= 0xffff_ffff,
                            len <= 0x1_0000_0000_0000_0000,
                    ;
                }
                100 * sum > (self.percent as u128) * 255 * len
            },
        };
        if kept {
            self.last = Some(frame);
        }
        kept
    }

    /// Offers the next decoded frame, compared by its luminance.
    pub fn offer_rgb(&mut self, frame: &RgbRaster) -> (kept: bool)
        requires
            frame.wf(),
        ensures
            kept == keeps(old(self).spec_last(), luma_of(frame.data@), old(self).spec_percent()),
            final(self).spec_percent() == old(self).spec_percent(),
            final(self).spec_last() == (if kept {
                Some(luma_of(frame.data@))
            } else {
                old(self).spec_last()
            }),
    {
        let gray = luma8(frame);
        self.offer(gray)
    }
}

/// Which of the given luminance frames start a new scene.
pub fn select_scene_frames(frames: &Vec<Vec<u8>>, percent: u32) -> (r: Vec<bool>)
    ensures
        r@ == sampler_run(frames@.map_values(|f: Vec<u8>| f@), percent as nat).0,
{
    let mut sampler = SceneSampler::with_threshold(percent);
    let mut flags: Vec<bool> = Vec::new();
    let mut i: usize = 0;
    while i < frames.len()
        invariant
            i <= frames@.len(),
            sampler.spec_percent() == percent,
            (flags@, sampler.spec_last()) == sampler_run(
                frames@.take(i as int).map_values(|f: Vec<u8>| f@),
                percent as nat,
            ),
        decreases frames@.len() - i,
    {
        let ghost prev = frames@.take(i as int).map_values(|f: Vec<u8>| f@);
        let ghost next = frames@.take(i + 1).map_values(|f: Vec<u8>| f@);
        assert(next.drop_last() == prev);
        let kept = sampler.offer(frames[i].clone());
        flags.push(kept);
        i = i + 1;
    }
    assert(frames@.take(frames@.len() as int) == frames@);
    flags
}

/// The first frame offered is always kept.
pub proof fn first_frame_is_kept(frames: Seq<Seq<u8>>, percent: nat)
    requires
        frames.len() > 0,
    ensures
        sampler_run(frames, percent).0.len() == frames.len(),
        sampler_run(frames, percent).0[0],
    decreases frames.len(),
{
    lemma_run_len(frames, percent);
    if frames.len() == 1 {
        assert(frames.drop_last() == Seq::<Seq<u8>>::empty());
        assert(sampler_run(frames.drop_last(), percent).1 is None);
    } else {
        lemma_run_len(frames.drop_last(), percent);
        first_frame_is_kept(frames.drop_last(), percent);
    }
}

proof fn lemma_run_len(frames: Seq<Seq<u8>>, percent: nat)
    ensures
        sampler_run(frames, percent).0.len() == frames.len(),
        frames.len() > 0 ==> sampler_run(frames, percent).1 is Some,
    decreases frames.len(),
{
    if frames.len() > 0 {
        lemma_run_len(frames.drop_last(), percent);
    }
}

proof fn lemma_abs_diff_self(a: Seq<u8>, n: nat)
    ensures
        abs_diff_sum(a, a, n) == 0,
    decreases n,
{
    if n > 0 {
        lemma_abs_diff_self(a, (n - 1) as nat);
    }
}

/// A frame identical to the one just kept is not kept: two identical frames in a
/// row give exactly one kept frame.
pub proof fn repeated_frame_is_suppressed(frame: Seq<u8>, percent: nat)
    ensures
        sampler_run(seq![frame, frame], percent).0 == seq![true, false],
{
    lemma_abs_diff_self(frame, frame.len());
    assert(seq![frame, frame].drop_last() == seq![frame]);
    assert(seq![frame].drop_last() == Seq::<Seq<u8>>::empty());
    let one = sampler_run(seq![frame], percent);
    assert(sampler_run(Seq::<Seq<u8>>::empty(), percent).0 == Seq::<bool>::empty());
    assert(one.0 =~= seq![true]);
    assert(one.1 == Some(frame));
    assert(!is_scene_change(frame, frame, percent));
    assert(sampler_run(seq![frame, frame], percent).0 =~= seq![true, false]);
}

/// The names of a list of entries, in their display form.
pub open spec fn display_names(entries: Seq<(String, u32)>) -> Seq<Seq<char>> {
    entries.map_values(|e: (String, u32)| fixed_tag(e.0@))
}

/// `acc` followed by the names of `more` that are not already there, in order of
/// first appearance.
pub open spec fn add_unique(acc: Seq<Seq<char>>, more: Seq<Seq<char>>) -> Seq<Seq<char>>
    decreases more.len(),
{
    if more.len() == 0 {
        acc
    } else {
        let before = add_unique(acc, more.drop_last());
        if before.contains(more.last()) {
            before
        } else {
            before.push(more.last())
        }
    }
}

/// No name occurs twice.
pub open spec fn no_repeats(names: Seq<Seq<char>>) -> bool {
    forall|i: int, j: int| 0 <= i < j < names.len() ==> names[i] != names[j]
}

/// Adding names keeps each name once, keeps what was there in front, and holds every
/// added name.
pub proof fn union_keeps_each_tag_once(acc: Seq<Seq<char>>, more: Seq<Seq<char>>)
    requires
        no_repeats(acc),
    ensures
        no_repeats(add_unique(acc, more)),
        add_unique(acc, more).len() >= acc.len(),
        add_unique(acc, more).take(acc.len() as int) == acc,
        forall|k: int| 0 <= k < more.len() ==> add_unique(acc, more).contains(#[trigger] more[k]),
    decreases more.len(),
{
    if more.len() > 0 {
        let rest = more.drop_last();
        let before = add_unique(acc, rest);
        union_keeps_each_tag_once(acc, rest);
        let after = add_unique(acc, more);
        if !before.contains(more.last()) {
            assert(after == before.push(more.last()));
            assert(after.take(acc.len() as int) == before.take(acc.len() as int));
            assert forall|k: int| 0 <= k < more.len() implies after.contains(#[trigger] more[k]) by {
                if k < more.len() - 1 {
                    assert(rest[k] == more[k]);
                    let i = choose|i: int| 0 <= i < before.len() && before[i] == rest[k];
                    assert(after[i] == more[k]);
                } else {
                    assert(after[before.len() as int] == more[k]);
                }
            }
        } else {
            assert forall|k: int| 0 <= k < more.len() implies after.contains(#[trigger] more[k]) by {
                if k < more.len() - 1 {
                    assert(rest[k] == more[k]);
                }
            }
        }
    } else {
        assert(acc.take(acc.len() as int) == acc);
    }
}

/// Why a video could not be tagged.
#[derive(Debug, Clone, Copy, PartialEq, Eq, Structural)]
pub enum VideoError {
    /// No frame was sampled from the video.
    NoFrames,
}

/// The per-video fold over sampled frames: the rating starts safe and turns unsafe for
/// good at the first unsafe frame; the tags are the union of every frame's character
/// and general tags, in order of first appearance.
pub struct VideoTags {
    rating: Rating,
    tags: Vec<String>,
    frames: usize,
}

impl VideoTags {
    pub closed spec fn spec_rating(&self) -> Rating {
        self.rating
    }

    pub closed spec fn spec_tags(&self) -> Seq<Seq<char>> {
        self.tags@.map_values(|s: String| s@)
    }

    pub closed spec fn spec_frames(&self) -> nat {
        self.frames as nat
    }

    /// Nothing seen yet: safe, no tags.
    pub fn new() -> (r: VideoTags)
        ensures
            r.spec_rating() == Rating::Sfw,
            r.spec_tags() == Seq::<Seq<char>>::empty(),
            r.spec_frames() == 0,
    {
        VideoTags { rating: Rating::Sfw, tags: Vec::new(), frames: 0 }
    }

    /// Whether the next frame still has to be rated: only while no frame was unsafe.
    pub fn needs_rating(&self) -> (r: bool)
        ensures
            r == (self.spec_rating() == Rating::Sfw),
    {
        self.rating == Rating::Sfw
    }

    pub fn rating(&self) -> (r: Rating)
        ensures
            r == self.spec_rating(),
    {
        self.rating
    }

    /// Number of frames folded in so far.
    pub fn frame_count(&self) -> (r: usize)
        ensures
            r == self.spec_frames(),
    {
        self.frames
    }

    /// The tags so far.
    pub fn tags(&self) -> (r: &Vec<String>)
        ensures
            r@.map_values(|s: String| s@) == self.spec_tags(),
    {
        &self.tags
    }

    fn add_names(&mut self, entries: &Vec<(String, u32)>)
        ensures
            final(self).spec_rating() == old(self).spec_rating(),
            final(self).spec_frames() == old(self).spec_frames(),
            final(self).spec_tags() == add_unique(old(self).spec_tags(), display_names(entries@)),
    {
        let ghost start = self.spec_tags();
        let mut k: usize = 0;
        while k < entries.len()
            invariant
                k <= entries@.len(),
                self.rating == old(self).rating,
                self.frames == old(self).frames,
                self.spec_tags() == add_unique(start, display_names(entries@.take(k as int))),
            decreases entries@.len() - k,
        {
            let name = fix_tag_underscore(entries[k].0.as_str());
            let ghost more = display_names(entries@.take(k + 1));
            assert(more.drop_last() == display_names(entries@.take(k as int)));
            assert(more.last() == name@);
            let mut found = false;
            let mut m: usize = 0;
            while m < self.tags.len()
                invariant
                    m <= self.tags@.len(),
                    found == exists|q: int| 0 <= q < m && self.tags@[q]@ == name@,
                decreases self.tags@.len() - m,
            {
                if self.tags[m] == name {
                    found = true;
                }
                m = m + 1;
            }
            let ghost tv = self.spec_tags();
            assert(found == tv.contains(name@)) by {
                if found {
                    let q = choose|q: int| 0 <= q < m && self.tags@[q]@ == name@;
                    assert(tv[q] == name@);
                }
                if tv.contains(name@) {
                    let q = choose|q: int| 0 <= q < tv.len() && tv[q] == name@;
                    assert(self.tags@[q]@ == name@);
                }
            }
            if !found {
                self.tags.push(name);
                assert(self.spec_tags() == tv.push(name@));
            }
            k = k + 1;
        }
        assert(entries@.take(entries@.len() as int) == entries@);
    }

    /// Folds in one sampled frame: its rating, if it was rated, and its character
    /// and general tags.
    pub fn add_frame(&mut self, rating: Option<Rating>, result: &TaggingResult)
        requires
            old(self).spec_frames() < usize::MAX,
        ensures
            final(self).spec_rating() == (if rating == Some(Rating::Nsfw) {
                Rating::Nsfw
            } else {
                old(self).spec_rating()
            }),
            final(self).spec_tags() == add_unique(
                add_unique(old(self).spec_tags(), display_names(result.character@)),
                display_names(result.general@),
            ),
            final(self).spec_frames() == old(self).spec_frames() + 1,
    {
        if rating == Some(Rating::Nsfw) {
            self.rating = Rating::Nsfw;
        }
        self.add_names(&result.character);
        self.add_names(&result.general);
        self.frames = self.frames + 1;
    }

    /// The video's rating and tags; a video of which no frame was sampled is an error.
    pub fn finish(self) -> (r: Result<(Rating, Vec<String>), VideoError>)
        ensures
            self.spec_frames() == 0 ==> r == Err::<(Rating, Vec<String>), VideoError>(
                VideoError::NoFrames,
            ),
            self.spec_frames() > 0 ==> (r matches Ok((rating, tags)) && rating == self.spec_rating()
                && tags@.map_values(|s: String| s@) == self.spec_tags()),
    {
        if self.frames == 0 {
            Err(VideoError::NoFrames)
        } else {
            Ok((self.rating, self.tags))
        }
    }
}

/// Once a video is rated unsafe it stays unsafe, whatever later frames say.
pub proof fn unsafe_rating_is_final(before: Rating, frame: Option<Rating>)
    requires
        before == Rating::Nsfw,
    ensures
        (if frame == Some(Rating::Nsfw) {
            Rating::Nsfw
        } else {
            before
        }) == Rating::Nsfw,
{
}

} // verus!
