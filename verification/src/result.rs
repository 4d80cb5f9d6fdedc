use vstd::prelude::*;

use crate::landmark::{scored_world_landmarks, Landmark, POSE_LANDMARK_COUNT};
use crate::text::{decimal, lemma_decimal, push_decimal};
use vstd::std_specs::iter::IteratorSpec;
use vstd::string::StringExecFns;

verus! {

/// One entry of a landmark list: the entry's heading, then the landmark's own text.
pub open spec fn landmark_entry_text(
    prefix: Seq<char>,
    index: nat,
    name: Seq<char>,
    text: Seq<char>,
) -> Seq<char> {
    prefix + decimal(index) + " ("@ + name + "):\n"@ + text
}

/// The entries of a landmark list, in order, the landmark at index `i` named `names[i]`.
pub open spec fn landmark_list_text(
    prefix: Seq<char>,
    names: Seq<&str>,
    texts: Seq<String>,
) -> Seq<char>
    decreases texts.len(),
{
    if texts.len() == 0 {
        Seq::empty()
    } else {
        let i = texts.len() - 1;
        landmark_list_text(prefix, names, texts.drop_last()) + landmark_entry_text(
            prefix,
            i as nat,
            names[i]@,
            texts[i]@,
        )
    }
}

/// The report on one pose: its normalized landmarks, its world landmarks and whether
/// it carries a segmentation mask.
pub open spec fn pose_report(
    names: Seq<&str>,
    landmark_texts: Seq<String>,
    world_texts: Seq<String>,
    has_mask: bool,
) -> Seq<char> {
    "  Landmarks:\n"@ + landmark_list_text("    Normalized Landmark #"@, names, landmark_texts)
        + "  WorldLandmarks:\n"@ + landmark_list_text("    Landmark #"@, names, world_texts) + (
    if has_mask {
        "  SegmentationMask: Some\n"@
    } else {
        Seq::empty()
    })
}

/// The reports on the poses `texts`, each under a numbered heading.
pub open spec fn pose_list_report(texts: Seq<Seq<char>>) -> Seq<char>
    decreases texts.len(),
{
    if texts.len() == 0 {
        Seq::empty()
    } else {
        let i = texts.len() - 1;
        pose_list_report(texts.drop_last()) + "PoseLandmarkResult #"@ + decimal(i as nat) + "\n"@
            + texts[i]
    }
}

/// The report on all poses of an image, given the report on each pose.
pub open spec fn results_report(texts: Seq<Seq<char>>) -> Seq<char> {
    if texts.len() == 0 {
        "No PoseLandmarkResult.\n"@
    } else {
        pose_list_report(texts)
    }
}

/// The report on each pose of `results`, the `i`-th pose's landmarks having the texts
/// `landmark_texts[i]` and `world_texts[i]`.
pub open spec fn pose_reports<S, M>(
    names: Seq<&str>,
    landmark_texts: Seq<Vec<String>>,
    world_texts: Seq<Vec<String>>,
    results: Seq<PoseLandmarkResult<S, M>>,
) -> Seq<Seq<char>> {
    Seq::new(
        results.len(),
        |i: int|
            pose_report(
                names,
                landmark_texts[i]@,
                world_texts[i]@,
                results[i].segmentation_mask is Some,
            ),
    )
}

/// Appends the entries of a landmark list to `out`.
fn push_landmark_list(out: &mut String, prefix: &str, names: &[&str], texts: &Vec<String>)
    requires
        texts.len() <= names@.len(),
    ensures
        final(out)@ == old(out)@ + landmark_list_text(prefix@, names@, texts@),
{
    let mut i: usize = 0;
    while i < texts.len()
        invariant
            i <= texts.len(),
            texts.len() <= names@.len(),
            out@ == old(out)@ + landmark_list_text(prefix@, names@, texts@.take(i as int)),
        decreases texts.len() - i,
    {
        let ghost before = out@;
        out.append(prefix);
        push_decimal(out, i);
        out.append(" (");
        out.append(names[i]);
        out.append("):\n");
        out.append(texts[i].as_str());
        proof {
            let t = texts@.take(i + 1);
            assert(t.drop_last() =~= texts@.take(i as int));
            assert(out@ =~= before + landmark_entry_text(prefix@, i as nat, names@[i as int]@, texts@[i as int]@));
        }
        i = i + 1;
    }
    proof {
        assert(texts@.take(texts.len() as int) =~= texts@);
    }
}

/// A single pose landmark detection result.
pub struct PoseLandmarkResult<S, M> {
    /// Detected pose landmarks in normalized image coordinates.
    pub pose_landmarks: Vec<Landmark<S>>,
    /// Detected pose landmarks in world coordinates.
    pub pose_world_landmarks: Vec<Landmark<S>>,
    /// Optional pose segmentation mask in confidence image format.
    pub segmentation_mask: Option<M>,
}

impl<S: Copy, M> PoseLandmarkResult<S, M> {
    /// Builds the result of one pose from the raw landmark outputs of the model, before
    /// the landmarks are projected onto the image.
    ///
    /// Only the first `POSE_LANDMARK_COUNT` raw landmarks belong to the pose; the world
    /// landmarks take their visibility and presence scores from the normalized ones. The
    /// coordinates are left as the model gave them, in the frame of the pose's crop:
    /// projecting them onto the image (normalized and world coordinates alike) computes
    /// on the scalar type and is left to the caller.
    pub fn from_raw(
        raw_landmarks: Vec<Landmark<S>>,
        raw_world_landmarks: Vec<Landmark<S>>,
        segmentation_mask: Option<M>,
    ) -> (res: Self)
        requires
            raw_landmarks.len() >= POSE_LANDMARK_COUNT,
            raw_world_landmarks.len() >= POSE_LANDMARK_COUNT,
        ensures
            res.pose_landmarks@ == raw_landmarks@.take(POSE_LANDMARK_COUNT as int),
            res.pose_world_landmarks@ == scored_world_landmarks(
                raw_landmarks@,
                raw_world_landmarks@,
            ),
            res.segmentation_mask == segmentation_mask,
            res.pose_landmarks.len() == POSE_LANDMARK_COUNT,
            res.pose_world_landmarks.len() == POSE_LANDMARK_COUNT,
            forall|i: int|
                0 <= i < POSE_LANDMARK_COUNT ==> {
                    &&& (#[trigger] res.pose_world_landmarks@[i]).visibility
                        == res.pose_landmarks@[i].visibility
                    &&& res.pose_world_landmarks@[i].presence == res.pose_landmarks@[i].presence
                },
    {
        let mut pose_landmarks: Vec<Landmark<S>> = Vec::new();
        let mut pose_world_landmarks: Vec<Landmark<S>> = Vec::new();
        let mut i: usize = 0;
        while i < POSE_LANDMARK_COUNT
            invariant
                i <= POSE_LANDMARK_COUNT,
                raw_landmarks.len() >= POSE_LANDMARK_COUNT,
                raw_world_landmarks.len() >= POSE_LANDMARK_COUNT,
                pose_landmarks@ == raw_landmarks@.take(i as int),
                pose_world_landmarks@ == scored_world_landmarks(
                    raw_landmarks@,
                    raw_world_landmarks@,
                ).take(i as int),
            decreases POSE_LANDMARK_COUNT - i,
        {
            let normalized = raw_landmarks[i];
            let world = raw_world_landmarks[i];
            pose_landmarks.push(normalized);
            pose_world_landmarks.push(
                Landmark {
                    x: world.x,
                    y: world.y,
                    z: world.z,
                    visibility: normalized.visibility,
                    presence: normalized.presence,
                },
            );
            proof {
                assert(pose_landmarks@ =~= raw_landmarks@.take(i + 1));
                assert(pose_world_landmarks@ =~= scored_world_landmarks(
                    raw_landmarks@,
                    raw_world_landmarks@,
                ).take(i + 1));
            }
            i = i + 1;
        }
        proof {
            assert(pose_world_landmarks@ =~= scored_world_landmarks(
                raw_landmarks@,
                raw_world_landmarks@,
            ));
        }
        PoseLandmarkResult { pose_landmarks, pose_world_landmarks, segmentation_mask }
    }
}

impl<S, M> PoseLandmarkResult<S, M> {
    /// The report on this pose. `landmark_texts[i]` and `world_texts[i]` are the texts of
    /// the `i`-th normalized and world landmark, and `names[i]` the name of the `i`-th
    /// landmark of a pose.
    pub fn describe(
        &self,
        names: &[&str],
        landmark_texts: &Vec<String>,
        world_texts: &Vec<String>,
    ) -> (res: String)
        requires
            landmark_texts.len() == self.pose_landmarks.len(),
            world_texts.len() == self.pose_world_landmarks.len(),
            self.pose_landmarks.len() <= names@.len(),
            self.pose_world_landmarks.len() <= names@.len(),
        ensures
            res@ == pose_report(
                names@,
                landmark_texts@,
                world_texts@,
                self.segmentation_mask is Some,
            ),
    {
        let mut out = String::new();
        out.append("  Landmarks:\n");
        push_landmark_list(&mut out, "    Normalized Landmark #", names, landmark_texts);
        out.append("  WorldLandmarks:\n");
        push_landmark_list(&mut out, "    Landmark #", names, world_texts);
        if self.segmentation_mask.is_some() {
            out.append("  SegmentationMask: Some\n");
        }
        proof {
            assert(out@ =~= pose_report(
                names@,
                landmark_texts@,
                world_texts@,
                self.segmentation_mask is Some,
            ));
        }
        out
    }
}

/// The report on a pose begins with the normalized landmarks' heading, and a pose with
/// a segmentation mask is reported as the same pose without one, followed by the mask
/// line.
pub proof fn lemma_pose_report_mask(
    names: Seq<&str>,
    landmark_texts: Seq<String>,
    world_texts: Seq<String>,
)
    ensures
        pose_report(names, landmark_texts, world_texts, true) == pose_report(
            names,
            landmark_texts,
            world_texts,
            false,
        ) + "  SegmentationMask: Some\n"@,
        forall|has_mask: bool|
            #![trigger pose_report(names, landmark_texts, world_texts, has_mask)]
            pose_report(names, landmark_texts, world_texts, has_mask).subrange(
                0,
                "  Landmarks:\n"@.len() as int,
            ) == "  Landmarks:\n"@,
{
    assert forall|has_mask: bool|
        #![trigger pose_report(names, landmark_texts, world_texts, has_mask)]
        pose_report(names, landmark_texts, world_texts, has_mask).subrange(
            0,
            "  Landmarks:\n"@.len() as int,
        ) == "  Landmarks:\n"@ by {
        assert(pose_report(names, landmark_texts, world_texts, has_mask).subrange(
            0,
            "  Landmarks:\n"@.len() as int,
        ) =~= "  Landmarks:\n"@);
    }
    assert(pose_report(names, landmark_texts, world_texts, true) =~= pose_report(
        names,
        landmark_texts,
        world_texts,
        false,
    ) + "  SegmentationMask: Some\n"@);
}

/// What the model gave for one detected pose.
pub struct PoseDetectionOutputs<S, M> {
    /// Whether the pose presence score reached the minimum pose presence confidence.
    pub pose_present: bool,
    /// The raw landmarks in normalized coordinates.
    pub raw_landmarks: Vec<Landmark<S>>,
    /// The raw landmarks in world coordinates.
    pub raw_world_landmarks: Vec<Landmark<S>>,
    /// The confidence mask of the pose, where the model computed one.
    pub segmentation_mask: Option<M>,
}

/// The indices, in increasing order, of the detections whose pose is present.
pub open spec fn kept_indices<S, M>(detections: Seq<PoseDetectionOutputs<S, M>>) -> Seq<int>
    decreases detections.len(),
{
    if detections.len() == 0 {
        Seq::empty()
    } else {
        let i = detections.len() - 1;
        kept_indices(detections.drop_last()) + if detections[i].pose_present {
            seq![i]
        } else {
            Seq::empty()
        }
    }
}

/// `result` is the pose that `from_raw` builds from `detection`, carrying the detection's
/// mask exactly when masks are requested.
pub open spec fn is_pose_of<S, M>(
    result: PoseLandmarkResult<S, M>,
    detection: PoseDetectionOutputs<S, M>,
    output_segmentation_masks: bool,
) -> bool {
    &&& result.pose_landmarks@ == detection.raw_landmarks@.take(POSE_LANDMARK_COUNT as int)
    &&& result.pose_world_landmarks@ == scored_world_landmarks(
        detection.raw_landmarks@,
        detection.raw_world_landmarks@,
    )
    &&& result.segmentation_mask == if output_segmentation_masks {
        detection.segmentation_mask
    } else {
        None
    }
}

/// Every kept index points into the detections.
pub proof fn lemma_kept_indices_bounded<S, M>(detections: Seq<PoseDetectionOutputs<S, M>>)
    ensures
        forall|j: int|
            0 <= j < kept_indices(detections).len() ==> 0 <= #[trigger] kept_indices(
                detections,
            )[j] < detections.len(),
        forall|j: int|
            0 <= j < kept_indices(detections).len() ==> detections[#[trigger] kept_indices(
                detections,
            )[j]].pose_present,
    decreases detections.len(),
{
    if detections.len() > 0 {
        lemma_kept_indices_bounded(detections.drop_last());
    }
}

/// The number of detections whose pose is present.
pub open spec fn present_count<S, M>(detections: Seq<PoseDetectionOutputs<S, M>>) -> nat {
    detections.filter(|x: PoseDetectionOutputs<S, M>| x.pose_present).len()
}

/// The kept detections are exactly the detections whose pose is present, each once, in
/// detection order: every kept index points at a present detection, the kept indices
/// increase strictly, every present detection is kept whatever the other detections
/// are, and there are as many kept indices as present detections.
pub proof fn lemma_kept_indices<S, M>(detections: Seq<PoseDetectionOutputs<S, M>>)
    ensures
        forall|j: int|
            0 <= j < kept_indices(detections).len() ==> {
                &&& 0 <= #[trigger] kept_indices(detections)[j] < detections.len()
                &&& detections[kept_indices(detections)[j]].pose_present
            },
        forall|j1: int, j2: int|
            0 <= j1 < j2 < kept_indices(detections).len() ==> #[trigger] kept_indices(
                detections,
            )[j1] < #[trigger] kept_indices(detections)[j2],
        forall|i: int|
            0 <= i < detections.len() && (#[trigger] detections[i]).pose_present ==> exists|
                j: int,
            |
                0 <= j < kept_indices(detections).len() && #[trigger] kept_indices(detections)[j]
                    == i,
        kept_indices(detections).len() == present_count(detections),
    decreases detections.len(),
{
    reveal(Seq::filter);
    let k = kept_indices(detections);
    if detections.len() > 0 {
        let n = detections.len() - 1;
        let rest = detections.drop_last();
        let kr = kept_indices(rest);
        lemma_kept_indices(rest);
        assert(forall|j: int| 0 <= j < kr.len() ==> #[trigger] k[j] == kr[j]);
        assert forall|i: int|
            0 <= i < detections.len() && (#[trigger] detections[i]).pose_present implies exists|
                j: int,
            |
                0 <= j < k.len() && #[trigger] k[j] == i by {
            if i < n {
                assert(rest[i] == detections[i]);
                let j = choose|j: int| 0 <= j < kr.len() && #[trigger] kr[j] == i;
                assert(k[j] == i);
            } else {
                assert(k[kr.len() as int] == i);
            }
        }
        assert(detections.filter(|x: PoseDetectionOutputs<S, M>| x.pose_present).len()
            == rest.filter(|x: PoseDetectionOutputs<S, M>| x.pose_present).len() + if detections[n].pose_present {
            1int
        } else {
            0int
        });
    }
}

/// The `k`-th entry of a landmark list is numbered `k` and named `names[k]`: the list of
/// the first `k + 1` landmarks is the list of the first `k` followed by that entry, and
/// the list of all landmarks is the list of the first `texts.len()`.
pub proof fn lemma_landmark_list_entry(
    prefix: Seq<char>,
    names: Seq<&str>,
    texts: Seq<String>,
    k: int,
)
    requires
        0 <= k < texts.len(),
    ensures
        landmark_list_text(prefix, names, texts.take(k + 1)) == landmark_list_text(
            prefix,
            names,
            texts.take(k),
        ) + prefix + decimal(k as nat) + " ("@ + names[k]@ + "):\n"@ + texts[k]@,
        landmark_list_text(prefix, names, texts.take(texts.len() as int)) == landmark_list_text(
            prefix,
            names,
            texts,
        ),
{
    assert(texts.take(k + 1).drop_last() =~= texts.take(k));
    assert(texts.take(texts.len() as int) =~= texts);
}

/// A report on at least one pose begins with the first pose's report under heading `0`.
proof fn lemma_pose_list_report_first(texts: Seq<Seq<char>>)
    requires
        texts.len() >= 1,
    ensures
        ({
            let first = "PoseLandmarkResult #"@ + decimal(0) + "\n"@ + texts[0];
            let r = pose_list_report(texts);
            &&& first.len() <= r.len()
            &&& r.subrange(0, first.len() as int) == first
        }),
    decreases texts.len(),
{
    let first = "PoseLandmarkResult #"@ + decimal(0) + "\n"@ + texts[0];
    if texts.len() == 1 {
        assert(texts.drop_last() =~= Seq::<Seq<char>>::empty());
        assert(pose_list_report(texts.drop_last()) =~= Seq::<char>::empty());
        assert(pose_list_report(texts) =~= first);
    } else {
        let rest = texts.drop_last();
        lemma_pose_list_report_first(rest);
        assert(rest[0] == texts[0]);
        let r0 = pose_list_report(rest);
        assert(pose_list_report(texts).subrange(0, first.len() as int) =~= r0.subrange(
            0,
            first.len() as int,
        ));
    }
}

/// The report on the poses of an image says there is none exactly when there is none;
/// otherwise it begins with the report on the first pose headed by its number `0`, and
/// the report on one more pose is the report so far followed by the new pose's report
/// headed by its number.
pub proof fn lemma_results_report(texts: Seq<Seq<char>>, t: Seq<char>)
    ensures
        texts.len() == 0 ==> results_report(texts) == "No PoseLandmarkResult.\n"@,
        texts.len() >= 1 ==> {
            let first = "PoseLandmarkResult #0\n"@ + texts[0];
            &&& first.len() <= results_report(texts).len()
            &&& results_report(texts).subrange(0, first.len() as int) == first
        },
        texts.len() >= 1 ==> results_report(texts.push(t)) == results_report(texts)
            + "PoseLandmarkResult #"@ + decimal(texts.len()) + "\n"@ + t,
        results_report(seq![t]) == "PoseLandmarkResult #0\n"@ + t,
{
    reveal_strlit("PoseLandmarkResult #0\n");
    reveal_strlit("PoseLandmarkResult #");
    reveal_strlit("\n");
    lemma_decimal(0);
    assert(decimal(0) =~= seq!['0']);
    assert("PoseLandmarkResult #0\n"@ =~= "PoseLandmarkResult #"@ + decimal(0) + "\n"@);
    if texts.len() >= 1 {
        lemma_pose_list_report_first(texts);
        assert(texts.push(t).drop_last() =~= texts);
    }
    let one = seq![t];
    assert(one.drop_last() =~= Seq::<Seq<char>>::empty());
    assert(pose_list_report(one.drop_last()) =~= Seq::<char>::empty());
    assert(one[0] == t);
    assert(pose_list_report(one) =~= "PoseLandmarkResult #0\n"@ + t);
}

/// The pose landmarks detection results of one image.
pub struct PoseLandmarkResults<S, M>(pub Vec<PoseLandmarkResult<S, M>>);

impl<S, M> std::ops::Deref for PoseLandmarkResults<S, M> {
    type Target = Vec<PoseLandmarkResult<S, M>>;

    /// The results, in detection order.
    fn deref(&self) -> (res: &Vec<PoseLandmarkResult<S, M>>)
        ensures
            *res == self.0,
    {
        &self.0
    }
}

impl<S, M> IntoIterator for PoseLandmarkResults<S, M> {
    type Item = PoseLandmarkResult<S, M>;

    type IntoIter = std::vec::IntoIter<PoseLandmarkResult<S, M>>;

    /// Hands the results out one by one, in detection order.
    fn into_iter(self) -> (res: std::vec::IntoIter<PoseLandmarkResult<S, M>>)
        ensures
            res.remaining() == self.0@,
    {
        self.0.into_iter()
    }
}

impl<S, M> PoseLandmarkResults<S, M> {
    /// The results, for changing in place.
    pub fn deref_mut(&mut self) -> (res: &mut Vec<PoseLandmarkResult<S, M>>)
        ensures
            *res == old(self).0,
            final(self).0 == *final(res),
    {
        &mut self.0
    }

    /// The report on all poses. `landmark_texts[i][k]` and `world_texts[i][k]` are the
    /// texts of the `k`-th normalized and world landmark of the `i`-th pose, and
    /// `names[k]` the name of the `k`-th landmark of a pose.
    pub fn describe(
        &self,
        names: &[&str],
        landmark_texts: &Vec<Vec<String>>,
        world_texts: &Vec<Vec<String>>,
    ) -> (res: String)
        requires
            landmark_texts.len() == self.0.len(),
            world_texts.len() == self.0.len(),
            forall|i: int|
                0 <= i < self.0.len() ==> {
                    &&& (#[trigger] landmark_texts@[i]).len() == self.0@[i].pose_landmarks.len()
                    &&& world_texts@[i].len() == self.0@[i].pose_world_landmarks.len()
                    &&& self.0@[i].pose_landmarks.len() <= names@.len()
                    &&& self.0@[i].pose_world_landmarks.len() <= names@.len()
                },
        ensures
            res@ == results_report(
                pose_reports(names@, landmark_texts@, world_texts@, self.0@),
            ),
    {
        let ghost reports = pose_reports(names@, landmark_texts@, world_texts@, self.0@);
        let mut out = String::new();
        if self.0.len() == 0 {
            out.append("No PoseLandmarkResult.\n");
            return out;
        }
        let mut i: usize = 0;
        while i < self.0.len()
            invariant
                i <= self.0.len(),
                landmark_texts.len() == self.0.len(),
                world_texts.len() == self.0.len(),
                forall|k: int|
                    0 <= k < self.0.len() ==> {
                        &&& (#[trigger] landmark_texts@[k]).len()
                            == self.0@[k].pose_landmarks.len()
                        &&& world_texts@[k].len() == self.0@[k].pose_world_landmarks.len()
                        &&& self.0@[k].pose_landmarks.len() <= names@.len()
                        &&& self.0@[k].pose_world_landmarks.len() <= names@.len()
                    },
                reports == pose_reports(names@, landmark_texts@, world_texts@, self.0@),
                out@ == pose_list_report(reports.take(i as int)),
            decreases self.0.len() - i,
        {
            let ghost before = out@;
            let pose = &self.0[i];
            assert(landmark_texts@[i as int].len() == self.0@[i as int].pose_landmarks.len());
            let text = pose.describe(names, &landmark_texts[i], &world_texts[i]);
            out.append("PoseLandmarkResult #");
            push_decimal(&mut out, i);
            out.append("\n");
            out.append(text.as_str());
            proof {
                let t = reports.take(i + 1);
                assert(t.drop_last() =~= reports.take(i as int));
                assert(out@ =~= pose_list_report(t));
            }
            i = i + 1;
        }
        proof {
            assert(reports.take(self.0.len() as int) =~= reports);
        }
        out
    }
}

impl<S: Copy, M> PoseLandmarkResults<S, M> {
    /// The results of one image from what the model gave for each detected pose, in
    /// detection order: a detection whose pose is not present yields no result, any
    /// other yields the pose that `from_raw` builds from its raw landmarks, carrying its
    /// confidence mask when masks are requested and none otherwise.
    pub fn from_detections(
        detections: Vec<PoseDetectionOutputs<S, M>>,
        output_segmentation_masks: bool,
    ) -> (res: Self)
        requires
            forall|i: int|
                0 <= i < detections.len() && (#[trigger] detections@[i]).pose_present ==> {
                    &&& detections@[i].raw_landmarks.len() >= POSE_LANDMARK_COUNT
                    &&& detections@[i].raw_world_landmarks.len() >= POSE_LANDMARK_COUNT
                },
        ensures
            res.0.len() == kept_indices(detections@).len(),
            forall|j: int|
                0 <= j < res.0.len() ==> is_pose_of(
                    #[trigger] res.0@[j],
                    detections@[kept_indices(detections@)[j]],
                    output_segmentation_masks,
                ),
            res.0.len() == present_count(detections@),
            forall|i: int|
                0 <= i < detections.len() && (#[trigger] detections@[i]).pose_present ==> exists|
                    j: int,
                |
                    0 <= j < res.0.len() && is_pose_of(
                        #[trigger] res.0@[j],
                        detections@[i],
                        output_segmentation_masks,
                    ),
    {
        let ghost all = detections@;
        let mut rest = detections;
        let mut results: Vec<PoseLandmarkResult<S, M>> = Vec::new();
        let ghost mut n: int = 0;
        while rest.len() > 0
            invariant
                0 <= n <= all.len(),
                rest@ == all.skip(n),
                forall|i: int|
                    0 <= i < all.len() && (#[trigger] all[i]).pose_present ==> {
                        &&& all[i].raw_landmarks.len() >= POSE_LANDMARK_COUNT
                        &&& all[i].raw_world_landmarks.len() >= POSE_LANDMARK_COUNT
                    },
                results.len() == kept_indices(all.take(n)).len(),
                forall|j: int|
                    0 <= j < results.len() ==> is_pose_of(
                        #[trigger] results@[j],
                        all[kept_indices(all.take(n))[j]],
                        output_segmentation_masks,
                    ),
            decreases rest.len(),
        {
            let ghost prev = results@;
            let detection = rest.remove(0);
            proof {
                assert(detection == all[n]);
                lemma_kept_indices_bounded(all.take(n));
                assert(all.take(n + 1).drop_last() =~= all.take(n));
            }
            let PoseDetectionOutputs {
                pose_present,
                raw_landmarks,
                raw_world_landmarks,
                segmentation_mask,
            } = detection;
            if pose_present {
                let mask = if output_segmentation_masks {
                    segmentation_mask
                } else {
                    None
                };
                results.push(PoseLandmarkResult::from_raw(raw_landmarks, raw_world_landmarks, mask));
            }
            proof {
                let k = kept_indices(all.take(n));
                assert forall|j: int| 0 <= j < k.len() implies k[j] < n by {}
                assert forall|j: int|
                    0 <= j < results.len() implies is_pose_of(
                    #[trigger] results@[j],
                    all[kept_indices(all.take(n + 1))[j]],
                    output_segmentation_masks,
                ) by {
                    if j < prev.len() {
                        assert(results@[j] == prev[j]);
                    }
                }
                n = n + 1;
                assert(rest@ =~= all.skip(n));
            }
        }
        proof {
            assert(all.take(n) =~= all);
            lemma_kept_indices(all);
            let k = kept_indices(all);
            assert forall|i: int|
                0 <= i < all.len() && (#[trigger] all[i]).pose_present implies exists|j: int|
                    0 <= j < results.len() && is_pose_of(
                        #[trigger] results@[j],
                        all[i],
                        output_segmentation_masks,
                    ) by {
                let j = choose|j: int| 0 <= j < k.len() && #[trigger] k[j] == i;
                assert(is_pose_of(results@[j], all[k[j]], output_segmentation_masks));
            }
        }
        PoseLandmarkResults(results)
    }
}

} // verus!
