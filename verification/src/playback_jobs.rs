//! Keeping playback's background work in step with the project: where the
//! audio queue continues, when a lost audio output is tried again, and which
//! waveform builds start, are cancelled or are taken in.
use crate::text::str_eq;
use vstd::prelude::*;

verus! {

// ---------------------------------------------------------------------------
// The audio queue
// ---------------------------------------------------------------------------

/// `v + 1`, saturating.
pub open spec fn saturating_succ(v: i32) -> i32 {
    if v == i32::MAX {
        i32::MAX
    } else {
        (v + 1) as i32
    }
}

/// `a + b`, saturating.
pub open spec fn saturating_sum(a: i32, b: i32) -> i32 {
    if a + b > i32::MAX {
        i32::MAX
    } else if a + b < i32::MIN {
        i32::MIN
    } else {
        (a + b) as i32
    }
}

/// Where the audio queue continues: from the next queued frame while it
/// lies between the playhead and the permitted lead and the playback rate
/// is unchanged; otherwise the queue is reset and continues at the playhead.
pub open spec fn queue_position(
    next_frame: Option<i32>,
    playhead: i32,
    permitted_lead: i32,
    rate_changed: bool,
) -> (i32, bool) {
    match next_frame {
        Some(next) => if !rate_changed && playhead <= next && next <= saturating_sum(
            playhead,
            permitted_lead,
        ) {
            (next, false)
        } else {
            (playhead, true)
        },
        None => (playhead, true),
    }
}

/// The frame the audio queue continues from, and whether it was reset.
pub fn audio_queue_position(
    next_frame: Option<i32>,
    playhead: i32,
    permitted_lead: i32,
    rate_changed: bool,
) -> (r: (i32, bool))
    ensures
        r == queue_position(next_frame, playhead, permitted_lead, rate_changed),
{
    if rate_changed {
        return (playhead, true);
    }
    match next_frame {
        Some(next) => {
            let sum = playhead as i64 + permitted_lead as i64;
            let bound: i64 = if sum > i32::MAX as i64 {
                i32::MAX as i64
            } else if sum < i32::MIN as i64 {
                i32::MIN as i64
            } else {
                sum
            };
            if next < playhead || (next as i64) > bound {
                (playhead, true)
            } else {
                (next, false)
            }
        },
        None => (playhead, true),
    }
}

/// The audio queue never continues behind the playhead nor further ahead of
/// it than the permitted lead; a reset continues exactly at the playhead.
pub proof fn audio_queue_stays_near_the_playhead(
    next_frame: Option<i32>,
    playhead: i32,
    permitted_lead: i32,
    rate_changed: bool,
)
    requires
        permitted_lead >= 0,
    ensures
        playhead <= queue_position(next_frame, playhead, permitted_lead, rate_changed).0,
        queue_position(next_frame, playhead, permitted_lead, rate_changed).0 <= saturating_sum(
            playhead,
            permitted_lead,
        ),
        queue_position(next_frame, playhead, permitted_lead, rate_changed).1 ==> queue_position(
            next_frame,
            playhead,
            permitted_lead,
            rate_changed,
        ).0 == playhead,
{
}

/// The frame queued after `frame`.
pub fn next_queued_frame(frame: i32) -> (r: i32)
    ensures
        r == saturating_succ(frame),
{
    if frame == i32::MAX {
        i32::MAX
    } else {
        frame + 1
    }
}

/// Whether opening the audio output is tried now: when there was no
/// attempt yet or the last one is at least five seconds ago.
pub fn output_retry_due(since_last_attempt_ms: Option<u64>) -> (r: bool)
    ensures
        r == match since_last_attempt_ms {
            Some(ms) => ms >= 5_000,
            None => true,
        },
{
    match since_last_attempt_ms {
        Some(ms) => ms >= 5_000,
        None => true,
    }
}

// ---------------------------------------------------------------------------
// Keys of the project state that background work is done for
// ---------------------------------------------------------------------------

/// The project state a preview or waveform is built from: the open
/// project, its document revision and its file.
#[derive(Debug, Clone, PartialEq, Eq)]
pub struct SourceKey {
    pub project_instance_id: u64,
    pub document_revision: u64,
    pub project_path: Option<String>,
}

/// A scene of that project state.
#[derive(Debug, Clone, PartialEq, Eq)]
pub struct SceneKey {
    pub source: SourceKey,
    pub scene_id: i32,
}

/// The content of a scene key.
pub struct SceneKeyModel {
    pub project_instance_id: u64,
    pub document_revision: u64,
    pub project_path: Option<Seq<char>>,
    pub scene_id: i32,
}

impl SceneKey {
    /// The key's content.
    pub open spec fn model(&self) -> SceneKeyModel {
        SceneKeyModel {
            project_instance_id: self.source.project_instance_id,
            document_revision: self.source.document_revision,
            project_path: match self.source.project_path {
                Some(p) => Some(p@),
                None => None,
            },
            scene_id: self.scene_id,
        }
    }

    /// Whether two keys name the same scene of the same project state.
    pub fn same(&self, other: &SceneKey) -> (r: bool)
        ensures
            r == (self.model() == other.model()),
    {
        let same_path = match (&self.source.project_path, &other.source.project_path) {
            (Some(a), Some(b)) => str_eq(a.as_str(), b.as_str()),
            (None, None) => true,
            _ => false,
        };
        self.source.project_instance_id == other.source.project_instance_id
            && self.source.document_revision == other.source.document_revision && same_path
            && self.scene_id == other.scene_id
    }

    fn copy(&self) -> (r: SceneKey)
        ensures
            r.model() == self.model(),
    {
        SceneKey {
            source: SourceKey {
                project_instance_id: self.source.project_instance_id,
                document_revision: self.source.document_revision,
                project_path: match &self.source.project_path {
                    Some(p) => Some(p.clone()),
                    None => None,
                },
            },
            scene_id: self.scene_id,
        }
    }
}

/// The content of an optional key.
pub open spec fn key_model(k: Option<SceneKey>) -> Option<SceneKeyModel> {
    match k {
        Some(key) => Some(key.model()),
        None => None,
    }
}

fn same_key(a: &Option<SceneKey>, b: &SceneKey) -> (r: bool)
    ensures
        r == (key_model(*a) == Some(b.model())),
{
    match a {
        Some(k) => k.same(b),
        None => false,
    }
}

fn copy_key(a: &Option<SceneKey>) -> (r: Option<SceneKey>)
    ensures
        key_model(r) == key_model(*a),
{
    match a {
        Some(k) => Some(k.copy()),
        None => None,
    }
}

// ---------------------------------------------------------------------------
// Waveform builds
// ---------------------------------------------------------------------------

/// What the waveform runtime knows: the scene shown, the scene a build is
/// running for, the scene whose waveforms are complete, and whether
/// waveforms are shown.
pub struct WaveformJobs {
    pub source_key: Option<SceneKey>,
    pub pending_key: Option<SceneKey>,
    pub completed_key: Option<SceneKey>,
    pub has_peaks: bool,
}

/// The content of the waveform runtime's state.
pub struct JobsModel {
    pub source_key: Option<SceneKeyModel>,
    pub pending_key: Option<SceneKeyModel>,
    pub completed_key: Option<SceneKeyModel>,
    pub has_peaks: bool,
}

impl WaveformJobs {
    /// The state's content.
    pub open spec fn model(&self) -> JobsModel {
        JobsModel {
            source_key: key_model(self.source_key),
            pending_key: key_model(self.pending_key),
            completed_key: key_model(self.completed_key),
            has_peaks: self.has_peaks,
        }
    }
}

/// What the runtime does on an update.
#[derive(Debug, Clone, PartialEq, Eq)]
pub struct WaveformActions {
    /// Ask a running build to stop.
    pub cancel_pending: bool,
    /// Remove the waveforms shown on the timeline.
    pub clear_view: bool,
    /// Start a build for this scene.
    pub start: Option<SceneKey>,
}

/// The state after an update for the current scene (`None` without an open
/// project), and whether the view is cleared and a build is cancelled.
/// Leaving the project stops any build and forgets the waveforms; a new
/// scene or document revision stops the build, forgets the waveforms and
/// clears the view.
pub open spec fn jobs_after_update(s: JobsModel, current: Option<SceneKeyModel>) -> (
    JobsModel,
    bool,
    bool,
) {
    match current {
        None => if s.source_key is Some || s.has_peaks {
            (JobsModel { source_key: None, completed_key: None, has_peaks: false, ..s }, true, true)
        } else {
            (s, true, false)
        },
        Some(key) => if s.source_key != Some(key) {
            (
                JobsModel {
                    source_key: Some(key),
                    completed_key: None,
                    has_peaks: false,
                    ..s
                },
                true,
                true,
            )
        } else {
            (s, false, false)
        },
    }
}

/// Whether an update starts a build: for the current scene, when no build
/// is running and its waveforms are not complete.
pub open spec fn starts_build(s: JobsModel, current: Option<SceneKeyModel>) -> bool {
    current is Some && s.pending_key is None && s.completed_key != current
}

/// Follows the current scene: returns what to do.
pub fn waveform_update(jobs: &mut WaveformJobs, current: Option<SceneKey>) -> (r: WaveformActions)
    ensures
        ({
            let (after, cancel, clear) = jobs_after_update(old(jobs).model(), key_model(current));
            &&& final(jobs).model() == after
            &&& r.cancel_pending == cancel
            &&& r.clear_view == clear
            &&& key_model(r.start) == if starts_build(after, key_model(current)) {
                key_model(current)
            } else {
                None
            }
        }),
{
    match current {
        None => {
            let clear = jobs.source_key.is_some() || jobs.has_peaks;
            if clear {
                jobs.source_key = None;
                jobs.completed_key = None;
                jobs.has_peaks = false;
            }
            WaveformActions { cancel_pending: true, clear_view: clear, start: None }
        },
        Some(key) => {
            let mut cancel = false;
            if !same_key(&jobs.source_key, &key) {
                cancel = true;
                jobs.source_key = Some(key.copy());
                jobs.completed_key = None;
                jobs.has_peaks = false;
            }
            let start = if jobs.pending_key.is_none() && !same_key(&jobs.completed_key, &key) {
                Some(key)
            } else {
                None
            };
            WaveformActions { cancel_pending: cancel, clear_view: cancel, start }
        },
    }
}

/// Takes in whether the build for `key` could be started: a running build
/// is pending; one that could not start counts as complete, without
/// waveforms.
pub fn waveform_started(jobs: &mut WaveformJobs, key: SceneKey, started: bool)
    ensures
        final(jobs).model() == if started {
            JobsModel { pending_key: Some(key.model()), ..old(jobs).model() }
        } else {
            JobsModel { completed_key: Some(key.model()), ..old(jobs).model() }
        },
{
    if started {
        jobs.pending_key = Some(key);
    } else {
        jobs.completed_key = Some(key);
    }
}

/// Takes in a finished build: the result for `result_key` (none when the
/// build was stopped) is taken, and its waveforms shown, only when it is
/// for the scene still shown. Returns whether it was taken.
pub fn waveform_finished(
    jobs: &mut WaveformJobs,
    result_key: Option<SceneKey>,
    result_has_peaks: bool,
) -> (r: bool)
    ensures
        r == (result_key is Some && key_model(result_key) == old(jobs).model().source_key),
        final(jobs).model() == if r {
            JobsModel {
                pending_key: None,
                completed_key: key_model(result_key),
                has_peaks: result_has_peaks,
                ..old(jobs).model()
            }
        } else {
            JobsModel { pending_key: None, ..old(jobs).model() }
        },
{
    jobs.pending_key = None;
    match result_key {
        Some(k) => {
            if same_key(&jobs.source_key, &k) {
                jobs.completed_key = Some(k);
                jobs.has_peaks = result_has_peaks;
                true
            } else {
                false
            }
        },
        None => false,
    }
}

/// No second build starts while one is running, a scene whose waveforms
/// are complete is not built again, and after a change of scene or
/// document no waveforms of the previous one remain.
pub proof fn waveform_builds_follow_the_shown_scene(s: JobsModel, current: Option<SceneKeyModel>)
    ensures
        s.pending_key is Some ==> !starts_build(jobs_after_update(s, current).0, current),
        current is Some && s.source_key == current && s.completed_key == current ==> !starts_build(
            jobs_after_update(s, current).0,
            current,
        ),
        current is Some && s.source_key != current ==> {
            let after = jobs_after_update(s, current).0;
            &&& after.completed_key is None
            &&& !after.has_peaks
            &&& jobs_after_update(s, current).2
        },
{
}

// ---------------------------------------------------------------------------
// Preview planners
// ---------------------------------------------------------------------------

/// The content of a source key.
pub open spec fn source_model(k: SourceKey) -> (u64, u64, Option<Seq<char>>) {
    (
        k.project_instance_id,
        k.document_revision,
        match k.project_path {
            Some(p) => Some(p@),
            None => None,
        },
    )
}

/// The content of an optional source key.
pub open spec fn source_key_model(k: Option<SourceKey>) -> Option<(u64, u64, Option<Seq<char>>)> {
    match k {
        Some(key) => Some(source_model(key)),
        None => None,
    }
}

fn same_source(a: &Option<SourceKey>, b: &SourceKey) -> (r: bool)
    ensures
        r == (source_key_model(*a) == Some(source_model(*b))),
{
    match a {
        Some(k) => {
            let same_path = match (&k.project_path, &b.project_path) {
                (Some(x), Some(y)) => str_eq(x.as_str(), y.as_str()),
                (None, None) => true,
                _ => false,
            };
            k.project_instance_id == b.project_instance_id && k.document_revision
                == b.document_revision && same_path
        },
        None => false,
    }
}

/// What a planner does for the project state it is asked about.
#[derive(Debug, Clone, Copy, PartialEq, Eq, Structural)]
pub enum PlannerStep {
    /// The planner was made for this state: use it as it is.
    Keep,
    /// Rebuild the existing planner for the new state.
    Rebuild,
    /// Make a planner for the state.
    Create,
}

/// The planner step for a project state: kept for the state it was made
/// for, rebuilt for another, made when there is none.
pub fn planner_step(planned_for: &Option<SourceKey>, key: &SourceKey, has_planner: bool) -> (r:
    PlannerStep)
    ensures
        r == if source_key_model(*planned_for) == Some(source_model(*key)) {
            PlannerStep::Keep
        } else if has_planner {
            PlannerStep::Rebuild
        } else {
            PlannerStep::Create
        },
{
    if same_source(planned_for, key) {
        PlannerStep::Keep
    } else if has_planner {
        PlannerStep::Rebuild
    } else {
        PlannerStep::Create
    }
}

/// A frame of a scene that the preview shows.
#[derive(Debug, Clone, PartialEq, Eq)]
pub struct FrameKey {
    pub scene: SceneKey,
    pub frame: i32,
}

/// The content of an optional frame key.
pub open spec fn frame_key_model(k: Option<FrameKey>) -> Option<(SceneKeyModel, i32)> {
    match k {
        Some(key) => Some((key.scene.model(), key.frame)),
        None => None,
    }
}

/// Whether the preview asks for a frame: when it is not the frame asked for
/// last.
pub fn preview_frame_needed(requested: &Option<FrameKey>, key: &FrameKey) -> (r: bool)
    ensures
        r == (frame_key_model(*requested) != Some((key.scene.model(), key.frame))),
{
    match requested {
        Some(k) => !(k.scene.same(&key.scene) && k.frame == key.frame),
        None => true,
    }
}

} // verus!
