//! The keyframe markers drawn under a parameter's slider.
use vstd::prelude::*;

verus! {

/// One marker: its frame, the range it may be dragged in, and what the user
/// may do with it.
#[derive(Debug, Clone, Copy, PartialEq, Eq, Structural)]
pub struct KeyframeMarker {
    pub frame: i32,
    pub minimum_frame: i32,
    pub maximum_frame: i32,
    /// The marker stands for the clip's end, which has no keyframe yet.
    pub virtual_end: bool,
    pub removable: bool,
    pub draggable: bool,
}

/// Whether the clip end gets a marker of its own: for video parameters of
/// a clip with a positive duration that has no keyframe at its end.
pub open spec fn adds_end_marker(frames: Seq<i32>, clip_duration: i32, audio_plugin: bool) -> bool {
    !audio_plugin && clip_duration > 0 && !frames.contains(clip_duration)
}

/// `v + 1`, saturating at the largest `i32`.
pub open spec fn after(v: i32) -> i32 {
    if v == i32::MAX {
        i32::MAX
    } else {
        (v + 1) as i32
    }
}

/// `v - 1`, saturating at the smallest `i32`.
pub open spec fn before(v: i32) -> i32 {
    if v == i32::MIN {
        i32::MIN
    } else {
        (v - 1) as i32
    }
}

/// The markers are in strictly increasing frame order.
pub open spec fn strictly_increasing(m: Seq<KeyframeMarker>) -> bool {
    forall|i: int, j: int| 0 <= i < j < m.len() ==> m[i].frame < m[j].frame
}

/// The sorted frames `p`, strictly increasing.
spec fn sorted_frames(p: Seq<i32>) -> bool {
    forall|i: int, j: int| 0 <= i < j < p.len() ==> p[i] < p[j]
}

/// Inserts `f` into the strictly increasing `sorted`, unless it is there.
fn insert_frame(sorted: &mut Vec<i32>, f: i32)
    requires
        sorted_frames(old(sorted)@),
    ensures
        sorted_frames(final(sorted)@),
        forall|x: i32| final(sorted)@.contains(x) <==> (old(sorted)@.contains(x) || x == f),
{
    let mut j: usize = 0;
    while j < sorted.len() && sorted[j] < f
        invariant
            j <= sorted@.len(),
            sorted@ == old(sorted)@,
            sorted_frames(sorted@),
            forall|k: int| 0 <= k < j ==> sorted@[k] < f,
        decreases sorted@.len() - j,
    {
        j = j + 1;
    }
    if j < sorted.len() && sorted[j] == f {
        return;
    }
    let ghost before_insert = sorted@;
    sorted.insert(j, f);
    proof {
        let s = sorted@;
        assert(s =~= before_insert.take(j as int).push(f) + before_insert.skip(j as int));
        assert forall|a: int, b: int| 0 <= a < b < s.len() implies s[a] < s[b] by {
            if b < j {
                assert(s[a] == before_insert[a] && s[b] == before_insert[b]);
            } else if b == j {
                assert(s[a] == before_insert[a]);
            } else if a < j {
                assert(s[a] == before_insert[a] && s[b] == before_insert[b - 1]);
                assert(before_insert[b - 1] >= f);
            } else if a == j {
                assert(s[b] == before_insert[b - 1]);
                assert(before_insert[j as int] > f);
                if b - 1 > j {
                    assert(before_insert[j as int] < before_insert[b - 1]);
                }
            } else {
                assert(s[a] == before_insert[a - 1] && s[b] == before_insert[b - 1]);
            }
        }
        assert forall|x: i32| s.contains(x) <==> (before_insert.contains(x) || x == f) by {
            if s.contains(x) {
                let k = choose|k: int| 0 <= k < s.len() && s[k] == x;
                if k < j {
                    assert(before_insert[k] == x);
                } else if k > j {
                    assert(before_insert[k - 1] == x);
                }
            }
            if before_insert.contains(x) {
                let k = choose|k: int| 0 <= k < before_insert.len() && before_insert[k] == x;
                if k < j {
                    assert(s[k] == x);
                } else {
                    assert(s[k + 1] == x);
                }
            }
            if x == f {
                assert(s[j as int] == x);
            }
        }
    }
}

/// The markers of a parameter's keyframes: one per distinct keyframe frame
/// plus, when `adds_end_marker`, one for the clip end, sorted by frame. Each
/// may move between its neighbours (from frame 0 and up to the clip's
/// duration at the ends); the first frame and the clip end cannot be removed
/// or dragged, and audio plugin keyframes cannot be dragged, nor removed at
/// the clip end.
pub fn keyframe_markers(frames: &[i32], clip_duration: i32, audio_plugin: bool) -> (r: Vec<
    KeyframeMarker,
>)
    ensures
        strictly_increasing(r@),
        forall|x: i32|
            (exists|i: int| 0 <= i < r@.len() && #[trigger] r@[i].frame == x) <==> (
            frames@.contains(x) || (adds_end_marker(frames@, clip_duration, audio_plugin) && x
                == clip_duration)),
        forall|i: int|
            0 <= i < r@.len() ==> {
                let m = #[trigger] r@[i];
                &&& m.virtual_end == (adds_end_marker(frames@, clip_duration, audio_plugin)
                    && m.frame == clip_duration)
                &&& m.minimum_frame == (if i == 0 {
                    0
                } else {
                    after(r@[i - 1].frame)
                })
                &&& m.maximum_frame == (if i + 1 < r@.len() {
                    before(r@[i + 1].frame)
                } else {
                    clip_duration
                })
                &&& m.removable == (m.frame != 0 && !m.virtual_end && !(audio_plugin && m.frame
                    == clip_duration))
                &&& m.draggable == (!audio_plugin && m.frame != 0 && !m.virtual_end)
            },
        audio_plugin ==> forall|i: int|
            0 <= i < r@.len() ==> !(#[trigger] r@[i]).virtual_end && frames@.contains(r@[i].frame),
        !audio_plugin && clip_duration > 0 ==> exists|i: int|
            0 <= i < r@.len() && (#[trigger] r@[i]).frame == clip_duration,
{
    let mut sorted: Vec<i32> = Vec::new();
    let mut i: usize = 0;
    let mut has_end = false;
    while i < frames.len()
        invariant
            i <= frames@.len(),
            sorted_frames(sorted@),
            forall|x: i32| sorted@.contains(x) <==> frames@.take(i as int).contains(x),
            has_end == frames@.take(i as int).contains(clip_duration),
        decreases frames@.len() - i,
    {
        let f = frames[i];
        insert_frame(&mut sorted, f);
        if f == clip_duration {
            has_end = true;
        }
        proof {
            let t = frames@.take(i + 1);
            assert(t =~= frames@.take(i as int).push(f));
            assert forall|x: i32| t.contains(x) <==> (frames@.take(i as int).contains(x) || x == f) by {
                if t.contains(x) {
                    let k = choose|k: int| 0 <= k < t.len() && t[k] == x;
                    if k < i {
                        assert(frames@.take(i as int)[k] == x);
                    }
                }
                if frames@.take(i as int).contains(x) {
                    let k = choose|k: int| 0 <= k < i && frames@.take(i as int)[k] == x;
                    assert(t[k] == x);
                }
                if x == f {
                    assert(t[i as int] == x);
                }
            }
        }
        i = i + 1;
    }
    assert(frames@.take(frames@.len() as int) =~= frames@);
    let adds_end = !audio_plugin && clip_duration > 0 && !has_end;
    if adds_end {
        insert_frame(&mut sorted, clip_duration);
    }
    let n = sorted.len();
    let mut markers: Vec<KeyframeMarker> = Vec::new();
    let mut k: usize = 0;
    while k < n
        invariant
            n == sorted@.len(),
            k <= n,
            sorted_frames(sorted@),
            adds_end == adds_end_marker(frames@, clip_duration, audio_plugin),
            forall|x: i32|
                sorted@.contains(x) <==> (frames@.contains(x) || (adds_end && x == clip_duration)),
            markers@.len() == k,
            forall|m: int| 0 <= m < k ==> (#[trigger] markers@[m]).frame == sorted@[m],
            forall|m: int|
                0 <= m < k ==> {
                    let mk = #[trigger] markers@[m];
                    &&& mk.virtual_end == (adds_end && mk.frame == clip_duration)
                    &&& mk.minimum_frame == (if m == 0 {
                        0
                    } else {
                        after(sorted@[m - 1])
                    })
                    &&& mk.maximum_frame == (if m + 1 < n {
                        before(sorted@[m + 1])
                    } else {
                        clip_duration
                    })
                    &&& mk.removable == (mk.frame != 0 && !mk.virtual_end && !(audio_plugin
                        && mk.frame == clip_duration))
                    &&& mk.draggable == (!audio_plugin && mk.frame != 0 && !mk.virtual_end)
                },
        decreases n - k,
    {
        let frame = sorted[k];
        let virtual_end = adds_end && frame == clip_duration;
        let minimum_frame = if k == 0 {
            0
        } else if sorted[k - 1] == i32::MAX {
            i32::MAX
        } else {
            sorted[k - 1] + 1
        };
        let maximum_frame = if k + 1 < n {
            if sorted[k + 1] == i32::MIN {
                i32::MIN
            } else {
                sorted[k + 1] - 1
            }
        } else {
            clip_duration
        };
        markers.push(
            KeyframeMarker {
                frame,
                minimum_frame,
                maximum_frame,
                virtual_end,
                removable: frame != 0 && !virtual_end && !(audio_plugin && frame == clip_duration),
                draggable: !audio_plugin && frame != 0 && !virtual_end,
            },
        );
        k = k + 1;
    }
    proof {
        assert forall|x: i32|
            (exists|j: int| 0 <= j < markers@.len() && #[trigger] markers@[j].frame == x) <==> (
            frames@.contains(x) || (adds_end && x == clip_duration)) by {
            if exists|j: int| 0 <= j < markers@.len() && #[trigger] markers@[j].frame == x {
                let j = choose|j: int| 0 <= j < markers@.len() && #[trigger] markers@[j].frame == x;
                assert(sorted@[j] == x);
                assert(sorted@.contains(x));
            }
            if frames@.contains(x) || (adds_end && x == clip_duration) {
                assert(sorted@.contains(x));
                let j = choose|j: int| 0 <= j < sorted@.len() && sorted@[j] == x;
                assert(markers@[j].frame == x);
            }
        }
    }
    markers
}

/// An audio plugin's markers are its keyframes alone: no marker is added
/// for the clip end. A video parameter of a clip with a positive duration
/// always has a marker at the clip end: its keyframe there, or one added.
pub proof fn clip_end_markers_are_for_video(frames: Seq<i32>, clip_duration: i32)
    ensures
        !adds_end_marker(frames, clip_duration, true),
        clip_duration > 0 ==> (frames.contains(clip_duration) || adds_end_marker(
            frames,
            clip_duration,
            false,
        )),
{
}

} // verus!
