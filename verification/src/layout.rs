//! Window placement: persisted window geometry, the editor's three-window
//! layout on a screen, and centring a dialog over its parent.
use crate::text::str_eq;
use vstd::prelude::*;

verus! {

/// The position, size and maximized state of a window.
#[derive(Debug, Clone, Copy, PartialEq, Eq, Structural)]
pub struct WindowGeometry {
    pub x: i32,
    pub y: i32,
    pub width: i32,
    pub height: i32,
    pub maximized: bool,
}

/// `v` limited to `low..=high` (`low <= high`).
pub open spec fn clamp_int(v: int, low: int, high: int) -> int {
    if v < low {
        low
    } else if v > high {
        high
    } else {
        v
    }
}

impl WindowGeometry {
    /// A window that is not maximized.
    pub fn new(x: i32, y: i32, width: i32, height: i32) -> (g: Self)
        ensures
            g == (WindowGeometry { x, y, width, height, maximized: false }),
    {
        WindowGeometry { x, y, width, height, maximized: false }
    }

    /// The geometry read back from storage: each stored value replaces the
    /// fallback's, and the size is at least one pixel each way.
    pub fn from_stored(
        x: Option<i32>,
        y: Option<i32>,
        width: Option<i32>,
        height: Option<i32>,
        maximized: Option<bool>,
        fallback: Self,
    ) -> (g: Self)
        ensures
            g.x == (match x {
                Some(v) => v,
                None => fallback.x,
            }),
            g.y == (match y {
                Some(v) => v,
                None => fallback.y,
            }),
            g.width == (match width {
                Some(v) => if v < 1 {
                    1
                } else {
                    v
                },
                None => if fallback.width < 1 {
                    1
                } else {
                    fallback.width
                },
            }),
            g.height == (match height {
                Some(v) => if v < 1 {
                    1
                } else {
                    v
                },
                None => if fallback.height < 1 {
                    1
                } else {
                    fallback.height
                },
            }),
            g.maximized == (match maximized {
                Some(v) => v,
                None => fallback.maximized,
            }),
    {
        let width = match width {
            Some(v) => v,
            None => fallback.width,
        };
        let height = match height {
            Some(v) => v,
            None => fallback.height,
        };
        WindowGeometry {
            x: match x {
                Some(v) => v,
                None => fallback.x,
            },
            y: match y {
                Some(v) => v,
                None => fallback.y,
            },
            width: if width < 1 {
                1
            } else {
                width
            },
            height: if height < 1 {
                1
            } else {
                height
            },
            maximized: match maximized {
                Some(v) => v,
                None => fallback.maximized,
            },
        }
    }
}

/// `v.max(low).min(high)`, as the layout computes it.
pub open spec fn bounded(v: int, low: int, high: int) -> int {
    let raised = if v < low {
        low
    } else {
        v
    };
    if raised > high {
        high
    } else {
        raised
    }
}

/// The screens on which the layout arithmetic stays within `i32`.
pub open spec fn layout_fits(screen: WindowGeometry) -> bool {
    &&& i32::MIN <= screen.height * 45 <= i32::MAX
    &&& i32::MIN <= screen.width * 55 <= i32::MAX
    &&& i32::MIN <= screen.x + screen.width <= i32::MAX
    &&& i32::MIN <= screen.y + screen.height <= i32::MAX
}

/// Truncating division by 100, as `i32 / 100`.
pub open spec fn div100(v: int) -> int {
    if v >= 0 {
        v / 100
    } else {
        -((-v) / 100)
    }
}

fn scaled_percent(v: i32, percent: i32) -> (r: i32)
    requires
        0 < percent <= 55,
    ensures
        r == div100(v * percent),
{
    let wide = v as i64;
    let factor = percent as i64;
    assert(-2147483648 * 55 <= wide * factor <= 2147483647 * 55) by (nonlinear_arith)
        requires
            0 < factor <= 55,
            -2147483648 <= wide <= 2147483647,
    ;
    let p = wide * factor;
    if p >= 0 {
        assert(p / 100 <= i32::MAX) by (nonlinear_arith)
            requires
                0 <= p <= 2147483647 * 55,
        ;
        (p / 100) as i32
    } else {
        assert((-p) / 100 <= 2147483648) by (nonlinear_arith)
            requires
                0 < -p <= 2147483648 * 55,
        ;
        (-((-p) / 100)) as i32
    }
}

/// The height of the timeline window: 45% of the screen for the audio
/// layout and 32% otherwise, at least 220 and at most the screen.
pub open spec fn timeline_height(screen: WindowGeometry, mode: Seq<char>) -> int {
    let percent: int = if mode == "audio"@ {
        45
    } else {
        32
    };
    bounded(div100(screen.height * percent), 220, screen.height as int)
}

/// The width of the object-settings window: 55% of the screen for the
/// animation layout and 45% otherwise, at least 680 and at most the screen.
pub open spec fn object_width(screen: WindowGeometry, mode: Seq<char>) -> int {
    let percent: int = if mode == "animation"@ {
        55
    } else {
        45
    };
    bounded(div100(screen.width * percent), 680, screen.width as int)
}

/// The editor's layout on a screen: the preview at the top left, the
/// timeline along the bottom over the full width, and object settings at the
/// top right.
pub open spec fn editor_windows(screen: WindowGeometry, mode: Seq<char>) -> Seq<WindowGeometry> {
    let th = timeline_height(screen, mode);
    let ow = object_width(screen, mode);
    let uh = bounded(screen.height - th - 36, 480, screen.height as int);
    let pw = bounded(screen.width - ow - 12, 480, screen.width as int);
    seq![
        WindowGeometry {
            x: screen.x,
            y: screen.y,
            width: pw as i32,
            height: uh as i32,
            maximized: false,
        },
        WindowGeometry {
            x: screen.x,
            y: (screen.y + screen.height - th) as i32,
            width: screen.width,
            height: th as i32,
            maximized: false,
        },
        WindowGeometry {
            x: (screen.x + screen.width - ow) as i32,
            y: screen.y,
            width: ow as i32,
            height: uh as i32,
            maximized: false,
        },
    ]
}

fn bound_i32(v: i32, low: i32, high: i32) -> (r: i32)
    ensures
        r == bounded(v as int, low as int, high as int),
{
    let raised = if v < low {
        low
    } else {
        v
    };
    if raised > high {
        high
    } else {
        raised
    }
}

/// Places the preview, timeline and object-settings windows on `screen` for
/// a workspace mode (`audio` and `animation` change the proportions).
pub fn editor_layout(screen: WindowGeometry, mode: &str) -> (r: [WindowGeometry; 3])
    requires
        layout_fits(screen),
    ensures
        r@ == editor_windows(screen, mode@),
{
    let audio = str_eq(mode, "audio");
    let animation = str_eq(mode, "animation");
    let timeline_height = bound_i32(
        scaled_percent(
            screen.height,
            if audio {
                45
            } else {
                32
            },
        ),
        220,
        screen.height,
    );
    let upper_height = bound_i32(screen.height - timeline_height - 36, 480, screen.height);
    let object_width = bound_i32(
        scaled_percent(
            screen.width,
            if animation {
                55
            } else {
                45
            },
        ),
        680,
        screen.width,
    );
    let preview_width = bound_i32(screen.width - object_width - 12, 480, screen.width);
    let r = [
        WindowGeometry::new(screen.x, screen.y, preview_width, upper_height),
        WindowGeometry::new(
            screen.x,
            screen.y + screen.height - timeline_height,
            screen.width,
            timeline_height,
        ),
        WindowGeometry::new(
            screen.x + screen.width - object_width,
            screen.y,
            object_width,
            upper_height,
        ),
    ];
    assert(r@ =~= editor_windows(screen, mode@));
    r
}

/// `inner` lies within `outer`.
pub open spec fn within(inner: WindowGeometry, outer: WindowGeometry) -> bool {
    &&& outer.x <= inner.x
    &&& outer.y <= inner.y
    &&& inner.x + inner.width <= outer.x + outer.width
    &&& inner.y + inner.height <= outer.y + outer.height
}

/// On a screen of non-negative size, each window of the editor layout lies
/// within the screen, the timeline spans the full width and touches the
/// bottom edge, and object settings touch the right edge.
pub proof fn editor_windows_stay_on_screen(screen: WindowGeometry, mode: Seq<char>)
    requires
        layout_fits(screen),
        screen.width >= 0,
        screen.height >= 0,
    ensures
        forall|i: int| 0 <= i < 3 ==> within(#[trigger] editor_windows(screen, mode)[i], screen),
        editor_windows(screen, mode)[1].width == screen.width,
        editor_windows(screen, mode)[1].y + editor_windows(screen, mode)[1].height == screen.y
            + screen.height,
        editor_windows(screen, mode)[2].x + editor_windows(screen, mode)[2].width == screen.x
            + screen.width,
{
}

/// The layout's proportions by mode: object settings take 55% of the screen
/// width in the animation layout and 45% in every other one (audio
/// included), the timeline takes 45% of the height in the audio layout and
/// 32% in every other one (animation included), each within its minimum
/// and the screen; the preview fills the width that object settings leave,
/// less a 12-pixel gap, and the upper windows the height above the
/// timeline, less 36 pixels. Any mode other than audio and animation gives
/// the standard layout.
pub proof fn editor_layout_proportions(screen: WindowGeometry, mode: Seq<char>)
    requires
        layout_fits(screen),
    ensures
        ({
            let w = editor_windows(screen, mode);
            let object = bounded(
                div100(screen.width * if mode == "animation"@ { 55int } else { 45int }),
                680,
                screen.width as int,
            );
            let timeline = bounded(
                div100(screen.height * if mode == "audio"@ { 45int } else { 32int }),
                220,
                screen.height as int,
            );
            &&& w[2].width == object
            &&& w[2].x == screen.x + screen.width - object
            &&& w[1].height == timeline
            &&& w[1].y == screen.y + screen.height - timeline
            &&& w[0].width == bounded(screen.width - object - 12, 480, screen.width as int)
            &&& w[0].height == bounded(screen.height - timeline - 36, 480, screen.height as int)
            &&& w[2].height == w[0].height
        }),
        mode != "audio"@ && mode != "animation"@ ==> editor_windows(screen, mode)
            == editor_windows(screen, "standard"@),
{
    reveal_strlit("audio");
    reveal_strlit("animation");
    reveal_strlit("standard");
    if mode != "audio"@ && mode != "animation"@ {
        assert("standard"@.len() == 8 && "audio"@.len() == 5 && "animation"@.len() == 9);
        assert(editor_windows(screen, mode) =~= editor_windows(screen, "standard"@));
    }
}

/// Truncating division by two, as `i64 / 2`.
pub open spec fn half_toward_zero(v: int) -> int {
    if v >= 0 {
        v / 2
    } else {
        -((-v) / 2)
    }
}

/// The coordinate that centres a child of extent `child` over a parent at
/// `origin` of extent `parent`, limited to the range of `i32`.
pub open spec fn centered(origin: i32, parent: u32, child: u32) -> i32 {
    clamp_int(
        origin + half_toward_zero(parent - child),
        i32::MIN as int,
        i32::MAX as int,
    ) as i32
}

/// Centres a child window over its parent along one axis.
pub fn centered_coordinate(origin: i32, parent: u32, child: u32) -> (r: i32)
    ensures
        r == centered(origin, parent, child),
{
    let difference = parent as i64 - child as i64;
    let half = if difference >= 0 {
        difference / 2
    } else {
        -((-difference) / 2)
    };
    let v = origin as i64 + half;
    if v < i32::MIN as i64 {
        i32::MIN
    } else if v > i32::MAX as i64 {
        i32::MAX
    } else {
        v as i32
    }
}

/// The larger of two integers.
pub open spec fn max_int(a: int, b: int) -> int {
    if a >= b {
        a
    } else {
        b
    }
}

/// The smaller of two integers.
pub open spec fn min_int(a: int, b: int) -> int {
    if a <= b {
        a
    } else {
        b
    }
}

/// The area of a monitor at `(x, y)` of size `width` by `height` that the
/// editor's windows are laid out in: a margin of 12 pixels at the sides, 36
/// at the top and 64 at the bottom, and at least one pixel each way.
pub fn monitor_work_area(x: i32, y: i32, width: i32, height: i32) -> (g: WindowGeometry)
    requires
        x + 12 <= i32::MAX,
        y + 36 <= i32::MAX,
        width - 24 >= i32::MIN,
        height - 100 >= i32::MIN,
    ensures
        g == (WindowGeometry {
            x: (x + 12) as i32,
            y: (y + 36) as i32,
            width: max_int(width - 24, 1) as i32,
            height: max_int(height - 100, 1) as i32,
            maximized: false,
        }),
{
    let w = width - 24;
    let h = height - 100;
    WindowGeometry::new(x + 12, y + 36, if w < 1 { 1 } else { w }, if h < 1 { 1 } else { h })
}

/// A window moved and shrunk onto the screen: its size at most the
/// screen's and at least one pixel, its position then kept so that it lies
/// within the screen; the maximized state is kept.
pub open spec fn fitted_to_screen(g: WindowGeometry, screen: WindowGeometry) -> WindowGeometry {
    let width = max_int(min_int(g.width as int, screen.width as int), 1);
    let height = max_int(min_int(g.height as int, screen.height as int), 1);
    WindowGeometry {
        x: clamp_int(g.x as int, screen.x as int, screen.x + screen.width - width) as i32,
        y: clamp_int(g.y as int, screen.y as int, screen.y + screen.height - height) as i32,
        width: width as i32,
        height: height as i32,
        maximized: g.maximized,
    }
}

/// Fits a restored window onto the screen it is shown on.
pub fn fit_to_screen(g: WindowGeometry, screen: WindowGeometry) -> (r: WindowGeometry)
    requires
        screen.width >= 1,
        screen.height >= 1,
        screen.x + screen.width <= i32::MAX,
        screen.y + screen.height <= i32::MAX,
    ensures
        r == fitted_to_screen(g, screen),
{
    let w0 = if g.width < screen.width { g.width } else { screen.width };
    let width = if w0 < 1 { 1 } else { w0 };
    let h0 = if g.height < screen.height { g.height } else { screen.height };
    let height = if h0 < 1 { 1 } else { h0 };
    let right = screen.x + screen.width - width;
    let bottom = screen.y + screen.height - height;
    let x = if g.x < screen.x { screen.x } else if g.x > right { right } else { g.x };
    let y = if g.y < screen.y { screen.y } else if g.y > bottom { bottom } else { g.y };
    WindowGeometry { x, y, width, height, maximized: g.maximized }
}

/// A window fitted onto a screen lies within the screen and keeps its
/// maximized state; a window of at least one pixel each way that already
/// lies within the screen is left as it is.
pub proof fn fitted_window_lies_on_screen(g: WindowGeometry, screen: WindowGeometry)
    requires
        screen.width >= 1,
        screen.height >= 1,
        screen.x + screen.width <= i32::MAX,
        screen.y + screen.height <= i32::MAX,
    ensures
        within(fitted_to_screen(g, screen), screen),
        fitted_to_screen(g, screen).maximized == g.maximized,
        within(g, screen) && g.width >= 1 && g.height >= 1 ==> fitted_to_screen(g, screen) == g,
{
}

/// The geometry stored for a window: each value that was stored.
#[derive(Debug, Clone, Copy, PartialEq, Eq, Structural)]
pub struct StoredGeometry {
    pub x: Option<i32>,
    pub y: Option<i32>,
    pub width: Option<i32>,
    pub height: Option<i32>,
    pub maximized: Option<bool>,
}

/// A window's entry in the saved workspace layout: its stored geometry (none
/// when the entry holds no geometry) and whether it was shown.
#[derive(Debug, Clone, Copy, PartialEq, Eq, Structural)]
pub struct SavedWorkspaceWindow {
    pub geometry: Option<StoredGeometry>,
    pub visible: Option<bool>,
}

/// Where a workspace window goes and whether it is shown.
#[derive(Debug, Clone, Copy, PartialEq, Eq, Structural)]
pub struct WorkspaceWindow {
    pub geometry: WindowGeometry,
    pub visible: bool,
}

/// A value stored, or the fallback.
pub open spec fn stored_or<T>(v: Option<T>, fallback: T) -> T {
    match v {
        Some(s) => s,
        None => fallback,
    }
}

/// The geometry read back from a stored one: each stored value replaces the
/// fallback's and the size is at least one pixel each way; with nothing
/// stored, the fallback as it is.
pub open spec fn restored_geometry(stored: Option<StoredGeometry>, fallback: WindowGeometry) -> WindowGeometry {
    match stored {
        None => fallback,
        Some(g) => WindowGeometry {
            x: stored_or(g.x, fallback.x),
            y: stored_or(g.y, fallback.y),
            width: max_int(stored_or(g.width, fallback.width) as int, 1) as i32,
            height: max_int(stored_or(g.height, fallback.height) as int, 1) as i32,
            maximized: stored_or(g.maximized, fallback.maximized),
        },
    }
}

/// A workspace window: its saved geometry (else the layout's) fitted onto
/// the screen, shown unless it was saved hidden.
pub open spec fn workspace_window(
    layout: WindowGeometry,
    saved: Option<SavedWorkspaceWindow>,
    screen: WindowGeometry,
) -> WorkspaceWindow {
    match saved {
        None => WorkspaceWindow { geometry: fitted_to_screen(layout, screen), visible: true },
        Some(s) => WorkspaceWindow {
            geometry: fitted_to_screen(restored_geometry(s.geometry, layout), screen),
            visible: stored_or(s.visible, true),
        },
    }
}

/// The screens the workspace is laid out on: at least one pixel each way,
/// with the layout arithmetic inside `i32`.
pub open spec fn workspace_screen(screen: WindowGeometry) -> bool {
    &&& layout_fits(screen)
    &&& screen.width >= 1
    &&& screen.height >= 1
}

/// The preview, timeline and object-settings windows for a workspace
/// action: `restore` brings back the saved layout (the default one where
/// nothing was saved), any other action lays the windows out for that mode
/// (`audio`, `animation`, or the standard layout), all shown. Every window
/// is fitted onto the screen.
pub fn workspace_windows(
    screen: WindowGeometry,
    action: &str,
    saved: &[SavedWorkspaceWindow; 3],
) -> (r: [WorkspaceWindow; 3])
    requires
        workspace_screen(screen),
    ensures
        forall|i: int|
            0 <= i < 3 ==> #[trigger] r@[i] == workspace_window(
                editor_windows(screen, action@)[i],
                restored_entry(action@, saved@, i),
                screen,
            ),
{
    let layout = editor_layout(screen, action);
    let restore = str_eq(action, "restore");
    let mut windows: [WorkspaceWindow; 3] = [WorkspaceWindow {
        geometry: layout[0],
        visible: true,
    }; 3];
    let mut i: usize = 0;
    while i < 3
        invariant
            workspace_screen(screen),
            layout@ == editor_windows(screen, action@),
            restore == (action@ == "restore"@),
            i <= 3,
            forall|k: int|
                0 <= k < i ==> #[trigger] windows@[k] == workspace_window(
                    layout@[k],
                    restored_entry(action@, saved@, k),
                    screen,
                ),
        decreases 3 - i,
    {
        let fallback = layout[i];
        let window = if restore {
            let entry = saved[i];
            let geometry = match entry.geometry {
                None => fallback,
                Some(g) => WindowGeometry::from_stored(g.x, g.y, g.width, g.height, g.maximized, fallback),
            };
            WorkspaceWindow {
                geometry: fit_to_screen(geometry, screen),
                visible: match entry.visible {
                    Some(v) => v,
                    None => true,
                },
            }
        } else {
            WorkspaceWindow { geometry: fit_to_screen(fallback, screen), visible: true }
        };
        windows[i] = window;
        i = i + 1;
    }
    windows
}

/// The entry a workspace action restores a window from: the saved one for
/// `restore`, none otherwise.
pub open spec fn restored_entry(
    action: Seq<char>,
    saved: Seq<SavedWorkspaceWindow>,
    i: int,
) -> Option<SavedWorkspaceWindow> {
    if action == "restore"@ {
        Some(saved[i])
    } else {
        None
    }
}

/// Every workspace window lies on the screen; for any action but `restore`
/// the windows are exactly the editor layout for that mode, all shown.
pub proof fn workspace_windows_lie_on_screen(
    screen: WindowGeometry,
    action: Seq<char>,
    saved: Seq<SavedWorkspaceWindow>,
)
    requires
        workspace_screen(screen),
        saved.len() == 3,
    ensures
        forall|i: int|
            0 <= i < 3 ==> within(
                #[trigger] workspace_window(
                    editor_windows(screen, action)[i],
                    restored_entry(action, saved, i),
                    screen,
                ).geometry,
                screen,
            ),
        action != "restore"@ ==> forall|i: int|
            0 <= i < 3 ==> #[trigger] workspace_window(
                editor_windows(screen, action)[i],
                restored_entry(action, saved, i),
                screen,
            ) == (WorkspaceWindow { geometry: editor_windows(screen, action)[i], visible: true }),
{
    editor_windows_stay_on_screen(screen, action);
    assert forall|i: int| 0 <= i < 3 implies within(
        #[trigger] workspace_window(
            editor_windows(screen, action)[i],
            restored_entry(action, saved, i),
            screen,
        ).geometry,
        screen,
    ) by {
        let layout = editor_windows(screen, action)[i];
        if action == "restore"@ {
            fitted_window_lies_on_screen(restored_geometry(saved[i].geometry, layout), screen);
        } else {
            fitted_window_lies_on_screen(layout, screen);
        }
    }
    assert forall|i: int| 0 <= i < 3 && action != "restore"@ implies #[trigger] workspace_window(
        editor_windows(screen, action)[i],
        restored_entry(action, saved, i),
        screen,
    ) == (WorkspaceWindow { geometry: editor_windows(screen, action)[i], visible: true }) by {
        let layout = editor_windows(screen, action)[i];
        assert(layout.width >= 1 && layout.height >= 1);
        fitted_window_lies_on_screen(layout, screen);
    }
}

} // verus!
