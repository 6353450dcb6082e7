//! The window model and the chrome pipeline.
//!
//! `WindowModel` mirrors the mutable native state of the top-level window
//! that the controller cares about: bounds, the two style words, the
//! cosmetic attributes, the clip region and the child surfaces.  The
//! pipeline — enforce styles, sanitize children, clip — is written against
//! this model and proved idempotent: re-running it after any perturbing
//! event converges to the same chrome state and never leaves the window
//! half-styled.  The thin platform layer reads the fields back out of the
//! model and applies each one with the corresponding native call.

use vstd::prelude::*;

use crate::geometry::{MIN_HEIGHT, MIN_WIDTH, WindowGeometry};
use crate::region::{RegionSpec, clip_region, spec_clip_region};
use crate::style::{
    child_style, spec_child_style, spec_widget_exstyle, spec_widget_style, widget_exstyle,
    widget_style,
};
use crate::style::{lemma_child_style_idempotent, lemma_widget_exstyle_idempotent,
    lemma_widget_style_idempotent};

verus! {

/// Desktop-composition value: non-client rendering enabled.
pub const NC_RENDERING_ENABLED: u32 = 1;

/// Desktop-composition value: the system's rounded-corner preference.
pub const CORNER_PREFERENCE_ROUND: u32 = 1;

/// Desktop-composition value: no border color drawn.
pub const BORDER_COLOR_NONE: u32 = 0xFFFF_FFFE;

/// Outer bounds of a window, in physical pixels.
#[derive(Clone, Copy, Debug, PartialEq, Eq, Structural)]
pub struct Bounds {
    pub x: i32,
    pub y: i32,
    pub width: i32,
    pub height: i32,
}

/// One native child surface under the main window, as far as the sanitizer
/// touches it.
#[derive(Clone, Copy, Debug, PartialEq, Eq, Structural)]
pub struct ChildSurface {
    pub style: u64,
    pub title_empty: bool,
    pub brush_null: bool,
}

/// The native window state the chrome controller reads and rewrites.
#[derive(Clone, Debug, PartialEq)]
pub struct WindowModel {
    pub bounds: Bounds,
    pub style: u64,
    pub exstyle: u64,
    pub resizable: bool,
    pub shadow: bool,
    pub decorations: bool,
    pub min_size: Option<(u32, u32)>,
    pub transparent: bool,
    pub title_empty: bool,
    pub brush_null: bool,
    pub frame_extended: bool,
    pub nc_rendering_policy: Option<u32>,
    pub corner_preference: Option<u32>,
    pub border_color: Option<u32>,
    pub region: Option<RegionSpec>,
    pub children: Vec<ChildSurface>,
}

/// The mathematical value of a window model.
#[verifier::ext_equal]
pub ghost struct ChromeView {
    pub bounds: Bounds,
    pub style: u64,
    pub exstyle: u64,
    pub resizable: bool,
    pub shadow: bool,
    pub decorations: bool,
    pub min_size: Option<(u32, u32)>,
    pub transparent: bool,
    pub title_empty: bool,
    pub brush_null: bool,
    pub frame_extended: bool,
    pub nc_rendering_policy: Option<u32>,
    pub corner_preference: Option<u32>,
    pub border_color: Option<u32>,
    pub region: Option<RegionSpec>,
    pub children: Seq<ChildSurface>,
}

impl View for WindowModel {
    type V = ChromeView;

    open spec fn view(&self) -> ChromeView {
        ChromeView {
            bounds: self.bounds,
            style: self.style,
            exstyle: self.exstyle,
            resizable: self.resizable,
            shadow: self.shadow,
            decorations: self.decorations,
            min_size: self.min_size,
            transparent: self.transparent,
            title_empty: self.title_empty,
            brush_null: self.brush_null,
            frame_extended: self.frame_extended,
            nc_rendering_policy: self.nc_rendering_policy,
            corner_preference: self.corner_preference,
            border_color: self.border_color,
            region: self.region,
            children: self.children@,
        }
    }
}

/// Bounds a real window can have: non-negative, and short of `i32::MAX`
/// so that the clip region's outer edge still fits a 32-bit coordinate.
pub open spec fn bounds_wf(b: Bounds) -> bool {
    0 <= b.width < i32::MAX && 0 <= b.height < i32::MAX
}

/// A sanitized child surface: decorations stripped, title empty, class
/// brush null.
pub open spec fn spec_sanitize_child(c: ChildSurface) -> ChildSurface {
    ChildSurface { style: spec_child_style(c.style), title_empty: true, brush_null: true }
}

/// The window after the style-enforcement pass: native resize off, minimum
/// size pinned, background transparent, title cleared, class brush null,
/// frame extended into the client area, composition attributes set, style
/// words rewritten.  Bounds, region and children are untouched.
pub open spec fn chrome_applied(v: ChromeView) -> ChromeView {
    ChromeView {
        bounds: v.bounds,
        style: spec_widget_style(v.style),
        exstyle: spec_widget_exstyle(v.exstyle),
        resizable: false,
        shadow: false,
        decorations: false,
        min_size: Some((MIN_WIDTH, MIN_HEIGHT)),
        transparent: true,
        title_empty: true,
        brush_null: true,
        frame_extended: true,
        nc_rendering_policy: Some(NC_RENDERING_ENABLED),
        corner_preference: Some(CORNER_PREFERENCE_ROUND),
        border_color: Some(BORDER_COLOR_NONE),
        region: v.region,
        children: v.children,
    }
}

/// The window after the child-surface pass: every child sanitized, the
/// window itself untouched.
pub open spec fn children_sanitized(v: ChromeView) -> ChromeView {
    ChromeView { children: v.children.map_values(|c: ChildSurface| spec_sanitize_child(c)), ..v }
}

/// The window after the clip pass: the region recomputed from the current
/// bounds, or kept when a dimension is not positive.
pub open spec fn clip_applied(v: ChromeView) -> ChromeView {
    ChromeView {
        region: match spec_clip_region(v.bounds.width as int, v.bounds.height as int) {
            Some(r) => Some(r),
            None => v.region,
        },
        ..v
    }
}

/// The full convergence pass, in pipeline order: enforce styles, sanitize
/// the children, clip.
pub open spec fn chrome_pass(v: ChromeView) -> ChromeView {
    clip_applied(children_sanitized(chrome_applied(v)))
}

/// Runs the style-enforcement pass on the model.
pub fn apply_chrome(w: &mut WindowModel)
    ensures
        final(w)@ == chrome_applied(old(w)@),
{
    w.style = widget_style(w.style);
    w.exstyle = widget_exstyle(w.exstyle);
    w.resizable = false;
    w.shadow = false;
    w.decorations = false;
    w.min_size = Some((MIN_WIDTH, MIN_HEIGHT));
    w.transparent = true;
    w.title_empty = true;
    w.brush_null = true;
    w.frame_extended = true;
    w.nc_rendering_policy = Some(NC_RENDERING_ENABLED);
    w.corner_preference = Some(CORNER_PREFERENCE_ROUND);
    w.border_color = Some(BORDER_COLOR_NONE);
    proof {
        assert(w@ =~= chrome_applied(old(w)@));
    }
}

/// Runs the child-surface pass on the model: enumerates the children as
/// they stand now and sanitizes each.  With no children it is a no-op.
pub fn sanitize_children(w: &mut WindowModel)
    ensures
        final(w)@ == children_sanitized(old(w)@),
{
    let n: usize = w.children.len();
    let mut i: usize = 0;
    while i < n
        invariant
            i <= n,
            n == w.children.len(),
            w@.bounds == old(w)@.bounds,
            w@.style == old(w)@.style,
            w@.exstyle == old(w)@.exstyle,
            w@.resizable == old(w)@.resizable,
            w@.shadow == old(w)@.shadow,
            w@.decorations == old(w)@.decorations,
            w@.min_size == old(w)@.min_size,
            w@.transparent == old(w)@.transparent,
            w@.title_empty == old(w)@.title_empty,
            w@.brush_null == old(w)@.brush_null,
            w@.frame_extended == old(w)@.frame_extended,
            w@.nc_rendering_policy == old(w)@.nc_rendering_policy,
            w@.corner_preference == old(w)@.corner_preference,
            w@.border_color == old(w)@.border_color,
            w@.region == old(w)@.region,
            w@.children.len() == old(w)@.children.len(),
            forall|t: int|
                0 <= t < i ==> w@.children[t] == spec_sanitize_child(old(w)@.children[t]),
            forall|t: int| i <= t < n ==> w@.children[t] == old(w)@.children[t],
        decreases n - i,
    {
        let c: ChildSurface = w.children[i];
        let cleaned = ChildSurface {
            style: child_style(c.style),
            title_empty: true,
            brush_null: true,
        };
        w.children.set(i, cleaned);
        i = i + 1;
    }
    proof {
        assert(w@.children =~= old(w)@.children.map_values(
            |c: ChildSurface| spec_sanitize_child(c),
        ));
        assert(w@ =~= children_sanitized(old(w)@));
    }
}

/// Runs the clip pass on the model.
pub fn apply_clip(w: &mut WindowModel)
    requires
        old(w).bounds.width < i32::MAX,
        old(w).bounds.height < i32::MAX,
    ensures
        final(w)@ == clip_applied(old(w)@),
{
    match clip_region(w.bounds.width, w.bounds.height) {
        Some(r) => {
            w.region = Some(r);
        }
        None => {}
    }
    proof {
        assert(w@ =~= clip_applied(old(w)@));
    }
}

/// Runs the full pipeline: enforce, sanitize, clip.
pub fn run_chrome_pass(w: &mut WindowModel)
    requires
        old(w).bounds.width < i32::MAX,
        old(w).bounds.height < i32::MAX,
    ensures
        final(w)@ == chrome_pass(old(w)@),
{
    apply_chrome(w);
    sanitize_children(w);
    apply_clip(w);
}

/// The geometry record describing the model's current outer bounds, the
/// value the store persists on move, resize and close.
pub open spec fn spec_current_geometry(v: ChromeView) -> WindowGeometry {
    WindowGeometry {
        x: v.bounds.x,
        y: v.bounds.y,
        width: Some(v.bounds.width as u32),
        height: Some(v.bounds.height as u32),
    }
}

/// Reads the geometry record off the model.
pub fn current_geometry(w: &WindowModel) -> (g: WindowGeometry)
    requires
        w.bounds.width >= 0,
        w.bounds.height >= 0,
    ensures
        g == spec_current_geometry(w@),
{
    WindowGeometry {
        x: w.bounds.x,
        y: w.bounds.y,
        width: Some(w.bounds.width as u32),
        height: Some(w.bounds.height as u32),
    }
}

/// The dimension an OS resize settles on: the request raised to the pinned
/// minimum, and capped below `i32::MAX` as every window coordinate is.
pub open spec fn spec_effective_dim(requested: u32, min_dim: u32) -> i32 {
    let want = if requested < min_dim {
        min_dim
    } else {
        requested
    };
    if want > 0x7fff_fffe {
        0x7fff_fffeu32 as i32
    } else {
        want as i32
    }
}

/// Computes the dimension an OS resize settles on.
pub fn effective_dim(requested: u32, min_dim: u32) -> (r: i32)
    ensures
        r == spec_effective_dim(requested, min_dim),
{
    let want: u32 = if requested < min_dim {
        min_dim
    } else {
        requested
    };
    if want > 0x7fff_fffe {
        0x7fff_fffe
    } else {
        want as i32
    }
}

/// The window after an OS resize to the requested size, honoring the
/// pinned minimum size if one is set.
pub open spec fn spec_resized(v: ChromeView, width: u32, height: u32) -> ChromeView {
    let (min_w, min_h) = match v.min_size {
        Some(p) => p,
        None => (0u32, 0u32),
    };
    ChromeView {
        bounds: Bounds {
            x: v.bounds.x,
            y: v.bounds.y,
            width: spec_effective_dim(width, min_w),
            height: spec_effective_dim(height, min_h),
        },
        ..v
    }
}

/// Resizes the model as the OS would.
pub fn resize(w: &mut WindowModel, width: u32, height: u32)
    ensures
        final(w)@ == spec_resized(old(w)@, width, height),
{
    let (min_w, min_h): (u32, u32) = match w.min_size {
        Some(p) => p,
        None => (0, 0),
    };
    w.bounds.width = effective_dim(width, min_w);
    w.bounds.height = effective_dim(height, min_h);
    proof {
        assert(w@ =~= spec_resized(old(w)@, width, height));
    }
}

/// The window after an OS move.
pub open spec fn spec_moved(v: ChromeView, x: i32, y: i32) -> ChromeView {
    ChromeView {
        bounds: Bounds { x, y, width: v.bounds.width, height: v.bounds.height },
        ..v
    }
}

/// Moves the model as the OS would.
pub fn move_to(w: &mut WindowModel, x: i32, y: i32)
    ensures
        final(w)@ == spec_moved(old(w)@, x, y),
{
    w.bounds.x = x;
    w.bounds.y = y;
    proof {
        assert(w@ =~= spec_moved(old(w)@, x, y));
    }
}

/// Clipping is idempotent: a second clip pass on an unchanged window
/// computes the same region and changes nothing.
pub proof fn lemma_clip_idempotent(v: ChromeView)
    ensures
        clip_applied(clip_applied(v)) == clip_applied(v),
{
    assert(clip_applied(clip_applied(v)) =~= clip_applied(v));
}

/// Sanitizing a window with no children changes nothing.
pub proof fn lemma_sanitize_without_children(v: ChromeView)
    requires
        v.children.len() == 0,
    ensures
        children_sanitized(v) == v,
{
    assert(v.children.map_values(|c: ChildSurface| spec_sanitize_child(c)) =~= v.children);
    assert(children_sanitized(v) =~= v);
}

/// The full pipeline is idempotent: overlapping or repeated convergence
/// passes collapse; a stale re-style after a newer one is a no-op.
pub proof fn lemma_chrome_pass_idempotent(v: ChromeView)
    ensures
        chrome_pass(chrome_pass(v)) == chrome_pass(v),
{
    let once = chrome_pass(v);
    lemma_widget_style_idempotent(v.style);
    lemma_widget_exstyle_idempotent(v.exstyle);
    let kids_once = v.children.map_values(|c: ChildSurface| spec_sanitize_child(c));
    let kids_twice = kids_once.map_values(|c: ChildSurface| spec_sanitize_child(c));
    assert forall|t: int| 0 <= t < kids_twice.len() implies kids_twice[t] == kids_once[t] by {
        lemma_child_style_idempotent(v.children[t].style);
    }
    assert(kids_twice =~= kids_once);
    assert(chrome_pass(once) =~= once);
}

/// The post-resize settle pass — enforce styles, then clip — is
/// idempotent too: a stale delayed pass after a newer one is a no-op.
pub proof fn lemma_style_clip_idempotent(v: ChromeView)
    ensures
        clip_applied(chrome_applied(clip_applied(chrome_applied(v)))) == clip_applied(
            chrome_applied(v),
        ),
{
    lemma_widget_style_idempotent(v.style);
    lemma_widget_exstyle_idempotent(v.exstyle);
    assert(clip_applied(chrome_applied(clip_applied(chrome_applied(v)))) =~= clip_applied(
        chrome_applied(v),
    ));
}

/// After the styling pass has pinned the minimum size, no later resize —
/// whatever it requests — settles below the minimum, and it leaves the pin
/// in place for the resizes after it.
pub proof fn lemma_min_size_enforced(v: ChromeView, width: u32, height: u32)
    requires
        v.min_size == Some((MIN_WIDTH, MIN_HEIGHT)),
    ensures
        spec_resized(v, width, height).bounds.width >= MIN_WIDTH,
        spec_resized(v, width, height).bounds.height >= MIN_HEIGHT,
        spec_resized(v, width, height).min_size == v.min_size,
{
}

/// The styling pass pins the minimum size, and the rest of the pipeline
/// keeps it pinned.
pub proof fn lemma_pass_pins_min_size(v: ChromeView)
    ensures
        chrome_pass(v).min_size == Some((MIN_WIDTH, MIN_HEIGHT)),
{
}

} // verus!
