//! The chrome controller.
//!
//! The controller is a state machine over window-lifecycle events.  For
//! each event it plans a fixed sequence of actions — persist, restore,
//! restyle, clip, schedule a delayed restyle, exit — and the platform
//! layer carries the actions out against the live window and the state
//! file.  `ChromeSession` executes the same plans against the window
//! model, so every planned sequence is also run and checked here: what is
//! persisted, what the debounced restyle converges to, and what a reset
//! leaves behind.

use vstd::prelude::*;

use crate::chrome::{
    ChromeView, WindowModel, apply_chrome, apply_clip, chrome_applied, children_sanitized,
    clip_applied, current_geometry, move_to, resize, sanitize_children, spec_current_geometry,
    spec_moved, spec_resized,
};
use crate::chrome::lemma_style_clip_idempotent;
use crate::codec::{encode_geometry, parse_geometry, spec_encode_geometry, spec_parse_geometry};
use crate::codec::lemma_encode_then_parse;
use crate::geometry::{DEFAULT_HEIGHT, DEFAULT_WIDTH, WindowGeometry, restore_size,
    spec_restore_size};

verus! {

/// A window-lifecycle event the controller reacts to.
#[derive(Clone, Copy, Debug, PartialEq, Eq)]
pub enum ChromeEvent {
    /// The window was created or first shown; carries what the store
    /// loaded at startup.
    Created(Option<WindowGeometry>),
    /// The window was resized.
    Resized,
    /// The window was moved.
    Moved,
    /// The user asked to close the window; closing ends the process.
    CloseRequested,
    /// The user asked for the default size and position.
    ResetRequested,
    /// The window came back from hidden (tray toggle).
    ShownFromHidden,
}

/// One instruction of a plan, carried out by the platform layer.
#[derive(Clone, Copy, Debug, PartialEq, Eq)]
pub enum ChromeAction {
    /// Set the outer size, in physical pixels.
    SetSizePhysical(u32, u32),
    /// Set the outer position, in physical pixels.
    SetPosition(i32, i32),
    /// Set the fixed default widget size.
    SetSizeDefault,
    /// Center the window on the screen.
    Center,
    /// Run the style-enforcement pass.
    ApplyStyle,
    /// Run the child-surface pass.
    SanitizeChildren,
    /// Run the clip pass.
    ApplyClip,
    /// Persist the current geometry.
    SaveGeometry,
    /// Remove the persisted geometry.
    ClearSaved,
    /// Schedule the debounced post-resize restyle.
    ScheduleRestyle,
    /// End the process.
    Exit,
}

/// The restore actions for what the store loaded: the saved size first —
/// only when both dimensions are present and positive — then the saved
/// position; nothing when nothing was loaded.
pub open spec fn spec_restore_actions(loaded: Option<WindowGeometry>) -> Seq<ChromeAction> {
    match loaded {
        None => Seq::empty(),
        Some(g) => match spec_restore_size(g) {
            Some((w, h)) => seq![
                ChromeAction::SetSizePhysical(w, h),
                ChromeAction::SetPosition(g.x, g.y),
            ],
            None => seq![ChromeAction::SetPosition(g.x, g.y)],
        },
    }
}

/// The plan for an event, exactly as the controller orders it.
pub open spec fn spec_plan(e: ChromeEvent) -> Seq<ChromeAction> {
    match e {
        ChromeEvent::Created(loaded) => spec_restore_actions(loaded) + seq![
            ChromeAction::ApplyStyle,
            ChromeAction::SanitizeChildren,
            ChromeAction::ApplyClip,
        ],
        ChromeEvent::Resized => seq![ChromeAction::SaveGeometry, ChromeAction::ScheduleRestyle],
        ChromeEvent::Moved => seq![ChromeAction::SaveGeometry],
        ChromeEvent::CloseRequested => seq![ChromeAction::SaveGeometry, ChromeAction::Exit],
        ChromeEvent::ResetRequested => seq![
            ChromeAction::ClearSaved,
            ChromeAction::SetSizeDefault,
            ChromeAction::Center,
            ChromeAction::ApplyStyle,
            ChromeAction::ApplyClip,
            ChromeAction::SaveGeometry,
        ],
        ChromeEvent::ShownFromHidden => seq![ChromeAction::ApplyStyle],
    }
}

/// Plans the actions for an event.
pub fn plan(e: &ChromeEvent) -> (r: Vec<ChromeAction>)
    ensures
        r@ == spec_plan(*e),
{
    match e {
        ChromeEvent::Created(loaded) => {
            let mut acts: Vec<ChromeAction> = Vec::new();
            match loaded {
                Some(g) => {
                    match restore_size(g) {
                        Some((w, h)) => {
                            acts.push(ChromeAction::SetSizePhysical(w, h));
                            acts.push(ChromeAction::SetPosition(g.x, g.y));
                        }
                        None => {
                            acts.push(ChromeAction::SetPosition(g.x, g.y));
                        }
                    }
                }
                None => {}
            }
            acts.push(ChromeAction::ApplyStyle);
            acts.push(ChromeAction::SanitizeChildren);
            acts.push(ChromeAction::ApplyClip);
            proof {
                assert(acts@ =~= spec_plan(*e));
            }
            acts
        }
        ChromeEvent::Resized => {
            let acts = vec![ChromeAction::SaveGeometry, ChromeAction::ScheduleRestyle];
            proof {
                assert(acts@ =~= spec_plan(*e));
            }
            acts
        }
        ChromeEvent::Moved => {
            let acts = vec![ChromeAction::SaveGeometry];
            proof {
                assert(acts@ =~= spec_plan(*e));
            }
            acts
        }
        ChromeEvent::CloseRequested => {
            let acts = vec![ChromeAction::SaveGeometry, ChromeAction::Exit];
            proof {
                assert(acts@ =~= spec_plan(*e));
            }
            acts
        }
        ChromeEvent::ResetRequested => {
            let acts = vec![
                ChromeAction::ClearSaved,
                ChromeAction::SetSizeDefault,
                ChromeAction::Center,
                ChromeAction::ApplyStyle,
                ChromeAction::ApplyClip,
                ChromeAction::SaveGeometry,
            ];
            proof {
                assert(acts@ =~= spec_plan(*e));
            }
            acts
        }
        ChromeEvent::ShownFromHidden => {
            let acts = vec![ChromeAction::ApplyStyle];
            proof {
                assert(acts@ =~= spec_plan(*e));
            }
            acts
        }
    }
}

/// The plan the debounced restyle runs when it fires: enforce styles,
/// then clip.
pub open spec fn spec_settle_plan() -> Seq<ChromeAction> {
    seq![ChromeAction::ApplyStyle, ChromeAction::ApplyClip]
}

/// Plans the debounced post-resize restyle pass.
pub fn settle_plan() -> (r: Vec<ChromeAction>)
    ensures
        r@ == spec_settle_plan(),
{
    let acts = vec![ChromeAction::ApplyStyle, ChromeAction::ApplyClip];
    proof {
        assert(acts@ =~= spec_settle_plan());
    }
    acts
}

/// A controller session: the window model, the persisted bytes (`None`
/// when no state file exists), the screen size used for centering, the
/// pending debounced restyle, and whether the process was told to end.
#[derive(Clone, Debug, PartialEq)]
pub struct ChromeSession {
    pub window: WindowModel,
    pub saved: Option<Vec<u8>>,
    pub screen_width: i32,
    pub screen_height: i32,
    pub restyle_scheduled: bool,
    pub exited: bool,
}

/// The mathematical value of a session.
#[verifier::ext_equal]
pub ghost struct SessionView {
    pub window: ChromeView,
    pub saved: Option<Seq<u8>>,
    pub screen_width: i32,
    pub screen_height: i32,
    pub restyle_scheduled: bool,
    pub exited: bool,
}

impl View for ChromeSession {
    type V = SessionView;

    open spec fn view(&self) -> SessionView {
        SessionView {
            window: self.window@,
            saved: match self.saved {
                Some(b) => Some(b@),
                None => None,
            },
            screen_width: self.screen_width,
            screen_height: self.screen_height,
            restyle_scheduled: self.restyle_scheduled,
            exited: self.exited,
        }
    }
}

/// A session a real machine can be in: window bounds and screen size
/// non-negative and short of `i32::MAX`.
pub open spec fn session_wf(v: SessionView) -> bool {
    &&& 0 <= v.window.bounds.width < i32::MAX
    &&& 0 <= v.window.bounds.height < i32::MAX
    &&& 0 <= v.screen_width < i32::MAX
    &&& 0 <= v.screen_height < i32::MAX
}

/// The coordinate that centers an extent on a screen; at the origin when
/// the extent does not fit.
pub open spec fn spec_centered_coord(screen: i32, dim: i32) -> i32 {
    if dim < screen {
        ((screen - dim) / 2) as i32
    } else {
        0
    }
}

/// Computes the coordinate that centers an extent on a screen.
pub fn centered_coord(screen: i32, dim: i32) -> (r: i32)
    requires
        0 <= screen,
        0 <= dim,
    ensures
        r == spec_centered_coord(screen, dim),
{
    if dim < screen {
        (screen - dim) / 2
    } else {
        0
    }
}

/// What one action does to a session.
pub open spec fn spec_step(v: SessionView, a: ChromeAction) -> SessionView {
    match a {
        ChromeAction::SetSizePhysical(w, h) => SessionView {
            window: spec_resized(v.window, w, h),
            ..v
        },
        ChromeAction::SetPosition(x, y) => SessionView { window: spec_moved(v.window, x, y), ..v },
        ChromeAction::SetSizeDefault => SessionView {
            window: spec_resized(v.window, DEFAULT_WIDTH, DEFAULT_HEIGHT),
            ..v
        },
        ChromeAction::Center => SessionView {
            window: spec_moved(
                v.window,
                spec_centered_coord(v.screen_width, v.window.bounds.width),
                spec_centered_coord(v.screen_height, v.window.bounds.height),
            ),
            ..v
        },
        ChromeAction::ApplyStyle => SessionView { window: chrome_applied(v.window), ..v },
        ChromeAction::SanitizeChildren => SessionView {
            window: children_sanitized(v.window),
            ..v
        },
        ChromeAction::ApplyClip => SessionView { window: clip_applied(v.window), ..v },
        ChromeAction::SaveGeometry => SessionView {
            saved: Some(spec_encode_geometry(spec_current_geometry(v.window))),
            ..v
        },
        ChromeAction::ClearSaved => SessionView { saved: None, ..v },
        ChromeAction::ScheduleRestyle => SessionView { restyle_scheduled: true, ..v },
        ChromeAction::Exit => SessionView { exited: true, ..v },
    }
}

/// Runs one action against the session.
pub fn step(s: &mut ChromeSession, a: &ChromeAction)
    requires
        session_wf(old(s)@),
    ensures
        final(s)@ == spec_step(old(s)@, *a),
        session_wf(final(s)@),
{
    match a {
        ChromeAction::SetSizePhysical(w, h) => {
            resize(&mut s.window, *w, *h);
        }
        ChromeAction::SetPosition(x, y) => {
            move_to(&mut s.window, *x, *y);
        }
        ChromeAction::SetSizeDefault => {
            resize(&mut s.window, DEFAULT_WIDTH, DEFAULT_HEIGHT);
        }
        ChromeAction::Center => {
            let cx: i32 = centered_coord(s.screen_width, s.window.bounds.width);
            let cy: i32 = centered_coord(s.screen_height, s.window.bounds.height);
            move_to(&mut s.window, cx, cy);
        }
        ChromeAction::ApplyStyle => {
            apply_chrome(&mut s.window);
        }
        ChromeAction::SanitizeChildren => {
            sanitize_children(&mut s.window);
        }
        ChromeAction::ApplyClip => {
            apply_clip(&mut s.window);
        }
        ChromeAction::SaveGeometry => {
            let g: WindowGeometry = current_geometry(&s.window);
            s.saved = Some(encode_geometry(&g));
        }
        ChromeAction::ClearSaved => {
            s.saved = None;
        }
        ChromeAction::ScheduleRestyle => {
            s.restyle_scheduled = true;
        }
        ChromeAction::Exit => {
            s.exited = true;
        }
    }
    proof {
        assert(s@ =~= spec_step(old(s)@, *a));
    }
}

/// What a whole plan does to a session, action by action.
pub open spec fn spec_run(v: SessionView, actions: Seq<ChromeAction>) -> SessionView
    decreases actions.len(),
{
    if actions.len() == 0 {
        v
    } else {
        spec_step(spec_run(v, actions.drop_last()), actions.last())
    }
}

/// Runs a whole plan against the session.
pub fn run_plan(s: &mut ChromeSession, actions: &Vec<ChromeAction>)
    requires
        session_wf(old(s)@),
    ensures
        final(s)@ == spec_run(old(s)@, actions@),
        session_wf(final(s)@),
{
    let n: usize = actions.len();
    let mut i: usize = 0;
    while i < n
        invariant
            i <= n,
            n == actions.len(),
            session_wf(s@),
            s@ == spec_run(old(s)@, actions@.take(i as int)),
        decreases n - i,
    {
        step(s, &actions[i]);
        proof {
            assert(actions@.take(i as int + 1).drop_last() =~= actions@.take(i as int));
            assert(actions@.take(i as int + 1).last() == actions@[i as int]);
        }
        i = i + 1;
    }
    proof {
        assert(actions@.take(n as int) =~= actions@);
    }
}

/// The debounced restyle settling: when one is pending, the settle pass
/// runs — styles, then clip — and the pending mark clears; overlapping
/// schedules were already collapsed into that one mark.
pub open spec fn spec_settled(v: SessionView) -> SessionView {
    if v.restyle_scheduled {
        SessionView {
            window: clip_applied(chrome_applied(v.window)),
            restyle_scheduled: false,
            ..v
        }
    } else {
        v
    }
}

/// Lets the pending debounced restyle fire, if one is pending.
pub fn settle_restyle(s: &mut ChromeSession)
    requires
        session_wf(old(s)@),
    ensures
        final(s)@ == spec_settled(old(s)@),
        session_wf(final(s)@),
{
    if s.restyle_scheduled {
        apply_chrome(&mut s.window);
        apply_clip(&mut s.window);
        s.restyle_scheduled = false;
    }
    proof {
        assert(s@ =~= spec_settled(old(s)@));
    }
}

/// What the store yields for a session: nothing without a state file,
/// else whatever the file's bytes decode to.
pub open spec fn spec_load(v: SessionView) -> Option<WindowGeometry> {
    match v.saved {
        None => None,
        Some(bytes) => spec_parse_geometry(bytes),
    }
}

/// Loads the persisted geometry back out of the session's store.
pub fn load_saved(s: &ChromeSession) -> (r: Option<WindowGeometry>)
    ensures
        r == spec_load(s@),
{
    match &s.saved {
        None => None,
        Some(bytes) => parse_geometry(bytes),
    }
}

/// Persisting and loading round-trip through the store: right after a
/// save, the store loads exactly the geometry of the window it saved.
pub proof fn lemma_save_then_load(v: SessionView)
    ensures
        spec_load(spec_step(v, ChromeAction::SaveGeometry)) == Some(
            spec_current_geometry(v.window),
        ),
{
    lemma_encode_then_parse(spec_current_geometry(v.window));
}

/// Overlapping debounced restyles collapse: scheduling twice is the same
/// as scheduling once, and a stale pass firing after a newer one has
/// already settled leaves the window as the newer one left it.
pub proof fn lemma_debounced_restyles_collapse(v: SessionView)
    ensures
        spec_step(spec_step(v, ChromeAction::ScheduleRestyle), ChromeAction::ScheduleRestyle)
            == spec_step(v, ChromeAction::ScheduleRestyle),
        spec_settled(
            spec_step(spec_settled(spec_step(v, ChromeAction::ScheduleRestyle)),
            ChromeAction::ScheduleRestyle),
        ).window == spec_settled(spec_step(v, ChromeAction::ScheduleRestyle)).window,
{
    assert(spec_step(spec_step(v, ChromeAction::ScheduleRestyle), ChromeAction::ScheduleRestyle)
        =~= spec_step(v, ChromeAction::ScheduleRestyle));
    lemma_style_clip_idempotent(v.window);
}

} // verus!
