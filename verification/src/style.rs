//! Window style words.
//!
//! A window carries two 32-bit style words (kept here in `u64`, as the
//! platform reads them out of a pointer-sized slot): the style proper and the
//! extended style.  The chrome pipeline rewrites both: the top-level window
//! loses its caption, thick frame, system menu and min/max boxes and becomes
//! a visible popup; the extended word gains the layered and tool-window bits;
//! a child surface loses caption, thick frame and system menu and keeps the
//! child and visible bits set.

use vstd::prelude::*;

verus! {

/// Title bar (caption) style bit.
pub const WS_CAPTION: u64 = 0x00C0_0000;
/// Sizable border style bit.
pub const WS_THICKFRAME: u64 = 0x0004_0000;
/// System menu style bit.
pub const WS_SYSMENU: u64 = 0x0008_0000;
/// Maximize box style bit.
pub const WS_MAXIMIZEBOX: u64 = 0x0001_0000;
/// Minimize box style bit.
pub const WS_MINIMIZEBOX: u64 = 0x0002_0000;
/// Popup window style bit.
pub const WS_POPUP: u64 = 0x8000_0000;
/// Visible style bit.
pub const WS_VISIBLE: u64 = 0x1000_0000;
/// Child window style bit.
pub const WS_CHILD: u64 = 0x4000_0000;
/// Layered extended-style bit.
pub const WS_EX_LAYERED: u64 = 0x0008_0000;
/// Tool-window extended-style bit (no taskbar button).
pub const WS_EX_TOOLWINDOW: u64 = 0x0000_0080;

/// The style word of a chromeless top-level widget: decorations stripped,
/// popup and visible forced on.
pub open spec fn spec_widget_style(style: u64) -> u64 {
    (style & !(WS_CAPTION | WS_THICKFRAME | WS_SYSMENU | WS_MAXIMIZEBOX | WS_MINIMIZEBOX))
        | WS_POPUP | WS_VISIBLE
}

/// The extended style word of a chromeless top-level widget: layered and
/// tool-window added, everything else kept.
pub open spec fn spec_widget_exstyle(exstyle: u64) -> u64 {
    exstyle | WS_EX_LAYERED | WS_EX_TOOLWINDOW
}

/// The style word of a sanitized child surface: decoration bits stripped,
/// child and visible forced on.
pub open spec fn spec_child_style(style: u64) -> u64 {
    (style & !(WS_CAPTION | WS_THICKFRAME | WS_SYSMENU)) | WS_CHILD | WS_VISIBLE
}

/// Rewrites a top-level style word to the chromeless widget form.
pub fn widget_style(style: u64) -> (r: u64)
    ensures
        r == spec_widget_style(style),
{
    (style & !(WS_CAPTION | WS_THICKFRAME | WS_SYSMENU | WS_MAXIMIZEBOX | WS_MINIMIZEBOX))
        | WS_POPUP | WS_VISIBLE
}

/// Rewrites an extended style word to the chromeless widget form.
pub fn widget_exstyle(exstyle: u64) -> (r: u64)
    ensures
        r == spec_widget_exstyle(exstyle),
{
    exstyle | WS_EX_LAYERED | WS_EX_TOOLWINDOW
}

/// Rewrites a child surface's style word to the sanitized form.
pub fn child_style(style: u64) -> (r: u64)
    ensures
        r == spec_child_style(style),
{
    (style & !(WS_CAPTION | WS_THICKFRAME | WS_SYSMENU)) | WS_CHILD | WS_VISIBLE
}

/// Rewriting a style word is idempotent, and the rewritten word has the
/// decoration bits cleared and the popup and visible bits set: repeating the
/// styling pass cannot disturb an already styled window.
pub proof fn lemma_widget_style_idempotent(style: u64)
    by (bit_vector)
    ensures
        spec_widget_style(spec_widget_style(style)) == spec_widget_style(style),
        spec_widget_style(style) & WS_CAPTION == 0,
        spec_widget_style(style) & WS_THICKFRAME == 0,
        spec_widget_style(style) & WS_SYSMENU == 0,
        spec_widget_style(style) & WS_MAXIMIZEBOX == 0,
        spec_widget_style(style) & WS_MINIMIZEBOX == 0,
        spec_widget_style(style) & WS_POPUP == WS_POPUP,
        spec_widget_style(style) & WS_VISIBLE == WS_VISIBLE,
{
}

/// Extending the style word is idempotent and only adds the two bits.
pub proof fn lemma_widget_exstyle_idempotent(exstyle: u64)
    by (bit_vector)
    ensures
        spec_widget_exstyle(spec_widget_exstyle(exstyle)) == spec_widget_exstyle(exstyle),
        spec_widget_exstyle(exstyle) & WS_EX_LAYERED == WS_EX_LAYERED,
        spec_widget_exstyle(exstyle) & WS_EX_TOOLWINDOW == WS_EX_TOOLWINDOW,
{
}

/// Sanitizing a child style word is idempotent.
pub proof fn lemma_child_style_idempotent(style: u64)
    by (bit_vector)
    ensures
        spec_child_style(spec_child_style(style)) == spec_child_style(style),
        spec_child_style(style) & WS_CAPTION == 0,
        spec_child_style(style) & WS_THICKFRAME == 0,
        spec_child_style(style) & WS_SYSMENU == 0,
        spec_child_style(style) & WS_CHILD == WS_CHILD,
        spec_child_style(style) & WS_VISIBLE == WS_VISIBLE,
{
}

} // verus!
