//! The style words, the clip region and the pipeline on the window model.

use window_chrome::chrome::{
    Bounds, ChildSurface, WindowModel, apply_chrome, apply_clip, current_geometry, move_to,
    resize, run_chrome_pass, sanitize_children,
};
use window_chrome::region::{RegionSpec, clip_region};
use window_chrome::style::{child_style, widget_exstyle, widget_style};

fn plain_window() -> WindowModel {
    WindowModel {
        bounds: Bounds { x: 100, y: 100, width: 360, height: 382 },
        style: 0x10CF_0000,
        exstyle: 0x0000_0100,
        resizable: true,
        shadow: true,
        decorations: true,
        min_size: None,
        transparent: false,
        title_empty: false,
        brush_null: false,
        frame_extended: false,
        nc_rendering_policy: None,
        corner_preference: None,
        border_color: None,
        region: None,
        children: Vec::new(),
    }
}

#[test]
fn widget_style_strips_decorations_and_forces_popup() {
    // Caption, thick frame, system menu and both boxes leave; popup and
    // visible arrive.
    assert_eq!(widget_style(0x10CF_0000), 0x9000_0000);
    // An already styled word stays as it is.
    assert_eq!(widget_style(0x9000_0000), 0x9000_0000);
}

#[test]
fn widget_exstyle_adds_layered_and_toolwindow() {
    assert_eq!(widget_exstyle(0x0000_0100), 0x0008_0180);
    assert_eq!(widget_exstyle(0x0008_0180), 0x0008_0180);
}

#[test]
fn child_style_keeps_child_and_visible() {
    // Caption, thick frame and system menu leave; child and visible arrive;
    // the min/max boxes are left alone on children.
    assert_eq!(child_style(0x10CF_0000), 0x5003_0000);
    assert_eq!(child_style(0x5003_0000), 0x5003_0000);
}

#[test]
fn clip_region_of_the_default_bounds() {
    let r = clip_region(360, 382).unwrap();
    assert_eq!(
        r,
        RegionSpec {
            left: 8,
            top: 38,
            right: 353,
            bottom: 383,
            corner_width: 48,
            corner_height: 48,
        },
    );
}

#[test]
fn clip_region_skips_degenerate_bounds() {
    assert_eq!(clip_region(0, 382), None);
    assert_eq!(clip_region(360, 0), None);
    assert_eq!(clip_region(-5, 100), None);
}

#[test]
fn clipping_twice_leaves_the_same_region() {
    let mut w = plain_window();
    apply_clip(&mut w);
    let first = w.region;
    apply_clip(&mut w);
    assert_eq!(w.region, first);
    assert_eq!(w.bounds, plain_window().bounds);
}

#[test]
fn the_pipeline_establishes_the_chrome_state() {
    let mut w = plain_window();
    w.children.push(ChildSurface { style: 0x10CF_0000, title_empty: false, brush_null: false });
    run_chrome_pass(&mut w);
    assert!(!w.resizable);
    assert!(!w.shadow);
    assert!(!w.decorations);
    assert_eq!(w.min_size, Some((340, 382)));
    assert!(w.transparent);
    assert!(w.title_empty);
    assert!(w.brush_null);
    assert!(w.frame_extended);
    assert_eq!(w.nc_rendering_policy, Some(1));
    assert_eq!(w.corner_preference, Some(1));
    assert_eq!(w.border_color, Some(0xFFFF_FFFE));
    assert_eq!(w.style, 0x9000_0000);
    assert_eq!(w.exstyle, 0x0008_0180);
    assert!(w.region.is_some());
    assert_eq!(
        w.children[0],
        ChildSurface { style: 0x5003_0000, title_empty: true, brush_null: true },
    );
}

#[test]
fn the_pipeline_is_idempotent() {
    let mut w = plain_window();
    w.children.push(ChildSurface { style: 0x10CF_0000, title_empty: false, brush_null: false });
    run_chrome_pass(&mut w);
    let once = w.clone();
    run_chrome_pass(&mut w);
    assert_eq!(w, once);
}

#[test]
fn resizes_below_the_minimum_are_raised() {
    let mut w = plain_window();
    apply_chrome(&mut w);
    resize(&mut w, 100, 100);
    assert_eq!((w.bounds.width, w.bounds.height), (340, 382));
    resize(&mut w, 1000, 50);
    assert_eq!((w.bounds.width, w.bounds.height), (1000, 382));
    resize(&mut w, 340, 382);
    assert_eq!((w.bounds.width, w.bounds.height), (340, 382));
}

#[test]
fn resizes_without_a_minimum_pass_through() {
    let mut w = plain_window();
    resize(&mut w, 100, 100);
    assert_eq!((w.bounds.width, w.bounds.height), (100, 100));
}

#[test]
fn sanitizing_without_children_changes_nothing() {
    let mut w = plain_window();
    let before = w.clone();
    sanitize_children(&mut w);
    assert_eq!(w, before);
}

#[test]
fn sanitizing_strips_every_child() {
    let mut w = plain_window();
    w.children.push(ChildSurface { style: 0x10CF_0000, title_empty: false, brush_null: false });
    w.children.push(ChildSurface { style: 0x5003_0000, title_empty: true, brush_null: true });
    sanitize_children(&mut w);
    assert_eq!(
        w.children,
        vec![
            ChildSurface { style: 0x5003_0000, title_empty: true, brush_null: true },
            ChildSurface { style: 0x5003_0000, title_empty: true, brush_null: true },
        ],
    );
}

#[test]
fn the_current_geometry_reads_the_bounds() {
    let mut w = plain_window();
    move_to(&mut w, -30, 12);
    let g = current_geometry(&w);
    assert_eq!((g.x, g.y, g.width, g.height), (-30, 12, Some(360), Some(382)));
}
