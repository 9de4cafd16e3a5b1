use clicky_companion::monitors::{describe_monitors, sort_monitors, virtual_desktop_bounds, MonitorDescription, MonitorInfo};

fn info(handle: usize, x: i32, y: i32, w: u32, h: u32, primary: bool) -> MonitorInfo {
    MonitorInfo {
        handle,
        id: 100 + handle as u32,
        name: format!("mon{handle}"),
        x,
        y,
        width: w,
        height: h,
        scale_factor_bits: 1.5f64.to_bits(),
        is_primary: primary,
    }
}

fn desc(x: i32, y: i32, w: u32, h: u32) -> MonitorDescription {
    MonitorDescription {
        index: 0,
        id: 1,
        name: String::new(),
        x,
        y,
        width: w,
        height: h,
        scale_factor_bits: 0,
        is_primary: false,
    }
}

#[test]
fn primary_first_then_left_to_right_then_top_to_bottom() {
    let sorted = sort_monitors(vec![
        info(0, 1920, 0, 1280, 1024, false),
        info(1, -1280, 200, 1280, 1024, false),
        info(2, 0, 0, 1920, 1080, true),
        info(3, -1280, -824, 1280, 1024, false),
    ]);
    let handles: Vec<usize> = sorted.iter().map(|m| m.handle).collect();
    assert_eq!(handles, vec![2, 3, 1, 0]);
}

#[test]
fn equal_positions_keep_their_order() {
    let sorted = sort_monitors(vec![
        info(0, 0, 0, 800, 600, false),
        info(1, 0, 0, 1024, 768, false),
        info(2, -5, 0, 10, 10, false),
        info(3, 0, 0, 640, 480, false),
    ]);
    let handles: Vec<usize> = sorted.iter().map(|m| m.handle).collect();
    assert_eq!(handles, vec![2, 0, 1, 3]);
}

#[test]
fn sort_of_empty_and_single() {
    assert!(sort_monitors(vec![]).is_empty());
    let one = sort_monitors(vec![info(7, 5, 5, 1, 1, false)]);
    assert_eq!(one.len(), 1);
    assert_eq!(one[0].handle, 7);
}

#[test]
fn descriptions_carry_session_index() {
    let d = describe_monitors(vec![info(0, 1920, 0, 1280, 1024, false), info(1, 0, 0, 1920, 1080, true)]);
    assert_eq!(d.len(), 2);
    assert_eq!(d[0].index, 0);
    assert_eq!(d[0].id, 101);
    assert_eq!(d[0].name, "mon1");
    assert!(d[0].is_primary);
    assert_eq!((d[0].x, d[0].y, d[0].width, d[0].height), (0, 0, 1920, 1080));
    assert_eq!(d[1].index, 1);
    assert_eq!(d[1].id, 100);
    assert_eq!(f64::from_bits(d[1].scale_factor_bits), 1.5);
}

#[test]
fn bounds_cover_all_monitors() {
    let b = virtual_desktop_bounds(&vec![desc(0, 0, 1920, 1080), desc(-1280, -200, 1280, 1024), desc(1920, 100, 2560, 1440)]);
    assert_eq!((b.origin_x, b.origin_y, b.width, b.height), (-1280, -200, 5760, 1740));
}

#[test]
fn bounds_of_no_monitor_is_one_pixel_at_origin() {
    let b = virtual_desktop_bounds(&vec![]);
    assert_eq!((b.origin_x, b.origin_y, b.width, b.height), (0, 0, 1, 1));
}

#[test]
fn bounds_extent_is_at_least_one_and_saturates() {
    let b = virtual_desktop_bounds(&vec![desc(10, 10, 0, 0)]);
    assert_eq!((b.origin_x, b.origin_y, b.width, b.height), (10, 10, 1, 1));
    let b = virtual_desktop_bounds(&vec![desc(i32::MIN, 0, 0, 5), desc(1000, 0, 5, 5)]);
    assert_eq!(b.width, i32::MAX as u32);
    // a width above i32::MAX wraps negative, as `width as i32` does
    let b = virtual_desktop_bounds(&vec![desc(100, 0, 0xffff_fff0, 10)]);
    assert_eq!((b.origin_x, b.width), (100, 1));
}

#[test]
fn session_order_does_not_depend_on_enumeration_order() {
    let a = sort_monitors(vec![
        info(0, 100, 0, 10, 10, false),
        info(1, 0, 50, 10, 10, false),
        info(2, 0, 0, 10, 10, true),
        info(3, 0, 10, 10, 10, false),
    ]);
    let b = sort_monitors(vec![
        info(3, 0, 10, 10, 10, false),
        info(2, 0, 0, 10, 10, true),
        info(0, 100, 0, 10, 10, false),
        info(1, 0, 50, 10, 10, false),
    ]);
    let ha: Vec<usize> = a.iter().map(|m| m.handle).collect();
    let hb: Vec<usize> = b.iter().map(|m| m.handle).collect();
    assert_eq!(ha, vec![2, 3, 1, 0]);
    assert_eq!(ha, hb);
}

#[test]
fn every_monitor_lies_inside_the_bounds() {
    let ms = vec![desc(0, 0, 1920, 1080), desc(-1280, -200, 1280, 1024), desc(1920, 100, 2560, 1440), desc(300, 1080, 800, 600)];
    let b = virtual_desktop_bounds(&ms);
    for m in &ms {
        assert!(b.origin_x <= m.x && b.origin_y <= m.y);
        assert!(m.x as i64 + m.width as i64 <= b.origin_x as i64 + b.width as i64);
        assert!(m.y as i64 + m.height as i64 <= b.origin_y as i64 + b.height as i64);
    }
}
