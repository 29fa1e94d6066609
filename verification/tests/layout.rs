use xr3wm::layout::{BarLayout, Layout, LayoutMsg, Rect, TallLayout};

fn rect(x: u32, y: u32, width: u32, height: u32) -> Rect {
    Rect { x, y, width, height }
}

#[test]
fn tall_three_windows_master_split() {
    // area 1000x500, 3 windows, 1 master at six tenths of the width
    let l = TallLayout::new(1, 600, 50);
    let windows: Vec<u64> = vec![11, 22, 33];
    let rects = l.apply(rect(0, 0, 1000, 500), &windows);
    assert_eq!(rects.len(), 3);
    assert_eq!(rects[0], rect(0, 0, 600, 500));
    assert_eq!(rects[1], rect(600, 0, 400, 250));
    assert_eq!(rects[2], rect(600, 250, 400, 250));
}

#[test]
fn tall_one_rect_per_window() {
    let l = TallLayout::new(2, 500, 50);
    for k in 1..12u64 {
        let windows: Vec<u64> = (0..k).collect();
        let rects = l.apply(rect(5, 7, 977, 611), &windows);
        assert_eq!(rects.len(), windows.len());
    }
}

#[test]
fn tall_rects_stay_inside_area_and_disjoint() {
    let area = rect(3, 9, 1001, 503);
    let l = TallLayout::new(2, 600, 50);
    let windows: Vec<u64> = (0..7).collect();
    let rects = l.apply(area, &windows);
    for r in &rects {
        assert!(r.x >= area.x && r.x + r.width <= area.x + area.width);
        assert!(r.y >= area.y && r.y + r.height <= area.y + area.height);
    }
    for i in 0..rects.len() {
        for j in (i + 1)..rects.len() {
            let (a, b) = (rects[i], rects[j]);
            let apart = a.x + a.width <= b.x || b.x + b.width <= a.x || a.y + a.height <= b.y
                || b.y + b.height <= a.y;
            assert!(apart, "rectangles {i} and {j} overlap");
        }
    }
}

#[test]
fn tall_all_masters_span_full_width() {
    // more masters configured than windows present
    let l = TallLayout::new(5, 600, 50);
    let windows: Vec<u64> = vec![1, 2, 3];
    let area = rect(10, 20, 900, 600);
    let rects = l.apply(area, &windows);
    assert_eq!(rects.len(), 3);
    for r in &rects {
        assert_eq!(r.x, area.x);
        assert_eq!(r.width, area.width);
    }
    // heights divide the area evenly among the three windows
    assert_eq!(rects[0], rect(10, 20, 900, 200));
    assert_eq!(rects[1], rect(10, 220, 900, 200));
    assert_eq!(rects[2], rect(10, 420, 900, 200));
}

#[test]
fn tall_uneven_height_floors() {
    // 502 / 3 floors to 167; the last unit of height is rounding slack
    let l = TallLayout::new(3, 500, 50);
    let windows: Vec<u64> = vec![1, 2, 3];
    let rects = l.apply(rect(0, 0, 100, 502), &windows);
    assert_eq!(rects[0], rect(0, 0, 100, 167));
    assert_eq!(rects[1], rect(0, 167, 100, 167));
    assert_eq!(rects[2], rect(0, 334, 100, 167));
}

#[test]
fn bar_insets_area_for_inner_layout() {
    // top 20, bottom 10 over 800x600: inner sees {0,20,800,570}
    let inner = Layout::Tall(TallLayout::new(1, 500, 50));
    let bar = BarLayout::new(20, 10, inner);
    let windows: Vec<u64> = vec![42];
    let rects = bar.apply(rect(0, 0, 800, 600), &windows);
    assert_eq!(rects.len(), 1);
    assert_eq!(rects[0], rect(0, 20, 800, 570));
}

#[test]
fn bar_matches_inner_on_inset_area() {
    let tall = TallLayout::new(1, 600, 50);
    let bar = BarLayout::new(15, 5, Layout::Tall(TallLayout::new(1, 600, 50)));
    let windows: Vec<u64> = vec![1, 2, 3, 4];
    let area = rect(0, 0, 1024, 768);
    let inset = rect(0, 15, 1024, 748);
    assert_eq!(bar.apply(area, &windows), tall.apply(inset, &windows));
}

#[test]
fn nested_bars_accumulate_margins() {
    let tall = TallLayout::new(1, 500, 50);
    let inner_bar = BarLayout::new(10, 0, Layout::Tall(TallLayout::new(1, 500, 50)));
    let outer_bar = BarLayout::new(20, 10, Layout::Bar(inner_bar));
    let windows: Vec<u64> = vec![7];
    let rects = outer_bar.apply(rect(0, 0, 800, 600), &windows);
    assert_eq!(rects, tall.apply(rect(0, 30, 800, 560), &windows));
}

#[test]
fn names_forward_through_decorators() {
    let tall = TallLayout::new(1, 500, 50);
    assert_eq!(tall.name(), "Tall");
    let layered = Layout::Bar(BarLayout::new(20, 10, Layout::Tall(tall)));
    assert_eq!(layered.name(), "Tall");
}

#[test]
fn ratio_messages_move_and_clamp() {
    let l = TallLayout::new(1, 950, 100);
    let up = l.send_msg(LayoutMsg::IncreaseRatio);
    assert_eq!(up.ratio, 1000); // clamped at the full width
    let l = TallLayout::new(1, 50, 100);
    let down = l.send_msg(LayoutMsg::DecreaseRatio);
    assert_eq!(down.ratio, 0); // clamped at zero
    let l = TallLayout::new(1, 500, 50);
    assert_eq!(l.send_msg(LayoutMsg::IncreaseRatio).ratio, 550);
    assert_eq!(l.send_msg(LayoutMsg::DecreaseRatio).ratio, 450);
}

#[test]
fn master_messages_move_and_clamp() {
    let l = TallLayout::new(1, 500, 50);
    assert_eq!(l.send_msg(LayoutMsg::IncreaseMaster).num_masters, 2);
    assert_eq!(l.send_msg(LayoutMsg::DecreaseMaster).num_masters, 0);
    let l = TallLayout::new(0, 500, 50);
    assert_eq!(l.send_msg(LayoutMsg::DecreaseMaster).num_masters, 0);
}

#[test]
fn messages_reach_through_decorators() {
    let bar = BarLayout::new(20, 10, Layout::Tall(TallLayout::new(1, 500, 50)));
    let after = Layout::Bar(bar).send_msg(LayoutMsg::IncreaseRatio);
    match after {
        Layout::Bar(b) => {
            assert_eq!(b.top, 20);
            assert_eq!(b.bottom, 10);
            match *b.layout {
                Layout::Tall(t) => assert_eq!(t.ratio, 550),
                Layout::Bar(_) => panic!("decorator gained a level"),
            }
        },
        Layout::Tall(_) => panic!("decorator was lost"),
    }
}

#[test]
fn no_windows_no_rects() {
    let l = TallLayout::new(1, 600, 50);
    let rects = l.apply(rect(0, 0, 1000, 500), &Vec::new());
    assert!(rects.is_empty());
}

#[test]
fn zero_masters_reserve_the_left_column() {
    // with no master slots every window stacks in the right column
    let l = TallLayout::new(0, 600, 50);
    let windows: Vec<u64> = vec![1, 2];
    let rects = l.apply(rect(0, 0, 1000, 500), &windows);
    assert_eq!(rects[0], rect(600, 0, 400, 250));
    assert_eq!(rects[1], rect(600, 250, 400, 250));
}
