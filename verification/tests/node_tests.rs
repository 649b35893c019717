use cutlist_optimizer::features::cut::Cut;
use cutlist_optimizer::features::node::Node;
use cutlist_optimizer::features::panel::Panel;
use cutlist_optimizer::features::rectangle::Rectangle;

fn sheet(w: i32, h: i32) -> Node {
    Node::new(0, Rectangle::new(0, 0, w, h))
}

fn panel(id: u16, w: i32, h: i32, label: &str) -> Panel {
    Panel::new(id, w, h, label.to_string())
}

#[test]
fn rectangle_basics() {
    let r = Rectangle::new(1, 2, 30, 40);
    assert_eq!(r.area(), 1200);
    assert!(r.fits(&Rectangle::new(0, 0, 30, 40)));
    assert!(!r.fits(&Rectangle::new(0, 0, 31, 1)));
}

#[test]
fn fresh_node_measures() {
    let n = sheet(100, 50);
    assert_eq!(n.width(), 100);
    assert_eq!(n.height(), 50);
    assert_eq!(n.area(), 5000);
    assert_eq!(n.get_used_area(), 0);
    assert_eq!(n.get_unused_tiles_count(), 1);
    assert_eq!(n.get_biggest_unused_area(), 5000);
    assert!(n.get_final_panels().is_empty());
}

#[test]
fn place_panel_one_cut() {
    let mut n = sheet(100, 50);
    let cuts = n.place_panel(&panel(7, 40, 50, "A"), 0).unwrap();
    assert_eq!(cuts, vec![Cut::new(40, 0, 40, 50, false)]);
    assert_eq!(n.get_used_area(), 2000);
    assert_eq!(n.get_unused_tiles_count(), 1);
    assert_eq!(n.get_biggest_unused_area(), 3000);
    let placed = n.get_final_panels();
    assert_eq!(placed.len(), 1);
    assert_eq!((placed[0].panel_id, placed[0].x, placed[0].y, placed[0].width, placed[0].height), (7, 0, 0, 40, 50));
    assert_eq!(placed[0].label, "A");
}

#[test]
fn place_panel_two_cuts_with_kerf() {
    let mut n = sheet(100, 50);
    let cuts = n.place_panel_hv(&panel(1, 40, 20, "B"), 3).unwrap();
    assert_eq!(cuts, vec![Cut::new(40, 0, 40, 50, false), Cut::new(0, 20, 40, 20, true)]);
    assert_eq!(n.get_used_area(), 800);
    // Unused: right part 57x50 and the strip 40x27 under the panel.
    assert_eq!(n.get_unused_tiles_count(), 2);
    assert_eq!(n.get_biggest_unused_area(), 57 * 50);
}

#[test]
fn place_panel_vh_order() {
    let mut n = sheet(100, 50);
    let cuts = n.place_panel_vh(&panel(1, 40, 20, "C"), 0).unwrap();
    assert_eq!(cuts, vec![Cut::new(0, 20, 100, 20, true), Cut::new(40, 0, 40, 20, false)]);
    assert_eq!(n.get_used_area(), 800);
    assert_eq!(n.get_biggest_unused_area(), 3000);
}

#[test]
fn panel_too_big_is_refused() {
    let mut n = sheet(10, 10);
    let r = n.place_panel(&panel(1, 11, 5, "X"), 0);
    assert_eq!(r, Err("Panel doesn't fit".to_string()));
    assert_eq!(n.get_used_area(), 0);
}

#[test]
fn exact_fit_needs_no_cut() {
    let mut n = sheet(10, 10);
    let r = n.place_panel(&panel(3, 10, 10, ""), 0).unwrap();
    assert!(r.is_empty());
    assert_eq!(n.get_used_area(), 100);
    assert_eq!(n.get_unused_tiles_count(), 0);
}

#[test]
fn candidates_are_free_leaves_that_fit() {
    let mut n = sheet(100, 50);
    n.place_panel(&panel(1, 40, 50, "A"), 0).unwrap();
    let c = n.find_candidates(30, 30);
    assert_eq!(c.len(), 1);
    assert_eq!(c[0].rect, Rectangle::new(40, 0, 60, 50));
    assert!(n.find_candidates(70, 10).is_empty());
}

#[test]
fn find_by_corner_then_place() {
    let mut n = sheet(100, 50);
    n.place_panel(&panel(1, 40, 50, "A"), 0).unwrap();
    {
        let right = n.find_node_by_coordinates(40, 0).unwrap();
        right.place_panel(&panel(2, 60, 50, "B"), 0).unwrap();
    }
    assert_eq!(n.get_used_area(), 5000);
    assert_eq!(n.get_final_panels().len(), 2);
    assert!(n.find_node_by_coordinates(5, 5).is_none());
}

#[test]
fn unlabelled_panels_get_a_default_label() {
    let mut n = sheet(10, 10);
    n.set_final(true);
    n.set_panel_id(12);
    let placed = n.get_final_panels();
    assert_eq!(placed.len(), 1);
    assert_eq!(placed[0].label, "Panel_12");
}

#[test]
fn split_creates_children_ids() {
    let mut n = Node::new(4, Rectangle::new(0, 0, 10, 10));
    let cut = n.split_vertical(4, 1);
    assert_eq!(cut, Cut::new(0, 4, 10, 4, true));
    let c1 = n.child1.as_ref().unwrap();
    let c2 = n.child2.as_ref().unwrap();
    assert_eq!(c1.id, 51);
    assert_eq!(c1.rect, Rectangle::new(0, 0, 10, 4));
    assert_eq!(c2.rect, Rectangle::new(0, 5, 10, 5));
}

#[test]
fn clone_is_independent_deep_copy() {
    let mut n = sheet(100, 50);
    n.place_panel(&panel(1, 40, 50, "A"), 0).unwrap();
    let copy = n.clone();
    n.find_node_by_coordinates(40, 0).unwrap().place_panel(&panel(2, 60, 50, "B"), 0).unwrap();
    assert_eq!(copy.get_final_panels().len(), 1);
    assert_eq!(n.get_final_panels().len(), 2);
    assert_eq!(copy.get_used_area(), 2000);
}
