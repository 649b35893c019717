use cutlist_optimizer::features::cut::Cut;
use cutlist_optimizer::features::node::Node;
use cutlist_optimizer::features::panel::Panel;
use cutlist_optimizer::features::placement::Placement;
use cutlist_optimizer::features::rectangle::Rectangle;

fn sheet(w: i32, h: i32) -> Panel {
    Panel::new(9, w, h, "sheet".to_string())
}

fn part(id: u16, w: i32, h: i32) -> Panel {
    Panel::new(id, w, h, format!("p{}", id))
}

#[test]
fn placement_new_is_an_empty_sheet() {
    let p = Placement::new(&sheet(100, 50));
    assert_eq!(p.stock_id, 9);
    assert_eq!(p.used_area, 0);
    assert_eq!(p.waste_area, 5000);
    assert!(p.cuts.is_empty());
    assert!(p.placed_panels.is_empty());
    assert_eq!(p.root_node.rect, Rectangle::new(0, 0, 100, 50));
    assert!(p.root_node.child1.is_none());
}

#[test]
fn split_horizontally_makes_left_part_and_rest() {
    let mut node = Node::new(0, Rectangle::new(10, 20, 100, 50));
    let cut = Placement::split_horizontally(&mut node, 30, 2, 7).unwrap();
    assert_eq!(cut, Cut::new(40, 20, 40, 70, false));
    let c1 = node.child1.as_ref().unwrap();
    assert_eq!(c1.rect, Rectangle::new(10, 20, 30, 50));
    assert_eq!(c1.external_id, Some(7));
    let c2 = node.child2.as_ref().unwrap();
    assert_eq!(c2.rect, Rectangle::new(42, 20, 68, 50));
    assert_eq!(c2.external_id, None);
}

#[test]
fn split_horizontally_without_rest() {
    let mut node = Node::new(0, Rectangle::new(0, 0, 30, 50));
    let cut = Placement::split_horizontally(&mut node, 29, 1, 3).unwrap();
    assert_eq!(cut, Cut::new(29, 0, 29, 50, false));
    assert_eq!(node.child1.as_ref().unwrap().rect, Rectangle::new(0, 0, 29, 50));
    assert!(node.child2.is_none());
}

#[test]
fn split_vertically_makes_top_part_and_rest() {
    let mut node = Node::new(0, Rectangle::new(10, 20, 100, 50));
    let cut = Placement::split_vertically(&mut node, 15, 3, 4).unwrap();
    assert_eq!(cut, Cut::new(10, 35, 110, 35, true));
    let c1 = node.child1.as_ref().unwrap();
    assert_eq!(c1.rect, Rectangle::new(10, 20, 100, 15));
    assert_eq!(c1.external_id, Some(4));
    assert_eq!(node.child2.as_ref().unwrap().rect, Rectangle::new(10, 38, 100, 32));
}

#[test]
fn try_place_panel_exact_fit_marks_root() {
    let mut p = Placement::new(&sheet(60, 40));
    assert!(p.try_place_panel(&part(1, 60, 40), 3, true));
    assert!(p.root_node.is_final);
    assert_eq!(p.root_node.external_id, Some(1));
    assert!(p.cuts.is_empty());
}

#[test]
fn try_place_panel_splits_and_records_cuts() {
    let mut p = Placement::new(&sheet(100, 50));
    assert!(p.try_place_panel(&part(1, 60, 40), 2, true));
    assert_eq!(p.cuts.len(), 2);
    assert_eq!(p.cuts[0], Cut::new(60, 0, 60, 50, false));
    assert_eq!(p.cuts[1], Cut::new(0, 40, 60, 40, true));
    p.update_statistics();
    assert_eq!(p.used_area, 2400);
    assert_eq!(p.waste_area, 2600);
    assert_eq!(p.placed_panels.len(), 1);
    assert_eq!(p.placed_panels[0].width, 60);
    assert_eq!(p.placed_panels[0].height, 40);
}

#[test]
fn try_place_panel_turns_when_grain_is_ignored() {
    let mut p = Placement::new(&sheet(50, 100));
    assert!(p.try_place_panel(&part(1, 80, 40), 0, false));
    p.update_statistics();
    assert_eq!(p.used_area, 3200);
    assert_eq!(p.placed_panels[0].width, 40);
    assert_eq!(p.placed_panels[0].height, 80);

    let mut q = Placement::new(&sheet(50, 100));
    assert!(!q.try_place_panel(&part(1, 80, 40), 0, true));
    assert!(q.cuts.is_empty());
    assert!(q.root_node.child1.is_none());
}

#[test]
fn try_place_panel_square_is_not_turned() {
    let mut p = Placement::new(&sheet(50, 100));
    assert!(!p.try_place_panel(&part(1, 60, 60), 0, false));
}

#[test]
fn try_place_panels_stops_at_first_without_place() {
    let mut p = Placement::new(&sheet(100, 50));
    let panels = vec![part(1, 60, 40), part(2, 200, 200), part(3, 10, 10)];
    let n = p.try_place_panels(&panels, 0, true);
    assert_eq!(n, 1);
    assert_eq!(p.used_area, 2400);
    assert_eq!(p.waste_area, 2600);
    assert_eq!(p.placed_panels.len(), 1);
}

#[test]
fn try_place_panels_places_all_that_fit() {
    let mut p = Placement::new(&sheet(100, 50));
    let panels = vec![part(1, 50, 50), part(2, 50, 50)];
    let n = p.try_place_panels(&panels, 0, true);
    assert_eq!(n, 2);
    assert_eq!(p.used_area, 5000);
    assert_eq!(p.waste_area, 0);
    assert_eq!(p.placed_panels.len(), 2);
}
