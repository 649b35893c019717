use cutlist_optimizer::features::input::{PanelGroup, PanelInstance};
use cutlist_optimizer::features::panel_grouper::PanelGrouper;
use cutlist_optimizer::features::permutation_generator::PermutationGenerator;

fn inst(id: i32, w: u32, h: u32, rot: bool) -> PanelInstance {
    PanelInstance::new(id, w, h, rot)
}

fn group(w: u32, h: u32, rot: bool, ids: &[i32]) -> PanelGroup {
    let mut g = PanelGroup::new(w, h, rot);
    for &id in ids {
        g.add_instance(inst(id, w, h, rot));
    }
    g
}

#[test]
fn effective_dimensions_swap_when_rotated() {
    assert_eq!(inst(1, 10, 20, false).effective_dimensions(), (10, 20));
    assert_eq!(inst(1, 10, 20, true).effective_dimensions(), (20, 10));
}

#[test]
fn group_panels_gathers_equal_sizes() {
    let panels = vec![
        inst(1, 10, 20, false),
        inst(2, 30, 30, false),
        inst(3, 10, 20, false),
        inst(4, 20, 10, true),
    ];
    let groups = PanelGrouper::group_panels(&panels);
    assert_eq!(groups.len(), 3);
    // 30x30 (area 900) first; the two area-200 groups follow.
    assert_eq!((groups[0].width, groups[0].height), (30, 30));
    assert_eq!(groups[0].count, 1);
    let plain = groups.iter().find(|g| !g.is_rotated && g.width == 10).unwrap();
    assert_eq!(plain.count, 2);
    assert_eq!(plain.get_all_instances().iter().map(|p| p.id).collect::<Vec<_>>(), vec![1, 3]);
    let rotated = groups.iter().find(|g| g.is_rotated).unwrap();
    assert_eq!((rotated.width, rotated.height), (10, 20));
    assert_eq!(rotated.get_representative().map(|p| p.id), Some(4));
}

#[test]
fn group_panels_of_nothing() {
    let groups = PanelGrouper::group_panels(&[]);
    assert!(groups.is_empty());
    assert!(PermutationGenerator::group_panels(&[]).is_empty());
}

#[test]
fn flatten_groups_keeps_group_order() {
    let groups = vec![group(5, 5, false, &[1, 2]), group(9, 1, false, &[3])];
    let flat = PanelGrouper::flatten_groups(&groups);
    assert_eq!(flat.iter().map(|p| p.id).collect::<Vec<_>>(), vec![1, 2, 3]);
}

#[test]
fn grouping_then_flattening_keeps_every_instance() {
    let panels = vec![inst(1, 4, 4, false), inst(2, 2, 8, false), inst(3, 4, 4, false), inst(4, 1, 1, false)];
    let flat = PanelGrouper::flatten_groups(&PanelGrouper::group_panels(&panels));
    let mut ids: Vec<i32> = flat.iter().map(|p| p.id).collect();
    ids.sort();
    assert_eq!(ids, vec![1, 2, 3, 4]);
}

#[test]
fn generate_permutations_without_groups() {
    let r = PermutationGenerator::generate_permutations(vec![]);
    assert_eq!(r, vec![Vec::<PanelInstance>::new()]);
}

#[test]
fn generate_permutations_five_strategies() {
    // areas: A=100 (10x10), B=200 (20x10), C=100 (5x20)
    let groups = vec![group(10, 10, false, &[1, 2]), group(20, 10, false, &[3]), group(5, 20, false, &[4, 5])];
    let r = PermutationGenerator::generate_permutations(groups);
    let ids = |v: &Vec<PanelInstance>| v.iter().map(|p| p.id).collect::<Vec<_>>();
    assert_eq!(r.len(), 5);
    assert_eq!(ids(&r[0]), vec![3, 1, 2, 4, 5]); // area descending, ties in given order
    assert_eq!(ids(&r[1]), vec![1, 2, 4, 5, 3]); // area ascending
    assert_eq!(ids(&r[2]), vec![3, 1, 2, 4, 5]); // width descending
    assert_eq!(ids(&r[3]), vec![4, 5, 1, 2, 3]); // height descending, ties in given order
    assert_eq!(ids(&r[4]), vec![3, 1, 4, 2, 5]); // one of each, then the rest
}

#[test]
fn add_instance_counts() {
    let mut g = PanelGroup::new(1, 2, false);
    assert!(g.get_representative().is_none());
    g.add_instance(inst(7, 1, 2, false));
    g.add_instance(inst(8, 1, 2, false));
    assert_eq!(g.count, 2);
    assert_eq!(g.get_representative().unwrap().id, 7);
}

#[test]
fn both_group_panels_agree() {
    let panels = vec![inst(1, 3, 4, false), inst(2, 4, 3, false), inst(3, 3, 4, false), inst(4, 2, 6, true)];
    let a = PanelGrouper::group_panels(&panels);
    let b = PermutationGenerator::group_panels(&panels);
    assert_eq!(a.len(), b.len());
    for (ga, gb) in a.iter().zip(b.iter()) {
        assert_eq!(ga.width as u64 * ga.height as u64, gb.width as u64 * gb.height as u64);
    }
    for ga in &a {
        assert!(b.iter().any(|gb| (gb.width, gb.height, gb.is_rotated) == (ga.width, ga.height, ga.is_rotated)
            && gb.instances == ga.instances));
    }
}
