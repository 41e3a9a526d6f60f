use homokuzel::points::{PointSet, MIN_POINTS};

fn bits(x: f64) -> u64 {
    x.to_bits()
}

#[test]
fn points_are_labelled_in_order_from_p1() {
    let mut p = PointSet::new();
    p.add_point(bits(150.0), bits(480.0), bits(-5.0), bits(-3.0));
    p.add_point(bits(650.0), bits(480.0), bits(5.0), bits(-3.0));
    let labels: Vec<&str> = p.points().iter().map(|r| r.label.as_str()).collect();
    assert_eq!(labels, vec!["P1", "P2"]);
    assert_eq!(f64::from_bits(p.points()[1].pixel_u), 650.0);
    assert_eq!(f64::from_bits(p.points()[0].world_x), -5.0);
    assert!(p.is_dirty());
}

#[test]
fn labels_past_nine_have_several_digits() {
    let mut p = PointSet::new();
    for _ in 0..12 {
        p.add_point(0, 0, 0, 0);
    }
    assert_eq!(p.points()[9].label, "P10");
    assert_eq!(p.points()[11].label, "P12");
}

#[test]
fn clear_restarts_labels() {
    let mut p = PointSet::new();
    p.add_point(0, 0, 0, 0);
    p.add_point(0, 0, 0, 0);
    p.clear();
    assert_eq!(p.len(), 0);
    assert!(p.is_dirty());
    p.add_point(0, 0, 0, 0);
    assert_eq!(p.points()[0].label, "P1");
}

#[test]
fn deleting_does_not_reuse_labels() {
    let mut p = PointSet::new();
    p.add_point(1, 0, 0, 0);
    p.add_point(2, 0, 0, 0);
    p.add_point(3, 0, 0, 0);
    p.clear_dirty();
    p.remove_point(1);
    assert!(p.is_dirty());
    let us: Vec<u64> = p.points().iter().map(|r| r.pixel_u).collect();
    assert_eq!(us, vec![1, 3]);
    p.add_point(4, 0, 0, 0);
    assert_eq!(p.points()[2].label, "P4");
}

#[test]
fn records_from_a_project_continue_the_labels() {
    let mut first = PointSet::new();
    first.add_point(0, 0, 0, 0);
    first.add_point(0, 0, 0, 0);
    let records = first.points().clone();
    let mut p = PointSet::from_records(records);
    assert!(!p.is_dirty());
    p.add_point(0, 0, 0, 0);
    assert_eq!(p.points()[2].label, "P3");
}

#[test]
fn enough_points_from_four() {
    let mut p = PointSet::new();
    for _ in 0..3 {
        p.add_point(0, 0, 0, 0);
    }
    assert!(!p.has_enough_points());
    p.add_point(0, 0, 0, 0);
    assert!(p.has_enough_points());
    assert_eq!(MIN_POINTS, 4);
}

#[test]
fn moving_and_editing_points() {
    let mut p = PointSet::new();
    p.add_point(bits(1.0), bits(2.0), bits(3.0), bits(4.0));
    p.clear_dirty();
    p.set_label(0, "corner".to_string());
    assert!(!p.is_dirty());
    p.move_pixel(0, bits(10.0), bits(20.0));
    assert!(p.is_dirty());
    p.clear_dirty();
    p.set_world(0, bits(-1.0), bits(-2.0));
    assert!(p.is_dirty());
    let r = &p.points()[0];
    assert_eq!(r.label, "corner");
    assert_eq!(f64::from_bits(r.pixel_u), 10.0);
    assert_eq!(f64::from_bits(r.pixel_v), 20.0);
    assert_eq!(f64::from_bits(r.world_x), -1.0);
    assert_eq!(f64::from_bits(r.world_y), -2.0);
}

#[test]
fn reset_forgets_points_and_dirtiness() {
    let mut p = PointSet::new();
    p.add_point(0, 0, 0, 0);
    p.reset();
    assert_eq!(p.len(), 0);
    assert!(!p.is_dirty());
    p.mark_dirty();
    assert!(p.is_dirty());
}

#[test]
fn next_label_reads_the_counter() {
    let mut p = PointSet::new();
    assert_eq!(p.next_label(), 1);
    p.add_point(0, 0, 0, 0);
    assert_eq!(p.next_label(), 2);
}
