use homokuzel::project::{default_true, ImageTabRecord, LayerAdjustment, PointRecord, Project};

fn point(label: &str) -> PointRecord {
    PointRecord {
        label: label.to_string(),
        pixel_u: 1.5f64.to_bits(),
        pixel_v: 2.5f64.to_bits(),
        world_x: 3.0f64.to_bits(),
        world_y: 4.0f64.to_bits(),
    }
}

fn legacy(path: Option<&str>, points: Option<Vec<PointRecord>>) -> Project {
    Project {
        tabs: Vec::new(),
        pixels_per_meter: 25.0f64.to_bits(),
        margin_m: 4.0f64.to_bits(),
        image_path: path.map(|p| p.to_string()),
        points,
    }
}

#[test]
fn missing_enabled_flag_reads_as_true() {
    assert!(default_true());
}

#[test]
fn neutral_adjustment_values() {
    let a = LayerAdjustment::default();
    assert!(a.enabled);
    assert_eq!(f64::from_bits(a.offset_x), 0.0);
    assert_eq!(f64::from_bits(a.offset_y), 0.0);
    assert_eq!(f64::from_bits(a.rotation_deg), 0.0);
    assert_eq!(f64::from_bits(a.scale), 1.0);
    assert_eq!(f32::from_bits(a.opacity), 1.0);
}

#[test]
fn legacy_project_becomes_one_tab_named_after_the_image() {
    let mut p = legacy(Some("shots/drone_042.jpg"), Some(vec![point("A"), point("B")]));
    p.upgrade_legacy();
    assert_eq!(p.tabs.len(), 1);
    let t = &p.tabs[0];
    assert_eq!(t.name, "drone_042.jpg");
    assert_eq!(t.image_path.as_deref(), Some("shots/drone_042.jpg"));
    assert_eq!(t.points.len(), 2);
    assert_eq!(t.points[1].label, "B");
    assert!(t.adjustment.enabled);
    assert_eq!(f64::from_bits(t.adjustment.scale), 1.0);
    assert!(p.image_path.is_none());
    assert!(p.points.is_none());
    assert_eq!(f64::from_bits(p.pixels_per_meter), 25.0);
    assert_eq!(f64::from_bits(p.margin_m), 4.0);
}

#[test]
fn legacy_project_without_points_gets_an_empty_tab() {
    let mut p = legacy(Some("a.png"), None);
    p.upgrade_legacy();
    assert_eq!(p.tabs.len(), 1);
    assert!(p.tabs[0].points.is_empty());
    assert_eq!(p.tabs[0].name, "a.png");
}

#[test]
fn legacy_path_without_file_name_gives_default_tab_name() {
    let mut p = legacy(Some("photos/.."), None);
    p.upgrade_legacy();
    assert_eq!(p.tabs[0].name, "Image 1");
}

#[test]
fn adopt_legacy_image_uses_the_given_name() {
    let mut p = legacy(Some("x.jpg"), None);
    p.adopt_legacy_image(Some("given".to_string()));
    assert_eq!(p.tabs[0].name, "given");
    let mut q = legacy(Some("x.jpg"), None);
    q.adopt_legacy_image(None);
    assert_eq!(q.tabs[0].name, "Image 1");
}

#[test]
fn project_without_legacy_image_is_left_alone() {
    let mut p = legacy(None, Some(vec![point("A")]));
    p.upgrade_legacy();
    assert!(p.tabs.is_empty());
    assert_eq!(p.points.as_ref().map(|v| v.len()), Some(1));
}

#[test]
fn project_with_tabs_keeps_its_legacy_fields_untouched() {
    let tab = ImageTabRecord {
        name: "t".to_string(),
        image_path: None,
        points: vec![point("P1")],
        adjustment: LayerAdjustment::default(),
    };
    let mut p = legacy(Some("old.jpg"), None);
    p.tabs.push(tab);
    p.upgrade_legacy();
    assert_eq!(p.tabs.len(), 1);
    assert_eq!(p.tabs[0].name, "t");
    assert_eq!(p.image_path.as_deref(), Some("old.jpg"));
}

#[test]
fn saved_project_loads_back_unchanged() {
    let tabs = vec![ImageTabRecord {
        name: "one".to_string(),
        image_path: Some("one.jpg".to_string()),
        points: vec![point("P1")],
        adjustment: LayerAdjustment::default(),
    }];
    let mut p = Project::for_save(tabs, 30.0f64.to_bits(), 2.0f64.to_bits());
    assert!(p.image_path.is_none() && p.points.is_none());
    p.upgrade_legacy();
    assert_eq!(p.tabs.len(), 1);
    assert_eq!(p.tabs[0].name, "one");
    assert_eq!(f64::from_bits(p.pixels_per_meter), 30.0);
    assert_eq!(f64::from_bits(p.margin_m), 2.0);
    let mut empty = Project::for_save(Vec::new(), 0, 0);
    empty.upgrade_legacy();
    assert!(empty.tabs.is_empty());
}

#[test]
fn upgrading_twice_changes_nothing_more() {
    let mut p = legacy(Some("a/b.jpg"), Some(vec![point("A")]));
    p.upgrade_legacy();
    p.upgrade_legacy();
    assert_eq!(p.tabs.len(), 1);
    assert_eq!(p.tabs[0].name, "b.jpg");
    assert_eq!(p.tabs[0].points.len(), 1);
}

#[test]
fn export_candidates_need_an_image_and_four_points() {
    let mut t = ImageTabRecord {
        name: "t".to_string(),
        image_path: Some("a.jpg".to_string()),
        points: vec![point("1"), point("2"), point("3")],
        adjustment: LayerAdjustment::default(),
    };
    assert!(!t.is_export_candidate());
    t.points.push(point("4"));
    assert!(t.is_export_candidate());
    t.image_path = None;
    assert!(!t.is_export_candidate());
}

#[test]
fn bare_legacy_image_path_names_the_tab() {
    let mut p = legacy(Some("field.png"), None);
    p.upgrade_legacy();
    assert_eq!(p.tabs[0].name, "field.png");
}

#[test]
fn legacy_absolute_image_path_names_its_tab() {
    let mut p = legacy(Some("/a/photo.jpg"), Some(Vec::new()));
    p.upgrade_legacy();
    assert_eq!(p.tabs.len(), 1);
    let t = &p.tabs[0];
    assert_eq!(t.name, "photo.jpg");
    assert_eq!(t.image_path.as_deref(), Some("/a/photo.jpg"));
    assert!(t.points.is_empty());
    assert!(t.adjustment.enabled);
    assert_eq!(f64::from_bits(t.adjustment.offset_x), 0.0);
    assert_eq!(f64::from_bits(t.adjustment.scale), 1.0);
    assert!(p.image_path.is_none());
    assert!(p.points.is_none());
    assert_eq!(f64::from_bits(p.pixels_per_meter), 25.0);
    assert_eq!(f64::from_bits(p.margin_m), 4.0);
}
