use homokuzel::cli::{parse_command_line, Command};
use homokuzel::decimal::decimal_string;
use homokuzel::files::{classify_dropped_extension, classify_lowercase_extension, eq_ignore_ascii_case, is_project_extension, DroppedFile};
use homokuzel::naming::tab_name_from_file_name;
use homokuzel::naming::{
    default_tab_name, insufficient_points_message, starts_with, status_kind, tab_name_for_path, tab_title,
    StatusKind,
};

fn args(list: &[&str]) -> Vec<String> {
    list.iter().map(|s| s.to_string()).collect()
}

#[test]
fn decimal_strings() {
    assert_eq!(decimal_string(0), "0");
    assert_eq!(decimal_string(7), "7");
    assert_eq!(decimal_string(10), "10");
    assert_eq!(decimal_string(4096), "4096");
    assert_eq!(decimal_string(usize::MAX), usize::MAX.to_string());
}

#[test]
fn default_tab_names() {
    assert_eq!(default_tab_name(1), "Image 1");
    assert_eq!(default_tab_name(23), "Image 23");
}

#[test]
fn tab_names_come_from_file_names() {
    assert_eq!(tab_name_for_path("flights/run3/IMG_0007.JPG", 4), "IMG_0007.JPG");
    assert_eq!(tab_name_for_path("plain.png", 4), "plain.png");
    assert_eq!(tab_name_for_path("..", 4), "Image 4");
    assert_eq!(tab_name_for_path("/", 9), "Image 9");
}

#[test]
fn absolute_image_path_names_tab_by_its_last_segment() {
    assert_eq!(tab_name_for_path("/a/photo.jpg", 1), "photo.jpg");
    assert_eq!(tab_name_for_path("./maps/./site plan.png", 2), "site plan.png");
    assert_eq!(tab_name_for_path("shots//north.tif", 3), "north.tif");
}

#[test]
fn insufficient_points_status() {
    assert_eq!(insufficient_points_message(0), "Need at least 4 points (0 so far).");
    assert_eq!(insufficient_points_message(3), "Need at least 4 points (3 so far).");
}

#[test]
fn tab_titles_number_from_one() {
    assert_eq!(tab_title(0, "field.jpg"), "1. field.jpg");
    assert_eq!(tab_title(9, "exactly_18_bytes__"), "10. exactly_18_bytes__");
}

#[test]
fn long_tab_titles_are_shortened() {
    assert_eq!(tab_title(1, "a_rather_long_file_name.jpg"), "2. a_rather_long_f...");
    assert_eq!(tab_title(0, "aéééééééééé.jpg"), "1. aééééééé...");
}

#[test]
fn status_colours() {
    assert_eq!(status_kind("Failed to load x: no such file"), StatusKind::Failure);
    assert_eq!(status_kind("Homography failed: need at least 4"), StatusKind::Failure);
    assert_eq!(status_kind("Export failed: disk full"), StatusKind::Failure);
    assert_eq!(status_kind("Save failed: denied"), StatusKind::Failure);
    assert_eq!(status_kind("RMS error: 1.0 cm"), StatusKind::Measurement);
    assert_eq!(status_kind("Merged 2 layers"), StatusKind::Measurement);
    assert_eq!(status_kind("Exported birdseye to a.png"), StatusKind::Written);
    assert_eq!(status_kind("Saved project to p.json"), StatusKind::Written);
    assert_eq!(status_kind("Load failed: bad json"), StatusKind::Plain);
    assert_eq!(status_kind(""), StatusKind::Plain);
}

#[test]
fn prefixes() {
    assert!(starts_with("Saved", "Save"));
    assert!(starts_with("abc", ""));
    assert!(!starts_with("Sa", "Save"));
    assert!(!starts_with("Xaved", "Save"));
}

#[test]
fn project_extension_ignores_ascii_case() {
    assert!(is_project_extension(Some("json")));
    assert!(is_project_extension(Some("JSON")));
    assert!(is_project_extension(Some("Json")));
    assert!(!is_project_extension(Some("jsn")));
    assert!(!is_project_extension(None));
    assert!(eq_ignore_ascii_case("ÄbC", "ÄBc"));
    assert!(!eq_ignore_ascii_case("Ä", "ä"));
}

#[test]
fn dropped_files_by_extension() {
    assert_eq!(classify_dropped_extension("json"), DroppedFile::Project);
    assert_eq!(classify_dropped_extension("JSON"), DroppedFile::Project);
    assert_eq!(classify_dropped_extension("PNG"), DroppedFile::Image);
    assert_eq!(classify_dropped_extension("jpeg"), DroppedFile::Image);
    assert_eq!(classify_dropped_extension("Tiff"), DroppedFile::Image);
    assert_eq!(classify_dropped_extension("gif"), DroppedFile::Ignored);
    assert_eq!(classify_dropped_extension(""), DroppedFile::Ignored);
}

#[test]
fn command_line_export_with_defaults() {
    match parse_command_line(&args(&["homokuzel", "export", "proj.json"])) {
        Command::Export { project_path, output_path, with_grid } => {
            assert_eq!(project_path, "proj.json");
            assert_eq!(output_path, "homokuzel_output.png");
            assert!(!with_grid);
        }
        _ => panic!("expected an export"),
    }
}

#[test]
fn command_line_grid_flag_anywhere() {
    match parse_command_line(&args(&["homokuzel", "--grid", "export", "p.json", "out.png"])) {
        Command::Export { project_path, output_path, with_grid } => {
            assert_eq!(project_path, "p.json");
            assert_eq!(output_path, "out.png");
            assert!(with_grid);
        }
        _ => panic!("expected an export"),
    }
    match parse_command_line(&args(&["homokuzel", "export", "p.json", "--grid"])) {
        Command::Export { output_path, with_grid, .. } => {
            assert_eq!(output_path, "homokuzel_output.png");
            assert!(with_grid);
        }
        _ => panic!("expected an export"),
    }
}

#[test]
fn command_line_export_without_project() {
    assert!(matches!(parse_command_line(&args(&["homokuzel", "export"])), Command::ExportUsage));
    assert!(matches!(parse_command_line(&args(&["homokuzel", "export", "--grid"])), Command::ExportUsage));
}

#[test]
fn command_line_help() {
    assert!(matches!(parse_command_line(&args(&["homokuzel", "-h"])), Command::Help));
    assert!(matches!(parse_command_line(&args(&["homokuzel", "--help", "x"])), Command::Help));
}

#[test]
fn command_line_gui() {
    match parse_command_line(&args(&["homokuzel", "photo.jpg"])) {
        Command::Gui { initial_file } => assert_eq!(initial_file.as_deref(), Some("photo.jpg")),
        _ => panic!("expected the window"),
    }
    match parse_command_line(&args(&["homokuzel"])) {
        Command::Gui { initial_file } => assert!(initial_file.is_none()),
        _ => panic!("expected the window"),
    }
    match parse_command_line(&args(&["homokuzel", "--grid"])) {
        Command::Gui { initial_file } => assert!(initial_file.is_none()),
        _ => panic!("expected the window"),
    }
    match parse_command_line(&Vec::new()) {
        Command::Gui { initial_file } => assert!(initial_file.is_none()),
        _ => panic!("expected the window"),
    }
}

#[test]
fn tab_name_from_a_file_name_or_the_id() {
    assert_eq!(tab_name_from_file_name(Some("site.png".to_string()), 5), "site.png");
    assert_eq!(tab_name_from_file_name(None, 5), "Image 5");
}

#[test]
fn lower_case_extensions_by_kind() {
    assert_eq!(classify_lowercase_extension("json"), DroppedFile::Project);
    assert_eq!(classify_lowercase_extension("webp"), DroppedFile::Image);
    assert_eq!(classify_lowercase_extension("PNG"), DroppedFile::Ignored);
    assert_eq!(classify_lowercase_extension(""), DroppedFile::Ignored);
}

#[test]
fn bare_file_names_name_their_tab() {
    assert_eq!(tab_name_for_path("IMG_0001.JPG", 2), "IMG_0001.JPG");
    assert_eq!(tab_name_for_path("/", 2), "Image 2");
}
