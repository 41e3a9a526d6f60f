//! The records of a project file and the upgrade of files written in the
//! older single-image layout.
//!
//! Coordinates, scales and opacities are carried as the bit patterns of
//! their IEEE-754 values (`f64::to_bits`, `f32::to_bits`); nothing here
//! computes with them.

use vstd::prelude::*;
use crate::paths::{path_file_name, named_by_file_name};
use crate::points::MIN_POINTS;

verus! {

/// Bit pattern of the `f64` value 1.0.
pub const ONE_F64_BITS: u64 = 0x3FF0_0000_0000_0000;

/// Bit pattern of the `f32` value 1.0.
pub const ONE_F32_BITS: u32 = 0x3F80_0000;

/// Name given to the tab of an upgraded single-image project whose image
/// path has no file name.
pub const LEGACY_TAB_NAME: &'static str = "Image 1";

/// One reference point: its label, where it was clicked in the image
/// (pixels) and where it lies in the world (metres).
#[derive(Debug, Clone)]
pub struct PointRecord {
    pub label: String,
    pub pixel_u: u64,
    pub pixel_v: u64,
    pub world_x: u64,
    pub world_y: u64,
}

/// How a layer is placed and shown in the merged map.
#[derive(Debug, Clone)]
pub struct LayerAdjustment {
    pub enabled: bool,
    pub offset_x: u64,
    pub offset_y: u64,
    pub rotation_deg: u64,
    pub scale: u64,
    pub opacity: u32,
}

/// One image tab as stored in a project file.
#[derive(Debug, Clone)]
pub struct ImageTabRecord {
    pub name: String,
    pub image_path: Option<String>,
    pub points: Vec<PointRecord>,
    pub adjustment: LayerAdjustment,
}

/// A project file: its tabs and export settings, and the fields of the
/// older layout, which held a single image and its points.
#[derive(Debug, Clone)]
pub struct Project {
    pub tabs: Vec<ImageTabRecord>,
    pub pixels_per_meter: u64,
    pub margin_m: u64,
    pub image_path: Option<String>,
    pub points: Option<Vec<PointRecord>>,
}

/// The value that a missing `enabled` flag takes in a project file.
pub fn default_true() -> (b: bool)
    ensures
        b,
{
    true
}

/// The adjustment of a layer that has not been moved: enabled, no offset,
/// no rotation, scale 1.0, opacity 1.0.
pub open spec fn neutral_adjustment() -> LayerAdjustment {
    LayerAdjustment {
        enabled: true,
        offset_x: 0,
        offset_y: 0,
        rotation_deg: 0,
        scale: ONE_F64_BITS,
        opacity: ONE_F32_BITS,
    }
}

impl Default for LayerAdjustment {
    fn default() -> (a: Self)
        ensures
            a == neutral_adjustment(),
    {
        LayerAdjustment {
            enabled: true,
            offset_x: 0,
            offset_y: 0,
            rotation_deg: 0,
            scale: ONE_F64_BITS,
            opacity: ONE_F32_BITS,
        }
    }
}

/// The project is in the older layout: it has no tabs but names an image.
pub open spec fn has_legacy_image(p: Project) -> bool {
    p.tabs@.len() == 0 && p.image_path is Some
}

/// `new` is `old` with its legacy image and points moved into a tab of
/// their own, with a neutral adjustment; the export settings stay.
pub open spec fn moved_legacy_image(old: Project, new: Project) -> bool {
    &&& new.tabs@.len() == 1
    &&& new.tabs@[0].image_path == old.image_path
    &&& new.tabs@[0].points@ == match old.points {
        Some(v) => v@,
        None => Seq::<PointRecord>::empty(),
    }
    &&& new.tabs@[0].adjustment == neutral_adjustment()
    &&& new.image_path is None
    &&& new.points is None
    &&& new.pixels_per_meter == old.pixels_per_meter
    &&& new.margin_m == old.margin_m
}

/// What loading makes of a project read from a file: an older-layout
/// project is moved into a tab; any other stays as it was.
pub open spec fn upgrade_result(old: Project, new: Project) -> bool {
    if has_legacy_image(old) {
        moved_legacy_image(old, new)
    } else {
        new == old
    }
}

/// The name of the tab made for a legacy image whose path has the file
/// name `file_name`.
pub open spec fn legacy_tab_name(file_name: Option<String>) -> Seq<char> {
    match file_name {
        Some(n) => n@,
        None => LEGACY_TAB_NAME@,
    }
}

/// The project as it is written by a save: only tabs, no legacy fields.
pub open spec fn is_saved_form(p: Project) -> bool {
    p.image_path is None && p.points is None
}

impl ImageTabRecord {
    /// The tab takes part in a headless export: it names an image and has
    /// enough points for a homography.
    pub fn is_export_candidate(&self) -> (b: bool)
        ensures
            b == (self.image_path is Some && self.points@.len() >= MIN_POINTS),
    {
        self.image_path.is_some() && self.points.len() >= MIN_POINTS
    }
}

impl Project {
    /// The project that a save writes: the given tabs and settings, and no
    /// legacy fields.
    pub fn for_save(tabs: Vec<ImageTabRecord>, pixels_per_meter: u64, margin_m: u64) -> (p: Project)
        ensures
            p.tabs@ == tabs@,
            p.pixels_per_meter == pixels_per_meter,
            p.margin_m == margin_m,
            is_saved_form(p),
    {
        Project { tabs, pixels_per_meter, margin_m, image_path: None, points: None }
    }

    /// Moves the image and points of an older-layout project into a tab
    /// named `file_name`, or `LEGACY_TAB_NAME` when that is `None`; any
    /// other project is left as it is.
    pub fn adopt_legacy_image(&mut self, file_name: Option<String>)
        ensures
            upgrade_result(*old(self), *final(self)),
            has_legacy_image(*old(self)) ==> final(self).tabs@[0].name@ == legacy_tab_name(file_name),
    {
        if self.tabs.len() == 0 {
            let img_path = self.image_path.take();
            match img_path {
                Some(path) => {
                    let points = match self.points.take() {
                        Some(v) => v,
                        None => Vec::new(),
                    };
                    let name = match file_name {
                        Some(n) => n,
                        None => String::from_str(LEGACY_TAB_NAME),
                    };
                    self.tabs.push(
                        ImageTabRecord {
                            name,
                            image_path: Some(path),
                            points,
                            adjustment: LayerAdjustment::default(),
                        },
                    );
                },
                None => {},
            }
        }
    }

    /// Upgrades a project just read from a file: an older-layout project
    /// gets one tab holding its image and points, named by the file name
    /// of the image path.
    pub fn upgrade_legacy(&mut self)
        ensures
            upgrade_result(*old(self), *final(self)),
            has_legacy_image(*old(self)) ==> named_by_file_name(
                final(self).tabs@[0].name@,
                old(self).image_path.unwrap()@,
                LEGACY_TAB_NAME@,
            ),
    {
        if self.tabs.len() == 0 {
            let file_name = match &self.image_path {
                Some(p) => path_file_name(p.as_str()),
                None => None,
            };
            self.adopt_legacy_image(file_name);
        }
    }
}

/// Upgrading twice does no more than upgrading once.
pub proof fn lemma_upgrade_idempotent(a: Project, b: Project, c: Project)
    requires
        upgrade_result(a, b),
        upgrade_result(b, c),
    ensures
        c == b,
{
}

/// A project written by a save loads back as it was written.
pub proof fn lemma_saved_project_loads_unchanged(p: Project, q: Project)
    requires
        is_saved_form(p),
        upgrade_result(p, q),
    ensures
        q == p,
{
}

} // verus!
