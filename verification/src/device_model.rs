//! The closed set of supported hardware variants and their per-variant
//! constants: screen geometry, pixel encoding, input axis maxima and
//! input device paths. All device-specific behaviour in the rest of the
//! library is keyed off this one type.

use vstd::prelude::*;

use crate::strutil;

verus! {

/// A hardware generation, detected once at startup from the device
/// identity file and immutable thereafter.
#[derive(Debug, Clone, Copy, PartialEq, Eq, Structural)]
pub enum DeviceModel {
    Remarkable2,
    RemarkablePaperPro,
    Unknown,
}

impl DeviceModel {
    /// Match the content of the device identity file against the known
    /// signatures. An unreadable or unrecognised file means `Unknown`,
    /// never an error. The caller reads the file and hands its content
    /// in, `None` when the file is absent.
    pub fn detect_from_content(content: Option<&str>) -> (r: DeviceModel)
        ensures
            r == (match content {
                Some(text) => if strutil::sp_contains(text@, "ferrari 1.0"@) {
                    DeviceModel::RemarkablePaperPro
                } else if strutil::sp_contains(text@, "reMarkable2 1.0"@) {
                    DeviceModel::Remarkable2
                } else {
                    DeviceModel::Unknown
                },
                None => DeviceModel::Unknown,
            }),
    {
        match content {
            Some(text) => {
                if strutil::contains_sub(text, "ferrari 1.0") {
                    DeviceModel::RemarkablePaperPro
                } else if strutil::contains_sub(text, "reMarkable2 1.0") {
                    DeviceModel::Remarkable2
                } else {
                    DeviceModel::Unknown
                }
            },
            None => DeviceModel::Unknown,
        }
    }

    /// Human-readable variant name.
    pub fn name(&self) -> (r: &'static str)
        ensures
            self is Remarkable2 ==> r@ == "Remarkable2"@,
            self is RemarkablePaperPro ==> r@ == "RemarkablePaperPro"@,
            self is Unknown ==> r@ == "Unknown"@,
    {
        match self {
            DeviceModel::Remarkable2 => "Remarkable2",
            DeviceModel::RemarkablePaperPro => "RemarkablePaperPro",
            DeviceModel::Unknown => "Unknown",
        }
    }

    /// Framebuffer width in native pixels. The unknown variant keeps
    /// the older generation's constants throughout.
    pub fn screen_width(&self) -> (r: u32)
        ensures
            r == self.spec_screen_width(),
    {
        match self {
            DeviceModel::Remarkable2 => 1872,
            DeviceModel::RemarkablePaperPro => 1632,
            DeviceModel::Unknown => 1872,
        }
    }

    pub open spec fn spec_screen_width(self) -> u32 {
        match self {
            DeviceModel::Remarkable2 => 1872,
            DeviceModel::RemarkablePaperPro => 1632,
            DeviceModel::Unknown => 1872,
        }
    }

    /// Framebuffer height in native pixels.
    pub fn screen_height(&self) -> (r: u32)
        ensures
            r == self.spec_screen_height(),
    {
        match self {
            DeviceModel::Remarkable2 => 1404,
            DeviceModel::RemarkablePaperPro => 2154,
            DeviceModel::Unknown => 1404,
        }
    }

    pub open spec fn spec_screen_height(self) -> u32 {
        match self {
            DeviceModel::Remarkable2 => 1404,
            DeviceModel::RemarkablePaperPro => 2154,
            DeviceModel::Unknown => 1404,
        }
    }

    /// Bytes per framebuffer pixel: the older generation stores 16-bit
    /// grayscale pairs, the newer one 32-bit RGBA.
    pub fn bytes_per_pixel(&self) -> (r: usize)
        ensures
            r == self.spec_bytes_per_pixel(),
    {
        match self {
            DeviceModel::Remarkable2 => 2,
            DeviceModel::RemarkablePaperPro => 4,
            DeviceModel::Unknown => 2,
        }
    }

    pub open spec fn spec_bytes_per_pixel(self) -> usize {
        match self {
            DeviceModel::Remarkable2 => 2,
            DeviceModel::RemarkablePaperPro => 4,
            DeviceModel::Unknown => 2,
        }
    }

    /// Total framebuffer size in bytes.
    pub fn frame_size_bytes(&self) -> (r: u64)
        ensures
            r == self.spec_screen_width() as int * self.spec_screen_height() as int
                * self.spec_bytes_per_pixel() as int,
            r > 0,
    {
        let w = self.screen_width();
        let h = self.screen_height();
        let b = self.bytes_per_pixel();
        proof {
            if self is Remarkable2 {
                assert(w == 1872 && h == 1404 && b == 2);
            } else if self is RemarkablePaperPro {
                assert(w == 1632 && h == 2154 && b == 4);
            } else {
                assert(w == 1872 && h == 1404 && b == 2);
            }
        }
        w as u64 * h as u64 * b as u64
    }

    /// Largest stylus X coordinate the digitizer accepts.
    pub fn pen_max_x(&self) -> (r: i32)
        ensures
            r == self.spec_pen_max_x(),
    {
        match self {
            DeviceModel::Remarkable2 => 15725,
            DeviceModel::RemarkablePaperPro => 11180,
            DeviceModel::Unknown => 15725,
        }
    }

    pub open spec fn spec_pen_max_x(self) -> i32 {
        match self {
            DeviceModel::Remarkable2 => 15725,
            DeviceModel::RemarkablePaperPro => 11180,
            DeviceModel::Unknown => 15725,
        }
    }

    /// Largest stylus Y coordinate the digitizer accepts.
    pub fn pen_max_y(&self) -> (r: i32)
        ensures
            r == self.spec_pen_max_y(),
    {
        match self {
            DeviceModel::Remarkable2 => 20966,
            DeviceModel::RemarkablePaperPro => 15340,
            DeviceModel::Unknown => 20966,
        }
    }

    pub open spec fn spec_pen_max_y(self) -> i32 {
        match self {
            DeviceModel::Remarkable2 => 20966,
            DeviceModel::RemarkablePaperPro => 15340,
            DeviceModel::Unknown => 20966,
        }
    }

    /// Touch sensor width in native units.
    pub fn touch_width(&self) -> (r: i32)
        ensures
            r == self.spec_touch_width(),
    {
        match self {
            DeviceModel::Remarkable2 => 1404,
            DeviceModel::RemarkablePaperPro => 2065,
            DeviceModel::Unknown => 1404,
        }
    }

    pub open spec fn spec_touch_width(self) -> i32 {
        match self {
            DeviceModel::Remarkable2 => 1404,
            DeviceModel::RemarkablePaperPro => 2065,
            DeviceModel::Unknown => 1404,
        }
    }

    /// Touch sensor height in native units.
    pub fn touch_height(&self) -> (r: i32)
        ensures
            r == self.spec_touch_height(),
    {
        match self {
            DeviceModel::Remarkable2 => 1872,
            DeviceModel::RemarkablePaperPro => 2833,
            DeviceModel::Unknown => 1872,
        }
    }

    pub open spec fn spec_touch_height(self) -> i32 {
        match self {
            DeviceModel::Remarkable2 => 1872,
            DeviceModel::RemarkablePaperPro => 2833,
            DeviceModel::Unknown => 1872,
        }
    }

    /// Path of the stylus input device.
    pub fn pen_device_path(&self) -> (r: &'static str)
        ensures
            self is RemarkablePaperPro ==> r@ == "/dev/input/event2"@,
            !(self is RemarkablePaperPro) ==> r@ == "/dev/input/event1"@,
    {
        match self {
            DeviceModel::RemarkablePaperPro => "/dev/input/event2",
            _ => "/dev/input/event1",
        }
    }

    /// Path of the touch input device.
    pub fn touch_device_path(&self) -> (r: &'static str)
        ensures
            self is RemarkablePaperPro ==> r@ == "/dev/input/event3"@,
            !(self is RemarkablePaperPro) ==> r@ == "/dev/input/event2"@,
    {
        match self {
            DeviceModel::RemarkablePaperPro => "/dev/input/event3",
            _ => "/dev/input/event2",
        }
    }
}

} // verus!
