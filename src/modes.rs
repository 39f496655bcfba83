//! Display modes of a physical monitor.
use vstd::prelude::*;

use crate::monitor::OutputInfo;
use crate::text::{int_text, milli_text, push_char, push_int, push_milli};

verus! {

/// A mode as the compositor reports it: pixels and refresh rate in millihertz.
#[derive(Debug, Clone, Copy, PartialEq, Eq, Structural)]
pub struct ModeInfo {
    pub width: i32,
    pub height: i32,
    pub refresh: i32,
}

/// Flags of a mode.
#[derive(Debug, Clone, PartialEq, Eq, Structural)]
pub struct ModeProperties {
    pub current: Option<bool>,
    pub preferred: Option<bool>,
    pub interlaced: Option<bool>,
}

/// One mode of a physical monitor. Refresh rates are in millihertz and
/// scales in thousandths (`1000` is a scale of one).
#[derive(Debug, Clone)]
pub struct Modes {
    pub id: String,
    pub width: i32,
    pub height: i32,
    pub refresh_rate: i32,
    pub preferred_scale: u32,
    pub supported_scales: Vec<u32>,
    pub properties: ModeProperties,
}

/// The canonical identifier of a mode, such as `1920x1080@60Hz` or
/// `2560x1440@59.951Hz`.
pub open spec fn mode_id_text(width: int, height: int, refresh: int) -> Seq<char> {
    int_text(width) + seq!['x'] + int_text(height) + seq!['@'] + milli_text(refresh) + seq!['H', 'z']
}

/// Two compositor modes describe the same mode.
pub open spec fn same_mode(a: ModeInfo, b: ModeInfo) -> bool {
    a.width == b.width && a.height == b.height && a.refresh == b.refresh
}

/// The scales that every mode supports, in thousandths.
pub open spec fn default_scales() -> Seq<u32> {
    seq![1000u32, 2000u32]
}

/// `m` is the mode that `Modes::new` builds for `mode_info` of `output`.
pub open spec fn is_mode_of(output: OutputInfo, mode_info: ModeInfo, m: Modes) -> bool {
    &&& m.id@ == mode_id_text(mode_info.width as int, mode_info.height as int, mode_info.refresh as int)
    &&& m.width == mode_info.width
    &&& m.height == mode_info.height
    &&& m.refresh_rate == mode_info.refresh
    &&& m.preferred_scale == 1000
    &&& m.supported_scales@ == default_scales()
    &&& m.properties == (ModeProperties {
        current: Some(
            match output.current_mode {
                Some(c) => same_mode(c, mode_info),
                None => false,
            },
        ),
        preferred: Some(false),
        interlaced: Some(false),
    })
}

impl Modes {
    /// Builds the identifier of a mode from its size and refresh rate.
    pub fn mode_id(width: i32, height: i32, refresh: i32) -> (r: String)
        ensures
            r@ == mode_id_text(width as int, height as int, refresh as int),
    {
        let mut s = String::new();
        push_int(&mut s, width as i64);
        push_char(&mut s, 'x');
        push_int(&mut s, height as i64);
        push_char(&mut s, '@');
        push_milli(&mut s, refresh as i64);
        push_char(&mut s, 'H');
        push_char(&mut s, 'z');
        s
    }

    pub fn get_id(&self) -> (r: &str)
        ensures
            r@ == self.id@,
    {
        self.id.as_str()
    }

    /// The mode `mode_info` of `output`; it is marked current when the output's
    /// active mode has the same size and refresh rate.
    pub fn new(output: &OutputInfo, mode_info: &ModeInfo) -> (r: Modes)
        ensures
            is_mode_of(*output, *mode_info, r),
    {
        let is_current = match &output.current_mode {
            Some(x) => Self::is_current_mode(x, mode_info),
            None => false,
        };
        let properties = ModeProperties {
            current: Some(is_current),
            interlaced: Some(false),
            preferred: Some(false),
        };
        let supported_scales = vec![1000u32, 2000u32];
        Modes {
            id: Self::mode_id(mode_info.width, mode_info.height, mode_info.refresh),
            width: mode_info.width,
            height: mode_info.height,
            refresh_rate: mode_info.refresh,
            preferred_scale: 1000,
            supported_scales,
            properties,
        }
    }

    pub fn get_modestr(&self) -> (r: &str)
        ensures
            r@ == self.id@,
    {
        self.id.as_str()
    }

    /// Whether `scale` (in thousandths) is one this mode supports.
    pub fn is_valid_scale(&self, scale: u32) -> (r: bool)
        ensures
            r == self.supported_scales@.contains(scale),
    {
        let mut i: usize = 0;
        while i < self.supported_scales.len()
            invariant
                i <= self.supported_scales.len(),
                forall|j: int| 0 <= j < i ==> self.supported_scales@[j] != scale,
            decreases self.supported_scales.len() - i,
        {
            if self.supported_scales[i] == scale {
                return true;
            }
            i = i + 1;
        }
        false
    }

    pub fn is_current_mode(actual: &ModeInfo, current: &ModeInfo) -> (r: bool)
        ensures
            r == same_mode(*actual, *current),
    {
        current.height == actual.height && current.width == actual.width && current.refresh
            == actual.refresh
    }

    pub fn current(&self) -> (r: bool)
        ensures
            r == (self.properties.current == Some(true)),
    {
        match self.properties.current {
            Some(c) => c,
            None => false,
        }
    }
}

} // verus!
