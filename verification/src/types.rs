//! The settings model: enums with their KDL words and UI indices, the config
//! structs, and the row identifiers the editor addresses rows by.
//!
//! Real-valued settings are held as fixed-point integers in the unit that the
//! KDL writer prints them with: `opacity`, `scale`, `scroll_factor`, zoom and
//! preview scale in hundredths; corner radii, accel speeds and the animation
//! slowdown in tenths; `gaps` in whole logical pixels.

use vstd::prelude::*;
use vstd::string::*;

verus! {

// ── Shared enums ──────────────────────────────────────────────────────────────

/// Shared block-out-from value used by window and layer rules.
#[derive(Clone, Copy, Debug, PartialEq, Eq, Structural, Default)]
pub enum BlockOutFrom {
    #[default]
    Nowhere,
    Screencast,
    ScreenCapture,
}

impl BlockOutFrom {
    pub open spec fn index_of(self) -> u32 {
        match self {
            BlockOutFrom::Nowhere => 0,
            BlockOutFrom::Screencast => 1,
            BlockOutFrom::ScreenCapture => 2,
        }
    }

    pub open spec fn of_index(i: u32) -> Self {
        if i == 1 {
            BlockOutFrom::Screencast
        } else if i == 2 {
            BlockOutFrom::ScreenCapture
        } else {
            BlockOutFrom::Nowhere
        }
    }

    pub open spec fn kdl_word(self) -> Seq<char> {
        match self {
            BlockOutFrom::Screencast => "screencast"@,
            BlockOutFrom::ScreenCapture => "screen-capture"@,
            BlockOutFrom::Nowhere => ""@,
        }
    }

    /// The labels shown in the UI drop-down, in index order.
    pub fn label_variants() -> (r: &'static [&'static str])
        ensures
            r@.len() == 3,
            r@[0]@ == "none"@,
            r@[1]@ == "screencast"@,
            r@[2]@ == "screen-capture"@,
    {
        &["none", "screencast", "screen-capture"]
    }

    /// The variant at a drop-down index; out-of-range indices give `Nowhere`.
    pub fn from_index(i: u32) -> (r: Self)
        ensures
            r == Self::of_index(i),
            i < 3 ==> r.index_of() == i,
    {
        match i {
            1 => BlockOutFrom::Screencast,
            2 => BlockOutFrom::ScreenCapture,
            _ => BlockOutFrom::Nowhere,
        }
    }

    /// The drop-down index of this variant.
    pub fn to_index(&self) -> (r: u32)
        ensures
            r == self.index_of(),
            Self::of_index(r) == *self,
    {
        match self {
            BlockOutFrom::Nowhere => 0,
            BlockOutFrom::Screencast => 1,
            BlockOutFrom::ScreenCapture => 2,
        }
    }

    /// The KDL word for this variant (empty for `Nowhere`).
    pub fn as_kdl_str(&self) -> (r: &'static str)
        ensures
            r@ == self.kdl_word(),
    {
        match self {
            BlockOutFrom::Screencast => "screencast",
            BlockOutFrom::ScreenCapture => "screen-capture",
            BlockOutFrom::Nowhere => "",
        }
    }
}

/// Tri-state: use niri default / force on / force off.
#[derive(Clone, Copy, Debug, PartialEq, Eq, Structural, Default)]
pub enum TriState {
    #[default]
    Default,
    On,
    Off,
}

impl TriState {
    pub open spec fn index_of(self) -> u32 {
        match self {
            TriState::Default => 0,
            TriState::On => 1,
            TriState::Off => 2,
        }
    }

    pub open spec fn of_index(i: u32) -> Self {
        if i == 1 {
            TriState::On
        } else if i == 2 {
            TriState::Off
        } else {
            TriState::Default
        }
    }

    /// `    key true` / `    key false`, or nothing for `Default`.
    pub open spec fn bool_line(self, key: Seq<char>) -> Seq<char> {
        match self {
            TriState::On => "    "@ + key + " true\n"@,
            TriState::Off => "    "@ + key + " false\n"@,
            TriState::Default => Seq::empty(),
        }
    }

    /// `    match key=true` / `    match key=false`, or nothing for `Default`.
    pub open spec fn match_line(self, key: Seq<char>) -> Seq<char> {
        match self {
            TriState::On => "    match "@ + key + "=true\n"@,
            TriState::Off => "    match "@ + key + "=false\n"@,
            TriState::Default => Seq::empty(),
        }
    }

    /// The labels shown in the UI drop-down, in index order.
    pub fn label_variants() -> (r: &'static [&'static str])
        ensures
            r@.len() == 3,
            r@[0]@ == "default"@,
            r@[1]@ == "on"@,
            r@[2]@ == "off"@,
    {
        &["default", "on", "off"]
    }

    /// The variant at a drop-down index; out-of-range indices give `Default`.
    pub fn from_index(i: u32) -> (r: Self)
        ensures
            r == Self::of_index(i),
            i < 3 ==> r.index_of() == i,
    {
        match i {
            1 => TriState::On,
            2 => TriState::Off,
            _ => TriState::Default,
        }
    }

    /// The drop-down index of this variant.
    pub fn to_index(&self) -> (r: u32)
        ensures
            r == self.index_of(),
            Self::of_index(r) == *self,
    {
        match self {
            TriState::Default => 0,
            TriState::On => 1,
            TriState::Off => 2,
        }
    }

    /// Appends a KDL `key true/false` line for this tri-state, if non-default.
    pub fn write_kdl_bool(&self, out: &mut String, key: &str)
        ensures
            final(out)@ == old(out)@ + self.bool_line(key@),
    {
        match self {
            TriState::On => {
                out.append("    ");
                out.append(key);
                out.append(" true\n");
            },
            TriState::Off => {
                out.append("    ");
                out.append(key);
                out.append(" false\n");
            },
            TriState::Default => {},
        }
        assert(out@ =~= old(out)@ + self.bool_line(key@));
    }

    /// Appends a KDL `match key=true/false` line for this tri-state, if
    /// non-default.
    pub fn write_kdl_match(&self, out: &mut String, key: &str)
        ensures
            final(out)@ == old(out)@ + self.match_line(key@),
    {
        match self {
            TriState::On => {
                out.append("    match ");
                out.append(key);
                out.append("=true\n");
            },
            TriState::Off => {
                out.append("    match ");
                out.append(key);
                out.append("=false\n");
            },
            TriState::Default => {},
        }
        assert(out@ =~= old(out)@ + self.match_line(key@));
    }
}

// ── Output enums ──────────────────────────────────────────────────────────────

#[derive(Clone, Copy, Debug, PartialEq, Eq, Structural, Default)]
pub enum OutputTransform {
    #[default]
    Normal,
    Rotate90,
    Rotate180,
    Rotate270,
    Flipped,
    Flipped90,
    Flipped180,
    Flipped270,
}

impl OutputTransform {
    pub open spec fn index_of(self) -> u32 {
        match self {
            OutputTransform::Normal => 0,
            OutputTransform::Rotate90 => 1,
            OutputTransform::Rotate180 => 2,
            OutputTransform::Rotate270 => 3,
            OutputTransform::Flipped => 4,
            OutputTransform::Flipped90 => 5,
            OutputTransform::Flipped180 => 6,
            OutputTransform::Flipped270 => 7,
        }
    }

    pub open spec fn of_index(i: u32) -> Self {
        if i == 1 {
            OutputTransform::Rotate90
        } else if i == 2 {
            OutputTransform::Rotate180
        } else if i == 3 {
            OutputTransform::Rotate270
        } else if i == 4 {
            OutputTransform::Flipped
        } else if i == 5 {
            OutputTransform::Flipped90
        } else if i == 6 {
            OutputTransform::Flipped180
        } else if i == 7 {
            OutputTransform::Flipped270
        } else {
            OutputTransform::Normal
        }
    }

    pub open spec fn kdl_word(self) -> Seq<char> {
        match self {
            OutputTransform::Normal => "normal"@,
            OutputTransform::Rotate90 => "90"@,
            OutputTransform::Rotate180 => "180"@,
            OutputTransform::Rotate270 => "270"@,
            OutputTransform::Flipped => "flipped"@,
            OutputTransform::Flipped90 => "flipped-90"@,
            OutputTransform::Flipped180 => "flipped-180"@,
            OutputTransform::Flipped270 => "flipped-270"@,
        }
    }

    /// The KDL word for this transform.
    pub fn as_kdl_str(&self) -> (r: &'static str)
        ensures
            r@ == self.kdl_word(),
    {
        match self {
            OutputTransform::Normal => "normal",
            OutputTransform::Rotate90 => "90",
            OutputTransform::Rotate180 => "180",
            OutputTransform::Rotate270 => "270",
            OutputTransform::Flipped => "flipped",
            OutputTransform::Flipped90 => "flipped-90",
            OutputTransform::Flipped180 => "flipped-180",
            OutputTransform::Flipped270 => "flipped-270",
        }
    }

    /// The labels shown in the UI drop-down, in index order.
    pub fn label_variants() -> (r: &'static [&'static str])
        ensures
            r@.len() == 8,
            r@[0]@ == "normal"@,
            r@[1]@ == "90°"@,
            r@[2]@ == "180°"@,
            r@[3]@ == "270°"@,
            r@[4]@ == "flipped"@,
            r@[5]@ == "flipped 90°"@,
            r@[6]@ == "flipped 180°"@,
            r@[7]@ == "flipped 270°"@,
    {
        &[
            "normal",
            "90°",
            "180°",
            "270°",
            "flipped",
            "flipped 90°",
            "flipped 180°",
            "flipped 270°",
        ]
    }

    /// The variant at a drop-down index; out-of-range indices give `Normal`.
    pub fn from_index(i: u32) -> (r: Self)
        ensures
            r == Self::of_index(i),
            i < 8 ==> r.index_of() == i,
    {
        match i {
            1 => OutputTransform::Rotate90,
            2 => OutputTransform::Rotate180,
            3 => OutputTransform::Rotate270,
            4 => OutputTransform::Flipped,
            5 => OutputTransform::Flipped90,
            6 => OutputTransform::Flipped180,
            7 => OutputTransform::Flipped270,
            _ => OutputTransform::Normal,
        }
    }

    /// The drop-down index of this variant.
    pub fn to_index(&self) -> (r: u32)
        ensures
            r == self.index_of(),
            Self::of_index(r) == *self,
    {
        match self {
            OutputTransform::Normal => 0,
            OutputTransform::Rotate90 => 1,
            OutputTransform::Rotate180 => 2,
            OutputTransform::Rotate270 => 3,
            OutputTransform::Flipped => 4,
            OutputTransform::Flipped90 => 5,
            OutputTransform::Flipped180 => 6,
            OutputTransform::Flipped270 => 7,
        }
    }
}

#[derive(Clone, Copy, Debug, PartialEq, Eq, Structural, Default)]
pub enum VrrMode {
    #[default]
    Default,
    On,
    Off,
    OnDemand,
}

impl VrrMode {
    pub open spec fn index_of(self) -> u32 {
        match self {
            VrrMode::Default => 0,
            VrrMode::On => 1,
            VrrMode::Off => 2,
            VrrMode::OnDemand => 3,
        }
    }

    pub open spec fn of_index(i: u32) -> Self {
        if i == 1 {
            VrrMode::On
        } else if i == 2 {
            VrrMode::Off
        } else if i == 3 {
            VrrMode::OnDemand
        } else {
            VrrMode::Default
        }
    }

    pub open spec fn kdl_word(self) -> Seq<char> {
        match self {
            VrrMode::Default => "off"@,
            VrrMode::Off => "off"@,
            VrrMode::On => "on"@,
            VrrMode::OnDemand => "on-demand"@,
        }
    }

    /// The word for this mode; `Default` reads as niri's default, `off`.
    pub fn as_kdl_str(&self) -> (r: &'static str)
        ensures
            r@ == self.kdl_word(),
    {
        match self {
            VrrMode::Default => "off",
            VrrMode::Off => "off",
            VrrMode::On => "on",
            VrrMode::OnDemand => "on-demand",
        }
    }

    /// The labels shown in the UI drop-down, in index order.
    pub fn label_variants() -> (r: &'static [&'static str])
        ensures
            r@.len() == 4,
            r@[0]@ == "default"@,
            r@[1]@ == "on"@,
            r@[2]@ == "off"@,
            r@[3]@ == "on-demand"@,
    {
        &["default", "on", "off", "on-demand"]
    }

    /// The variant at a drop-down index; out-of-range indices give `Default`.
    pub fn from_index(i: u32) -> (r: Self)
        ensures
            r == Self::of_index(i),
            i < 4 ==> r.index_of() == i,
    {
        match i {
            1 => VrrMode::On,
            2 => VrrMode::Off,
            3 => VrrMode::OnDemand,
            _ => VrrMode::Default,
        }
    }

    /// The drop-down index of this variant.
    pub fn to_index(&self) -> (r: u32)
        ensures
            r == self.index_of(),
            Self::of_index(r) == *self,
    {
        match self {
            VrrMode::Default => 0,
            VrrMode::On => 1,
            VrrMode::Off => 2,
            VrrMode::OnDemand => 3,
        }
    }
}

// ── Input enums ───────────────────────────────────────────────────────────────

#[derive(Clone, Copy, Debug, PartialEq, Eq, Structural, Default)]
pub enum TrackLayout {
    #[default]
    Global,
    Window,
}

#[derive(Clone, Copy, Debug, PartialEq, Eq, Structural, Default)]
pub enum AccelProfile {
    #[default]
    Default,
    Adaptive,
    Flat,
}

impl AccelProfile {
    pub open spec fn kdl_word(self) -> Option<Seq<char>> {
        match self {
            AccelProfile::Adaptive => Some("adaptive"@),
            AccelProfile::Flat => Some("flat"@),
            AccelProfile::Default => None,
        }
    }

    /// The KDL word, or `None` for niri's default.
    pub fn as_kdl_str(&self) -> (r: Option<&'static str>)
        ensures
            r is Some == self.kdl_word() is Some,
            r matches Some(s) ==> s@ == self.kdl_word()->0,
    {
        match self {
            AccelProfile::Adaptive => Some("adaptive"),
            AccelProfile::Flat => Some("flat"),
            AccelProfile::Default => None,
        }
    }
}

#[derive(Clone, Copy, Debug, PartialEq, Eq, Structural, Default)]
pub enum TouchpadScrollMethod {
    #[default]
    Default,
    TwoFinger,
    Edge,
    OnButtonDown,
    NoScroll,
}

impl TouchpadScrollMethod {
    pub open spec fn kdl_word(self) -> Option<Seq<char>> {
        match self {
            TouchpadScrollMethod::TwoFinger => Some("two-finger"@),
            TouchpadScrollMethod::Edge => Some("edge"@),
            TouchpadScrollMethod::OnButtonDown => Some("on-button-down"@),
            TouchpadScrollMethod::NoScroll => Some("no-scroll"@),
            TouchpadScrollMethod::Default => None,
        }
    }

    /// The KDL word, or `None` for niri's default.
    pub fn as_kdl_str(&self) -> (r: Option<&'static str>)
        ensures
            r is Some == self.kdl_word() is Some,
            r matches Some(s) ==> s@ == self.kdl_word()->0,
    {
        match self {
            TouchpadScrollMethod::TwoFinger => Some("two-finger"),
            TouchpadScrollMethod::Edge => Some("edge"),
            TouchpadScrollMethod::OnButtonDown => Some("on-button-down"),
            TouchpadScrollMethod::NoScroll => Some("no-scroll"),
            TouchpadScrollMethod::Default => None,
        }
    }
}

#[derive(Clone, Copy, Debug, PartialEq, Eq, Structural, Default)]
pub enum MouseScrollMethod {
    #[default]
    Default,
    NoScroll,
    TwoFinger,
    Edge,
    OnButtonDown,
}

impl MouseScrollMethod {
    pub open spec fn kdl_word(self) -> Option<Seq<char>> {
        match self {
            MouseScrollMethod::NoScroll => Some("no-scroll"@),
            MouseScrollMethod::TwoFinger => Some("two-finger"@),
            MouseScrollMethod::Edge => Some("edge"@),
            MouseScrollMethod::OnButtonDown => Some("on-button-down"@),
            MouseScrollMethod::Default => None,
        }
    }

    /// The KDL word, or `None` for niri's default.
    pub fn as_kdl_str(&self) -> (r: Option<&'static str>)
        ensures
            r is Some == self.kdl_word() is Some,
            r matches Some(s) ==> s@ == self.kdl_word()->0,
    {
        match self {
            MouseScrollMethod::NoScroll => Some("no-scroll"),
            MouseScrollMethod::TwoFinger => Some("two-finger"),
            MouseScrollMethod::Edge => Some("edge"),
            MouseScrollMethod::OnButtonDown => Some("on-button-down"),
            MouseScrollMethod::Default => None,
        }
    }
}

#[derive(Clone, Copy, Debug, PartialEq, Eq, Structural, Default)]
pub enum TapButtonMap {
    #[default]
    Default,
    LeftRightMiddle,
    LeftMiddleRight,
}

impl TapButtonMap {
    pub open spec fn kdl_word(self) -> Option<Seq<char>> {
        match self {
            TapButtonMap::LeftRightMiddle => Some("left-right-middle"@),
            TapButtonMap::LeftMiddleRight => Some("left-middle-right"@),
            TapButtonMap::Default => None,
        }
    }

    /// The KDL word, or `None` for niri's default.
    pub fn as_kdl_str(&self) -> (r: Option<&'static str>)
        ensures
            r is Some == self.kdl_word() is Some,
            r matches Some(s) ==> s@ == self.kdl_word()->0,
    {
        match self {
            TapButtonMap::LeftRightMiddle => Some("left-right-middle"),
            TapButtonMap::LeftMiddleRight => Some("left-middle-right"),
            TapButtonMap::Default => None,
        }
    }
}

#[derive(Clone, Copy, Debug, PartialEq, Eq, Structural, Default)]
pub enum ClickMethod {
    #[default]
    Default,
    ButtonAreas,
    Clickfinger,
}

impl ClickMethod {
    pub open spec fn kdl_word(self) -> Option<Seq<char>> {
        match self {
            ClickMethod::ButtonAreas => Some("button-areas"@),
            ClickMethod::Clickfinger => Some("clickfinger"@),
            ClickMethod::Default => None,
        }
    }

    /// The KDL word, or `None` for niri's default.
    pub fn as_kdl_str(&self) -> (r: Option<&'static str>)
        ensures
            r is Some == self.kdl_word() is Some,
            r matches Some(s) ==> s@ == self.kdl_word()->0,
    {
        match self {
            ClickMethod::ButtonAreas => Some("button-areas"),
            ClickMethod::Clickfinger => Some("clickfinger"),
            ClickMethod::Default => None,
        }
    }
}

#[derive(Clone, Copy, Debug, PartialEq, Eq, Structural, Default)]
pub enum DragSetting {
    #[default]
    Default,
    Enabled,
    Disabled,
}

#[derive(Clone, Copy, Debug, PartialEq, Eq, Structural, Default)]
pub enum CenterFocusedColumn {
    #[default]
    Never,
    Always,
    OnOverflow,
}

impl CenterFocusedColumn {
    pub open spec fn kdl_word(self) -> Seq<char> {
        match self {
            CenterFocusedColumn::Never => "never"@,
            CenterFocusedColumn::Always => "always"@,
            CenterFocusedColumn::OnOverflow => "on-overflow"@,
        }
    }

    /// The KDL word for this policy.
    pub fn as_kdl_str(&self) -> (r: &'static str)
        ensures
            r@ == self.kdl_word(),
    {
        match self {
            CenterFocusedColumn::Never => "never",
            CenterFocusedColumn::Always => "always",
            CenterFocusedColumn::OnOverflow => "on-overflow",
        }
    }
}


// ── Window & layer rules ──────────────────────────────────────────────────────


// ── Drop-down positions of the input and layout enums ──────────────────────

impl AccelProfile {
    pub open spec fn index_of(self) -> u32 {
        match self {
            AccelProfile::Default => 0,
            AccelProfile::Adaptive => 1,
            AccelProfile::Flat => 2,
        }
    }

    pub open spec fn of_index(i: u32) -> Self {
        if i == 1 {
            AccelProfile::Adaptive
        } else if i == 2 {
            AccelProfile::Flat
        } else {
            AccelProfile::Default
        }
    }

    /// The labels shown in the UI drop-down, in index order.
    pub fn label_variants() -> (r: &'static [&'static str])
        ensures
            r@.len() == 3,
            r@[0]@ == "default"@,
            r@[1]@ == "adaptive"@,
            r@[2]@ == "flat"@,
    {
        &["default", "adaptive", "flat"]
    }

    /// The variant at a drop-down index; out-of-range indices give `Default`.
    pub fn from_index(i: u32) -> (r: Self)
        ensures
            r == Self::of_index(i),
            i < 3 ==> r.index_of() == i,
    {
        match i {
            1 => AccelProfile::Adaptive,
            2 => AccelProfile::Flat,
            _ => AccelProfile::Default,
        }
    }

    /// The drop-down index of this variant.
    pub fn to_index(&self) -> (r: u32)
        ensures
            r == self.index_of(),
            Self::of_index(r) == *self,
    {
        match self {
            AccelProfile::Default => 0,
            AccelProfile::Adaptive => 1,
            AccelProfile::Flat => 2,
        }
    }
}

impl TrackLayout {
    pub open spec fn index_of(self) -> u32 {
        match self {
            TrackLayout::Global => 0,
            TrackLayout::Window => 1,
        }
    }

    pub open spec fn of_index(i: u32) -> Self {
        if i == 1 {
            TrackLayout::Window
        } else {
            TrackLayout::Global
        }
    }

    /// The labels shown in the UI drop-down, in index order.
    pub fn label_variants() -> (r: &'static [&'static str])
        ensures
            r@.len() == 2,
            r@[0]@ == "global"@,
            r@[1]@ == "window"@,
    {
        &["global", "window"]
    }

    /// The variant at a drop-down index; out-of-range indices give `Global`.
    pub fn from_index(i: u32) -> (r: Self)
        ensures
            r == Self::of_index(i),
            i < 2 ==> r.index_of() == i,
    {
        match i {
            1 => TrackLayout::Window,
            _ => TrackLayout::Global,
        }
    }

    /// The drop-down index of this variant.
    pub fn to_index(&self) -> (r: u32)
        ensures
            r == self.index_of(),
            Self::of_index(r) == *self,
    {
        match self {
            TrackLayout::Global => 0,
            TrackLayout::Window => 1,
        }
    }
}

impl DragSetting {
    pub open spec fn index_of(self) -> u32 {
        match self {
            DragSetting::Default => 0,
            DragSetting::Enabled => 1,
            DragSetting::Disabled => 2,
        }
    }

    pub open spec fn of_index(i: u32) -> Self {
        if i == 1 {
            DragSetting::Enabled
        } else if i == 2 {
            DragSetting::Disabled
        } else {
            DragSetting::Default
        }
    }

    /// The labels shown in the UI drop-down, in index order.
    pub fn label_variants() -> (r: &'static [&'static str])
        ensures
            r@.len() == 3,
            r@[0]@ == "default"@,
            r@[1]@ == "enabled"@,
            r@[2]@ == "disabled"@,
    {
        &["default", "enabled", "disabled"]
    }

    /// The variant at a drop-down index; out-of-range indices give `Default`.
    pub fn from_index(i: u32) -> (r: Self)
        ensures
            r == Self::of_index(i),
            i < 3 ==> r.index_of() == i,
    {
        match i {
            1 => DragSetting::Enabled,
            2 => DragSetting::Disabled,
            _ => DragSetting::Default,
        }
    }

    /// The drop-down index of this variant.
    pub fn to_index(&self) -> (r: u32)
        ensures
            r == self.index_of(),
            Self::of_index(r) == *self,
    {
        match self {
            DragSetting::Default => 0,
            DragSetting::Enabled => 1,
            DragSetting::Disabled => 2,
        }
    }
}

impl TouchpadScrollMethod {
    pub open spec fn index_of(self) -> u32 {
        match self {
            TouchpadScrollMethod::Default => 0,
            TouchpadScrollMethod::TwoFinger => 1,
            TouchpadScrollMethod::Edge => 2,
            TouchpadScrollMethod::OnButtonDown => 3,
            TouchpadScrollMethod::NoScroll => 4,
        }
    }

    pub open spec fn of_index(i: u32) -> Self {
        if i == 1 {
            TouchpadScrollMethod::TwoFinger
        } else if i == 2 {
            TouchpadScrollMethod::Edge
        } else if i == 3 {
            TouchpadScrollMethod::OnButtonDown
        } else if i == 4 {
            TouchpadScrollMethod::NoScroll
        } else {
            TouchpadScrollMethod::Default
        }
    }

    /// The labels shown in the UI drop-down, in index order.
    pub fn label_variants() -> (r: &'static [&'static str])
        ensures
            r@.len() == 5,
            r@[0]@ == "default"@,
            r@[1]@ == "two-finger"@,
            r@[2]@ == "edge"@,
            r@[3]@ == "on-button-down"@,
            r@[4]@ == "no-scroll"@,
    {
        &["default", "two-finger", "edge", "on-button-down", "no-scroll"]
    }

    /// The variant at a drop-down index; out-of-range indices give `Default`.
    pub fn from_index(i: u32) -> (r: Self)
        ensures
            r == Self::of_index(i),
            i < 5 ==> r.index_of() == i,
    {
        match i {
            1 => TouchpadScrollMethod::TwoFinger,
            2 => TouchpadScrollMethod::Edge,
            3 => TouchpadScrollMethod::OnButtonDown,
            4 => TouchpadScrollMethod::NoScroll,
            _ => TouchpadScrollMethod::Default,
        }
    }

    /// The drop-down index of this variant.
    pub fn to_index(&self) -> (r: u32)
        ensures
            r == self.index_of(),
            Self::of_index(r) == *self,
    {
        match self {
            TouchpadScrollMethod::Default => 0,
            TouchpadScrollMethod::TwoFinger => 1,
            TouchpadScrollMethod::Edge => 2,
            TouchpadScrollMethod::OnButtonDown => 3,
            TouchpadScrollMethod::NoScroll => 4,
        }
    }
}

impl MouseScrollMethod {
    pub open spec fn index_of(self) -> u32 {
        match self {
            MouseScrollMethod::Default => 0,
            MouseScrollMethod::NoScroll => 1,
            MouseScrollMethod::TwoFinger => 2,
            MouseScrollMethod::Edge => 3,
            MouseScrollMethod::OnButtonDown => 4,
        }
    }

    pub open spec fn of_index(i: u32) -> Self {
        if i == 1 {
            MouseScrollMethod::NoScroll
        } else if i == 2 {
            MouseScrollMethod::TwoFinger
        } else if i == 3 {
            MouseScrollMethod::Edge
        } else if i == 4 {
            MouseScrollMethod::OnButtonDown
        } else {
            MouseScrollMethod::Default
        }
    }

    /// The labels shown in the UI drop-down, in index order.
    pub fn label_variants() -> (r: &'static [&'static str])
        ensures
            r@.len() == 5,
            r@[0]@ == "default"@,
            r@[1]@ == "no-scroll"@,
            r@[2]@ == "two-finger"@,
            r@[3]@ == "edge"@,
            r@[4]@ == "on-button-down"@,
    {
        &["default", "no-scroll", "two-finger", "edge", "on-button-down"]
    }

    /// The variant at a drop-down index; out-of-range indices give `Default`.
    pub fn from_index(i: u32) -> (r: Self)
        ensures
            r == Self::of_index(i),
            i < 5 ==> r.index_of() == i,
    {
        match i {
            1 => MouseScrollMethod::NoScroll,
            2 => MouseScrollMethod::TwoFinger,
            3 => MouseScrollMethod::Edge,
            4 => MouseScrollMethod::OnButtonDown,
            _ => MouseScrollMethod::Default,
        }
    }

    /// The drop-down index of this variant.
    pub fn to_index(&self) -> (r: u32)
        ensures
            r == self.index_of(),
            Self::of_index(r) == *self,
    {
        match self {
            MouseScrollMethod::Default => 0,
            MouseScrollMethod::NoScroll => 1,
            MouseScrollMethod::TwoFinger => 2,
            MouseScrollMethod::Edge => 3,
            MouseScrollMethod::OnButtonDown => 4,
        }
    }
}

impl TapButtonMap {
    pub open spec fn index_of(self) -> u32 {
        match self {
            TapButtonMap::Default => 0,
            TapButtonMap::LeftRightMiddle => 1,
            TapButtonMap::LeftMiddleRight => 2,
        }
    }

    pub open spec fn of_index(i: u32) -> Self {
        if i == 1 {
            TapButtonMap::LeftRightMiddle
        } else if i == 2 {
            TapButtonMap::LeftMiddleRight
        } else {
            TapButtonMap::Default
        }
    }

    /// The labels shown in the UI drop-down, in index order.
    pub fn label_variants() -> (r: &'static [&'static str])
        ensures
            r@.len() == 3,
            r@[0]@ == "default"@,
            r@[1]@ == "left-right-middle"@,
            r@[2]@ == "left-middle-right"@,
    {
        &["default", "left-right-middle", "left-middle-right"]
    }

    /// The variant at a drop-down index; out-of-range indices give `Default`.
    pub fn from_index(i: u32) -> (r: Self)
        ensures
            r == Self::of_index(i),
            i < 3 ==> r.index_of() == i,
    {
        match i {
            1 => TapButtonMap::LeftRightMiddle,
            2 => TapButtonMap::LeftMiddleRight,
            _ => TapButtonMap::Default,
        }
    }

    /// The drop-down index of this variant.
    pub fn to_index(&self) -> (r: u32)
        ensures
            r == self.index_of(),
            Self::of_index(r) == *self,
    {
        match self {
            TapButtonMap::Default => 0,
            TapButtonMap::LeftRightMiddle => 1,
            TapButtonMap::LeftMiddleRight => 2,
        }
    }
}

impl ClickMethod {
    pub open spec fn index_of(self) -> u32 {
        match self {
            ClickMethod::Default => 0,
            ClickMethod::ButtonAreas => 1,
            ClickMethod::Clickfinger => 2,
        }
    }

    pub open spec fn of_index(i: u32) -> Self {
        if i == 1 {
            ClickMethod::ButtonAreas
        } else if i == 2 {
            ClickMethod::Clickfinger
        } else {
            ClickMethod::Default
        }
    }

    /// The labels shown in the UI drop-down, in index order.
    pub fn label_variants() -> (r: &'static [&'static str])
        ensures
            r@.len() == 3,
            r@[0]@ == "default"@,
            r@[1]@ == "button-areas"@,
            r@[2]@ == "clickfinger"@,
    {
        &["default", "button-areas", "clickfinger"]
    }

    /// The variant at a drop-down index; out-of-range indices give `Default`.
    pub fn from_index(i: u32) -> (r: Self)
        ensures
            r == Self::of_index(i),
            i < 3 ==> r.index_of() == i,
    {
        match i {
            1 => ClickMethod::ButtonAreas,
            2 => ClickMethod::Clickfinger,
            _ => ClickMethod::Default,
        }
    }

    /// The drop-down index of this variant.
    pub fn to_index(&self) -> (r: u32)
        ensures
            r == self.index_of(),
            Self::of_index(r) == *self,
    {
        match self {
            ClickMethod::Default => 0,
            ClickMethod::ButtonAreas => 1,
            ClickMethod::Clickfinger => 2,
        }
    }
}

impl CenterFocusedColumn {
    pub open spec fn index_of(self) -> u32 {
        match self {
            CenterFocusedColumn::Never => 0,
            CenterFocusedColumn::OnOverflow => 1,
            CenterFocusedColumn::Always => 2,
        }
    }

    pub open spec fn of_index(i: u32) -> Self {
        if i == 1 {
            CenterFocusedColumn::OnOverflow
        } else if i == 2 {
            CenterFocusedColumn::Always
        } else {
            CenterFocusedColumn::Never
        }
    }

    /// The labels shown in the UI drop-down, in index order.
    pub fn label_variants() -> (r: &'static [&'static str])
        ensures
            r@.len() == 3,
            r@[0]@ == "never"@,
            r@[1]@ == "on overflow"@,
            r@[2]@ == "always"@,
    {
        &["never", "on overflow", "always"]
    }

    /// The variant at a drop-down index; out-of-range indices give `Never`.
    pub fn from_index(i: u32) -> (r: Self)
        ensures
            r == Self::of_index(i),
            i < 3 ==> r.index_of() == i,
    {
        match i {
            1 => CenterFocusedColumn::OnOverflow,
            2 => CenterFocusedColumn::Always,
            _ => CenterFocusedColumn::Never,
        }
    }

    /// The drop-down index of this variant.
    pub fn to_index(&self) -> (r: u32)
        ensures
            r == self.index_of(),
            Self::of_index(r) == *self,
    {
        match self {
            CenterFocusedColumn::Never => 0,
            CenterFocusedColumn::OnOverflow => 1,
            CenterFocusedColumn::Always => 2,
        }
    }
}

/// A single window rule.
#[derive(Clone, Debug, Default)]
pub struct WindowRule {
    /// Runtime-only stable identifier; 0 until one is assigned.
    pub id: u64,
    pub match_app_id: String,
    pub match_title: String,
    pub match_at_startup: TriState,
    pub open_maximized: TriState,
    pub open_fullscreen: TriState,
    pub open_floating: TriState,
    pub open_focused: TriState,
    pub open_on_output: String,
    pub open_on_workspace: String,
    /// Hundredths; 0 leaves niri's default.
    pub opacity: i64,
    pub block_out_from: BlockOutFrom,
    pub draw_border_with_background: TriState,
    /// Tenths of a logical pixel; 0 leaves niri's default.
    pub geometry_corner_radius: i64,
    pub clip_to_geometry: TriState,
    pub variable_refresh_rate: TriState,
    pub min_width: u32,
    pub max_width: u32,
    pub min_height: u32,
    pub max_height: u32,
    /// Hundredths; 0 leaves niri's default.
    pub scroll_factor: i64,
}

/// A single layer-shell rule.
#[derive(Clone, Debug, Default)]
pub struct LayerRule {
    /// Runtime-only stable identifier; 0 until one is assigned.
    pub id: u64,
    pub match_namespace: String,
    pub match_at_startup: TriState,
    /// Hundredths; 0 leaves niri's default.
    pub opacity: i64,
    pub block_out_from: BlockOutFrom,
    pub shadow: TriState,
    /// Tenths of a logical pixel; 0 leaves niri's default.
    pub geometry_corner_radius: i64,
    pub place_within_backdrop: TriState,
}

/// Configuration for `switch-events {}`: the command run on each event.
#[derive(Clone, Debug, Default)]
pub struct SwitchEventsSettings {
    pub lid_close: Vec<String>,
    pub lid_open: Vec<String>,
    pub tablet_mode_on: Vec<String>,
    pub tablet_mode_off: Vec<String>,
}

// ── Key bindings ──────────────────────────────────────────────────────────────

/// A single keybinding entry.
#[derive(Clone, Debug)]
pub struct Keybind {
    /// Runtime-only stable identifier; 0 until one is assigned.
    pub id: u64,
    pub key: String,
    pub action: String,
    pub action_args: String,
    pub repeat: bool,
    pub cooldown_ms: u32,
    pub allow_when_locked: bool,
}

impl Default for Keybind {
    /// An empty `spawn` binding that repeats, with no id assigned yet.
    fn default() -> (r: Self)
        ensures
            r.id == 0,
            r.key@.len() == 0,
            r.action@ == "spawn"@,
            r.action_args@.len() == 0,
            r.repeat,
            r.cooldown_ms == 0,
            !r.allow_when_locked,
    {
        Keybind {
            id: 0,
            key: String::new(),
            action: String::from_str("spawn"),
            action_args: String::new(),
            repeat: true,
            cooldown_ms: 0,
            allow_when_locked: false,
        }
    }
}

// ── Outputs ───────────────────────────────────────────────────────────────────

/// Persisted configuration for one physical output.
#[derive(Clone, Debug)]
pub struct OutputConfig {
    pub name: String,
    pub off: bool,
    pub mode_width: u32,
    pub mode_height: u32,
    /// Refresh rate in millihertz; 0 leaves it unset.
    pub mode_refresh_mhz: u32,
    /// Hundredths; 0 leaves niri's default.
    pub scale: i64,
    pub transform: OutputTransform,
    pub position_set: bool,
    pub position_x: i32,
    pub position_y: i32,
    pub vrr: VrrMode,
}

impl OutputConfig {
    /// An output of the given connector name with every setting left default.
    pub fn new(name: &str) -> (r: Self)
        ensures
            r.name@ == name@,
            !r.off,
            r.mode_width == 0,
            r.mode_height == 0,
            r.mode_refresh_mhz == 0,
            r.scale == 0,
            r.transform == OutputTransform::Normal,
            !r.position_set,
            r.position_x == 0,
            r.position_y == 0,
            r.vrr == VrrMode::Default,
    {
        OutputConfig {
            name: name.to_owned(),
            off: false,
            mode_width: 0,
            mode_height: 0,
            mode_refresh_mhz: 0,
            scale: 0,
            transform: OutputTransform::Normal,
            position_set: false,
            position_x: 0,
            position_y: 0,
            vrr: VrrMode::Default,
        }
    }
}

// ── Input, layout and the other sections ──────────────────────────────────────

#[derive(Clone, Debug, Default)]
pub struct InputSettings {
    pub numlock: bool,
    pub keyboard_xkb_layout: String,
    pub keyboard_xkb_variant: String,
    pub keyboard_xkb_model: String,
    pub keyboard_xkb_rules: String,
    pub keyboard_xkb_options: String,
    pub keyboard_repeat_delay: u32,
    pub keyboard_repeat_rate: u32,
    pub keyboard_track_layout: TrackLayout,
    pub touchpad_tap: bool,
    pub touchpad_natural_scroll: bool,
    pub touchpad_dwt: bool,
    pub touchpad_off: bool,
    pub touchpad_dwtp: bool,
    pub touchpad_drag: DragSetting,
    pub touchpad_drag_lock: bool,
    /// Tenths; 0 leaves niri's default.
    pub touchpad_accel_speed: i64,
    pub touchpad_accel_profile: AccelProfile,
    pub touchpad_scroll_method: TouchpadScrollMethod,
    pub touchpad_tap_button_map: TapButtonMap,
    pub touchpad_click_method: ClickMethod,
    pub touchpad_disabled_on_external_mouse: bool,
    pub touchpad_left_handed: bool,
    pub touchpad_middle_emulation: bool,
    pub mouse_natural_scroll: bool,
    pub mouse_off: bool,
    /// Tenths; 0 leaves niri's default.
    pub mouse_accel_speed: i64,
    pub mouse_accel_profile: AccelProfile,
    pub mouse_scroll_method: MouseScrollMethod,
    pub mouse_left_handed: bool,
    pub mouse_middle_emulation: bool,
    pub focus_follows_mouse: bool,
    pub workspace_auto_back_and_forth: bool,
    pub warp_mouse_to_focus: bool,
    pub disable_power_key_handling: bool,
    pub mod_key: String,
    pub mod_key_nested: String,
}

#[derive(Clone, Debug)]
pub struct LayoutSettings {
    /// Whole logical pixels.
    pub gaps: i64,
    pub center_focused_column: CenterFocusedColumn,
    pub always_center_single_column: bool,
    pub shadow_on: bool,
    pub border_on: bool,
    pub focus_ring_active_color: String,
    pub focus_ring_inactive_color: String,
}

impl Default for LayoutSettings {
    /// Gaps of 16, never centring, and the blue / grey focus ring.
    fn default() -> (r: Self)
        ensures
            r.gaps == 16,
            r.center_focused_column == CenterFocusedColumn::Never,
            !r.always_center_single_column,
            !r.shadow_on,
            !r.border_on,
            r.focus_ring_active_color@ == "#7fc8ff"@,
            r.focus_ring_inactive_color@ == "#505050"@,
    {
        LayoutSettings {
            gaps: 16,
            center_focused_column: CenterFocusedColumn::Never,
            always_center_single_column: false,
            shadow_on: false,
            border_on: false,
            focus_ring_active_color: String::from_str("#7fc8ff"),
            focus_ring_inactive_color: String::from_str("#505050"),
        }
    }
}

#[derive(Clone, Debug, Default)]
pub struct MiscSettings {
    pub prefer_no_csd: bool,
    pub skip_hotkey_overlay: bool,
    pub hotkey_overlay_hide_not_bound: bool,
    pub screenshot_path: String,
    pub cursor_theme: String,
    pub cursor_size: u32,
    pub cursor_hide_when_typing: bool,
    pub cursor_hide_after_inactive_ms: u32,
    pub clipboard_disable_primary: bool,
    /// Hundredths; 0 or less leaves niri's default.
    pub overview_zoom: i64,
    pub overview_backdrop_color: String,
    pub xwayland_off: bool,
    pub xwayland_path: String,
    pub config_notification_disable_failed: bool,
}

#[derive(Clone, Debug, Default)]
pub struct AnimSettings {
    pub global_off: bool,
    /// Tenths; 0 leaves niri's default.
    pub slowdown: i64,
    pub workspace_switch_off: bool,
    pub window_open_off: bool,
    pub window_close_off: bool,
    pub horizontal_view_movement_off: bool,
    pub window_movement_off: bool,
    pub window_resize_off: bool,
    pub config_notification_open_close_off: bool,
    pub exit_confirmation_open_close_off: bool,
    pub screenshot_ui_open_off: bool,
    pub overview_open_close_off: bool,
    pub recent_windows_close_off: bool,
}

#[derive(Clone, Debug, Default)]
pub struct GestureSettings {
    pub dnd_view_trigger_width: u32,
    pub dnd_view_delay_ms: u32,
    pub dnd_view_max_speed: u32,
    pub dnd_ws_trigger_height: u32,
    pub dnd_ws_delay_ms: u32,
    pub dnd_ws_max_speed: u32,
    pub hot_corners_off: bool,
    pub hot_corners_top_left: bool,
    pub hot_corners_top_right: bool,
    pub hot_corners_bottom_left: bool,
    pub hot_corners_bottom_right: bool,
}

#[derive(Clone, Debug, Default)]
pub struct NamedWorkspace {
    pub name: String,
    pub open_on_output: String,
}

#[derive(Clone, Debug, Default)]
pub struct RecentWindowsSettings {
    pub off: bool,
    pub debounce_ms: u32,
    pub open_delay_ms: u32,
    pub highlight_active_color: String,
    pub highlight_urgent_color: String,
    pub highlight_padding: u32,
    pub highlight_corner_radius: u32,
    pub previews_max_height: u32,
    /// Hundredths; 0 leaves niri's default.
    pub previews_max_scale: i64,
}

#[derive(Clone, Debug, Default)]
pub struct DebugSettings {
    pub enable_overlay_planes: bool,
    pub disable_cursor_plane: bool,
    pub disable_direct_scanout: bool,
    pub restrict_primary_scanout_to_matching_format: bool,
    pub force_disable_connectors_on_resume: bool,
    pub render_drm_device: String,
    pub force_pipewire_invalid_modifier: bool,
    pub dbus_interfaces_in_non_session_instances: bool,
    pub wait_for_frame_completion_before_queueing: bool,
    pub emulate_zero_presentation_time: bool,
    pub disable_resize_throttling: bool,
    pub disable_transactions: bool,
    pub keep_laptop_panel_on_when_lid_is_closed: bool,
    pub disable_monitor_names: bool,
    pub strict_new_window_focus_policy: bool,
    pub honor_xdg_activation_with_invalid_serial: bool,
    pub skip_cursor_only_updates_during_vrr: bool,
    pub deactivate_unfocused_windows: bool,
}

/// Root settings configuration managed by the settings GUI.
#[derive(Clone, Debug, Default)]
pub struct SettingsConfig {
    pub input: InputSettings,
    pub layout: LayoutSettings,
    pub misc: MiscSettings,
    pub anim: AnimSettings,
    pub gestures: GestureSettings,
    pub workspaces: Vec<NamedWorkspace>,
    pub recent_windows: RecentWindowsSettings,
    pub debug: DebugSettings,
    pub outputs: Vec<OutputConfig>,
    pub window_rules: Vec<WindowRule>,
    pub layer_rules: Vec<LayerRule>,
    pub switch_events: SwitchEventsSettings,
    pub binds: Vec<Keybind>,
}

} // verus!
