//! Named easing presets: standard curve shapes as bezier handles.

use vstd::prelude::*;
use crate::keyframe::{handles_from_css, BezierHandles};

verus! {

/// A named easing curve.
#[derive(Debug, Clone, Copy, PartialEq, Eq, Structural, Hash)]
pub enum EasingPreset {
    Linear,
    EaseIn,
    EaseOut,
    EaseInOut,
    EaseInQuad,
    EaseOutQuad,
    EaseInOutQuad,
    EaseInCubic,
    EaseOutCubic,
    EaseInOutCubic,
    EaseInQuart,
    EaseOutQuart,
    EaseInOutQuart,
    EaseInQuint,
    EaseOutQuint,
    EaseInOutQuint,
    EaseInSine,
    EaseOutSine,
    EaseInOutSine,
    EaseInExpo,
    EaseOutExpo,
    EaseInOutExpo,
    EaseInCirc,
    EaseOutCirc,
    EaseInOutCirc,
    EaseInBack,
    EaseOutBack,
    EaseInOutBack,
}

/// The preset at index `i` of the catalog.
pub open spec fn preset_at(i: int) -> EasingPreset {
    if i == 0 {
        EasingPreset::Linear
    } else if i == 1 {
        EasingPreset::EaseIn
    } else if i == 2 {
        EasingPreset::EaseOut
    } else if i == 3 {
        EasingPreset::EaseInOut
    } else if i == 4 {
        EasingPreset::EaseInQuad
    } else if i == 5 {
        EasingPreset::EaseOutQuad
    } else if i == 6 {
        EasingPreset::EaseInOutQuad
    } else if i == 7 {
        EasingPreset::EaseInCubic
    } else if i == 8 {
        EasingPreset::EaseOutCubic
    } else if i == 9 {
        EasingPreset::EaseInOutCubic
    } else if i == 10 {
        EasingPreset::EaseInQuart
    } else if i == 11 {
        EasingPreset::EaseOutQuart
    } else if i == 12 {
        EasingPreset::EaseInOutQuart
    } else if i == 13 {
        EasingPreset::EaseInQuint
    } else if i == 14 {
        EasingPreset::EaseOutQuint
    } else if i == 15 {
        EasingPreset::EaseInOutQuint
    } else if i == 16 {
        EasingPreset::EaseInSine
    } else if i == 17 {
        EasingPreset::EaseOutSine
    } else if i == 18 {
        EasingPreset::EaseInOutSine
    } else if i == 19 {
        EasingPreset::EaseInExpo
    } else if i == 20 {
        EasingPreset::EaseOutExpo
    } else if i == 21 {
        EasingPreset::EaseInOutExpo
    } else if i == 22 {
        EasingPreset::EaseInCirc
    } else if i == 23 {
        EasingPreset::EaseOutCirc
    } else if i == 24 {
        EasingPreset::EaseInOutCirc
    } else if i == 25 {
        EasingPreset::EaseInBack
    } else if i == 26 {
        EasingPreset::EaseOutBack
    } else {
        EasingPreset::EaseInOutBack
    }
}

/// Index of a preset in the catalog.
pub open spec fn preset_index(p: EasingPreset) -> int {
    match p {
        EasingPreset::Linear => 0,
        EasingPreset::EaseIn => 1,
        EasingPreset::EaseOut => 2,
        EasingPreset::EaseInOut => 3,
        EasingPreset::EaseInQuad => 4,
        EasingPreset::EaseOutQuad => 5,
        EasingPreset::EaseInOutQuad => 6,
        EasingPreset::EaseInCubic => 7,
        EasingPreset::EaseOutCubic => 8,
        EasingPreset::EaseInOutCubic => 9,
        EasingPreset::EaseInQuart => 10,
        EasingPreset::EaseOutQuart => 11,
        EasingPreset::EaseInOutQuart => 12,
        EasingPreset::EaseInQuint => 13,
        EasingPreset::EaseOutQuint => 14,
        EasingPreset::EaseInOutQuint => 15,
        EasingPreset::EaseInSine => 16,
        EasingPreset::EaseOutSine => 17,
        EasingPreset::EaseInOutSine => 18,
        EasingPreset::EaseInExpo => 19,
        EasingPreset::EaseOutExpo => 20,
        EasingPreset::EaseInOutExpo => 21,
        EasingPreset::EaseInCirc => 22,
        EasingPreset::EaseOutCirc => 23,
        EasingPreset::EaseInOutCirc => 24,
        EasingPreset::EaseInBack => 25,
        EasingPreset::EaseOutBack => 26,
        EasingPreset::EaseInOutBack => 27,
    }
}

/// Every preset, in catalog order.
pub open spec fn catalog() -> Seq<EasingPreset> {
    Seq::new(28, |i: int| preset_at(i))
}

/// The presets offered first in a user interface.
pub open spec fn common_presets() -> Seq<EasingPreset> {
    seq![
        EasingPreset::Linear,
        EasingPreset::EaseIn,
        EasingPreset::EaseOut,
        EasingPreset::EaseInOut,
        EasingPreset::EaseInCubic,
        EasingPreset::EaseOutCubic,
        EasingPreset::EaseInOutCubic,
        EasingPreset::EaseInBack,
        EasingPreset::EaseOutBack,
    ]
}

/// The CSS `cubic-bezier(x1, y1, x2, y2)` control points of a preset, in
/// fixed-point.
pub open spec fn css_points(p: EasingPreset) -> (int, int, int, int) {
    match p {
        EasingPreset::Linear => (0, 0, 1_000_000, 1_000_000),
        EasingPreset::EaseIn => (420_000, 0, 1_000_000, 1_000_000),
        EasingPreset::EaseOut => (0, 0, 580_000, 1_000_000),
        EasingPreset::EaseInOut => (420_000, 0, 580_000, 1_000_000),
        EasingPreset::EaseInQuad => (550_000, 85_000, 680_000, 530_000),
        EasingPreset::EaseOutQuad => (250_000, 460_000, 450_000, 940_000),
        EasingPreset::EaseInOutQuad => (455_000, 30_000, 515_000, 955_000),
        EasingPreset::EaseInCubic => (550_000, 55_000, 675_000, 190_000),
        EasingPreset::EaseOutCubic => (215_000, 610_000, 355_000, 1_000_000),
        EasingPreset::EaseInOutCubic => (645_000, 45_000, 355_000, 1_000_000),
        EasingPreset::EaseInQuart => (895_000, 30_000, 685_000, 220_000),
        EasingPreset::EaseOutQuart => (165_000, 840_000, 440_000, 1_000_000),
        EasingPreset::EaseInOutQuart => (770_000, 0, 175_000, 1_000_000),
        EasingPreset::EaseInQuint => (755_000, 50_000, 855_000, 60_000),
        EasingPreset::EaseOutQuint => (230_000, 1_000_000, 320_000, 1_000_000),
        EasingPreset::EaseInOutQuint => (860_000, 0, 70_000, 1_000_000),
        EasingPreset::EaseInSine => (470_000, 0, 745_000, 715_000),
        EasingPreset::EaseOutSine => (390_000, 575_000, 565_000, 1_000_000),
        EasingPreset::EaseInOutSine => (445_000, 50_000, 550_000, 950_000),
        EasingPreset::EaseInExpo => (950_000, 50_000, 795_000, 35_000),
        EasingPreset::EaseOutExpo => (190_000, 1_000_000, 220_000, 1_000_000),
        EasingPreset::EaseInOutExpo => (1_000_000, 0, 0, 1_000_000),
        EasingPreset::EaseInCirc => (600_000, 40_000, 980_000, 335_000),
        EasingPreset::EaseOutCirc => (75_000, 820_000, 165_000, 1_000_000),
        EasingPreset::EaseInOutCirc => (785_000, 135_000, 150_000, 860_000),
        EasingPreset::EaseInBack => (600_000, -280_000, 735_000, 45_000),
        EasingPreset::EaseOutBack => (175_000, 885_000, 320_000, 1_275_000),
        EasingPreset::EaseInOutBack => (680_000, -550_000, 265_000, 1_550_000),
    }
}

/// The handles of a preset: its CSS control points converted.
pub open spec fn preset_handles(p: EasingPreset) -> BezierHandles {
    let (x1, y1, x2, y2) = css_points(p);
    handles_from_css(x1, y1, x2, y2)
}

/// The display name of a preset.
pub open spec fn preset_name(p: EasingPreset) -> Seq<char> {
    match p {
        EasingPreset::Linear => "Linear"@,
        EasingPreset::EaseIn => "Ease In"@,
        EasingPreset::EaseOut => "Ease Out"@,
        EasingPreset::EaseInOut => "Ease In Out"@,
        EasingPreset::EaseInQuad => "Ease In Quad"@,
        EasingPreset::EaseOutQuad => "Ease Out Quad"@,
        EasingPreset::EaseInOutQuad => "Ease In Out Quad"@,
        EasingPreset::EaseInCubic => "Ease In Cubic"@,
        EasingPreset::EaseOutCubic => "Ease Out Cubic"@,
        EasingPreset::EaseInOutCubic => "Ease In Out Cubic"@,
        EasingPreset::EaseInQuart => "Ease In Quart"@,
        EasingPreset::EaseOutQuart => "Ease Out Quart"@,
        EasingPreset::EaseInOutQuart => "Ease In Out Quart"@,
        EasingPreset::EaseInQuint => "Ease In Quint"@,
        EasingPreset::EaseOutQuint => "Ease Out Quint"@,
        EasingPreset::EaseInOutQuint => "Ease In Out Quint"@,
        EasingPreset::EaseInSine => "Ease In Sine"@,
        EasingPreset::EaseOutSine => "Ease Out Sine"@,
        EasingPreset::EaseInOutSine => "Ease In Out Sine"@,
        EasingPreset::EaseInExpo => "Ease In Expo"@,
        EasingPreset::EaseOutExpo => "Ease Out Expo"@,
        EasingPreset::EaseInOutExpo => "Ease In Out Expo"@,
        EasingPreset::EaseInCirc => "Ease In Circ"@,
        EasingPreset::EaseOutCirc => "Ease Out Circ"@,
        EasingPreset::EaseInOutCirc => "Ease In Out Circ"@,
        EasingPreset::EaseInBack => "Ease In Back"@,
        EasingPreset::EaseOutBack => "Ease Out Back"@,
        EasingPreset::EaseInOutBack => "Ease In Out Back"@,
    }
}

/// Each coordinate of `a` is within `tolerance` of that of `b`.
pub open spec fn similar(a: BezierHandles, b: BezierHandles, tolerance: int) -> bool {
    &&& -tolerance < a.left_x - b.left_x < tolerance
    &&& -tolerance < a.left_y - b.left_y < tolerance
    &&& -tolerance < a.right_x - b.right_x < tolerance
    &&& -tolerance < a.right_y - b.right_y < tolerance
}

/// The first preset of the catalog from index `i` on whose handles are
/// similar to `h`.
pub open spec fn first_match(h: BezierHandles, tolerance: int, i: int) -> Option<EasingPreset>
    decreases catalog().len() - i,
{
    if i < 0 || i >= catalog().len() {
        None
    } else if similar(h, preset_handles(catalog()[i]), tolerance) {
        Some(catalog()[i])
    } else {
        first_match(h, tolerance, i + 1)
    }
}

impl EasingPreset {
    /// The display name.
    pub fn name(&self) -> (r: &'static str)
        ensures
            r@ == preset_name(*self),
    {
        match self {
            EasingPreset::Linear => "Linear",
            EasingPreset::EaseIn => "Ease In",
            EasingPreset::EaseOut => "Ease Out",
            EasingPreset::EaseInOut => "Ease In Out",
            EasingPreset::EaseInQuad => "Ease In Quad",
            EasingPreset::EaseOutQuad => "Ease Out Quad",
            EasingPreset::EaseInOutQuad => "Ease In Out Quad",
            EasingPreset::EaseInCubic => "Ease In Cubic",
            EasingPreset::EaseOutCubic => "Ease Out Cubic",
            EasingPreset::EaseInOutCubic => "Ease In Out Cubic",
            EasingPreset::EaseInQuart => "Ease In Quart",
            EasingPreset::EaseOutQuart => "Ease Out Quart",
            EasingPreset::EaseInOutQuart => "Ease In Out Quart",
            EasingPreset::EaseInQuint => "Ease In Quint",
            EasingPreset::EaseOutQuint => "Ease Out Quint",
            EasingPreset::EaseInOutQuint => "Ease In Out Quint",
            EasingPreset::EaseInSine => "Ease In Sine",
            EasingPreset::EaseOutSine => "Ease Out Sine",
            EasingPreset::EaseInOutSine => "Ease In Out Sine",
            EasingPreset::EaseInExpo => "Ease In Expo",
            EasingPreset::EaseOutExpo => "Ease Out Expo",
            EasingPreset::EaseInOutExpo => "Ease In Out Expo",
            EasingPreset::EaseInCirc => "Ease In Circ",
            EasingPreset::EaseOutCirc => "Ease Out Circ",
            EasingPreset::EaseInOutCirc => "Ease In Out Circ",
            EasingPreset::EaseInBack => "Ease In Back",
            EasingPreset::EaseOutBack => "Ease Out Back",
            EasingPreset::EaseInOutBack => "Ease In Out Back",
        }
    }

    /// The handles, from the preset's CSS control points.
    pub fn handles(&self) -> (r: BezierHandles)
        ensures
            r == preset_handles(*self),
    {
        let (x1, y1, x2, y2): (i32, i32, i32, i32) = match self {
            EasingPreset::Linear => (0, 0, 1_000_000, 1_000_000),
            EasingPreset::EaseIn => (420_000, 0, 1_000_000, 1_000_000),
            EasingPreset::EaseOut => (0, 0, 580_000, 1_000_000),
            EasingPreset::EaseInOut => (420_000, 0, 580_000, 1_000_000),
            EasingPreset::EaseInQuad => (550_000, 85_000, 680_000, 530_000),
            EasingPreset::EaseOutQuad => (250_000, 460_000, 450_000, 940_000),
            EasingPreset::EaseInOutQuad => (455_000, 30_000, 515_000, 955_000),
            EasingPreset::EaseInCubic => (550_000, 55_000, 675_000, 190_000),
            EasingPreset::EaseOutCubic => (215_000, 610_000, 355_000, 1_000_000),
            EasingPreset::EaseInOutCubic => (645_000, 45_000, 355_000, 1_000_000),
            EasingPreset::EaseInQuart => (895_000, 30_000, 685_000, 220_000),
            EasingPreset::EaseOutQuart => (165_000, 840_000, 440_000, 1_000_000),
            EasingPreset::EaseInOutQuart => (770_000, 0, 175_000, 1_000_000),
            EasingPreset::EaseInQuint => (755_000, 50_000, 855_000, 60_000),
            EasingPreset::EaseOutQuint => (230_000, 1_000_000, 320_000, 1_000_000),
            EasingPreset::EaseInOutQuint => (860_000, 0, 70_000, 1_000_000),
            EasingPreset::EaseInSine => (470_000, 0, 745_000, 715_000),
            EasingPreset::EaseOutSine => (390_000, 575_000, 565_000, 1_000_000),
            EasingPreset::EaseInOutSine => (445_000, 50_000, 550_000, 950_000),
            EasingPreset::EaseInExpo => (950_000, 50_000, 795_000, 35_000),
            EasingPreset::EaseOutExpo => (190_000, 1_000_000, 220_000, 1_000_000),
            EasingPreset::EaseInOutExpo => (1_000_000, 0, 0, 1_000_000),
            EasingPreset::EaseInCirc => (600_000, 40_000, 980_000, 335_000),
            EasingPreset::EaseOutCirc => (75_000, 820_000, 165_000, 1_000_000),
            EasingPreset::EaseInOutCirc => (785_000, 135_000, 150_000, 860_000),
            EasingPreset::EaseInBack => (600_000, -280_000, 735_000, 45_000),
            EasingPreset::EaseOutBack => (175_000, 885_000, 320_000, 1_275_000),
            EasingPreset::EaseInOutBack => (680_000, -550_000, 265_000, 1_550_000),
        };
        BezierHandles::from_css(x1, y1, x2, y2)
    }

    /// Every preset, in catalog order.
    pub fn all() -> (r: Vec<EasingPreset>)
        ensures
            r@ == catalog(),
    {
        let r = vec![
            EasingPreset::Linear,
            EasingPreset::EaseIn,
            EasingPreset::EaseOut,
            EasingPreset::EaseInOut,
            EasingPreset::EaseInQuad,
            EasingPreset::EaseOutQuad,
            EasingPreset::EaseInOutQuad,
            EasingPreset::EaseInCubic,
            EasingPreset::EaseOutCubic,
            EasingPreset::EaseInOutCubic,
            EasingPreset::EaseInQuart,
            EasingPreset::EaseOutQuart,
            EasingPreset::EaseInOutQuart,
            EasingPreset::EaseInQuint,
            EasingPreset::EaseOutQuint,
            EasingPreset::EaseInOutQuint,
            EasingPreset::EaseInSine,
            EasingPreset::EaseOutSine,
            EasingPreset::EaseInOutSine,
            EasingPreset::EaseInExpo,
            EasingPreset::EaseOutExpo,
            EasingPreset::EaseInOutExpo,
            EasingPreset::EaseInCirc,
            EasingPreset::EaseOutCirc,
            EasingPreset::EaseInOutCirc,
            EasingPreset::EaseInBack,
            EasingPreset::EaseOutBack,
            EasingPreset::EaseInOutBack,
        ];
        assert(r@ =~= catalog()) by {
            assert forall|i: int| 0 <= i < 28 implies r@[i] == catalog()[i] by {
                lemma_preset_index(i);
            }
        }
        r
    }

    /// The presets offered first in a user interface.
    pub fn common() -> (r: Vec<EasingPreset>)
        ensures
            r@ == common_presets(),
    {
        let r = vec![
            EasingPreset::Linear,
            EasingPreset::EaseIn,
            EasingPreset::EaseOut,
            EasingPreset::EaseInOut,
            EasingPreset::EaseInCubic,
            EasingPreset::EaseOutCubic,
            EasingPreset::EaseInOutCubic,
            EasingPreset::EaseInBack,
            EasingPreset::EaseOutBack,
        ];
        assert(r@ =~= common_presets());
        r
    }
}

/// Every preset is recovered from its own handles: matching them within a
/// thousandth finds that preset and no earlier one.
pub proof fn lemma_match_recovers_preset(p: EasingPreset)
    ensures
        first_match(preset_handles(p), 1000, 0) == Some(p),
{
    lemma_first_match_from(p, 0);
}

proof fn lemma_first_match_from(p: EasingPreset, i: int)
    requires
        0 <= i <= preset_index(p),
    ensures
        first_match(preset_handles(p), 1000, i) == Some(p),
    decreases preset_index(p) - i,
{
    lemma_preset_index(i);
    if i < preset_index(p) {
        lemma_presets_apart(p, preset_at(i));
        lemma_first_match_from(p, i + 1);
    }
}

proof fn lemma_preset_index(i: int)
    requires
        0 <= i < 28,
    ensures
        preset_index(preset_at(i)) == i,
{
}

/// Distinct presets differ by at least a thousandth in some coordinate.
proof fn lemma_presets_apart(a: EasingPreset, b: EasingPreset)
    requires
        a != b,
    ensures
        !similar(preset_handles(a), preset_handles(b), 1000),
{
}

/// Whether each coordinate of `a` is within `tolerance` of that of `b`.
pub fn handles_similar(a: &BezierHandles, b: &BezierHandles, tolerance: i32) -> (r: bool)
    ensures
        r == similar(*a, *b, tolerance as int),
{
    let t = tolerance as i64;
    let dlx = a.left_x as i64 - b.left_x as i64;
    let dly = a.left_y as i64 - b.left_y as i64;
    let drx = a.right_x as i64 - b.right_x as i64;
    let dry = a.right_y as i64 - b.right_y as i64;
    -t < dlx && dlx < t && -t < dly && dly < t && -t < drx && drx < t && -t < dry && dry < t
}

/// The first preset of the catalog whose handles are within `tolerance` of
/// `handles`.
pub fn match_preset(handles: &BezierHandles, tolerance: i32) -> (r: Option<EasingPreset>)
    ensures
        r == first_match(*handles, tolerance as int, 0),
{
    let presets = EasingPreset::all();
    let mut i: usize = 0;
    while i < presets.len()
        invariant
            presets@ == catalog(),
            i <= presets@.len(),
            first_match(*handles, tolerance as int, 0) == first_match(*handles, tolerance as int, i as int),
        decreases presets@.len() - i,
    {
        let p = presets[i];
        if handles_similar(handles, &p.handles(), tolerance) {
            return Some(p);
        }
        i = i + 1;
    }
    None
}

} // verus!
