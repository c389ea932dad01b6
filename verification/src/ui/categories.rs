//! Category color mapping: category color presets to terminal colors, and a
//! name to color lookup over the master category list.

use crate::model::MasterCategory;
use crate::text;
use crate::ui::style::Color;
use vstd::prelude::*;

verus! {

/// The colors of `preset0` to `preset24`, in that order.
pub open spec fn palette() -> Seq<Color> {
    seq![
        Color::Red,
        Color::LightRed,
        Color::Yellow,
        Color::LightYellow,
        Color::Green,
        Color::Cyan,
        Color::LightGreen,
        Color::Blue,
        Color::Magenta,
        Color::LightMagenta,
        Color::LightBlue,
        Color::LightCyan,
        Color::Gray,
        Color::DarkGray,
        Color::White,
        Color::Red,
        Color::Yellow,
        Color::LightRed,
        Color::LightYellow,
        Color::Green,
        Color::Cyan,
        Color::LightGreen,
        Color::Blue,
        Color::Magenta,
        Color::LightMagenta,
    ]
}

/// `n` is one of the presets, and `s` is how it is written.
pub open spec fn is_preset(s: Seq<char>, n: int) -> bool {
    0 <= n < 25 && s == "preset"@ + text::decimal(n as nat)
}

/// `c` is the color of `s`: that of the preset it names, or gray.
pub open spec fn has_color(s: Seq<char>, c: Color) -> bool {
    if exists|n: int| is_preset(s, n) {
        exists|n: int| #[trigger] is_preset(s, n) && c == palette()[n]
    } else {
        c == Color::Gray
    }
}

fn color_at(n: usize) -> (r: Color)
    requires
        n < 25,
    ensures
        r == palette()[n as int],
{
    match n {
        0 | 15 => Color::Red,
        1 | 17 => Color::LightRed,
        2 | 16 => Color::Yellow,
        3 | 18 => Color::LightYellow,
        4 | 19 => Color::Green,
        5 | 20 => Color::Cyan,
        6 | 21 => Color::LightGreen,
        7 | 22 => Color::Blue,
        8 | 23 => Color::Magenta,
        9 | 24 => Color::LightMagenta,
        10 => Color::LightBlue,
        11 => Color::LightCyan,
        12 => Color::Gray,
        13 => Color::DarkGray,
        _ => Color::White,
    }
}

/// Maps a category color (`"preset0"` to `"preset24"`, or `"none"`) to a
/// terminal color. Unknown or `"none"` is gray.
pub fn preset_color(preset: &str) -> (r: Color)
    ensures
        has_color(preset@, r),
{
    let mut n: usize = 0;
    while n < 25
        invariant
            n <= 25,
            forall|k: int| 0 <= k < n ==> !is_preset(preset@, k),
        decreases 25 - n,
    {
        let mut name: String = "preset".to_string();
        text::push_integer(&mut name, n as i128);
        proof {
            text::lemma_decimal_len(n as nat);
            assert(text::integer(n as int) =~= text::decimal(n as nat));
        }
        if text::same(preset, name.as_str()) {
            assert(is_preset(preset@, n as int));
            return color_at(n);
        }
        n += 1;
    }
    Color::Gray
}

/// Where the category with this name stands in the list, or the list's length.
pub open spec fn category_at(master: Seq<MasterCategory>, name: Seq<char>) -> int
    decreases master.len(),
{
    if master.len() == 0 || master[0].display_name@ == name {
        0
    } else {
        1 + category_at(master.skip(1), name)
    }
}

/// `c` is the color of category `name`: that of its entry in the list, or gray
/// where there is none.
pub open spec fn is_color_of(master: Seq<MasterCategory>, name: Seq<char>, c: Color) -> bool {
    let i = category_at(master, name);
    if i < master.len() {
        has_color(master[i].color@, c)
    } else {
        c == Color::Gray
    }
}

/// The color for a category `name`, looked up in the master list; a name not in
/// the list falls back to gray.
pub fn color_for(master: &Vec<MasterCategory>, name: &str) -> (r: Color)
    ensures
        is_color_of(master@, name@, r),
{
    let mut i: usize = 0;
    assert(master@.skip(0) =~= master@);
    while i < master.len()
        invariant
            i <= master@.len(),
            category_at(master@, name@) == i + category_at(master@.skip(i as int), name@),
        decreases master@.len() - i,
    {
        if text::same(master[i].display_name.as_str(), name) {
            return preset_color(master[i].color.as_str());
        }
        assert(master@.skip(i as int).skip(1) =~= master@.skip(i as int + 1));
        i += 1;
    }
    Color::Gray
}

/// The preset a text names is determined, and with it the color.
pub proof fn preset_is_determined(s: Seq<char>, a: int, b: int)
    requires
        is_preset(s, a),
        is_preset(s, b),
    ensures
        a == b,
{
    text::lemma_decimal_value(a as nat);
    text::lemma_decimal_value(b as nat);
    let p = "preset"@;
    let x = text::decimal(a as nat);
    let y = text::decimal(b as nat);
    assert((p + x).skip(p.len() as int) =~= x);
    assert((p + y).skip(p.len() as int) =~= y);
}

}
