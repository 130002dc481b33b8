//! Toasts, notices and help on the screen.

use vstd::prelude::*;

use crate::event::ToastKind;
use crate::geometry::Rect;
use crate::model::ToastModel;
use crate::promises::screen::the_god_view_in_numbers;
use crate::scene::Color;
use crate::scene::overlay::{
    help_scene, newest, placeholder_scene, spec_middle, toast_scene, too_small_scene,
};
use crate::text::decimal;
use crate::tile::{default_layout, find_tile};

verus! {

/// Up to three toasts stand just above the assistant strip, the oldest on
/// top, each on a line of its own with what kind it is.
pub proof fn toasts_stand_above_the_assistant_strip(
    toasts: Seq<ToastModel>,
    area: Rect,
    i: int,
)
    requires
        1 <= toasts.len() <= 3,
        0 <= i < toasts.len(),
        area.width >= 80,
        area.height >= 24,
        area.x + area.width <= 65_535,
        area.y + area.height <= 65_535,
        (area.height - 3) * 3 <= 65_535,
    ensures
        ({
            let scene = toast_scene(toasts, default_layout(area));
            let lines = scene[1]->Text_lines;
            let t = toasts[i];
            &&& scene.len() == 2
            &&& scene[0] is Clear
            &&& scene[1] is Text
            &&& scene[0]->Clear_area == scene[1]->Text_area
            &&& scene[1]->Text_area.x == area.x
            &&& scene[1]->Text_area.width == area.width
            &&& scene[1]->Text_area.height == toasts.len()
            &&& scene[1]->Text_area.y + toasts.len() == area.y + area.height - 3
            &&& lines.len() == toasts.len()
            &&& lines[i].spans.len() == 2
            &&& lines[i].spans[1].text == t.message
            &&& t.kind == ToastKind::Success ==> lines[i].spans[0].text == " ok: "@
                && lines[i].spans[0].style.fg == Some(Color::Green) && lines[i].spans[1].style.fg
                == Some(Color::Green)
            &&& t.kind == ToastKind::Error ==> lines[i].spans[0].text == " err: "@
                && lines[i].spans[0].style.fg == Some(Color::Red) && lines[i].spans[1].style.fg
                == Some(Color::Red)
            &&& t.kind == ToastKind::Info ==> lines[i].spans[0].text == " info: "@
                && lines[i].spans[0].style.fg == Some(Color::Cyan) && lines[i].spans[1].style.fg
                == Some(Color::Cyan)
        }),
{
    the_god_view_in_numbers(area);
    let tiles = default_layout(area).tiles;
    reveal_with_fuel(find_tile, 6);
    assert(tiles.drop_first()[0] == tiles[1]);
    assert(tiles.drop_first().drop_first()[0] == tiles[2]);
    assert(tiles.drop_first().drop_first().drop_first()[0] == tiles[3]);
    assert(tiles.drop_first().drop_first().drop_first().drop_first()[0] == tiles[4]);
}

/// Of more toasts than three the newest are shown.
pub proof fn the_newest_toasts_are_shown(toasts: Seq<ToastModel>, i: int)
    ensures
        toasts.len() <= 3 ==> newest(toasts) == toasts,
        toasts.len() > 3 ==> newest(toasts).len() == 3,
        toasts.len() > 3 && 0 <= i < 3 ==> newest(toasts)[i] == toasts[toasts.len() - 3 + i],
{
}

/// Without a toast, and on a terminal that is too small, none is drawn.
pub proof fn no_toast_no_strip(toasts: Seq<ToastModel>, area: Rect)
    ensures
        toast_scene(Seq::empty(), default_layout(area)).len() == 0,
        area.width < 80 || area.height < 24 ==> toast_scene(toasts, default_layout(area)).len()
            == 0,
{
    reveal_with_fuel(find_tile, 3);
    if area.width < 80 || area.height < 24 {
        assert(default_layout(area).tiles.len() == 1);
    }
}

/// A tile that is not there yet shows its label, and when it is focused also
/// the phase in which it comes.
pub proof fn placeholders_show_their_label(
    label: Seq<char>,
    phase: u8,
    area: Rect,
    focused: bool,
)
    ensures
        ({
            let scene = placeholder_scene(label, phase, area, focused);
            &&& scene.len() == 2
            &&& scene[0] is Frame && scene[0]->Frame_area == area
            &&& scene[1] is Text
            &&& scene[1]->Text_lines.len() == if focused {
                4
            } else {
                2int
            }
            &&& scene[1]->Text_lines[1].spans[0].text == label
            &&& focused ==> scene[1]->Text_lines[3].spans[0].text == "Phase "@ + decimal(
                phase as nat,
            ) + " — not yet implemented"@
        }),
{
}

/// The notice of a small terminal says what size is needed.
pub proof fn the_notice_names_the_size(area: Rect)
    ensures
        ({
            let scene = too_small_scene(area);
            &&& scene.len() == 2
            &&& scene[0] is Frame && scene[0]->Frame_area == area
            &&& scene[1] is Text
            &&& scene[1]->Text_lines.len() == 4
            &&& scene[1]->Text_lines[1].spans[0].text == "Terminal too small for god view"@
            &&& scene[1]->Text_lines[3].spans[0].text == "Resize to at least 80×24."@
        }),
{
}

/// What stands in the middle is as far from the left as from the right, and
/// from the top as from the bottom, but for a cell that cannot be halved.
pub proof fn the_middle_is_in_the_middle(area: Rect, width: u16, height: u16)
    requires
        width <= area.width,
        height <= area.height,
        area.x + area.width <= 65_535,
        area.y + area.height <= 65_535,
    ensures
        ({
            let r = spec_middle(area, width, height);
            let left = r.x - area.x;
            let right = area.x + area.width - r.x - r.width;
            let above = r.y - area.y;
            let below = area.y + area.height - r.y - r.height;
            &&& r.width == width
            &&& r.height == height
            &&& left >= 0 && above >= 0
            &&& left <= right <= left + 1
            &&& above <= below <= above + 1
        }),
{
}

/// The help names the keys; on a screen too small for it one line does.
pub proof fn the_help_names_the_keys(area: Rect)
    requires
        area.x + area.width <= 65_535,
        area.y + area.height <= 65_535,
    ensures
        ({
            let scene = help_scene(area);
            &&& area.width < 20 || area.height < 8 ==> scene.len() == 1 && scene[0] is Text
                && scene[0]->Text_lines[0].spans[0].text == "help: Ctrl-b ? again to close"@
            &&& area.width >= 20 && area.height >= 8 ==> {
                let lines = scene[2]->Text_lines;
                &&& scene.len() == 3
                &&& scene[0] is Clear
                &&& scene[1] is Frame
                &&& scene[1]->Frame_title == " help · Ctrl-b ? toggles "@
                &&& scene[1]->Frame_area == scene[0]->Clear_area
                &&& scene[1]->Frame_area == spec_middle(
                    area,
                    if area.width < 60 {
                        area.width
                    } else {
                        60
                    },
                    if area.height < 20 {
                        area.height
                    } else {
                        20
                    },
                )
                &&& scene[2] is Text
                &&& lines.len() == 16
                &&& lines[1].spans[0].text == " tile focus"@
                &&& lines[2].spans[0].text
                    == "   Tab · Shift-Tab     cycle tile focus (PTY → shell)"@
                &&& lines[3].spans[0].text == "   mouse click         focus tile · select row"@
                &&& lines[5].spans[0].text == " inside a focused scope tile"@
                &&& lines[6].spans[0].text == "   j · k · ↓ · ↑       navigate rows"@
                &&& lines[7].spans[0].text
                    == "   Enter               primary action on selected row"@
                &&& lines[8].spans[0].text == "   /                   start filter"@
                &&& lines[9].spans[0].text == "   Esc                 cancel / back"@
                &&& lines[11].spans[0].text == " session"@
                &&& lines[12].spans[0].text == "   Ctrl-b d            detach"@
                &&& lines[13].spans[0].text == "   Ctrl-b ?            toggle this help"@
                &&& lines[15].spans[0].text == " any key or click dismisses the overlay"@
            }
        }),
{
}

} // verus!
