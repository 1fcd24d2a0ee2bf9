//! The window of the settings.

use crate::drawing::{disc, Canvas, Frame, Mark, Sheet};
use crate::geometry::{
    area, area_of, at_least_one, half, half_of, surface_size, Point, Rect, Size,
};
use crate::num::smaller;
use crate::pixel::{measured, text_width};
use crate::settings::{rows_of, Pane, Row, Setting, SettingTone};
use crate::text::{concat2, signed_decimal, signed_decimal_text, views};
use vstd::prelude::*;
use vstd::string::*;

verus! {

pub const CARD: u32 = 0xf6fc_f0f8;

pub const CARD_OPAQUE: u32 = 0xf6fc_f0ff;

pub const SIDEBAR: u32 = 0xf2ea_e4ff;

pub const ROW: u32 = 0xfffe_fcff;

pub const TEXT: u32 = 0x2a1e_16ff;

pub const MUTED: u32 = 0x7064_5aff;

pub const ACCENT: u32 = 0xa876_0eff;

pub const ACCENT_SOFT: u32 = 0xfcf0_e0ff;

pub const TRACK: u32 = 0xe4de_d8ff;

pub const KNOB_OFF: u32 = 0xc4bc_b4ff;

pub const SHADOW: u32 = 0x3c16_0e3c;

pub const FOCUS: u32 = 0x2670_d6ff;

pub const GAME_ACCENT: u32 = 0x2b70_caff;

pub const POSITIVE: u32 = 0x238b_51ff;

pub const WARNING: u32 = 0xae68_15ff;

pub const CHOICE: u32 = 0xf6f0_ecff;

pub const WHITE: u32 = 0xffff_ffff;

pub const LIGHT_RED: u32 = 0x2730_baff;

pub const LIGHT_AMBER: u32 = 0x19a0_99ff;

pub const LIGHT_GREEN: u32 = 0x3ba5_3bff;

#[derive(Debug, Clone, Copy, PartialEq, Eq, Structural)]
pub enum SettingsFocus {
    Sidebar(usize),
    Row(usize),
}

/// Where the parts of the window stand.
#[derive(Debug, Clone, PartialEq, Eq)]
pub struct SettingsLayout {
    pub window: Rect,
    pub title: Rect,
    pub sidebar: Rect,
    /// From one pane of the sidebar to the next.
    pub sidebar_row: i32,
    pub rows: Vec<Rect>,
}

/// A pane of the sidebar.
#[derive(Debug, Clone, PartialEq, Eq)]
pub struct PaneRow {
    pub pane: Pane,
    pub title: String,
}

/// How far a slider is drawn: pixels of its track, and percent.
#[derive(Debug, Clone, Copy, PartialEq, Eq, Structural)]
pub struct SliderLevel {
    pub filled: i32,
    pub percent: i32,
}

/// The user's name, and the two colours of the avatar.
#[derive(Debug, Clone, PartialEq, Eq)]
pub struct UserCard {
    pub name: String,
    pub outer: u32,
    pub inner: u32,
}

// ---- rows ------------------------------------------------------------------------------

pub open spec fn tone_color(tone: SettingTone) -> u32 {
    match tone {
        SettingTone::Neutral => GAME_ACCENT,
        SettingTone::Positive => POSITIVE,
        SettingTone::Warning => WARNING,
        SettingTone::Muted => MUTED,
    }
}

pub fn status_colour(tone: SettingTone) -> (color: u32)
    ensures
        color == tone_color(tone),
{
    match tone {
        SettingTone::Neutral => GAME_ACCENT,
        SettingTone::Positive => POSITIVE,
        SettingTone::Warning => WARNING,
        SettingTone::Muted => MUTED,
    }
}

/// A ring of two pixels, where there is room for one.
pub open spec fn ring_marks(before: Seq<Mark>, place: Rect) -> Seq<Mark> {
    let (x, y) = (place.origin.x as int, place.origin.y as int);
    let (width, height) = (place.size.width as int, place.size.height as int);
    if width < 4 || height < 4 {
        before
    } else {
        before.push(Mark::Fill(area(x, y, width, 2), FOCUS)).push(
            Mark::Fill(area(x, place.bottom_edge() - 2, width, 2), FOCUS),
        ).push(Mark::Fill(area(x, y, 2, height), FOCUS)).push(
            Mark::Fill(area(place.right_edge() - 2, y, 2, height), FOCUS),
        )
    }
}

fn draw_focus_ring(sheet: &mut Sheet, place: Rect)
    ensures
        final(sheet)@ == ring_marks(old(sheet)@, place),
{
    if place.size.width < 4 || place.size.height < 4 {
        return;
    }
    let (x, y): (i128, i128) = (place.origin.x as i128, place.origin.y as i128);
    let (width, height): (i128, i128) = (place.size.width as i128, place.size.height as i128);
    sheet.fill(area_of(x, y, width, 2), FOCUS);
    sheet.fill(area_of(x, place.bottom() as i128 - 2, width, 2), FOCUS);
    sheet.fill(area_of(x, y, 2, height), FOCUS);
    sheet.fill(area_of(place.right() as i128 - 2, y, 2, height), FOCUS);
}

pub open spec fn row_label(place: Rect, label: Seq<char>) -> Mark {
    Mark::Label(
        area(
            place.origin.x + 12,
            place.origin.y + half(place.size.height - 7),
            measured(label) + 2,
            7,
        ),
        TEXT,
        label,
    )
}

fn draw_label(sheet: &mut Sheet, place: Rect, label: &str)
    ensures
        final(sheet)@ == old(sheet)@.push(row_label(place, label@)),
{
    sheet.label(
        area_of(
            place.origin.x as i128 + 12,
            place.origin.y as i128 + half_of(place.size.height as i128 - 7),
            text_width(label) as i128 + 2,
            7,
        ),
        TEXT,
        label,
    );
}

/// A switch at the end of the row.
pub open spec fn toggle_marks(before: Seq<Mark>, place: Rect, label: Seq<char>, on: bool) -> Seq<Mark> {
    let pill = area(
        place.right_edge() - 56,
        place.origin.y + half(place.size.height - 26),
        44,
        26,
    );
    before.push(row_label(place, label)).push(
        Mark::Round(
            pill,
            13,
            if on {
                ACCENT
            } else {
                KNOB_OFF
            },
        ),
    ).push(
        disc(
            if on {
                pill.right_edge() - 13
            } else {
                pill.origin.x + 13
            },
            pill.origin.y + 13,
            11,
            WHITE,
        ),
    )
}

fn draw_toggle(sheet: &mut Sheet, place: Rect, label: &str, on: bool)
    ensures
        final(sheet)@ == toggle_marks(old(sheet)@, place, label@, on),
{
    draw_label(sheet, place, label);
    let pill = area_of(
        place.right() as i128 - 56,
        place.origin.y as i128 + half_of(place.size.height as i128 - 26),
        44,
        26,
    );
    sheet.round(
        pill,
        13,
        if on {
            ACCENT
        } else {
            KNOB_OFF
        },
    );
    let knob: i128 = if on {
        pill.right() as i128 - 13
    } else {
        pill.origin.x as i128 + 13
    };
    sheet.circle(knob, pill.origin.y as i128 + 13, 11, WHITE);
}

/// A track with a knob, and the level in percent.
pub open spec fn slider_marks(before: Seq<Mark>, place: Rect, label: Seq<char>, level: SliderLevel) -> Seq<
    Mark,
> {
    let track = area(
        place.right_edge() - 190,
        place.origin.y + half(place.size.height as int) - 3,
        130,
        6,
    );
    let base = before.push(row_label(place, label)).push(Mark::Round(track, 3, TRACK));
    let filled = if level.filled > 0 {
        base.push(
            Mark::Round(
                area(track.origin.x as int, track.origin.y as int, level.filled as int, 6),
                3,
                ACCENT,
            ),
        )
    } else {
        base
    };
    let percent = signed_decimal(level.percent as int) + "%"@;
    filled.push(disc(track.origin.x + level.filled, track.origin.y + 3, 10, WHITE)).push(
        Mark::Label(
            area(track.right_edge() + 8, track.origin.y - 1, measured(percent) + 2, 7),
            MUTED,
            percent,
        ),
    )
}

fn draw_slider(sheet: &mut Sheet, place: Rect, label: &str, level: SliderLevel)
    ensures
        final(sheet)@ == slider_marks(old(sheet)@, place, label@, level),
{
    draw_label(sheet, place, label);
    let track = area_of(
        place.right() as i128 - 190,
        place.origin.y as i128 + half_of(place.size.height as i128) - 3,
        130,
        6,
    );
    sheet.round(track, 3, TRACK);
    let (x, y): (i128, i128) = (track.origin.x as i128, track.origin.y as i128);
    if level.filled > 0 {
        sheet.round(area_of(x, y, level.filled as i128, 6), 3, ACCENT);
    }
    sheet.circle(x + level.filled as i128, y + 3, 10, WHITE);
    let number = signed_decimal_text(level.percent);
    let percent = concat2(number.as_str(), "%");
    sheet.label(
        area_of(track.right() as i128 + 8, y - 1, text_width(percent.as_str()) as i128 + 2, 7),
        MUTED,
        percent.as_str(),
    );
}

/// The chosen option; nothing where there is none of that number.
pub open spec fn chosen(options: Seq<Seq<char>>, selected: usize) -> Seq<char> {
    if selected < options.len() {
        options[selected as int]
    } else {
        Seq::empty()
    }
}

/// The chosen option in a box.
pub open spec fn select_marks(
    before: Seq<Mark>,
    place: Rect,
    label: Seq<char>,
    option: Seq<char>,
) -> Seq<Mark> {
    let text = option + " v"@;
    let wide = measured(text);
    let field = area(
        place.right_edge() - wide - 36,
        place.origin.y + half(place.size.height - 24),
        wide + 24,
        24,
    );
    before.push(row_label(place, label)).push(Mark::Round(field, 6, CHOICE)).push(
        Mark::Label(area(field.origin.x + 10, field.origin.y + 8, wide + 2, 7), ACCENT, text),
    )
}

fn draw_select(sheet: &mut Sheet, place: Rect, label: &str, option: &str)
    ensures
        final(sheet)@ == select_marks(old(sheet)@, place, label@, option@),
{
    draw_label(sheet, place, label);
    let text = concat2(option, " v");
    let wide: i128 = text_width(text.as_str()) as i128;
    let field = area_of(
        place.right() as i128 - wide - 36,
        place.origin.y as i128 + half_of(place.size.height as i128 - 24),
        wide + 24,
        24,
    );
    sheet.round(field, 6, CHOICE);
    sheet.label(
        area_of(field.origin.x as i128 + 10, field.origin.y as i128 + 8, wide + 2, 7),
        ACCENT,
        text.as_str(),
    );
}

/// A text at the end of the row.
pub open spec fn end_label(place: Rect, top: int, height: int, color: u32, text: Seq<char>) -> Mark {
    Mark::Label(
        area(place.right_edge() - measured(text) - 16, top, measured(text) + 2, height),
        color,
        text,
    )
}

fn draw_end_label(sheet: &mut Sheet, place: Rect, top: i128, height: i128, color: u32, text: &str)
    ensures
        final(sheet)@ == old(sheet)@.push(
            end_label(place, top as int, height as int, color, text@),
        ),
{
    let wide: i128 = text_width(text) as i128;
    sheet.label(area_of(place.right() as i128 - wide - 16, top, wide + 2, height), color, text);
}

pub open spec fn status_marks(
    before: Seq<Mark>,
    place: Rect,
    label: Seq<char>,
    value: Seq<char>,
    detail: Seq<char>,
    tone: SettingTone,
) -> Seq<Mark> {
    let (x, y, wide) = (
        place.origin.x as int,
        place.origin.y as int,
        place.size.width - 52,
    );
    before.push(disc(x + 24, y + half(place.size.height as int), 6, tone_color(tone))).push(
        Mark::Label(area(x + 40, y + 8, wide, 8), TEXT, label),
    ).push(Mark::Label(area(x + 40, y + 24, wide, 8), tone_color(tone), value)).push(
        end_label(place, y + 8, 8, MUTED, detail),
    )
}

fn draw_status(
    sheet: &mut Sheet,
    place: Rect,
    label: &str,
    value: &str,
    detail: &str,
    tone: SettingTone,
)
    ensures
        final(sheet)@ == status_marks(old(sheet)@, place, label@, value@, detail@, tone),
{
    let color: u32 = status_colour(tone);
    let (x, y): (i128, i128) = (place.origin.x as i128, place.origin.y as i128);
    let wide: i128 = place.size.width as i128 - 52;
    sheet.circle(x + 24, y + half_of(place.size.height as i128), 6, color);
    sheet.label(area_of(x + 40, y + 8, wide, 8), TEXT, label);
    sheet.label(area_of(x + 40, y + 24, wide, 8), color, value);
    draw_end_label(sheet, place, y + 8, 8, MUTED, detail);
}

pub open spec fn action_marks(before: Seq<Mark>, place: Rect, label: Seq<char>) -> Seq<Mark> {
    let wide = measured(label);
    let button = area(
        place.origin.x + 12,
        place.origin.y + half(place.size.height - 26),
        wide + 24,
        26,
    );
    before.push(Mark::Round(button, 8, ACCENT_SOFT)).push(
        Mark::Label(area(button.origin.x + 12, button.origin.y + 9, wide + 2, 7), ACCENT, label),
    )
}

fn draw_action(sheet: &mut Sheet, place: Rect, label: &str)
    ensures
        final(sheet)@ == action_marks(old(sheet)@, place, label@),
{
    let wide: i128 = text_width(label) as i128;
    let button = area_of(
        place.origin.x as i128 + 12,
        place.origin.y as i128 + half_of(place.size.height as i128 - 26),
        wide + 24,
        26,
    );
    sheet.round(button, 8, ACCENT_SOFT);
    sheet.label(
        area_of(button.origin.x as i128 + 12, button.origin.y as i128 + 9, wide + 2, 7),
        ACCENT,
        label,
    );
}

pub open spec fn user_marks(before: Seq<Mark>, place: Rect, user: UserCard) -> Seq<Mark> {
    let cx = place.origin.x + 40;
    let cy = place.origin.y + half(place.size.height as int);
    before.push(disc(cx, cy, 28, user.outer)).push(disc(cx, cy, 18, user.inner)).push(
        Mark::Label(area(cx + 40, cy - 8, measured(user.name@) + 2, 7), TEXT, user.name@),
    ).push(end_label(place, cy - 4, 7, ACCENT, "Edit"@))
}

fn draw_user(sheet: &mut Sheet, place: Rect, user: &UserCard)
    ensures
        final(sheet)@ == user_marks(old(sheet)@, place, *user),
{
    let cx: i128 = place.origin.x as i128 + 40;
    let cy: i128 = place.origin.y as i128 + half_of(place.size.height as i128);
    sheet.circle(cx, cy, 28, user.outer);
    sheet.circle(cx, cy, 18, user.inner);
    let name = user.name.as_str();
    sheet.label(area_of(cx + 40, cy - 8, text_width(name) as i128 + 2, 7), TEXT, name);
    draw_end_label(sheet, place, cy - 4, 7, ACCENT, "Edit");
}

pub open spec fn section_marks(
    before: Seq<Mark>,
    place: Rect,
    title: Seq<char>,
    description: Seq<char>,
) -> Seq<Mark> {
    let (x, y) = (place.origin.x as int, place.origin.y as int);
    before.push(Mark::Fill(area(x + 2, y + 8, 3, place.size.height - 16), GAME_ACCENT)).push(
        Mark::Label(area(x + 14, y + 6, place.size.width - 18, 8), TEXT, title),
    ).push(Mark::Label(area(x + 14, y + 23, place.size.width - 18, 8), MUTED, description))
}

fn draw_section(sheet: &mut Sheet, place: Rect, title: &str, description: &str)
    ensures
        final(sheet)@ == section_marks(old(sheet)@, place, title@, description@),
{
    let (x, y): (i128, i128) = (place.origin.x as i128, place.origin.y as i128);
    let wide: i128 = place.size.width as i128 - 18;
    sheet.fill(area_of(x + 2, y + 8, 3, place.size.height as i128 - 16), GAME_ACCENT);
    sheet.label(area_of(x + 14, y + 6, wide, 8), TEXT, title);
    sheet.label(area_of(x + 14, y + 23, wide, 8), MUTED, description);
}

/// One row: a section's heading, or a card with what the row holds.
pub open spec fn row_marks(
    before: Seq<Mark>,
    place: Rect,
    row: Row,
    level: SliderLevel,
    user: UserCard,
    focused: bool,
) -> Seq<Mark> {
    let ground = before.push(Mark::Round(place, 10, ROW));
    let card = if focused {
        ring_marks(ground, place)
    } else {
        ground
    };
    match row {
        Row::Section { title, description } => section_marks(before, place, title, description),
        Row::Toggle { key, label, value } => toggle_marks(card, place, label, value),
        Row::Slider { key, label, value, min, max } => slider_marks(card, place, label, level),
        Row::Select { key, label, options, selected } => select_marks(
            card,
            place,
            label,
            chosen(options, selected),
        ),
        Row::Info { label, value } => card.push(row_label(place, label)).push(
            end_label(place, place.origin.y + half(place.size.height - 7), 7, MUTED, value),
        ),
        Row::Status { label, value, detail, tone } => status_marks(
            card,
            place,
            label,
            value,
            detail,
            tone,
        ),
        Row::Action { key, label } => action_marks(card, place, label),
        Row::UserCard => user_marks(card, place, user),
    }
}

/// Draws one row.
pub fn paint_row(
    sheet: &mut Sheet,
    place: Rect,
    setting: &Setting,
    level: SliderLevel,
    user: &UserCard,
    focused: bool,
)
    ensures
        final(sheet)@ == row_marks(old(sheet)@, place, setting@, level, *user, focused),
{
    match setting {
        Setting::Section { title, description } => {
            draw_section(sheet, place, title.as_str(), description.as_str());
            return;
        },
        _ => {},
    }
    sheet.round(place, 10, ROW);
    if focused {
        draw_focus_ring(sheet, place);
    }
    match setting {
        Setting::Section { title, description } => {},
        Setting::Toggle { key, label, value } => draw_toggle(sheet, place, label.as_str(), *value),
        Setting::Slider { key, label, value, min, max } => draw_slider(
            sheet,
            place,
            label.as_str(),
            level,
        ),
        Setting::Select { key, label, options, selected } => {
            if *selected < options.len() {
                assert(views(options@)[*selected as int] == options@[*selected as int]@);
                draw_select(sheet, place, label.as_str(), options[*selected].as_str());
            } else {
                let none = String::new();
                assert(none@ =~= Seq::<char>::empty());
                draw_select(sheet, place, label.as_str(), none.as_str());
            }
        },
        Setting::Info { label, value } => {
            draw_label(sheet, place, label.as_str());
            let top: i128 = place.origin.y as i128 + half_of(place.size.height as i128 - 7);
            draw_end_label(sheet, place, top, 7, MUTED, value.as_str());
        },
        Setting::Status { label, value, detail, tone } => draw_status(
            sheet,
            place,
            label.as_str(),
            value.as_str(),
            detail.as_str(),
            *tone,
        ),
        Setting::Action { key, label } => draw_action(sheet, place, label.as_str()),
        Setting::UserCard => draw_user(sheet, place, user),
    }
}

// ---- the window ------------------------------------------------------------------------

/// The shadow, the card, its three lights and the title.
pub open spec fn window_marks(layout: SettingsLayout, title: Seq<char>, opaque: bool) -> Seq<Mark> {
    let window = layout.window;
    let (x, y) = (window.origin.x as int, window.origin.y as int);
    Seq::<Mark>::empty().push(Mark::Clear(0)).push(
        Mark::Round(area(x + 8, window.bottom_edge(), window.size.width - 16, 10), 5, SHADOW),
    ).push(
        Mark::Round(
            window,
            16,
            if opaque {
                CARD_OPAQUE
            } else {
                CARD
            },
        ),
    ).push(disc(x + 18, y + 18, 6, LIGHT_RED)).push(disc(x + 36, y + 18, 6, LIGHT_AMBER)).push(
        disc(x + 54, y + 18, 6, LIGHT_GREEN),
    ).push(
        Mark::Label(
            area(
                layout.title.origin.x + half(layout.title.size.width - measured(title)),
                layout.title.origin.y + 10,
                measured(title) + 4,
                7,
            ),
            TEXT,
            title,
        ),
    ).push(Mark::Fill(layout.sidebar, SIDEBAR))
}

/// A pane of the sidebar: on a ground where it is shown, with a ring where it
/// has the focus.
pub open spec fn pane_marks(
    before: Seq<Mark>,
    layout: SettingsLayout,
    index: int,
    entry: PaneRow,
    pane: Pane,
    focus: Option<SettingsFocus>,
) -> Seq<Mark> {
    let row = area(
        layout.sidebar.origin.x + 8,
        layout.sidebar.origin.y + index * layout.sidebar_row,
        layout.sidebar.size.width - 16,
        layout.sidebar_row - 4,
    );
    let ground = if entry.pane == pane {
        before.push(Mark::Round(row, 8, ACCENT))
    } else {
        before
    };
    let ringed = if focus == Some(SettingsFocus::Sidebar(index as usize)) {
        ring_marks(ground, row)
    } else {
        ground
    };
    ringed.push(
        Mark::Label(
            area(
                row.origin.x + 12,
                row.origin.y + half(row.size.height - 7),
                measured(entry.title@) + 2,
                7,
            ),
            if entry.pane == pane {
                WHITE
            } else {
                TEXT
            },
            entry.title@,
        ),
    )
}

pub open spec fn sidebar_marks(
    before: Seq<Mark>,
    layout: SettingsLayout,
    panes: Seq<PaneRow>,
    pane: Pane,
    focus: Option<SettingsFocus>,
) -> Seq<Mark>
    decreases panes.len(),
{
    if panes.len() == 0 {
        before
    } else {
        pane_marks(
            sidebar_marks(before, layout, panes.drop_last(), pane, focus),
            layout,
            panes.len() - 1,
            panes.last(),
            pane,
            focus,
        )
    }
}

/// How many of the first `count` rows are shown, from `index` on: those before
/// the first that does not fit.
pub open spec fn shown_rows(places: Seq<Rect>, bottom: int, index: nat, count: nat) -> nat
    decreases count - index,
{
    if index >= count || places[index as int].bottom_edge() > bottom {
        index
    } else {
        shown_rows(places, bottom, index + 1, count)
    }
}

pub open spec fn rows_marks(
    before: Seq<Mark>,
    places: Seq<Rect>,
    rows: Seq<Row>,
    levels: Seq<SliderLevel>,
    user: UserCard,
    focus: Option<SettingsFocus>,
    count: nat,
) -> Seq<Mark>
    decreases count,
{
    if count == 0 {
        before
    } else {
        let index = count - 1;
        row_marks(
            rows_marks(before, places, rows, levels, user, focus, index as nat),
            places[index],
            rows[index],
            levels[index],
            user,
            focus == Some(SettingsFocus::Row(index as usize)),
        )
    }
}

/// What the settings window shows.
#[derive(Debug, Clone, PartialEq, Eq)]
pub struct SettingsView {
    pub pane: Pane,
    pub title: String,
    pub panes: Vec<PaneRow>,
    pub rows: Vec<Setting>,
    /// For each row how far its slider is drawn, if it is one.
    pub levels: Vec<SliderLevel>,
    pub user: UserCard,
}

/// The whole window.
pub open spec fn settings_marks(
    layout: SettingsLayout,
    view: SettingsView,
    focus: Option<SettingsFocus>,
    opaque: bool,
) -> Seq<Mark> {
    let count = smaller(layout.rows@.len() as int, view.rows@.len() as int) as nat;
    rows_marks(
        sidebar_marks(
            window_marks(layout, view.title@, opaque),
            layout,
            view.panes@,
            view.pane,
            focus,
        ),
        layout.rows@,
        rows_of(view.rows@),
        view.levels@,
        view.user,
        focus,
        shown_rows(layout.rows@, layout.window.bottom_edge() - 8, 0, count),
    )
}

fn draw_window(layout: &SettingsLayout, title: &str, opaque: bool) -> (sheet: Sheet)
    ensures
        sheet@ == window_marks(*layout, title@, opaque),
{
    let window = layout.window;
    let (x, y): (i128, i128) = (window.origin.x as i128, window.origin.y as i128);
    let mut sheet = Sheet::new();
    sheet.clear(0);
    sheet.round(
        area_of(x + 8, window.bottom() as i128, window.size.width as i128 - 16, 10),
        5,
        SHADOW,
    );
    sheet.round(
        window,
        16,
        if opaque {
            CARD_OPAQUE
        } else {
            CARD
        },
    );
    sheet.circle(x + 18, y + 18, 6, LIGHT_RED);
    sheet.circle(x + 36, y + 18, 6, LIGHT_AMBER);
    sheet.circle(x + 54, y + 18, 6, LIGHT_GREEN);
    let wide: i128 = text_width(title) as i128;
    sheet.label(
        area_of(
            layout.title.origin.x as i128 + half_of(layout.title.size.width as i128 - wide),
            layout.title.origin.y as i128 + 10,
            wide + 4,
            7,
        ),
        TEXT,
        title,
    );
    sheet.fill(layout.sidebar, SIDEBAR);
    sheet
}

fn draw_pane(
    sheet: &mut Sheet,
    layout: &SettingsLayout,
    index: usize,
    entry: &PaneRow,
    pane: Pane,
    focus: Option<SettingsFocus>,
)
    ensures
        final(sheet)@ == pane_marks(old(sheet)@, *layout, index as int, *entry, pane, focus),
{
    proof {
        assert(-0x8000_0000 * 0x1_0000_0000_0000_0000 <= index * layout.sidebar_row <= 0x8000_0000
            * 0x1_0000_0000_0000_0000) by (nonlinear_arith)
            requires
                0 <= index <= 0xffff_ffff_ffff_ffff,
                -0x8000_0000 <= layout.sidebar_row <= 0x7fff_ffff,
        ;
    }
    let row = area_of(
        layout.sidebar.origin.x as i128 + 8,
        layout.sidebar.origin.y as i128 + index as i128 * layout.sidebar_row as i128,
        layout.sidebar.size.width as i128 - 16,
        layout.sidebar_row as i128 - 4,
    );
    let active = entry.pane == pane;
    if active {
        sheet.round(row, 8, ACCENT);
    }
    let focused = match focus {
        Some(SettingsFocus::Sidebar(at)) => at == index,
        _ => false,
    };
    if focused {
        draw_focus_ring(sheet, row);
    }
    let title = entry.title.as_str();
    sheet.label(
        area_of(
            row.origin.x as i128 + 12,
            row.origin.y as i128 + half_of(row.size.height as i128 - 7),
            text_width(title) as i128 + 2,
            7,
        ),
        if active {
            WHITE
        } else {
            TEXT
        },
        title,
    );
}

/// Draws the settings window.
pub fn paint_settings(
    layout: &SettingsLayout,
    view: &SettingsView,
    focus: Option<SettingsFocus>,
    opaque: bool,
) -> (sheet: Sheet)
    requires
        view.levels@.len() == view.rows@.len(),
    ensures
        sheet@ == settings_marks(*layout, *view, focus, opaque),
{
    let mut sheet = draw_window(layout, view.title.as_str(), opaque);
    let ghost bare = sheet@;
    let ghost panes = view.panes@;
    let mut index: usize = 0;
    assert(panes.subrange(0, 0) =~= Seq::<PaneRow>::empty());
    while index < view.panes.len()
        invariant
            index <= view.panes.len(),
            panes == view.panes@,
            sheet@ == sidebar_marks(
                bare,
                *layout,
                panes.subrange(0, index as int),
                view.pane,
                focus,
            ),
        decreases view.panes.len() - index,
    {
        let ghost next = panes.subrange(0, index + 1);
        assert(next.drop_last() =~= panes.subrange(0, index as int));
        assert(next.last() == panes[index as int]);
        draw_pane(&mut sheet, layout, index, &view.panes[index], view.pane, focus);
        index += 1;
    }
    assert(panes.subrange(0, index as int) =~= panes);

    let ghost listed = sheet@;
    let bottom: i64 = layout.window.bottom() as i64 - 8;
    let count: usize = if layout.rows.len() <= view.rows.len() {
        layout.rows.len()
    } else {
        view.rows.len()
    };
    let mut at: usize = 0;
    while at < count && layout.rows[at].bottom() as i64 <= bottom
        invariant
            at <= count,
            count <= layout.rows.len(),
            count <= view.rows.len(),
            view.levels@.len() == view.rows@.len(),
            bottom == layout.window.bottom_edge() - 8,
            sheet@ == rows_marks(
                listed,
                layout.rows@,
                rows_of(view.rows@),
                view.levels@,
                view.user,
                focus,
                at as nat,
            ),
            shown_rows(layout.rows@, bottom as int, 0, count as nat) == shown_rows(
                layout.rows@,
                bottom as int,
                at as nat,
                count as nat,
            ),
        decreases count - at,
    {
        let focused = match focus {
            Some(SettingsFocus::Row(row)) => row == at,
            _ => false,
        };
        paint_row(
            &mut sheet,
            layout.rows[at],
            &view.rows[at],
            view.levels[at],
            &view.user,
            focused,
        );
        at += 1;
    }
    sheet
}

/// The renderer of the settings window, with its focus and material.
#[derive(Debug, Clone, Copy, PartialEq, Eq, Structural)]
pub struct SettingsRenderer {
    pub canvas: Canvas,
    pub focus: Option<SettingsFocus>,
    pub opaque_fallback: bool,
}

impl SettingsRenderer {
    pub fn new() -> (renderer: Self)
        ensures
            renderer.canvas.size == (Size { width: 0, height: 0 }),
            renderer.focus == Some(SettingsFocus::Sidebar(0)),
            !renderer.opaque_fallback,
    {
        SettingsRenderer {
            canvas: Canvas::new(),
            focus: Some(SettingsFocus::Sidebar(0)),
            opaque_fallback: false,
        }
    }

    pub fn set_focus(&mut self, focus: Option<SettingsFocus>)
        ensures
            *final(self) == (SettingsRenderer { focus, ..*old(self) }),
    {
        self.focus = focus;
    }

    /// Asks for an opaque material, to save work or to reduce transparency.
    pub fn set_opaque_fallback(&mut self, opaque: bool)
        ensures
            *final(self) == (SettingsRenderer { opaque_fallback: opaque, ..*old(self) }),
    {
        self.opaque_fallback = opaque;
    }

    /// The window, over a clear buffer as large as the output.
    pub fn element(&mut self, work_area: Rect, layout: &SettingsLayout, view: &SettingsView) -> (frame:
        Frame)
        requires
            view.levels@.len() == view.rows@.len(),
        ensures
            frame.origin == (Point { x: 0, y: 0 }),
            frame.size == at_least_one(work_area.size),
            frame.resized == (old(self).canvas.size != frame.size),
            *final(self) == (SettingsRenderer {
                canvas: Canvas { size: frame.size },
                ..*old(self)
            }),
            frame.sheet@ == settings_marks(
                *layout,
                *view,
                old(self).focus,
                old(self).opaque_fallback,
            ),
    {
        let size = surface_size(work_area.size);
        let resized = self.canvas.fit(size);
        let sheet = paint_settings(layout, view, self.focus, self.opaque_fallback);
        Frame { origin: Point { x: 0, y: 0 }, size, resized, sheet }
    }
}

// ---- laws ------------------------------------------------------------------------------

/// How states look: each tone has its own colour, and a choice shows the option
/// that is selected, or nothing where there is none such.
pub proof fn states_look_like_this(tone: SettingTone, options: Seq<Seq<char>>, selected: usize)
    ensures
        tone_color(tone) == 0x2b70_caff <==> tone == SettingTone::Neutral,
        tone_color(tone) == 0x238b_51ff <==> tone == SettingTone::Positive,
        tone_color(tone) == 0xae68_15ff <==> tone == SettingTone::Warning,
        tone_color(tone) == 0x7064_5aff <==> tone == SettingTone::Muted,
        selected < options.len() ==> chosen(options, selected) == options[selected as int],
        selected >= options.len() ==> chosen(options, selected).len() == 0,
{
}

/// A switch that is on is coloured and has its knob at the right; one that is off
/// is grey and has it at the left.
pub proof fn switches_show_where_they_are(before: Seq<Mark>, place: Rect, label: Seq<char>)
    requires
        100 <= place.size.width <= 0x1_0000 && 26 <= place.size.height <= 0x1_0000,
        0 <= place.origin.x <= 0x1_0000 && 0 <= place.origin.y <= 0x1_0000,
    ensures
        ({
            let on = toggle_marks(before, place, label, true);
            let off = toggle_marks(before, place, label, false);
            let right = place.origin.x + place.size.width;
            &&& on.len() == before.len() + 3 && off.len() == before.len() + 3
            &&& on[before.len() as int] == row_label(place, label)
            &&& on[before.len() as int + 1] matches Mark::Round(pill, radius, color) && color
                == 0xa876_0eff && pill.origin.x == right - 56 && pill.size.width == 44
            &&& off[before.len() as int + 1] matches Mark::Round(pill, radius, color) && color
                == 0xc4bc_b4ff
            &&& on.last() matches Mark::Circle(x, y, radius, color) && x == right - 25
            &&& off.last() matches Mark::Circle(x, y, radius, color) && x == right - 43
        }),
{
}

/// A row is drawn by its kind, on a card with a ring where it has the focus.
pub proof fn rows_are_drawn_by_their_kind(
    before: Seq<Mark>,
    place: Rect,
    row: Row,
    level: SliderLevel,
    user: UserCard,
    focused: bool,
)
    ensures
        ({
            let drawn = row_marks(before, place, row, level, user, focused);
            let ground = before.push(Mark::Round(place, 10, 0xfffe_fcff));
            let card = if focused {
                ring_marks(ground, place)
            } else {
                ground
            };
            &&& row matches Row::Toggle { key, label, value } ==> drawn == toggle_marks(
                card,
                place,
                label,
                value,
            )
            &&& row matches Row::Slider { key, label, value, min, max } ==> drawn == slider_marks(
                card,
                place,
                label,
                level,
            )
            &&& row matches Row::Select { key, label, options, selected } ==> drawn == select_marks(
                card,
                place,
                label,
                chosen(options, selected),
            )
            &&& row matches Row::Action { key, label } ==> drawn == action_marks(card, place, label)
            &&& row matches Row::Status { label, value, detail, tone } ==> drawn == status_marks(
                card,
                place,
                label,
                value,
                detail,
                tone,
            )
            &&& row matches Row::Info { label, value } ==> drawn.len() == card.len() + 2
                && drawn[card.len() as int] == row_label(place, label)
            &&& row == Row::UserCard ==> drawn == user_marks(card, place, user)
        }),
{
}

/// The knob of a slider stands where it is filled to, 190 pixels from the end of
/// its row on, and its percentage is told behind it.
pub proof fn sliders_show_their_level(
    before: Seq<Mark>,
    place: Rect,
    label: Seq<char>,
    level: SliderLevel,
)
    requires
        200 <= place.size.width <= 0x1_0000 && 26 <= place.size.height <= 0x1_0000,
        0 <= place.origin.x <= 0x1_0000 && 0 <= place.origin.y <= 0x1_0000,
        0 <= level.filled <= 130,
    ensures
        ({
            let drawn = slider_marks(before, place, label, level);
            let left = place.origin.x + place.size.width - 190;
            let last = drawn.len() - 1;
            &&& drawn[last] matches Mark::Label(area, color, text) && text == signed_decimal(
                level.percent as int,
            ) + "%"@
            &&& drawn[last - 1] matches Mark::Circle(x, y, radius, color) && x == left
                + level.filled
            &&& level.filled > 0 ==> (drawn[last - 2] matches Mark::Round(bar, radius, color)
                && bar.origin.x == left && bar.size.width == level.filled)
            &&& drawn.len() == before.len() + (if level.filled > 0 {
                5int
            } else {
                4
            })
        }),
{
}

} // verus!
