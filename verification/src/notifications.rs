//! The notification centre and its toasts.

use crate::drawing::{
    centred, shortened, truncate, Canvas, Frame, Mark, Sheet,
};
use crate::geometry::{area, area_of, seen_from, local_to, Point, Rect, Size};
use crate::num::{larger, smaller};
use crate::text::{concat2, decimal, decimal_text};
use vstd::prelude::*;
use vstd::string::*;

verus! {

pub const PANEL_WIDTH: i32 = 360;

pub const PANEL_MARGIN: i32 = 16;

pub const HEADER_HEIGHT: i32 = 58;

pub const GROUP_HEIGHT: i32 = 94;

pub const GROUP_GAP: i32 = 10;

/// From one card to the next.
pub const GROUP_STEP: i128 = 104;

pub const MAX_TOASTS: usize = 3;

pub const MAX_OPEN_GROUPS: usize = 5;

pub const PANEL: u32 = 0xeff6_fcf8;

pub const CARD: u32 = 0xffff_fffa;

pub const CARD_UNREAD: u32 = 0xe2f5_fcff;

pub const TEXT: u32 = 0x1422_30ff;

pub const MUTED: u32 = 0x586b_7aff;

pub const SUBTLE: u32 = 0x8091_9eff;

pub const ACCENT: u32 = 0x087f_b2ff;

pub const DO_NOT_DISTURB: u32 = 0x785c_a2ff;

pub const ERROR: u32 = 0xb834_3fff;

pub const WARNING: u32 = 0xad6f_16ff;

pub const SUCCESS: u32 = 0x2b9e_60ff;

#[derive(Debug, Clone, Copy, PartialEq, Eq, Structural)]
pub enum NotificationLevel {
    Info,
    Success,
    Warning,
    Error,
    Critical,
}

#[derive(Debug, Clone, Copy, PartialEq, Eq, Structural)]
pub struct NotificationPreferences {
    pub enabled: bool,
    pub do_not_disturb: bool,
}

/// The latest notification of a group.
#[derive(Debug, Clone, PartialEq, Eq)]
pub struct NotificationText {
    pub level: NotificationLevel,
    pub source: String,
    pub title: String,
    pub body: String,
}

/// The notifications of one source.
#[derive(Debug, Clone, PartialEq, Eq)]
pub struct NotificationGroup {
    pub latest: Option<NotificationText>,
    pub unread: usize,
    pub count: usize,
}

// ---- geometry --------------------------------------------------------------------------

/// How many groups are shown at most.
pub open spec fn group_limit(open: bool) -> int {
    if open {
        MAX_OPEN_GROUPS as int
    } else {
        MAX_TOASTS as int
    }
}

pub open spec fn panel_area(work_area: Rect, bar_height: i32, open: bool, group_count: nat) -> Rect {
    let visible = smaller(group_count as int, group_limit(open));
    let wanted = if open {
        58 + visible * 104 + 16
    } else {
        visible * 104 + 8
    };
    area(
        work_area.right_edge() - 376,
        work_area.origin.y + bar_height + 10,
        larger(smaller(360, work_area.size.width - 16), 0),
        larger(smaller(wanted, work_area.size.height - (bar_height + 20)), 0),
    )
}

/// The floating notification surface, below a top bar of this height.
pub fn panel_rect(work_area: Rect, bar_height: i32, open: bool, group_count: usize) -> (panel: Rect)
    ensures
        panel == panel_area(work_area, bar_height, open, group_count as nat),
{
    let limit: usize = if open {
        MAX_OPEN_GROUPS
    } else {
        MAX_TOASTS
    };
    let visible: i128 = if group_count <= limit {
        group_count as i128
    } else {
        limit as i128
    };
    let wanted: i128 = if open {
        HEADER_HEIGHT as i128 + visible * GROUP_STEP + 16
    } else {
        visible * GROUP_STEP + 8
    };
    let room: i128 = work_area.size.height as i128 - (bar_height as i128 + 20);
    let height: i128 = if wanted <= room {
        wanted
    } else if room > 0 {
        room
    } else {
        0
    };
    let wide: i128 = work_area.size.width as i128 - 16;
    let width: i128 = if wide >= PANEL_WIDTH as i128 {
        PANEL_WIDTH as i128
    } else if wide > 0 {
        wide
    } else {
        0
    };
    area_of(
        work_area.right() as i128 - PANEL_WIDTH as i128 - PANEL_MARGIN as i128,
        work_area.origin.y as i128 + bar_height as i128 + 10,
        width,
        height,
    )
}

pub open spec fn group_area(panel: Rect, index: nat, open: bool) -> Rect {
    let top = if open {
        58int
    } else {
        4
    };
    area(
        panel.origin.x + 8,
        panel.origin.y + top + index * 104,
        larger(panel.size.width - 16, 0),
        94,
    )
}

/// The card of one group, for drawing and for the pointer.
pub fn group_rect(panel: Rect, index: usize, open: bool) -> (card: Rect)
    ensures
        card == group_area(panel, index as nat, open),
{
    let top: i128 = if open {
        HEADER_HEIGHT as i128
    } else {
        4
    };
    let wide: i128 = panel.size.width as i128 - 16;
    area_of(
        panel.origin.x as i128 + 8,
        panel.origin.y as i128 + top + index as i128 * GROUP_STEP,
        if wide > 0 {
            wide
        } else {
            0
        },
        GROUP_HEIGHT as i128,
    )
}

// ---- drawing ---------------------------------------------------------------------------

pub open spec fn level_color(level: NotificationLevel) -> u32 {
    match level {
        NotificationLevel::Error | NotificationLevel::Critical => ERROR,
        NotificationLevel::Warning => WARNING,
        NotificationLevel::Success => SUCCESS,
        NotificationLevel::Info => ACCENT,
    }
}

pub fn level_colour(level: NotificationLevel) -> (color: u32)
    ensures
        color == level_color(level),
{
    match level {
        NotificationLevel::Error | NotificationLevel::Critical => ERROR,
        NotificationLevel::Warning => WARNING,
        NotificationLevel::Success => SUCCESS,
        NotificationLevel::Info => ACCENT,
    }
}

/// A group's card: an accent dot for the level, the source, the title and the
/// body, the number of alerts where there are several, and a dot where some
/// are unread.
pub open spec fn group_marks(before: Seq<Mark>, card: Rect, group: NotificationGroup) -> Seq<Mark> {
    match group.latest {
        None => before,
        Some(latest) => {
            let (x, y, width) = (
                card.origin.x as int,
                card.origin.y as int,
                card.size.width as int,
            );
            let texts = before.push(
                Mark::Round(
                    card,
                    12,
                    if group.unread > 0 {
                        CARD_UNREAD
                    } else {
                        CARD
                    },
                ),
            ).push(Mark::Round(area(x + 12, y + 16, 8, 8), 4, level_color(latest.level))).push(
                Mark::Label(
                    area(x + 28, y + 10, width - 42, 9),
                    MUTED,
                    shortened(latest.source@, 25),
                ),
            ).push(
                Mark::Label(
                    area(x + 28, y + 26, width - 42, 11),
                    TEXT,
                    shortened(latest.title@, 34),
                ),
            ).push(
                Mark::Label(
                    area(x + 28, y + 47, width - 42, 10),
                    MUTED,
                    shortened(latest.body@, 43),
                ),
            );
            let counted = if group.count > 1 {
                texts.push(
                    Mark::Label(
                        area(x + 28, y + 67, 100, 9),
                        SUBTLE,
                        decimal(group.count as nat) + " alerts"@,
                    ),
                )
            } else {
                texts
            };
            if group.unread > 0 {
                counted.push(
                    Mark::Round(area(card.right_edge() - 28, y + 14, 8, 8), 4, ACCENT),
                )
            } else {
                counted
            }
        },
    }
}

/// Draws one group's card.
pub fn draw_group(sheet: &mut Sheet, card: Rect, group: &NotificationGroup)
    ensures
        final(sheet)@ == group_marks(old(sheet)@, card, *group),
{
    match &group.latest {
        None => {},
        Some(latest) => {
            let unread = group.unread > 0;
            let (x, y): (i128, i128) = (card.origin.x as i128, card.origin.y as i128);
            let wide: i128 = card.size.width as i128 - 42;
            sheet.round(
                card,
                12,
                if unread {
                    CARD_UNREAD
                } else {
                    CARD
                },
            );
            sheet.round(area_of(x + 12, y + 16, 8, 8), 4, level_colour(latest.level));
            let source = truncate(latest.source.as_str(), 25);
            sheet.label(area_of(x + 28, y + 10, wide, 9), MUTED, source.as_str());
            let title = truncate(latest.title.as_str(), 34);
            sheet.label(area_of(x + 28, y + 26, wide, 11), TEXT, title.as_str());
            let body = truncate(latest.body.as_str(), 43);
            sheet.label(area_of(x + 28, y + 47, wide, 10), MUTED, body.as_str());
            if group.count > 1 {
                let number = decimal_text(group.count as u64);
                let count = concat2(number.as_str(), " alerts");
                sheet.label(area_of(x + 28, y + 67, 100, 9), SUBTLE, count.as_str());
            }
            if unread {
                sheet.round(area_of(card.right() as i128 - 28, y + 14, 8, 8), 4, ACCENT);
            }
        },
    }
}

pub open spec fn status_line(preferences: NotificationPreferences) -> Seq<char> {
    if !preferences.enabled {
        "Notifications are off"@
    } else if preferences.do_not_disturb {
        "Do Not Disturb is on"@
    } else {
        "Recent alerts"@
    }
}

pub open spec fn empty_line(preferences: NotificationPreferences) -> Seq<char> {
    if !preferences.enabled {
        "Turn notifications on in Settings"@
    } else if preferences.do_not_disturb {
        "Alerts are queued until Do Not Disturb ends"@
    } else {
        "No recent notifications"@
    }
}

/// The panel, and the header of the open centre.
pub open spec fn header_marks(panel: Rect, preferences: NotificationPreferences, open: bool) -> Seq<
    Mark,
> {
    let width = panel.size.width as int;
    let plain = Seq::<Mark>::empty().push(Mark::Clear(0)).push(
        Mark::Round(area(0, 0, width, panel.size.height as int), 18, PANEL),
    );
    if open {
        plain.push(
            Mark::Label(area(18, 14, width - 36, 12), TEXT, "Notification Centre"@),
        ).push(
            Mark::Label(
                area(18, 34, width - 36, 9),
                if preferences.do_not_disturb {
                    DO_NOT_DISTURB
                } else {
                    MUTED
                },
                status_line(preferences),
            ),
        )
    } else {
        plain
    }
}

/// The cards of the groups, one below the other.
pub open spec fn group_list_marks(
    before: Seq<Mark>,
    panel: Rect,
    groups: Seq<NotificationGroup>,
    open: bool,
) -> Seq<Mark>
    decreases groups.len(),
{
    if groups.len() == 0 {
        before
    } else {
        group_marks(
            group_list_marks(before, panel, groups.drop_last(), open),
            seen_from(group_area(panel, (groups.len() - 1) as nat, open), panel.origin),
            groups.last(),
        )
    }
}

/// The notification centre, or the stack of toasts.
pub open spec fn centre_marks(
    panel: Rect,
    groups: Seq<NotificationGroup>,
    preferences: NotificationPreferences,
    open: bool,
) -> Seq<Mark> {
    let shown = groups.subrange(0, smaller(groups.len() as int, group_limit(open)));
    let listed = group_list_marks(header_marks(panel, preferences, open), panel, shown, open);
    if groups.len() == 0 {
        listed.push(
            centred(
                0,
                panel.size.width as int,
                larger(panel.size.height as int / 2, 30),
                14,
                MUTED,
                empty_line(preferences),
                10,
            ),
        )
    } else {
        listed
    }
}

fn draw_header(panel: Rect, preferences: NotificationPreferences, open: bool) -> (sheet: Sheet)
    ensures
        sheet@ == header_marks(panel, preferences, open),
{
    let mut sheet = Sheet::new();
    let width: i128 = panel.size.width as i128;
    sheet.clear(0);
    sheet.round(area_of(0, 0, width, panel.size.height as i128), 18, PANEL);
    if open {
        sheet.label(area_of(18, 14, width - 36, 12), TEXT, "Notification Centre");
        let status = if !preferences.enabled {
            "Notifications are off"
        } else if preferences.do_not_disturb {
            "Do Not Disturb is on"
        } else {
            "Recent alerts"
        };
        let color: u32 = if preferences.do_not_disturb {
            DO_NOT_DISTURB
        } else {
            MUTED
        };
        sheet.label(area_of(18, 34, width - 36, 9), color, status);
    }
    sheet
}

/// The renderer of the notification surface. Its buffer is as large as the
/// panel, not as the output.
#[derive(Debug, Clone, Copy, PartialEq, Eq, Structural)]
pub struct NotificationRenderer {
    pub canvas: Canvas,
}

impl NotificationRenderer {
    pub fn new() -> (renderer: Self)
        ensures
            renderer.canvas.size == (Size { width: 0, height: 0 }),
    {
        NotificationRenderer { canvas: Canvas::new() }
    }

    /// The notification centre or the toast stack; nothing where the panel
    /// has no room.
    pub fn element(
        &mut self,
        work_area: Rect,
        bar_height: i32,
        groups: &Vec<NotificationGroup>,
        preferences: NotificationPreferences,
        open: bool,
    ) -> (frame: Option<Frame>)
        ensures
            ({
                let panel = panel_area(work_area, bar_height, open, groups@.len());
                match frame {
                    None => (panel.size.width <= 0 || panel.size.height <= 0) && *final(self)
                        == *old(self),
                    Some(f) => {
                        &&& panel.size.width > 0 && panel.size.height > 0
                        &&& f.origin == panel.origin
                        &&& f.size == panel.size
                        &&& f.resized == (old(self).canvas.size != panel.size)
                        &&& final(self).canvas.size == panel.size
                        &&& f.sheet@ == centre_marks(panel, groups@, preferences, open)
                    },
                }
            }),
    {
        let panel = panel_rect(work_area, bar_height, open, groups.len());
        if panel.size.width <= 0 || panel.size.height <= 0 {
            return None;
        }
        let resized = self.canvas.fit(panel.size);
        let mut sheet = draw_header(panel, preferences, open);
        let limit: usize = if open {
            MAX_OPEN_GROUPS
        } else {
            MAX_TOASTS
        };
        let shown: usize = if groups.len() <= limit {
            groups.len()
        } else {
            limit
        };
        let ghost start = sheet@;
        let ghost all = groups@.subrange(0, shown as int);
        let mut index: usize = 0;
        assert(all.subrange(0, 0) =~= Seq::<NotificationGroup>::empty());
        while index < shown
            invariant
                index <= shown <= groups.len(),
                all == groups@.subrange(0, shown as int),
                sheet@ == group_list_marks(start, panel, all.subrange(0, index as int), open),
            decreases shown - index,
        {
            let ghost next = all.subrange(0, index + 1);
            assert(next.drop_last() =~= all.subrange(0, index as int));
            assert(next.last() == groups@[index as int]);
            let card = local_to(group_rect(panel, index, open), panel.origin);
            draw_group(&mut sheet, card, &groups[index]);
            index += 1;
        }
        assert(all.subrange(0, index as int) =~= all);
        if groups.len() == 0 {
            let message = if !preferences.enabled {
                "Turn notifications on in Settings"
            } else if preferences.do_not_disturb {
                "Alerts are queued until Do Not Disturb ends"
            } else {
                "No recent notifications"
            };
            let half: i32 = panel.size.height / 2;
            let top: i32 = if half > 30 {
                half
            } else {
                30
            };
            sheet.write_centred((0, panel.size.width as i128), top as i128, 14, MUTED, message, 10);
        }
        Some(Frame { origin: panel.origin, size: panel.size, resized, sheet })
    }
}

// ---- laws ------------------------------------------------------------------------------

/// No two groups share a pixel: a card ends before the next one begins.
pub proof fn cards_do_not_overlap(panel: Rect, first: nat, second: nat, open: bool, point: Point)
    requires
        first < second,
        panel.origin.y + 58 + second * 104 + 94 <= i32::MAX,
    ensures
        !(group_area(panel, first, open).covers(point) && group_area(panel, second, open).covers(
            point,
        )),
{
    assert(first * 104 + 104 <= second * 104);
}

/// The panel never grows past the work area, however many groups there are.
pub proof fn the_panel_is_bounded(work_area: Rect, bar_height: i32, open: bool, group_count: nat)
    requires
        work_area.size.width >= 16,
        0 <= bar_height < i32::MAX - 20,
        work_area.size.height >= bar_height + 20,
    ensures
        0 <= panel_area(work_area, bar_height, open, group_count).size.width <= 360,
        panel_area(work_area, bar_height, open, group_count).size.width <= work_area.size.width,
        0 <= panel_area(work_area, bar_height, open, group_count).size.height <= 594,
        panel_area(work_area, bar_height, open, group_count).size.height <= work_area.size.height,
{
}

/// Where the panel stands: sixteen pixels from the right edge of the work area,
/// ten below the bar, 360 wide and as high as its cards need, where the work area
/// has room for it. It shows five groups where it is open and three otherwise.
pub proof fn the_panel_stands_at_the_right(
    work_area: Rect,
    bar_height: i32,
    group_count: nat,
)
    requires
        group_count <= 3,
        work_area.origin.x == 0 && work_area.origin.y == 0,
        376 <= work_area.size.width && 700 <= work_area.size.height,
        0 <= bar_height <= 60,
    ensures
        ({
            let open = panel_area(work_area, bar_height, true, group_count);
            let toasts = panel_area(work_area, bar_height, false, group_count);
            &&& open.origin.x + 376 == work_area.size.width && open.origin.y == bar_height + 10
            &&& open.size.width == 360 && toasts.size.width == 360
            &&& open.size.height == 74 + 104 * group_count
            &&& toasts.size.height == 8 + 104 * group_count
            &&& toasts.origin == open.origin
        }),
        group_limit(true) == 5 && group_limit(false) == 3,
{
}

/// Where a card stands on the panel: eight pixels from its side, below the
/// heading or four pixels below the top, each 104 below the one before it and 94
/// high.
pub proof fn cards_stand_below_each_other(panel: Rect, index: nat)
    requires
        0 <= panel.origin.x <= 0x10_0000 && 0 <= panel.origin.y <= 0x10_0000,
        16 <= panel.size.width,
        index <= 0x1000,
    ensures
        ({
            let open = group_area(panel, index, true);
            let toast = group_area(panel, index, false);
            &&& open.origin.x == panel.origin.x + 8 && open.origin.y == panel.origin.y + 58 + 104
                * index
            &&& toast.origin.x == panel.origin.x + 8 && toast.origin.y == panel.origin.y + 4 + 104
                * index
            &&& open.size.height == 94 && toast.size.height == 94
            &&& open.size.width == panel.size.width - 16 && toast.size.width == panel.size.width
                - 16
        }),
{
}

/// The colour tells the level: errors and critical messages have one, and
/// warnings, successes and information each their own.
pub proof fn levels_have_their_colours(level: NotificationLevel)
    ensures
        level_color(level) == 0xb834_3fff <==> level == NotificationLevel::Error || level
            == NotificationLevel::Critical,
        level_color(level) == 0xad6f_16ff <==> level == NotificationLevel::Warning,
        level_color(level) == 0x2b9e_60ff <==> level == NotificationLevel::Success,
        level_color(level) == 0x087f_b2ff <==> level == NotificationLevel::Info,
{
}

/// What the centre says of itself: that notifications are off, before that they
/// are held back, before that they are shown.
pub proof fn the_centre_tells_its_state(preferences: NotificationPreferences)
    ensures
        !preferences.enabled ==> status_line(preferences) == "Notifications are off"@ && empty_line(
            preferences,
        ) == "Turn notifications on in Settings"@,
        preferences.enabled && preferences.do_not_disturb ==> status_line(preferences)
            == "Do Not Disturb is on"@ && empty_line(preferences)
            == "Alerts are queued until Do Not Disturb ends"@,
        preferences.enabled && !preferences.do_not_disturb ==> status_line(preferences)
            == "Recent alerts"@ && empty_line(preferences) == "No recent notifications"@,
{
}

/// What a card shows: its source, title and body in this order, shortened to their
/// room, on a ground that tells whether it was read; how many there are where it
/// stands for more than one, and a dot where one is unread. A group without a
/// notification shows nothing.
pub proof fn cards_show_their_latest(
    before: Seq<Mark>,
    card: Rect,
    group: NotificationGroup,
    latest: NotificationText,
)
    ensures
        group.latest is None ==> group_marks(before, card, group) == before,
        group.latest == Some(latest) ==> {
            let marks = group_marks(before, card, group);
            let n = before.len() as int;
            &&& marks.len() == n + 5 + (if group.count > 1 {
                1int
            } else {
                0
            }) + (if group.unread > 0 {
                1int
            } else {
                0
            })
            &&& marks[n] == Mark::Round(
                card,
                12,
                if group.unread > 0 {
                    0xe2f5_fcff
                } else {
                    0xffff_fffa
                },
            )
            &&& marks[n + 1] matches Mark::Round(place, radius, color) && color == level_color(
                latest.level,
            )
            &&& marks[n + 2] matches Mark::Label(place, color, text) && text == shortened(
                latest.source@,
                25,
            )
            &&& marks[n + 3] matches Mark::Label(place, color, text) && text == shortened(
                latest.title@,
                34,
            )
            &&& marks[n + 4] matches Mark::Label(place, color, text) && text == shortened(
                latest.body@,
                43,
            )
            &&& group.count > 1 ==> (marks[n + 5] matches Mark::Label(place, color, text) && text
                == decimal(group.count as nat) + " alerts"@)
        },
{
}


/// The panel is cleared first and covers itself from its own corner; the open centre
/// alone then has its title and its state, one below the other.
pub proof fn panels_cover_themselves(
    panel: Rect,
    preferences: NotificationPreferences,
    open: bool,
)
    ensures
        ({
            let marks = header_marks(panel, preferences, open);
            &&& marks.len() == (if open {
                4int
            } else {
                2
            })
            &&& marks[0] == Mark::Clear(0)
            &&& marks[1] matches Mark::Round(place, radius, color) && place.origin.x == 0
                && place.origin.y == 0 && place.size == panel.size && radius == 18
            &&& open ==> (marks[2] matches Mark::Label(place, color, text) && place.origin.x == 18
                && place.origin.y == 14 && text == "Notification Centre"@)
            &&& open ==> (marks[3] matches Mark::Label(place, color, text) && place.origin.x == 18
                && place.origin.y == 34 && text == status_line(preferences))
        }),
{
}

} // verus!
