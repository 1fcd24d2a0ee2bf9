//! The dock's strip: the glass panel, the icons, and what hangs on them.

use crate::drawing::{disc, initial, initial_of, name_tint, tint, Canvas, Frame, Mark, Sheet};
use crate::geometry::{
    area, area_of, half, half_of, local_to, nearest_i32, quotient, quotient_of, seen_from, Point,
    Rect, Size,
};
use crate::num::{larger, max_i32, saturated};
use crate::pixel::{measured, text_width};
use crate::text::{decimal, decimal_text};
use vstd::prelude::*;
use vstd::string::*;

verus! {

pub const PANEL: u32 = 0xd6e4_f4a5;

pub const PANEL_EDGE: u32 = 0xebf4_fc5a;

pub const DOT: u32 = 0x2e3a_4ae6;

pub const TOOLTIP: u32 = 0x1e24_2eeb;

pub const TOOLTIP_TEXT: u32 = 0xf4f7_fbff;

pub const BADGE: u32 = 0xe85c_4af5;

pub const BADGE_TEXT: u32 = 0xffff_ffff;

pub const INITIAL: u32 = 0xffff_fffa;

/// What the strip has above the largest icon.
pub const STRIP_EXTRA: i32 = 72;

/// The icon under the pointer.
#[derive(Debug, Clone, Copy, PartialEq, Eq, Structural)]
pub struct Hover {
    pub index: usize,
}

/// The dock's fixed measures.
#[derive(Debug, Clone, Copy, PartialEq, Eq, Structural)]
pub struct DockMetrics {
    pub max_icon_size: i32,
    pub panel_radius: i32,
    pub dot_radius: i32,
    pub tooltip_offset: i32,
}

/// One icon, and where it stands in this frame.
#[derive(Debug, Clone, PartialEq, Eq)]
pub struct DockIcon {
    pub app_id: String,
    pub label: String,
    /// Where it stands with magnification and bounce.
    pub place: Rect,
    /// Where it stands at rest.
    pub rest: Rect,
    /// The middle of the dot of a running application.
    pub dot: Option<Point>,
    pub minimized_windows: usize,
}

pub open spec fn badge_text(count: nat) -> Seq<char> {
    if count > 9 {
        "9+"@
    } else {
        decimal(count)
    }
}

/// The squircle of an application, with the first letter of its label.
pub open spec fn icon_marks(before: Seq<Mark>, icon: Rect, item: DockIcon) -> Seq<Mark> {
    if icon.size.width <= 0 || icon.size.height <= 0 {
        before
    } else {
        before.push(
            Mark::Round(icon, quotient(icon.size.width as int, 5) as i32, name_tint(item.app_id@)),
        ).push(
            Mark::Label(
                area(
                    icon.origin.x + half(icon.size.width - measured(initial(item.label@))),
                    icon.origin.y + half(icon.size.height - 7),
                    icon.size.width as int,
                    7,
                ),
                INITIAL,
                initial(item.label@),
            ),
        )
    }
}

/// The number of minimized windows, on the icon's upper right corner.
pub open spec fn badge_marks(before: Seq<Mark>, icon: Rect, count: nat) -> Seq<Mark> {
    let cx = icon.right_edge() - 10;
    let cy = icon.origin.y + 10;
    let wide = measured(badge_text(count));
    before.push(disc(cx, cy, 10, BADGE)).push(
        Mark::Label(area(cx - half(wide), cy - 3, wide + 2, 7), BADGE_TEXT, badge_text(count)),
    )
}

/// Everything of one application.
pub open spec fn item_marks(before: Seq<Mark>, strip: Point, radius: i32, item: DockIcon) -> Seq<
    Mark,
> {
    let icon = seen_from(item.place, strip);
    let drawn = icon_marks(before, icon, item);
    let dotted = match item.dot {
        Some(dot) => drawn.push(disc(dot.x - strip.x, dot.y - strip.y, radius as int, DOT)),
        None => drawn,
    };
    if item.minimized_windows > 0 {
        badge_marks(dotted, icon, item.minimized_windows as nat)
    } else {
        dotted
    }
}

pub open spec fn items_marks(before: Seq<Mark>, strip: Point, radius: i32, items: Seq<DockIcon>) -> Seq<
    Mark,
>
    decreases items.len(),
{
    if items.len() == 0 {
        before
    } else {
        item_marks(
            items_marks(before, strip, radius, items.drop_last()),
            strip,
            radius,
            items.last(),
        )
    }
}

/// The label above an icon.
pub open spec fn tooltip_marks(before: Seq<Mark>, strip: Point, offset: i32, item: DockIcon) -> Seq<
    Mark,
> {
    let wide = larger(measured(item.label@), 24) + 16;
    let cx = item.rest.origin.x + half(item.rest.size.width as int);
    let tooltip = area(
        cx - half(wide) - strip.x,
        item.rest.origin.y - offset - 22 - strip.y,
        wide,
        22,
    );
    before.push(Mark::Round(tooltip, 6, TOOLTIP)).push(
        Mark::Label(
            area(
                tooltip.origin.x + half(tooltip.size.width - measured(item.label@)),
                tooltip.origin.y + 7,
                tooltip.size.width as int,
                7,
            ),
            TOOLTIP_TEXT,
            item.label@,
        ),
    )
}

/// The whole strip.
pub open spec fn dock_marks(
    metrics: DockMetrics,
    strip: Point,
    panel: Rect,
    items: Seq<DockIcon>,
    hover: Option<Hover>,
) -> Seq<Mark> {
    let glass = seen_from(panel, strip);
    let ground = Seq::<Mark>::empty().push(Mark::Clear(0)).push(
        Mark::Round(glass, metrics.panel_radius, PANEL),
    ).push(
        Mark::Round(
            area(
                glass.origin.x + metrics.panel_radius,
                glass.origin.y as int,
                glass.size.width - 2 * metrics.panel_radius,
                1,
            ),
            0,
            PANEL_EDGE,
        ),
    );
    let listed = items_marks(ground, strip, metrics.dot_radius, items);
    match hover {
        Some(hovered) => if hovered.index < items.len() {
            tooltip_marks(listed, strip, metrics.tooltip_offset, items[hovered.index as int])
        } else {
            listed
        },
        None => listed,
    }
}

/// The colour of an application's icon.
pub fn icon_tint(app_id: &str) -> (color: u32)
    ensures
        color == name_tint(app_id@),
{
    tint(app_id)
}

fn draw_app_icon(sheet: &mut Sheet, icon: Rect, item: &DockIcon)
    ensures
        final(sheet)@ == icon_marks(old(sheet)@, icon, *item),
{
    if icon.size.width <= 0 || icon.size.height <= 0 {
        return;
    }
    sheet.round(icon, quotient_of(icon.size.width, 5), icon_tint(item.app_id.as_str()));
    let letter = initial_of(item.label.as_str());
    let wide: i128 = text_width(letter.as_str()) as i128;
    sheet.label(
        area_of(
            icon.origin.x as i128 + half_of(icon.size.width as i128 - wide),
            icon.origin.y as i128 + half_of(icon.size.height as i128 - 7),
            icon.size.width as i128,
            7,
        ),
        INITIAL,
        letter.as_str(),
    );
}

fn draw_badge(sheet: &mut Sheet, icon: Rect, count: usize)
    ensures
        final(sheet)@ == badge_marks(old(sheet)@, icon, count as nat),
{
    let cx: i128 = icon.right() as i128 - 10;
    let cy: i128 = icon.origin.y as i128 + 10;
    sheet.circle(cx, cy, 10, BADGE);
    let label = if count > 9 {
        "9+".to_owned()
    } else {
        decimal_text(count as u64)
    };
    let wide: i128 = text_width(label.as_str()) as i128;
    sheet.label(area_of(cx - half_of(wide), cy - 3, wide + 2, 7), BADGE_TEXT, label.as_str());
}

fn draw_item(sheet: &mut Sheet, strip: Point, radius: i32, item: &DockIcon)
    ensures
        final(sheet)@ == item_marks(old(sheet)@, strip, radius, *item),
{
    let icon = local_to(item.place, strip);
    draw_app_icon(sheet, icon, item);
    match item.dot {
        Some(dot) => {
            sheet.circle(
                dot.x as i128 - strip.x as i128,
                dot.y as i128 - strip.y as i128,
                radius as i128,
                DOT,
            );
        },
        None => {},
    }
    if item.minimized_windows > 0 {
        draw_badge(sheet, icon, item.minimized_windows);
    }
}

fn draw_tooltip(sheet: &mut Sheet, strip: Point, offset: i32, item: &DockIcon)
    ensures
        final(sheet)@ == tooltip_marks(old(sheet)@, strip, offset, *item),
{
    let text: i32 = text_width(item.label.as_str());
    let wide: i128 = max_i32(text, 24) as i128 + 16;
    let cx: i128 = item.rest.origin.x as i128 + half_of(item.rest.size.width as i128);
    let tooltip = area_of(
        cx - half_of(wide) - strip.x as i128,
        item.rest.origin.y as i128 - offset as i128 - 22 - strip.y as i128,
        wide,
        22,
    );
    sheet.round(tooltip, 6, TOOLTIP);
    sheet.label(
        area_of(
            tooltip.origin.x as i128 + half_of(tooltip.size.width as i128 - text as i128),
            tooltip.origin.y as i128 + 7,
            tooltip.size.width as i128,
            7,
        ),
        TOOLTIP_TEXT,
        item.label.as_str(),
    );
}

/// The renderer of the dock, with a buffer for its strip of the output.
#[derive(Debug, Clone, Copy, PartialEq, Eq, Structural)]
pub struct DockRenderer {
    pub canvas: Canvas,
}

/// The strip at the bottom of the work area.
pub open spec fn strip_size(work_area: Rect, metrics: DockMetrics) -> Size {
    Size {
        width: larger(work_area.size.width as int, 1) as i32,
        height: saturated(metrics.max_icon_size + STRIP_EXTRA) as i32,
    }
}

pub open spec fn strip_origin(work_area: Rect, metrics: DockMetrics) -> Point {
    Point {
        x: 0,
        y: saturated(work_area.bottom_edge() - strip_size(work_area, metrics).height) as i32,
    }
}

impl DockRenderer {
    pub fn new() -> (renderer: Self)
        ensures
            renderer.canvas.size == (Size { width: 0, height: 0 }),
    {
        DockRenderer { canvas: Canvas::new() }
    }

    /// The dock as it stands in this frame.
    pub fn render_element(
        &mut self,
        work_area: Rect,
        metrics: DockMetrics,
        panel: Rect,
        items: &Vec<DockIcon>,
        hover: Option<Hover>,
    ) -> (frame: Frame)
        ensures
            frame.origin == strip_origin(work_area, metrics),
            frame.size == strip_size(work_area, metrics),
            frame.resized == (old(self).canvas.size != frame.size),
            final(self).canvas.size == frame.size,
            frame.sheet@ == dock_marks(metrics, frame.origin, panel, items@, hover),
    {
        let size = Size {
            width: max_i32(work_area.size.width, 1),
            height: nearest_i32(metrics.max_icon_size as i128 + STRIP_EXTRA as i128),
        };
        let resized = self.canvas.fit(size);
        let strip = Point {
            x: 0,
            y: nearest_i32(work_area.bottom() as i128 - size.height as i128),
        };
        let glass = local_to(panel, strip);
        let mut sheet = Sheet::new();
        sheet.clear(0);
        sheet.round(glass, metrics.panel_radius, PANEL);
        sheet.round(
            area_of(
                glass.origin.x as i128 + metrics.panel_radius as i128,
                glass.origin.y as i128,
                glass.size.width as i128 - 2 * metrics.panel_radius as i128,
                1,
            ),
            0,
            PANEL_EDGE,
        );
        let ghost ground = sheet@;
        let mut index: usize = 0;
        assert(items@.subrange(0, 0) =~= Seq::<DockIcon>::empty());
        while index < items.len()
            invariant
                index <= items.len(),
                sheet@ == items_marks(
                    ground,
                    strip,
                    metrics.dot_radius,
                    items@.subrange(0, index as int),
                ),
            decreases items.len() - index,
        {
            let ghost next = items@.subrange(0, index + 1);
            assert(next.drop_last() =~= items@.subrange(0, index as int));
            assert(next.last() == items@[index as int]);
            draw_item(&mut sheet, strip, metrics.dot_radius, &items[index]);
            index += 1;
        }
        assert(items@.subrange(0, index as int) =~= items@);
        match hover {
            Some(hovered) => {
                if hovered.index < items.len() {
                    draw_tooltip(&mut sheet, strip, metrics.tooltip_offset, &items[hovered.index]);
                }
            },
            None => {},
        }
        Frame { origin: strip, size, resized, sheet }
    }
}

// ---- laws ------------------------------------------------------------------------------

/// A badge counts up to nine windows, and says that there are more.
pub proof fn badges_count_to_nine(count: nat)
    ensures
        count <= 9 ==> badge_text(count) == decimal(count),
        count > 9 ==> badge_text(count) == "9+"@,
{
}

/// The strip of the dock is as wide as the work area and 72 pixels higher than
/// the largest icon, and stands at the bottom.
pub proof fn the_strip_stands_at_the_bottom(work_area: Rect, metrics: DockMetrics)
    requires
        0 < work_area.size.width,
        0 <= metrics.max_icon_size <= 0x1000,
        0 <= work_area.origin.y && 0 <= work_area.size.height,
        0x2000 <= work_area.origin.y + work_area.size.height <= i32::MAX,
    ensures
        strip_size(work_area, metrics).width == work_area.size.width,
        strip_size(work_area, metrics).height == metrics.max_icon_size + 72,
        strip_origin(work_area, metrics).x == 0,
        strip_origin(work_area, metrics).y + strip_size(work_area, metrics).height
            == work_area.origin.y + work_area.size.height,
{
}

/// A dot is drawn under a running application alone, and a badge where windows of
/// it are minimized.
pub proof fn dots_and_badges_tell_of_windows(
    before: Seq<Mark>,
    strip: Point,
    radius: i32,
    item: DockIcon,
)
    ensures
        ({
            let icon = seen_from(item.place, strip);
            let plain = icon_marks(before, icon, item);
            let drawn = item_marks(before, strip, radius, item);
            &&& item.dot is None && item.minimized_windows == 0 ==> drawn == plain
            &&& item.dot is Some && item.minimized_windows == 0 ==> drawn.len() == plain.len() + 1
                && drawn.last() is Circle
            &&& item.dot is None && item.minimized_windows > 0 ==> drawn.len() == plain.len() + 2
        }),
{
}

} // verus!
