//! The Finder's window.

use crate::drawing::{disc, name_tint, tint, Canvas, Frame, Mark, Sheet};
use crate::finder::{FinderItem, ItemModel};
use crate::geometry::{
    area, area_of, at_least_one, half, half_of, quotient, quotient_of, surface_size, Point, Rect, Size,
};
use crate::pieces::{shortening_fits, truncate_string, within_bytes};
use crate::pixel::{measured, text_width};
use crate::text::{
    byte_length, chars_of, ends, ends_with, lacks, piece, same, split, split_is_not_empty,
    split_one_more, split_text, split_without_separator, string_of, trim, trimmed, views,
};
use vstd::prelude::*;
use vstd::string::*;
use vstd::utf8::encode_utf8;

verus! {

pub const CARD: u32 = 0xf6fc_f0f8;

pub const SIDEBAR: u32 = 0xf2ea_e4ff;

pub const TEXT: u32 = 0x2a1e_16ff;

pub const MUTED: u32 = 0x7064_5aff;

pub const BUTTON: u32 = 0xd8d2_ccff;

pub const BUTTON_OFF: u32 = 0xf0ee_ecff;

pub const SEARCH: u32 = 0xe4de_d8ff;

pub const SHADOW: u32 = 0x3c16_0e3c;

pub const SELECTION: u32 = 0xa876_0e60;

pub const FOLDER_BACK: u32 = 0xa6e6_58ff;

pub const FOLDER_FRONT: u32 = 0x78c6_f4ff;

pub const PAGE: u32 = 0xfcfc_fcff;

pub const PAGE_EAR: u32 = 0xd6ce_c8ff;

pub const WHITE: u32 = 0xffff_ffff;

/// What the Finder shows besides its items.
#[derive(Debug, Clone, PartialEq, Eq)]
pub struct FinderView {
    pub can_back: bool,
    pub can_forward: bool,
    pub current: String,
    pub query: String,
    pub selection: Option<usize>,
}

/// Where the window's parts stand, and the measures of its tiles.
#[derive(Debug, Clone, Copy, PartialEq, Eq, Structural)]
pub struct FinderLayout {
    pub window: Rect,
    pub sidebar: Rect,
    pub toolbar: Rect,
    pub tile: i32,
    pub label: i32,
}

/// An item and where its tile stands.
#[derive(Debug, Clone, PartialEq, Eq)]
pub struct FinderTile {
    pub place: Rect,
    pub item: FinderItem,
}

/// A place of the sidebar.
#[derive(Debug, Clone, PartialEq, Eq)]
pub struct FinderPlace {
    pub label: String,
    pub path: String,
}

// ---- the toolbar -----------------------------------------------------------------------

/// A round button with a sign in its middle.
pub open spec fn button_marks(before: Seq<Mark>, cx: int, cy: int, enabled: bool, sign: Seq<char>) -> Seq<
    Mark,
> {
    before.push(
        disc(
            cx,
            cy,
            14,
            if enabled {
                BUTTON
            } else {
                BUTTON_OFF
            },
        ),
    ).push(
        Mark::Label(
            area(cx - half(measured(sign)), cy - 3, measured(sign) + 2, 7),
            if enabled {
                WHITE
            } else {
                MUTED
            },
            sign,
        ),
    )
}

/// The last part of a path.
pub open spec fn folder_name(path: Seq<char>) -> Seq<char> {
    split(path, '/').last()
}

/// The buttons, the folder's name and the search field.
pub open spec fn toolbar_marks(before: Seq<Mark>, toolbar: Rect, window: Rect, view: FinderView) -> Seq<
    Mark,
> {
    let cy = toolbar.origin.y + half(toolbar.size.height as int);
    let title = folder_name(view.current@);
    let search = area(toolbar.right_edge() - 190, cy - 13, 170, 26);
    let fields = button_marks(
        button_marks(before, window.origin.x + 34, cy, view.can_back, "<"@),
        window.origin.x + 74,
        cy,
        view.can_forward,
        ">"@,
    ).push(
        Mark::Label(
            area(
                toolbar.origin.x + half(toolbar.size.width - measured(title)),
                cy - 3,
                measured(title) + 2,
                7,
            ),
            TEXT,
            title,
        ),
    ).push(Mark::Round(search, 8, SEARCH)).push(
        Mark::Label(
            area(search.origin.x + 10, cy - 3, measured(view.query@) + 2, 7),
            TEXT,
            view.query@,
        ),
    );
    if view.query@.len() == 0 {
        fields.push(
            Mark::Label(
                area(search.origin.x + 10, cy - 3, measured("Search"@) + 2, 7),
                MUTED,
                "Search"@,
            ),
        )
    } else {
        fields
    }
}

fn draw_button(sheet: &mut Sheet, cx: i128, cy: i128, enabled: bool, sign: &str)
    requires
        -0x2_0000_0000 <= cx <= 0x2_0000_0000,
        -0x2_0000_0000 <= cy <= 0x2_0000_0000,
    ensures
        final(sheet)@ == button_marks(old(sheet)@, cx as int, cy as int, enabled, sign@),
{
    sheet.circle(
        cx,
        cy,
        14,
        if enabled {
            BUTTON
        } else {
            BUTTON_OFF
        },
    );
    let wide: i128 = text_width(sign) as i128;
    sheet.label(
        area_of(cx - half_of(wide), cy - 3, wide + 2, 7),
        if enabled {
            WHITE
        } else {
            MUTED
        },
        sign,
    );
}

fn draw_toolbar(sheet: &mut Sheet, toolbar: Rect, window: Rect, view: &FinderView)
    ensures
        final(sheet)@ == toolbar_marks(old(sheet)@, toolbar, window, *view),
{
    let cy: i128 = toolbar.origin.y as i128 + half_of(toolbar.size.height as i128);
    draw_button(sheet, window.origin.x as i128 + 34, cy, view.can_back, "<");
    draw_button(sheet, window.origin.x as i128 + 74, cy, view.can_forward, ">");
    let parts = split_text(view.current.as_str(), '/');
    proof {
        split_is_not_empty(view.current@, '/');
        assert(views(parts@).last() == parts@[parts@.len() - 1]@);
    }
    let title = parts[parts.len() - 1].as_str();
    let wide: i128 = text_width(title) as i128;
    sheet.label(
        area_of(
            toolbar.origin.x as i128 + half_of(toolbar.size.width as i128 - wide),
            cy - 3,
            wide + 2,
            7,
        ),
        TEXT,
        title,
    );
    let search = area_of(toolbar.right() as i128 - 190, cy - 13, 170, 26);
    sheet.round(search, 8, SEARCH);
    let query = view.query.as_str();
    let left: i128 = search.origin.x as i128 + 10;
    sheet.label(area_of(left, cy - 3, text_width(query) as i128 + 2, 7), TEXT, query);
    if query.is_empty() {
        sheet.label(area_of(left, cy - 3, text_width("Search") as i128 + 2, 7), MUTED, "Search");
    }
}

// ---- the sidebar -----------------------------------------------------------------------

/// One place: a coloured square and its label, on a ground where it is shown.
pub open spec fn place_marks(
    before: Seq<Mark>,
    sidebar: Rect,
    index: int,
    place: FinderPlace,
    current: Seq<char>,
) -> Seq<Mark> {
    let row = area(
        sidebar.origin.x + 8,
        sidebar.origin.y + index * 34,
        sidebar.size.width - 16,
        28,
    );
    let ground = if place.path@ == current {
        before.push(Mark::Round(row, 8, SELECTION))
    } else {
        before
    };
    ground.push(
        Mark::Round(area(row.origin.x as int, row.origin.y + 6, 14, 14), 4, name_tint(place.label@)),
    ).push(
        Mark::Label(
            area(row.origin.x + 24, row.origin.y + 10, measured(place.label@) + 2, 7),
            TEXT,
            place.label@,
        ),
    )
}

pub open spec fn sidebar_marks(
    before: Seq<Mark>,
    sidebar: Rect,
    places: Seq<FinderPlace>,
    current: Seq<char>,
) -> Seq<Mark>
    decreases places.len(),
{
    if places.len() == 0 {
        before
    } else {
        place_marks(
            sidebar_marks(before, sidebar, places.drop_last(), current),
            sidebar,
            places.len() - 1,
            places.last(),
            current,
        )
    }
}

fn draw_place(sheet: &mut Sheet, sidebar: Rect, index: usize, place: &FinderPlace, current: &str)
    ensures
        final(sheet)@ == place_marks(old(sheet)@, sidebar, index as int, *place, current@),
{
    let row = area_of(
        sidebar.origin.x as i128 + 8,
        sidebar.origin.y as i128 + index as i128 * 34,
        sidebar.size.width as i128 - 16,
        28,
    );
    if same(place.path.as_str(), current) {
        sheet.round(row, 8, SELECTION);
    }
    let label = place.label.as_str();
    sheet.round(
        area_of(row.origin.x as i128, row.origin.y as i128 + 6, 14, 14),
        4,
        tint(label),
    );
    sheet.label(
        area_of(
            row.origin.x as i128 + 24,
            row.origin.y as i128 + 10,
            text_width(label) as i128 + 2,
            7,
        ),
        TEXT,
        label,
    );
}

fn draw_sidebar(sheet: &mut Sheet, sidebar: Rect, places: &Vec<FinderPlace>, current: &str)
    ensures
        final(sheet)@ == sidebar_marks(old(sheet)@, sidebar, places@, current@),
{
    let ghost before = sheet@;
    let mut index: usize = 0;
    assert(places@.subrange(0, 0) =~= Seq::<FinderPlace>::empty());
    while index < places.len()
        invariant
            index <= places.len(),
            sheet@ == sidebar_marks(
                before,
                sidebar,
                places@.subrange(0, index as int),
                current@,
            ),
        decreases places.len() - index,
    {
        let ghost next = places@.subrange(0, index + 1);
        assert(next.drop_last() =~= places@.subrange(0, index as int));
        assert(next.last() == places@[index as int]);
        draw_place(sheet, sidebar, index, &places[index], current);
        index += 1;
    }
    assert(places@.subrange(0, index as int) =~= places@);
}

// ---- the tiles -------------------------------------------------------------------------

/// How many bytes of a name stand on the first line: half of them, but at
/// least one, and not all where there are two or more.
pub open spec fn first_line_bytes(length: nat) -> nat {
    if length < 2 {
        length
    } else {
        length / 2
    }
}

/// The first line of a label, cut at a character.
pub open spec fn first_line(name: Seq<char>) -> Seq<char> {
    within_bytes(name, first_line_bytes(encode_utf8(name).len()))
}

/// The icon of an item: a folder, an application's square, or a page.
pub open spec fn shape_marks(before: Seq<Mark>, icon: Rect, tile: int, item: ItemModel) -> Seq<Mark> {
    let (x, y) = (icon.origin.x as int, icon.origin.y as int);
    if item.directory {
        before.push(Mark::Round(area(x + 4, y + 12, 28, 10), 3, FOLDER_BACK)).push(
            Mark::Round(area(x + 4, y + 18, tile - 8, tile - 26), 6, FOLDER_BACK),
        ).push(Mark::Round(area(x + 6, y + 20, tile - 12, tile - 30), 5, FOLDER_FRONT))
    } else if ends(item.name, ".desktop"@) {
        before.push(
            Mark::Round(icon, quotient(icon.size.width as int, 5) as i32, name_tint(item.name)),
        )
    } else {
        before.push(Mark::Fill(area(x + 16, y + 8, tile - 32, tile - 16), PAGE)).push(
            Mark::Fill(area(icon.right_edge() - 28, y + 8, 12, 12), PAGE_EAR),
        )
    }
}

/// An item: its icon, and its name on two lines.
pub open spec fn item_marks(before: Seq<Mark>, layout: FinderLayout, place: Rect, item: ItemModel) -> Seq<
    Mark,
> {
    let tile = layout.tile as int;
    let icon = area(
        place.origin.x + half(place.size.width - tile),
        place.origin.y as int,
        tile,
        tile,
    );
    let label = area(
        place.origin.x + 2,
        icon.bottom_edge() + 2,
        place.size.width - 4,
        layout.label as int,
    );
    let first = first_line(item.name);
    shape_marks(before, icon, tile, item).push(Mark::Label(label, TEXT, first)).push(
        Mark::Label(
            area(label.origin.x as int, label.origin.y + 9, label.size.width as int, 7),
            TEXT,
            trimmed(item.name.subrange(first.len() as int, item.name.len() as int)),
        ),
    )
}

/// How many tiles are shown: those before the first that does not fit.
pub open spec fn fitting(tiles: Seq<FinderTile>, bottom: int) -> nat
    decreases tiles.len(),
{
    if tiles.len() == 0 || tiles[0].place.bottom_edge() > bottom {
        0
    } else {
        1 + fitting(tiles.drop_first(), bottom)
    }
}

/// The first tiles, with a ground behind the selected one.
pub open spec fn tiles_marks(
    before: Seq<Mark>,
    layout: FinderLayout,
    tiles: Seq<FinderTile>,
    selection: Option<usize>,
    count: nat,
) -> Seq<Mark>
    decreases count,
{
    if count == 0 {
        before
    } else {
        let earlier = tiles_marks(before, layout, tiles, selection, (count - 1) as nat);
        let tile = tiles[count - 1];
        item_marks(
            if selection == Some((count - 1) as usize) {
                earlier.push(Mark::Round(tile.place, 12, SELECTION))
            } else {
                earlier
            },
            layout,
            tile.place,
            tile.item@,
        )
    }
}

proof fn first_line_is_shorter(name: Seq<char>, budget: nat)
    ensures
        within_bytes(name, budget).len() <= name.len(),
{
    shortening_fits(name, budget);
}

fn draw_shape(sheet: &mut Sheet, icon: Rect, tile: i128, item: &FinderItem)
    requires
        -0x1_0000_0000 <= tile <= 0x1_0000_0000,
    ensures
        final(sheet)@ == shape_marks(old(sheet)@, icon, tile as int, item@),
{
    let (x, y): (i128, i128) = (icon.origin.x as i128, icon.origin.y as i128);
    if item.directory {
        sheet.round(area_of(x + 4, y + 12, 28, 10), 3, FOLDER_BACK);
        sheet.round(area_of(x + 4, y + 18, tile - 8, tile - 26), 6, FOLDER_BACK);
        sheet.round(area_of(x + 6, y + 20, tile - 12, tile - 30), 5, FOLDER_FRONT);
    } else if ends_with(item.name.as_str(), ".desktop") {
        sheet.round(icon, quotient_of(icon.size.width, 5), tint(item.name.as_str()));
    } else {
        sheet.fill(area_of(x + 16, y + 8, tile - 32, tile - 16), PAGE);
        sheet.fill(area_of(icon.right() as i128 - 28, y + 8, 12, 12), PAGE_EAR);
    }
}

fn draw_item(sheet: &mut Sheet, layout: FinderLayout, place: Rect, item: &FinderItem)
    ensures
        final(sheet)@ == item_marks(old(sheet)@, layout, place, item@),
{
    let tile: i128 = layout.tile as i128;
    let icon = area_of(
        place.origin.x as i128 + half_of(place.size.width as i128 - tile),
        place.origin.y as i128,
        tile,
        tile,
    );
    draw_shape(sheet, icon, tile, item);
    let label = area_of(
        place.origin.x as i128 + 2,
        icon.bottom() as i128 + 2,
        place.size.width as i128 - 4,
        layout.label as i128,
    );
    let name = item.name.as_str();
    let length: usize = byte_length(name);
    let room: usize = if length < 2 {
        length
    } else {
        length / 2
    };
    let first = truncate_string(name, room);
    sheet.label(label, TEXT, first.as_str());
    let chars = chars_of(name);
    let kept: usize = chars_of(first.as_str()).len();
    proof {
        first_line_is_shorter(name@, room as nat);
    }
    let rest = piece(chars.as_slice(), kept, chars.len());
    let rest_text = string_of(rest.as_slice());
    let second = trim(rest_text.as_str());
    sheet.label(
        area_of(
            label.origin.x as i128,
            label.origin.y as i128 + 9,
            label.size.width as i128,
            7,
        ),
        TEXT,
        second.as_str(),
    );
}

fn draw_tiles(sheet: &mut Sheet, layout: FinderLayout, tiles: &Vec<FinderTile>, selection: Option<usize>)
    ensures
        final(sheet)@ == tiles_marks(
            old(sheet)@,
            layout,
            tiles@,
            selection,
            fitting(tiles@, layout.window.bottom_edge() - 8),
        ),
{
    let ghost before = sheet@;
    let bottom: i64 = layout.window.bottom() as i64 - 8;
    let mut index: usize = 0;
    assert(tiles@.subrange(0, tiles@.len() as int) =~= tiles@);
    while index < tiles.len()
        invariant
            index <= tiles.len(),
            bottom == layout.window.bottom_edge() - 8,
            before == old(sheet)@,
            sheet@ == tiles_marks(before, layout, tiles@, selection, index as nat),
            fitting(tiles@, bottom as int) == index + fitting(
                tiles@.subrange(index as int, tiles@.len() as int),
                bottom as int,
            ),
        decreases tiles.len() - index,
    {
        let ghost rest = tiles@.subrange(index as int, tiles@.len() as int);
        assert(rest[0] == tiles@[index as int]);
        assert(rest.drop_first() =~= tiles@.subrange(index + 1, tiles@.len() as int));
        let tile = &tiles[index];
        if tile.place.bottom() as i64 > bottom {
            return;
        }
        let selected = match selection {
            Some(chosen) => chosen == index,
            None => false,
        };
        if selected {
            sheet.round(tile.place, 12, SELECTION);
        }
        draw_item(sheet, layout, tile.place, &tile.item);
        index += 1;
    }
    assert(tiles@.subrange(index as int, tiles@.len() as int) =~= Seq::<FinderTile>::empty());
}

// ---- the window ------------------------------------------------------------------------

/// The whole window.
pub open spec fn finder_marks(
    layout: FinderLayout,
    view: FinderView,
    tiles: Seq<FinderTile>,
    places: Seq<FinderPlace>,
) -> Seq<Mark> {
    let window = layout.window;
    let ground = Seq::<Mark>::empty().push(Mark::Clear(0)).push(
        Mark::Round(
            area(window.origin.x + 8, window.bottom_edge(), window.size.width - 16, 10),
            5,
            SHADOW,
        ),
    ).push(Mark::Round(window, 16, CARD)).push(Mark::Fill(layout.sidebar, SIDEBAR));
    tiles_marks(
        sidebar_marks(
            toolbar_marks(ground, layout.toolbar, window, view),
            layout.sidebar,
            places,
            view.current@,
        ),
        layout,
        tiles,
        view.selection,
        fitting(tiles, window.bottom_edge() - 8),
    )
}

/// The renderer of the Finder's window.
#[derive(Debug, Clone, Copy, PartialEq, Eq, Structural)]
pub struct FinderRenderer {
    pub canvas: Canvas,
}

impl FinderRenderer {
    pub fn new() -> (renderer: Self)
        ensures
            renderer.canvas.size == (Size { width: 0, height: 0 }),
    {
        FinderRenderer { canvas: Canvas::new() }
    }

    /// The window, over a clear buffer as large as the output.
    pub fn element(
        &mut self,
        work_area: Rect,
        layout: FinderLayout,
        view: &FinderView,
        tiles: &Vec<FinderTile>,
        places: &Vec<FinderPlace>,
    ) -> (frame: Frame)
        ensures
            frame.origin == (Point { x: 0, y: 0 }),
            frame.size == at_least_one(work_area.size),
            frame.resized == (old(self).canvas.size != frame.size),
            final(self).canvas.size == frame.size,
            frame.sheet@ == finder_marks(layout, *view, tiles@, places@),
    {
        let size = surface_size(work_area.size);
        let resized = self.canvas.fit(size);
        let window = layout.window;
        let mut sheet = Sheet::new();
        sheet.clear(0);
        sheet.round(
            area_of(
                window.origin.x as i128 + 8,
                window.bottom() as i128,
                window.size.width as i128 - 16,
                10,
            ),
            5,
            SHADOW,
        );
        sheet.round(window, 16, CARD);
        sheet.fill(layout.sidebar, SIDEBAR);
        draw_toolbar(&mut sheet, layout.toolbar, window, view);
        draw_sidebar(&mut sheet, layout.sidebar, places, view.current.as_str());
        draw_tiles(&mut sheet, layout, tiles, view.selection);
        Frame { origin: Point { x: 0, y: 0 }, size, resized, sheet }
    }
}

// ---- laws ------------------------------------------------------------------------------

/// The tiles that are drawn are the first ones that end above the bottom, up to
/// one that does not.
pub proof fn tiles_are_drawn_while_they_fit(tiles: Seq<FinderTile>, bottom: int, k: int)
    ensures
        fitting(tiles, bottom) <= tiles.len(),
        0 <= k < fitting(tiles, bottom) ==> tiles[k].place.bottom_edge() <= bottom,
        fitting(tiles, bottom) < tiles.len() ==> tiles[fitting(
            tiles,
            bottom,
        ) as int].place.bottom_edge() > bottom,
    decreases tiles.len(),
{
    if tiles.len() > 0 && tiles[0].place.bottom_edge() <= bottom {
        let rest = tiles.drop_first();
        tiles_are_drawn_while_they_fit(rest, bottom, k - 1);
        if 0 < k < fitting(tiles, bottom) {
            assert(rest[k - 1] == tiles[k]);
        }
        if fitting(tiles, bottom) < tiles.len() {
            assert(rest[fitting(rest, bottom) as int] == tiles[fitting(tiles, bottom) as int]);
        }
    }
}

/// A folder is named by what stands behind the last slash of its path.
pub proof fn folders_are_named_by_their_last_part(parent: Seq<char>, name: Seq<char>)
    requires
        lacks(name, '/'),
    ensures
        folder_name(parent + seq!['/'] + name) == name,
        folder_name(name) == name,
{
    split_one_more(parent, name, '/');
    split_without_separator(name, '/');
}

} // verus!
