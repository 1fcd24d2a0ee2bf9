//! The launcher sheet, the rest screen and the lock screen.

use crate::drawing::{
    centred, disc, initial, initial_of, name_tint, tint, Anchor, Frame, Mark, Sheet,
};
use crate::geometry::{
    area, area_of, at_least_one, half, half_of, local_to, nearest_i32, quotient, quotient_of,
    seen_from, surface_size, Point, Rect, Size,
};
use crate::num::{saturated, smaller};
use vstd::prelude::*;
use vstd::string::*;

verus! {

pub const SHEET: u32 = 0xf0f6_fceb;

pub const INITIAL: u32 = 0xffff_fffa;

pub const NAME: u32 = 0x282c_34ff;

pub const SEARCH: u32 = 0xd8de_e4ff;

pub const SEARCH_HINT: u32 = 0x7880_8aff;

pub const SEARCH_TEXT: u32 = 0x1e24_2cff;

pub const REST: u32 = 0x0a0c_12b2;

pub const REST_HINT: u32 = 0xc8d0_dce6;

pub const LOCK: u32 = 0x060a_16f5;

pub const LOCK_NAME: u32 = 0xeef2_faff;

pub const FIELD: u32 = 0xd8de_e8ff;

pub const DOT: u32 = 0x1e26_34ff;

pub const LOCK_HINT: u32 = 0x96a0_b2dc;

/// The most dots that a password field shows.
pub const MAX_DOTS: usize = 18;

// ---- the launcher ----------------------------------------------------------------------

/// An application in the launcher, and where its tile stands.
#[derive(Debug, Clone, PartialEq, Eq)]
pub struct LauncherTile {
    pub place: Rect,
    pub id: String,
    pub name: String,
}

pub open spec fn tile_marks(before: Seq<Mark>, origin: Point, tile: LauncherTile) -> Seq<Mark> {
    let place = seen_from(tile.place, origin);
    let (x, y) = (place.origin.x as int, place.origin.y as int);
    before.push(Mark::Round(place, 16, name_tint(tile.id@))).push(
        centred(x, place.size.width as int, y + 14, 30, INITIAL, initial(tile.name@), 26),
    ).push(
        centred(
            x,
            place.size.width as int,
            y + place.size.height - 16,
            12,
            NAME,
            tile.name@,
            9,
        ),
    )
}

pub open spec fn tiles_marks(before: Seq<Mark>, origin: Point, tiles: Seq<LauncherTile>) -> Seq<Mark>
    decreases tiles.len(),
{
    if tiles.len() == 0 {
        before
    } else {
        tile_marks(tiles_marks(before, origin, tiles.drop_last()), origin, tiles.last())
    }
}

/// The launcher: a tile for each application, and the search field.
pub open spec fn launcher_marks(
    sheet: Rect,
    search: Rect,
    tiles: Seq<LauncherTile>,
    query: Seq<char>,
) -> Seq<Mark> {
    let ground = Seq::<Mark>::empty().push(Mark::Clear(0)).push(
        Mark::Round(area(0, 0, sheet.size.width as int, sheet.size.height as int), 24, SHEET),
    );
    let field = seen_from(search, sheet.origin);
    tiles_marks(ground, sheet.origin, tiles).push(Mark::Round(field, 10, SEARCH)).push(
        Mark::Type(
            Anchor::From(saturated(field.origin.x + 10) as i32),
            saturated(field.origin.y + 9) as i32,
            12,
            if query.len() == 0 {
                SEARCH_HINT
            } else {
                SEARCH_TEXT
            },
            if query.len() == 0 {
                "Search apps"@
            } else {
                query
            },
            9,
        ),
    )
}

fn draw_tile(list: &mut Sheet, origin: Point, tile: &LauncherTile)
    ensures
        final(list)@ == tile_marks(old(list)@, origin, *tile),
{
    let place = local_to(tile.place, origin);
    let (x, y): (i128, i128) = (place.origin.x as i128, place.origin.y as i128);
    let room: i128 = place.size.width as i128;
    list.round(place, 16, tint(tile.id.as_str()));
    let letter = initial_of(tile.name.as_str());
    list.write_centred((x, room), y + 14, 30, INITIAL, letter.as_str(), 26);
    list.write_centred(
        (x, room),
        y + place.size.height as i128 - 16,
        12,
        NAME,
        tile.name.as_str(),
        9,
    );
}

/// Draws the launcher sheet.
pub fn paint_launcher(sheet: Rect, search: Rect, tiles: &Vec<LauncherTile>, query: &str) -> (frame:
    Frame)
    ensures
        frame.origin == sheet.origin,
        frame.size == at_least_one(sheet.size),
        frame.resized,
        frame.sheet@ == launcher_marks(sheet, search, tiles@, query@),
{
    let size = surface_size(sheet.size);
    let mut list = Sheet::new();
    list.clear(0);
    list.round(area_of(0, 0, sheet.size.width as i128, sheet.size.height as i128), 24, SHEET);
    let ghost ground = list@;
    let mut index: usize = 0;
    assert(tiles@.subrange(0, 0) =~= Seq::<LauncherTile>::empty());
    while index < tiles.len()
        invariant
            index <= tiles.len(),
            list@ == tiles_marks(ground, sheet.origin, tiles@.subrange(0, index as int)),
        decreases tiles.len() - index,
    {
        let ghost next = tiles@.subrange(0, index + 1);
        assert(next.drop_last() =~= tiles@.subrange(0, index as int));
        assert(next.last() == tiles@[index as int]);
        draw_tile(&mut list, sheet.origin, &tiles[index]);
        index += 1;
    }
    assert(tiles@.subrange(0, index as int) =~= tiles@);
    let field = local_to(search, sheet.origin);
    list.round(field, 10, SEARCH);
    let empty = query.is_empty();
    list.write_at(
        Anchor::From(nearest_i32(field.origin.x as i128 + 10)),
        field.origin.y as i128 + 9,
        12,
        if empty {
            SEARCH_HINT
        } else {
            SEARCH_TEXT
        },
        if empty {
            "Search apps"
        } else {
            query
        },
        9,
    );
    Frame { origin: sheet.origin, size, resized: true, sheet: list }
}

// ---- the rest screen -------------------------------------------------------------------

pub open spec fn rest_marks(size: Size) -> Seq<Mark> {
    Seq::<Mark>::empty().push(Mark::Clear(REST)).push(
        centred(
            0,
            size.width as int,
            size.height - 120,
            20,
            REST_HINT,
            "Press Space or drag up to unlock"@,
            12,
        ),
    )
}

/// Draws the rest screen: the wallpaper dimmed, and a hint.
pub fn paint_rest_screen(work_area: Rect) -> (frame: Frame)
    ensures
        frame.origin == (Point { x: 0, y: 0 }),
        frame.size == at_least_one(work_area.size),
        frame.resized,
        frame.sheet@ == rest_marks(frame.size),
{
    let size = surface_size(work_area.size);
    let mut sheet = Sheet::new();
    sheet.clear(REST);
    sheet.write_centred(
        (0, size.width as i128),
        size.height as i128 - 120,
        20,
        REST_HINT,
        "Press Space or drag up to unlock",
        12,
    );
    Frame { origin: Point { x: 0, y: 0 }, size, resized: true, sheet }
}

// ---- the lock screen -------------------------------------------------------------------

/// Where the parts of the lock screen stand, and the two colours of the avatar.
#[derive(Debug, Clone, Copy, PartialEq, Eq, Structural)]
pub struct LockLayout {
    pub avatar: Rect,
    pub name: Rect,
    pub field: Rect,
    pub outer: u32,
    pub inner: u32,
}

/// The dots of a password: one for each character that was typed.
pub open spec fn dot_marks(before: Seq<Mark>, field: Rect, dots: nat) -> Seq<Mark>
    decreases dots,
{
    if dots == 0 {
        before
    } else {
        dot_marks(before, field, (dots - 1) as nat).push(
            disc(
                field.origin.x + 18 + (dots - 1) * 16,
                field.origin.y + half(field.size.height as int),
                5,
                DOT,
            ),
        )
    }
}

/// The lock screen. It shows how many characters were typed, up to a limit,
/// and nothing else of the password.
pub open spec fn lock_marks(layout: LockLayout, size: Size, name: Seq<char>, typed: nat) -> Seq<Mark> {
    let avatar = layout.avatar;
    let cx = avatar.origin.x + half(avatar.size.width as int);
    let cy = avatar.origin.y + half(avatar.size.height as int);
    let field = layout.field;
    let ground = Seq::<Mark>::empty().push(Mark::Clear(LOCK)).push(
        disc(cx, cy, half(avatar.size.width as int), layout.outer),
    ).push(disc(cx, cy, quotient(avatar.size.width as int, 3), layout.inner)).push(
        centred(
            layout.name.origin.x as int,
            layout.name.size.width as int,
            layout.name.origin.y as int,
            20,
            LOCK_NAME,
            name,
            14,
        ),
    ).push(Mark::Round(field, 10, FIELD));
    dot_marks(ground, field, smaller(typed as int, MAX_DOTS as int) as nat).push(
        centred(
            0,
            size.width as int,
            field.bottom_edge() + 14,
            12,
            LOCK_HINT,
            "Enter password and press Return"@,
            8,
        ),
    )
}

/// Draws the lock screen: the avatar, the name, a dot for each character of
/// the password, and a hint.
pub fn paint_lock_screen(work_area: Rect, layout: LockLayout, name: &str, typed: usize) -> (frame:
    Frame)
    ensures
        frame.origin == (Point { x: 0, y: 0 }),
        frame.size == at_least_one(work_area.size),
        frame.resized,
        frame.sheet@ == lock_marks(layout, frame.size, name@, typed as nat),
{
    let size = surface_size(work_area.size);
    let avatar = layout.avatar;
    let field = layout.field;
    let radius: i128 = half_of(avatar.size.width as i128);
    let cx: i128 = avatar.origin.x as i128 + radius;
    let cy: i128 = avatar.origin.y as i128 + half_of(avatar.size.height as i128);
    let mut sheet = Sheet::new();
    sheet.clear(LOCK);
    sheet.circle(cx, cy, radius, layout.outer);
    sheet.circle(cx, cy, quotient_of(avatar.size.width, 3) as i128, layout.inner);
    sheet.write_centred(
        (layout.name.origin.x as i128, layout.name.size.width as i128),
        layout.name.origin.y as i128,
        20,
        LOCK_NAME,
        name,
        14,
    );
    sheet.round(field, 10, FIELD);
    let ghost ground = sheet@;
    let dots: usize = if typed <= MAX_DOTS {
        typed
    } else {
        MAX_DOTS
    };
    let mut index: usize = 0;
    while index < dots
        invariant
            index <= dots <= MAX_DOTS,
            sheet@ == dot_marks(ground, field, index as nat),
        decreases dots - index,
    {
        sheet.circle(
            field.origin.x as i128 + 18 + index as i128 * 16,
            field.origin.y as i128 + half_of(field.size.height as i128),
            5,
            DOT,
        );
        index += 1;
    }
    sheet.write_centred(
        (0, size.width as i128),
        field.bottom() as i128 + 14,
        12,
        LOCK_HINT,
        "Enter password and press Return",
        8,
    );
    Frame { origin: Point { x: 0, y: 0 }, size, resized: true, sheet }
}

// ---- laws ------------------------------------------------------------------------------

proof fn dots_add_up(before: Seq<Mark>, field: Rect, dots: nat)
    ensures
        dot_marks(before, field, dots).len() == before.len() + dots,
    decreases dots,
{
    if dots > 0 {
        dots_add_up(before, field, (dots - 1) as nat);
    }
}

/// The lock screen tells no more of a password than its length, and nothing
/// beyond the limit of the dots.
pub proof fn the_lock_screen_hides_the_password(
    layout: LockLayout,
    size: Size,
    name: Seq<char>,
    typed: nat,
)
    ensures
        lock_marks(layout, size, name, typed).len() == 6 + smaller(typed as int, MAX_DOTS as int),
        typed >= MAX_DOTS ==> lock_marks(layout, size, name, typed) == lock_marks(
            layout,
            size,
            name,
            MAX_DOTS as nat,
        ),
{
    let ground = Seq::<Mark>::empty().push(Mark::Clear(LOCK)).push(
        disc(
            layout.avatar.origin.x + half(layout.avatar.size.width as int),
            layout.avatar.origin.y + half(layout.avatar.size.height as int),
            half(layout.avatar.size.width as int),
            layout.outer,
        ),
    ).push(
        disc(
            layout.avatar.origin.x + half(layout.avatar.size.width as int),
            layout.avatar.origin.y + half(layout.avatar.size.height as int),
            quotient(layout.avatar.size.width as int, 3),
            layout.inner,
        ),
    ).push(
        centred(
            layout.name.origin.x as int,
            layout.name.size.width as int,
            layout.name.origin.y as int,
            20,
            LOCK_NAME,
            name,
            14,
        ),
    ).push(Mark::Round(layout.field, 10, FIELD));
    dots_add_up(ground, layout.field, smaller(typed as int, MAX_DOTS as int) as nat);
}

// ---- more laws -------------------------------------------------------------------------

proof fn dots_are_counted(before: Seq<Mark>, field: Rect, dots: nat)
    ensures
        dot_marks(before, field, dots).len() == before.len() + dots,
    decreases dots,
{
    if dots > 0 {
        dots_are_counted(before, field, (dots - 1) as nat);
    }
}

/// The lock screen shows one dot for each character that was typed, up to
/// eighteen: passwords of the same length look the same, and so do all longer
/// ones.
pub proof fn the_lock_screen_counts_to_eighteen(
    layout: LockLayout,
    size: Size,
    name: Seq<char>,
    typed: nat,
    other: nat,
)
    ensures
        typed <= 18 ==> lock_marks(layout, size, name, typed).len() == lock_marks(
            layout,
            size,
            name,
            0,
        ).len() + typed,
        typed >= 18 && other >= 18 ==> lock_marks(layout, size, name, typed) == lock_marks(
            layout,
            size,
            name,
            other,
        ),
{
    let avatar = layout.avatar;
    let cx = avatar.origin.x + half(avatar.size.width as int);
    let cy = avatar.origin.y + half(avatar.size.height as int);
    let ground = Seq::<Mark>::empty().push(Mark::Clear(LOCK)).push(
        disc(cx, cy, half(avatar.size.width as int), layout.outer),
    ).push(disc(cx, cy, quotient(avatar.size.width as int, 3), layout.inner)).push(
        centred(
            layout.name.origin.x as int,
            layout.name.size.width as int,
            layout.name.origin.y as int,
            20,
            LOCK_NAME,
            name,
            14,
        ),
    ).push(Mark::Round(layout.field, 10, FIELD));
    if typed <= 18 {
        dots_are_counted(ground, layout.field, typed);
        dots_are_counted(ground, layout.field, 0);
    }
}

} // verus!
