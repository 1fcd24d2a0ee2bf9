//! The application gallery's surface.

use crate::app_store::{AppAction, AppModel, app_views, CatalogState, FlatpakApp};
use crate::drawing::{
    centred, hash31, initial, initial_of, shortened, text_hash, truncate, Anchor, Canvas, Frame, Mark,
    Sheet,
};
use crate::geometry::{
    area, area_of, at_least_one, half, half_of, local_to, nearest_i32, seen_from, surface_size, Point, Rect,
    Size,
};
use crate::num::{saturated, smaller};
use crate::pixel::{measured, text_width};
use vstd::prelude::*;
use vstd::string::*;
use vstd::utf8::encode_utf8;

verus! {

pub const WINDOW: u32 = 0xf4f8_fcfa;

pub const TOOLBAR: u32 = 0xeaf1_f8fa;

pub const SIDEBAR: u32 = 0xe1eb_f4eb;

pub const CONTENT: u32 = 0xf9fb_fdf5;

pub const CARD: u32 = 0xffff_ffff;

pub const CARD_SELECTED: u32 = 0xdcf3_fcff;

pub const TEXT: u32 = 0x1622_2fff;

pub const MUTED: u32 = 0x5c6c_7bff;

pub const SUBTLE: u32 = 0x8e9d_aaff;

pub const ACCENT: u32 = 0x087f_b2ff;

pub const ACCENT_SOFT: u32 = 0xcfed_f8ff;

pub const ERROR: u32 = 0xbc37_3eff;

pub const WARNING: u32 = 0xa56a_16ff;

pub const SEARCH: u32 = 0xd7e1_ebff;

pub const INITIAL: u32 = 0xffff_fffa;

/// Where the parts of the gallery stand on the output.
#[derive(Debug, Clone, PartialEq, Eq)]
pub struct GalleryLayout {
    pub window: Rect,
    pub toolbar: Rect,
    pub sidebar: Rect,
    pub content: Rect,
    pub search: Rect,
    pub cards: Vec<Rect>,
}

/// One category of the sidebar.
#[derive(Debug, Clone, PartialEq, Eq)]
pub struct CategoryRow {
    pub place: Rect,
    pub label: String,
    pub selected: bool,
}

/// What the gallery shows.
#[derive(Debug, PartialEq, Eq)]
pub struct GalleryView {
    pub query: String,
    pub categories: Vec<CategoryRow>,
    /// The applications that match the query and the category.
    pub visible: Vec<FlatpakApp>,
    pub selected: Option<usize>,
    pub state: CatalogState,
    /// Whether the catalogue has applications but none that match.
    pub no_results: bool,
}

// ---- an application's card -------------------------------------------------------------

pub open spec fn tint_of(hash: nat) -> u32 {
    if hash % 5 == 0 {
        0x087f_b2ff
    } else if hash % 5 == 1 {
        0x3d69_baff
    } else if hash % 5 == 2 {
        0x4d91_73ff
    } else if hash % 5 == 3 {
        0xae69_36ff
    } else {
        0x7a5e_a6ff
    }
}

/// A stable colour for an application.
pub fn icon_tint(id: &str) -> (color: u32)
    ensures
        color == tint_of(hash31(encode_utf8(id@), 17)),
{
    let hash: u32 = text_hash(id, 17);
    match hash % 5 {
        0 => 0x087f_b2ff,
        1 => 0x3d69_baff,
        2 => 0x4d91_73ff,
        3 => 0xae69_36ff,
        _ => 0x7a5e_a6ff,
    }
}

pub open spec fn action_label(action: AppAction) -> Seq<char> {
    match action {
        AppAction::Install => "Install"@,
        AppAction::Update => "Update"@,
        AppAction::Open => "Open"@,
    }
}

pub open spec fn origin_label(origin: Option<Seq<char>>) -> Seq<char> {
    match origin {
        Some(name) => name,
        None => "Local"@,
    }
}

/// The icon, the name, the summary and the origin of an application.
pub open spec fn card_text_marks(before: Seq<Mark>, card: Rect, app: AppModel) -> Seq<Mark> {
    let (x, y, width) = (card.origin.x as int, card.origin.y as int, card.size.width as int);
    let icon = area(x + 14, y + 14, 58, 58);
    before.push(
        Mark::Round(icon, 15, tint_of(hash31(encode_utf8(app.metadata.app_id), 17))),
    ).push(
        centred(
            icon.origin.x as int,
            58,
            icon.origin.y + 16,
            28,
            INITIAL,
            initial(app.metadata.name),
            25,
        ),
    ).push(
        Mark::Label(area(x + 14, y + 84, width - 28, 10), TEXT, shortened(app.metadata.name, 22)),
    ).push(
        Mark::Label(
            area(x + 14, y + 103, width - 28, 18),
            MUTED,
            shortened(app.metadata.summary, 29),
        ),
    ).push(
        Mark::Label(
            area(x + 14, y + 132, width - 28, 9),
            SUBTLE,
            shortened(origin_label(app.metadata.origin), 24),
        ),
    )
}

/// An application's card: its icon and texts, and the button of its action.
pub open spec fn card_marks(before: Seq<Mark>, card: Rect, app: AppModel) -> Seq<Mark> {
    let action = action_label(app.action());
    let button = area(
        card.origin.x + 14,
        card.bottom_edge() - 38,
        smaller(measured(action) + 24, card.size.width - 28),
        24,
    );
    card_text_marks(before, card, app).push(Mark::Round(button, 8, ACCENT_SOFT)).push(
        Mark::Label(
            area(button.origin.x + 12, button.origin.y + 9, button.size.width - 18, 9),
            ACCENT,
            action,
        ),
    )
}

/// Draws an application's card.
pub fn draw_app_card(sheet: &mut Sheet, card: Rect, app: &FlatpakApp)
    ensures
        final(sheet)@ == card_marks(old(sheet)@, card, app@),
{
    let ghost before = sheet@;
    let (x, y): (i128, i128) = (card.origin.x as i128, card.origin.y as i128);
    let wide: i128 = card.size.width as i128 - 28;
    let icon = area_of(x + 14, y + 14, 58, 58);
    sheet.round(icon, 15, icon_tint(app.app_id()));
    let letter = initial_of(app.name());
    sheet.write_centred(
        (icon.origin.x as i128, 58),
        icon.origin.y as i128 + 16,
        28,
        INITIAL,
        letter.as_str(),
        25,
    );
    let name = truncate(app.name(), 22);
    sheet.label(area_of(x + 14, y + 84, wide, 10), TEXT, name.as_str());
    let summary = truncate(app.summary(), 29);
    sheet.label(area_of(x + 14, y + 103, wide, 18), MUTED, summary.as_str());
    let origin = match &app.metadata.origin {
        Some(origin) => truncate(origin.as_str(), 24),
        None => truncate("Local", 24),
    };
    sheet.label(area_of(x + 14, y + 132, wide, 9), SUBTLE, origin.as_str());
    assert(sheet@ == card_text_marks(before, card, app@));
    let action = match app.primary_action() {
        AppAction::Install => "Install",
        AppAction::Update => "Update",
        AppAction::Open => "Open",
    };
    let room: i128 = text_width(action) as i128 + 24;
    let button = area_of(
        x + 14,
        card.bottom() as i128 - 38,
        if room <= wide {
            room
        } else {
            wide
        },
        24,
    );
    sheet.round(button, 8, ACCENT_SOFT);
    sheet.label(
        area_of(
            button.origin.x as i128 + 12,
            button.origin.y as i128 + 9,
            button.size.width as i128 - 18,
            9,
        ),
        ACCENT,
        action,
    );
}

// ---- the surface -----------------------------------------------------------------------

/// The window, its heading and its search field.
pub open spec fn window_marks(layout: GalleryLayout, size: Size, query: Seq<char>) -> Seq<Mark> {
    let origin = layout.window.origin;
    let search = seen_from(layout.search, origin);
    Seq::<Mark>::empty().push(Mark::Clear(0)).push(
        Mark::Round(area(0, 0, size.width as int, size.height as int), 18, WINDOW),
    ).push(Mark::Fill(seen_from(layout.toolbar, origin), TOOLBAR)).push(
        Mark::Fill(seen_from(layout.sidebar, origin), SIDEBAR),
    ).push(Mark::Fill(seen_from(layout.content, origin), CONTENT)).push(
        Mark::Label(area(22, 18, 300, 14), TEXT, "App Gallery"@),
    ).push(
        Mark::Label(
            area(22, 39, 330, 10),
            MUTED,
            "Install and launch software from Flatpak Hub"@,
        ),
    ).push(Mark::Round(search, 10, SEARCH)).push(
        Mark::Label(
            area(search.origin.x + 12, search.origin.y + 10, search.size.width - 18, 10),
            if query.len() == 0 {
                SUBTLE
            } else {
                TEXT
            },
            if query.len() == 0 {
                "Search apps"@
            } else {
                query
            },
        ),
    )
}

/// A row of the sidebar, on a soft ground where it is selected.
pub open spec fn category_marks(before: Seq<Mark>, origin: Point, row: CategoryRow) -> Seq<Mark> {
    let place = seen_from(row.place, origin);
    let ground = if row.selected {
        before.push(Mark::Round(place, 9, ACCENT_SOFT))
    } else {
        before
    };
    ground.push(
        Mark::Label(
            area(place.origin.x + 10, place.origin.y + 12, place.size.width - 16, 9),
            if row.selected {
                ACCENT
            } else {
                TEXT
            },
            row.label@,
        ),
    )
}

pub open spec fn sidebar_marks(before: Seq<Mark>, origin: Point, rows: Seq<CategoryRow>) -> Seq<Mark>
    decreases rows.len(),
{
    if rows.len() == 0 {
        before
    } else {
        category_marks(sidebar_marks(before, origin, rows.drop_last()), origin, rows.last())
    }
}

/// The cards of the applications, the selected one on its own ground.
pub open spec fn cards_marks(
    before: Seq<Mark>,
    origin: Point,
    places: Seq<Rect>,
    apps: Seq<AppModel>,
    selected: Option<usize>,
) -> Seq<Mark>
    decreases apps.len(),
{
    if apps.len() == 0 {
        before
    } else {
        let index = apps.len() - 1;
        let place = seen_from(places[index], origin);
        card_marks(
            cards_marks(before, origin, places, apps.drop_last(), selected).push(
                Mark::Round(
                    place,
                    12,
                    if selected == Some(index as usize) {
                        CARD_SELECTED
                    } else {
                        CARD
                    },
                ),
            ),
            place,
            apps.last(),
        )
    }
}

/// What stands in an empty gallery: a title, a detail, and the title's colour.
pub open spec fn empty_message(state: CatalogState, no_results: bool) -> (Seq<char>, Seq<char>, u32) {
    match state {
        CatalogState::Loading => (
            "Loading Flatpak Hub"@,
            "Checking the configured Flathub remote..."@,
            MUTED,
        ),
        CatalogState::Offline => (
            "Flatpak is offline"@,
            "Cached or locally installed apps remain available."@,
            WARNING,
        ),
        CatalogState::Error(message) => ("Could not load the catalogue"@, message@, ERROR),
        CatalogState::Empty => if no_results {
            ("No apps match this search"@, "Try an app name, category, or Flatpak ID."@, MUTED)
        } else {
            (
                "No applications available"@,
                "Connect Flatpak to a remote or refresh the catalogue."@,
                MUTED,
            )
        },
        CatalogState::Ready => (
            "No applications available"@,
            "Connect Flatpak to a remote or refresh the catalogue."@,
            MUTED,
        ),
    }
}

pub open spec fn empty_marks(
    before: Seq<Mark>,
    layout: GalleryLayout,
    message: (Seq<char>, Seq<char>, u32),
) -> Seq<Mark> {
    let origin = layout.window.origin;
    let centre = Anchor::About(
        saturated(
            layout.content.origin.x - origin.x + half(layout.content.size.width as int),
        ) as i32,
    );
    let top = layout.content.origin.y - origin.y;
    before.push(
        Mark::Type(centre, saturated(top + 180) as i32, 20, message.2, message.0, 16),
    ).push(Mark::Type(centre, saturated(top + 210) as i32, 14, MUTED, message.1, 10))
}

/// The whole gallery.
pub open spec fn gallery_marks(layout: GalleryLayout, size: Size, view: GalleryView) -> Seq<Mark> {
    let origin = layout.window.origin;
    let listed = cards_marks(
        sidebar_marks(window_marks(layout, size, view.query@), origin, view.categories@),
        origin,
        layout.cards@,
        app_views(view.visible@),
        view.selected,
    );
    if view.visible@.len() == 0 {
        empty_marks(listed, layout, empty_message(view.state, view.no_results))
    } else {
        listed
    }
}

fn draw_window(layout: &GalleryLayout, size: Size, query: &str) -> (sheet: Sheet)
    ensures
        sheet@ == window_marks(*layout, size, query@),
{
    let origin = layout.window.origin;
    let mut sheet = Sheet::new();
    sheet.clear(0);
    sheet.round(area_of(0, 0, size.width as i128, size.height as i128), 18, WINDOW);
    sheet.fill(local_to(layout.toolbar, origin), TOOLBAR);
    sheet.fill(local_to(layout.sidebar, origin), SIDEBAR);
    sheet.fill(local_to(layout.content, origin), CONTENT);
    sheet.label(area_of(22, 18, 300, 14), TEXT, "App Gallery");
    sheet.label(
        area_of(22, 39, 330, 10),
        MUTED,
        "Install and launch software from Flatpak Hub",
    );
    let search = local_to(layout.search, origin);
    sheet.round(search, 10, SEARCH);
    let empty = query.is_empty();
    sheet.label(
        area_of(
            search.origin.x as i128 + 12,
            search.origin.y as i128 + 10,
            search.size.width as i128 - 18,
            10,
        ),
        if empty {
            SUBTLE
        } else {
            TEXT
        },
        if empty {
            "Search apps"
        } else {
            query
        },
    );
    sheet
}

fn draw_category(sheet: &mut Sheet, origin: Point, row: &CategoryRow)
    ensures
        final(sheet)@ == category_marks(old(sheet)@, origin, *row),
{
    let place = local_to(row.place, origin);
    if row.selected {
        sheet.round(place, 9, ACCENT_SOFT);
    }
    sheet.label(
        area_of(
            place.origin.x as i128 + 10,
            place.origin.y as i128 + 12,
            place.size.width as i128 - 16,
            9,
        ),
        if row.selected {
            ACCENT
        } else {
            TEXT
        },
        row.label.as_str(),
    );
}

fn draw_empty(sheet: &mut Sheet, layout: &GalleryLayout, state: &CatalogState, no_results: bool)
    ensures
        final(sheet)@ == empty_marks(old(sheet)@, *layout, empty_message(*state, no_results)),
{
    let (title, detail, color): (&str, &str, u32) = match state {
        CatalogState::Loading => (
            "Loading Flatpak Hub",
            "Checking the configured Flathub remote...",
            MUTED,
        ),
        CatalogState::Offline => (
            "Flatpak is offline",
            "Cached or locally installed apps remain available.",
            WARNING,
        ),
        CatalogState::Error(message) => ("Could not load the catalogue", message.as_str(), ERROR),
        CatalogState::Empty => if no_results {
            ("No apps match this search", "Try an app name, category, or Flatpak ID.", MUTED)
        } else {
            (
                "No applications available",
                "Connect Flatpak to a remote or refresh the catalogue.",
                MUTED,
            )
        },
        CatalogState::Ready => (
            "No applications available",
            "Connect Flatpak to a remote or refresh the catalogue.",
            MUTED,
        ),
    };
    let origin = layout.window.origin;
    let middle: i128 = half_of(layout.content.size.width as i128);
    let centre = Anchor::About(
        nearest_i32(layout.content.origin.x as i128 - origin.x as i128 + middle),
    );
    let top: i128 = layout.content.origin.y as i128 - origin.y as i128;
    sheet.write_at(centre, top + 180, 20, color, title, 16);
    sheet.write_at(centre, top + 210, 14, MUTED, detail, 10);
}

/// The renderer of the gallery, with one bounded buffer.
#[derive(Debug, Clone, Copy, PartialEq, Eq, Structural)]
pub struct AppStoreRenderer {
    pub canvas: Canvas,
}

impl AppStoreRenderer {
    pub fn new() -> (renderer: Self)
        ensures
            renderer.canvas.size == (Size { width: 0, height: 0 }),
    {
        AppStoreRenderer { canvas: Canvas::new() }
    }

    /// The gallery as it stands. Every visible application has a place among
    /// the layout's cards.
    pub fn element(&mut self, layout: &GalleryLayout, view: &GalleryView) -> (frame: Frame)
        requires
            view.visible@.len() <= layout.cards@.len(),
        ensures
            frame.origin == layout.window.origin,
            frame.size == at_least_one(layout.window.size),
            frame.resized == (old(self).canvas.size != frame.size),
            final(self).canvas.size == frame.size,
            frame.sheet@ == gallery_marks(*layout, frame.size, *view),
    {
        let size = surface_size(layout.window.size);
        let resized = self.canvas.fit(size);
        let origin = layout.window.origin;
        let mut sheet = draw_window(layout, size, view.query.as_str());

        let ghost bare = sheet@;
        let ghost rows = view.categories@;
        let mut row: usize = 0;
        assert(rows.subrange(0, 0) =~= Seq::<CategoryRow>::empty());
        while row < view.categories.len()
            invariant
                row <= view.categories.len(),
                rows == view.categories@,
                sheet@ == sidebar_marks(bare, origin, rows.subrange(0, row as int)),
            decreases view.categories.len() - row,
        {
            let ghost next = rows.subrange(0, row + 1);
            assert(next.drop_last() =~= rows.subrange(0, row as int));
            assert(next.last() == rows[row as int]);
            draw_category(&mut sheet, origin, &view.categories[row]);
            row += 1;
        }
        assert(rows.subrange(0, row as int) =~= rows);

        let ghost listed = sheet@;
        let ghost apps = app_views(view.visible@);
        let mut index: usize = 0;
        assert(apps.subrange(0, 0) =~= Seq::<AppModel>::empty());
        while index < view.visible.len()
            invariant
                index <= view.visible.len(),
                view.visible@.len() <= layout.cards@.len(),
                apps == app_views(view.visible@),
                sheet@ == cards_marks(
                    listed,
                    origin,
                    layout.cards@,
                    apps.subrange(0, index as int),
                    view.selected,
                ),
            decreases view.visible.len() - index,
        {
            let ghost next = apps.subrange(0, index + 1);
            assert(next.drop_last() =~= apps.subrange(0, index as int));
            assert(next.last() == view.visible@[index as int]@);
            let place = local_to(layout.cards[index], origin);
            let chosen = match view.selected {
                Some(selected) => selected == index,
                None => false,
            };
            sheet.round(
                place,
                12,
                if chosen {
                    CARD_SELECTED
                } else {
                    CARD
                },
            );
            draw_app_card(&mut sheet, place, &view.visible[index]);
            index += 1;
        }
        assert(apps.subrange(0, index as int) =~= apps);
        if view.visible.len() == 0 {
            draw_empty(&mut sheet, layout, &view.state, view.no_results);
        }
        Frame { origin, size, resized, sheet }
    }
}

// ---- laws ------------------------------------------------------------------------------

/// What the button of a card says: what its action does.
pub proof fn buttons_say_what_they_do(action: AppAction, origin: Option<Seq<char>>)
    ensures
        action == AppAction::Install ==> action_label(action) == "Install"@,
        action == AppAction::Update ==> action_label(action) == "Update"@,
        action == AppAction::Open ==> action_label(action) == "Open"@,
        origin matches Some(name) ==> origin_label(origin) == name,
        origin is None ==> origin_label(origin) == "Local"@,
{
}

/// What the gallery says where it shows no application: why there is none.
pub proof fn empty_galleries_say_why(state: CatalogState, no_results: bool)
    ensures
        ({
            let (title, detail, color) = empty_message(state, no_results);
            &&& state == CatalogState::Loading ==> title == "Loading Flatpak Hub"@
            &&& state == CatalogState::Offline ==> title == "Flatpak is offline"@ && color
                == 0xa56a_16ff
            &&& state matches CatalogState::Error(message) ==> title
                == "Could not load the catalogue"@ && detail == message@ && color == 0xbc37_3eff
            &&& state == CatalogState::Empty && no_results ==> title
                == "No apps match this search"@
            &&& state == CatalogState::Ready || (state == CatalogState::Empty && !no_results)
                ==> title == "No applications available"@
        }),
{
}

/// Each application has a card at its own place, marked where it is the one that
/// is selected.
pub proof fn cards_stand_at_their_own_place(
    before: Seq<Mark>,
    origin: Point,
    places: Seq<Rect>,
    apps: Seq<AppModel>,
    next: AppModel,
    selected: Option<usize>,
)
    requires
        apps.len() < usize::MAX,
    ensures
        cards_marks(before, origin, places, Seq::empty(), selected) == before,
        ({
            let index = apps.len();
            let place = seen_from(places[index as int], origin);
            let below = cards_marks(before, origin, places, apps, selected);
            cards_marks(before, origin, places, apps.push(next), selected) == card_marks(
                below.push(
                    Mark::Round(
                        place,
                        12,
                        if selected == Some(index as usize) {
                            0xdcf3_fcff
                        } else {
                            0xffff_ffff
                        },
                    ),
                ),
                place,
                next,
            )
        }),
{
    assert(apps.push(next).drop_last() =~= apps);
}

} // verus!
