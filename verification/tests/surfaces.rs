use rouch::app_store::{CatalogState, FlatpakApp};
use rouch::dock_view::{DockIcon, DockMetrics, DockRenderer, Hover};
use rouch::drawing::{render_all, Anchor, DrawOp};
use rouch::finder::FinderItem;
use rouch::finder_view::{FinderLayout, FinderPlace, FinderRenderer, FinderTile, FinderView};
use rouch::gallery::{
    icon_tint, AppStoreRenderer, CategoryRow, GalleryLayout, GalleryView, ACCENT, CARD_SELECTED, MUTED,
};
use rouch::geometry::{Point, Rect, Size};
use rouch::notifications::{
    group_rect, level_colour, panel_rect, NotificationGroup, NotificationLevel,
    NotificationPreferences, NotificationRenderer, NotificationText,
};
use rouch::screens::{
    paint_launcher, paint_lock_screen, paint_rest_screen, LauncherTile, LockLayout, DOT, REST,
};
use rouch::settings::{Pane, Setting, SettingTone};
use rouch::settings_view::{
    status_colour, PaneRow, SettingsFocus, SettingsLayout, SettingsRenderer, SettingsView,
    SliderLevel, UserCard, CARD_OPAQUE, FOCUS,
};
use rouch::setup_card::{
    button_rect, card_rect, step_hint, step_label, SetupRenderer, SetupStatus, SetupStep, SetupView,
    ACCENT_SOFT,
};

fn labels(ops: &[DrawOp]) -> Vec<String> {
    ops.iter()
        .filter_map(|op| match op {
            DrawOp::Label(_, _, text) => Some(text.clone()),
            DrawOp::Type(_, _, _, _, text, _) => Some(text.clone()),
            _ => None,
        })
        .collect()
}

fn group(unread: usize, count: usize) -> NotificationGroup {
    NotificationGroup {
        latest: Some(NotificationText {
            level: NotificationLevel::Warning,
            source: "Mail".to_owned(),
            title: "A title".to_owned(),
            body: "b".repeat(50),
        }),
        unread,
        count,
    }
}

#[test]
fn the_notification_panel_is_bounded() {
    let area = Rect::new(0, 0, 1280, 800);
    assert_eq!(panel_rect(area, 28, true, 2), Rect::new(904, 38, 360, 282));
    assert_eq!(panel_rect(area, 28, true, 99), Rect::new(904, 38, 360, 594));
    assert_eq!(panel_rect(area, 28, false, 99), Rect::new(904, 38, 360, 320));
    let panel = panel_rect(area, 28, true, 2);
    assert_eq!(group_rect(panel, 1, true), Rect::new(912, 200, 344, 94));
    assert_eq!(level_colour(NotificationLevel::Critical), level_colour(NotificationLevel::Error));
}

#[test]
fn notifications_show_their_latest_text() {
    let preferences = NotificationPreferences {
        enabled: true,
        do_not_disturb: false,
    };
    let area = Rect::new(0, 0, 1280, 800);
    let mut renderer = NotificationRenderer::new();
    let frame = renderer
        .element(area, 28, &vec![group(1, 3), group(0, 1)], preferences, true)
        .unwrap();
    assert!(frame.resized);
    let texts = labels(&frame.sheet.ops);
    assert_eq!(
        texts,
        [
            "Notification Centre",
            "Recent alerts",
            "Mail",
            "A title",
            &format!("{}…", "b".repeat(42)),
            "3 alerts",
            "Mail",
            "A title",
            &format!("{}…", "b".repeat(42)),
        ]
    );
    let again = renderer
        .element(area, 28, &vec![group(1, 3), group(0, 1)], preferences, true)
        .unwrap();
    assert!(!again.resized);
    let silent = NotificationPreferences {
        enabled: false,
        do_not_disturb: true,
    };
    let empty = renderer.element(area, 28, &vec![], silent, false).unwrap();
    assert_eq!(labels(&empty.sheet.ops), ["Turn notifications on in Settings"]);
    assert!(renderer.element(Rect::new(0, 0, 10, 10), 28, &vec![], silent, true).is_none());
    let mut pixels = vec![7u8; (frame.size.width * frame.size.height * 4) as usize];
    render_all(&mut pixels, frame.size.width as usize, &frame.sheet.ops);
    assert_eq!(&pixels[..4], &[0, 0, 0, 0]);
}

fn gallery_layout() -> GalleryLayout {
    GalleryLayout {
        window: Rect::new(100, 50, 800, 600),
        toolbar: Rect::new(100, 50, 800, 64),
        sidebar: Rect::new(100, 114, 180, 536),
        content: Rect::new(280, 114, 620, 536),
        search: Rect::new(640, 66, 240, 32),
        cards: vec![Rect::new(300, 130, 190, 200), Rect::new(500, 130, 190, 200)],
    }
}

fn gallery_view(visible: Vec<FlatpakApp>) -> GalleryView {
    GalleryView {
        query: String::new(),
        categories: vec![CategoryRow {
            place: Rect::new(110, 120, 160, 34),
            label: "All".to_owned(),
            selected: true,
        }],
        visible,
        selected: Some(0),
        state: CatalogState::Ready,
        no_results: false,
    }
}

#[test]
fn the_gallery_shows_cards_with_their_action() {
    let mut app = FlatpakApp::new("org.example.Editor", "editor", "Edits");
    app.installed = true;
    let frame = AppStoreRenderer::new().element(&gallery_layout(), &gallery_view(vec![app]));
    assert_eq!(frame.origin, Point { x: 100, y: 50 });
    let texts = labels(&frame.sheet.ops);
    assert_eq!(
        texts,
        [
            "App Gallery",
            "Install and launch software from Flatpak Hub",
            "Search apps",
            "All",
            "E",
            "editor",
            "Edits",
            "Local",
            "Open"
        ]
    );
    assert!(frame
        .sheet
        .ops
        .contains(&DrawOp::Round(Rect::new(200, 80, 190, 200), 12, CARD_SELECTED)));
    assert!(frame
        .sheet
        .ops
        .contains(&DrawOp::Label(Rect::new(20, 82, 144, 9), ACCENT, "All".to_owned())));
    assert_eq!(icon_tint(""), 0x4d91_73ff);
}

#[test]
fn an_empty_gallery_says_why() {
    let mut view = gallery_view(vec![]);
    let mut renderer = AppStoreRenderer::new();
    let text = |view: &GalleryView, renderer: &mut AppStoreRenderer| {
        let frame = renderer.element(&gallery_layout(), view);
        let texts = labels(&frame.sheet.ops);
        texts[texts.len() - 2].clone()
    };
    assert_eq!(text(&view, &mut renderer), "No applications available");
    view.state = CatalogState::Empty;
    view.no_results = true;
    assert_eq!(text(&view, &mut renderer), "No apps match this search");
    view.state = CatalogState::Offline;
    assert_eq!(text(&view, &mut renderer), "Flatpak is offline");
    view.state = CatalogState::Loading;
    assert_eq!(text(&view, &mut renderer), "Loading Flatpak Hub");
    view.state = CatalogState::Error("boom".to_owned());
    let frame = renderer.element(&gallery_layout(), &view);
    assert_eq!(
        frame.sheet.ops.last(),
        Some(&DrawOp::Type(Anchor::About(490), 274, 14, MUTED, "boom".to_owned(), 10))
    );
}

fn setup_view() -> SetupView {
    SetupView {
        steps: vec![SetupStep::Welcome, SetupStep::Swapfile],
        completed: vec![SetupStep::Welcome],
        skipped: vec![],
        current_step: SetupStep::Swapfile,
        optional: true,
        complete: false,
        status: SetupStatus::InProgress,
        last_error: None,
    }
}

#[test]
fn the_setup_card_tells_its_progress() {
    let area = Rect::new(10, 20, 1280, 800);
    assert_eq!(card_rect(area), Rect::new(290, 160, 720, 520));
    assert_eq!(button_rect(area), Rect::new(826, 620, 142, 36));
    let frame = SetupRenderer::new().element(area, &setup_view());
    let texts = labels(&frame.sheet.ops);
    assert!(texts.contains(&"1/2 stages accounted for".to_owned()));
    assert!(texts.contains(&step_hint(SetupStep::Swapfile).to_owned()));
    assert!(texts.contains(&step_label(SetupStep::Welcome).to_owned()));
    assert!(texts.contains(&"Apply step".to_owned()));
    assert_eq!(texts.last().map(String::as_str), Some("Press Escape to skip this optional step"));
    // Half of a track of 248 pixels.
    assert!(frame.sheet.ops.iter().any(|op| matches!(
        op,
        DrawOp::Round(rect, 4, _) if rect.size.width == 124
    )));
    assert!(frame
        .sheet
        .ops
        .contains(&DrawOp::Round(Rect::new(816, 600, 142, 36), 10, ACCENT_SOFT)));
    let mut failed = setup_view();
    failed.status = SetupStatus::Failed;
    failed.last_error = Some("x".repeat(60));
    let frame = SetupRenderer::new().element(Rect::new(0, 0, 100, 100), &failed);
    let texts = labels(&frame.sheet.ops);
    assert!(texts.contains(&format!("{}…", "x".repeat(55))));
    assert!(texts.contains(&"Retry step".to_owned()));
}

#[test]
fn the_lock_screen_shows_dots() {
    let layout = LockLayout {
        avatar: Rect::new(600, 200, 80, 80),
        name: Rect::new(540, 300, 200, 20),
        field: Rect::new(500, 340, 280, 36),
        outer: 1,
        inner: 2,
    };
    let area = Rect::new(0, 0, 1280, 800);
    let dots = |typed: usize| {
        paint_lock_screen(area, layout, "Ada", typed)
            .sheet
            .ops
            .iter()
            .filter(|op| matches!(op, DrawOp::Circle(_, _, 5, color) if *color == DOT))
            .count()
    };
    assert_eq!(dots(0), 0);
    assert_eq!(dots(3), 3);
    assert_eq!(dots(99), 18);
    let frame = paint_lock_screen(area, layout, "Ada", 1);
    assert_eq!(frame.sheet.ops[1], DrawOp::Circle(640, 240, 40, 1));
    assert_eq!(frame.sheet.ops[2], DrawOp::Circle(640, 240, 26, 2));
    let rest = paint_rest_screen(area);
    assert_eq!(rest.sheet.ops[0], DrawOp::Clear(REST));
    assert_eq!(rest.size, Size { width: 1280, height: 800 });
}

#[test]
fn the_launcher_shows_a_tile_for_each_application() {
    let tile = LauncherTile {
        place: Rect::new(120, 130, 80, 90),
        id: "a".to_owned(),
        name: "files".to_owned(),
    };
    let frame = paint_launcher(Rect::new(100, 100, 400, 300), Rect::new(110, 110, 200, 28), &vec![tile], "");
    assert_eq!(labels(&frame.sheet.ops), ["F", "files", "Search apps"]);
    assert_eq!(
        frame.sheet.ops[2],
        DrawOp::Round(Rect::new(20, 30, 80, 90), 16, 0x168e_afff)
    );
}

#[test]
fn the_dock_marks_running_applications() {
    let icon = |minimized: usize| DockIcon {
        app_id: "a".to_owned(),
        label: "term".to_owned(),
        place: Rect::new(100, 700, 50, 50),
        rest: Rect::new(100, 700, 48, 48),
        dot: Some(Point { x: 125, y: 756 }),
        minimized_windows: minimized,
    };
    let metrics = DockMetrics {
        max_icon_size: 96,
        panel_radius: 20,
        dot_radius: 3,
        tooltip_offset: 8,
    };
    let mut renderer = DockRenderer::new();
    let frame = renderer.render_element(
        Rect::new(0, 0, 1280, 800),
        metrics,
        Rect::new(80, 690, 400, 70),
        &vec![icon(0), icon(12)],
        Some(Hover { index: 1 }),
    );
    assert_eq!(frame.origin, Point { x: 0, y: 632 });
    assert_eq!(frame.size, Size { width: 1280, height: 168 });
    assert_eq!(labels(&frame.sheet.ops), ["T", "T", "9+", "term"]);
    assert!(frame.sheet.ops.iter().any(|op| matches!(op, DrawOp::Circle(125, 124, 3, _))));
    let bare = renderer.render_element(
        Rect::new(0, 0, 1280, 800),
        metrics,
        Rect::new(80, 690, 400, 70),
        &vec![],
        Some(Hover { index: 0 }),
    );
    assert!(!bare.resized);
    assert_eq!(bare.sheet.ops.len(), 3);
}

#[test]
fn the_finder_lists_what_fits() {
    let layout = FinderLayout {
        window: Rect::new(100, 100, 800, 500),
        sidebar: Rect::new(100, 150, 160, 450),
        toolbar: Rect::new(260, 100, 640, 50),
        tile: 64,
        label: 18,
    };
    let view = FinderView {
        can_back: true,
        can_forward: false,
        current: "/home/ada".to_owned(),
        query: String::new(),
        selection: Some(0),
    };
    let tile = |name: &str, y: i32| FinderTile {
        place: Rect::new(300, y, 90, 90),
        item: FinderItem {
            name: name.to_owned(),
            directory: false,
            size_bytes: 1,
        },
    };
    let place = FinderPlace {
        label: "Home".to_owned(),
        path: "/home/ada".to_owned(),
    };
    let frame = FinderRenderer::new().element(
        Rect::new(0, 0, 1280, 800),
        layout,
        &view,
        &vec![tile("note one.txt", 160), tile("x", 502), tile("y", 503)],
        &vec![place],
    );
    assert_eq!(
        labels(&frame.sheet.ops),
        ["<", ">", "ada", "", "Search", "Home", "note o", "ne.txt", "x", ""]
    );
}

#[test]
fn settings_rows_are_drawn_by_kind() {
    let rows = vec![
        Setting::Section {
            title: "Title".to_owned(),
            description: "About".to_owned(),
        },
        Setting::Toggle {
            key: "k",
            label: "Switch".to_owned(),
            value: true,
        },
        Setting::Slider {
            key: "s",
            label: "Level".to_owned(),
            value: 0,
            min: 0,
            max: 0,
        },
        Setting::Select {
            key: "c",
            label: "Pick".to_owned(),
            options: vec!["One".to_owned()],
            selected: 3,
        },
        Setting::Status {
            label: "State".to_owned(),
            value: "Fine".to_owned(),
            detail: "more".to_owned(),
            tone: SettingTone::Positive,
        },
        Setting::Action {
            key: "a",
            label: "Go".to_owned(),
        },
        Setting::UserCard,
        Setting::Info {
            label: "Hidden".to_owned(),
            value: "below".to_owned(),
        },
    ];
    let levels = vec![
        SliderLevel {
            filled: 65,
            percent: 50,
        };
        rows.len()
    ];
    let layout = SettingsLayout {
        window: Rect::new(100, 50, 800, 600),
        title: Rect::new(300, 60, 600, 40),
        sidebar: Rect::new(100, 110, 200, 540),
        sidebar_row: 36,
        rows: (0..8).map(|i| Rect::new(320, 120 + i * 67, 560, 60)).collect(),
    };
    let view = SettingsView {
        pane: Pane::Sound,
        title: "Sound".to_owned(),
        panes: vec![
            PaneRow {
                pane: Pane::Wifi,
                title: "Wi-Fi".to_owned(),
            },
            PaneRow {
                pane: Pane::Sound,
                title: "Sound".to_owned(),
            },
        ],
        rows,
        levels,
        user: UserCard {
            name: "Ada".to_owned(),
            outer: 1,
            inner: 2,
        },
    };
    let mut renderer = SettingsRenderer::new();
    renderer.set_focus(Some(SettingsFocus::Row(1)));
    renderer.set_opaque_fallback(true);
    let frame = renderer.element(Rect::new(0, 0, 1280, 800), &layout, &view);
    assert_eq!(
        labels(&frame.sheet.ops),
        [
            "Sound", "Wi-Fi", "Sound", "Title", "About", "Switch", "Level", "50%", "Pick", " v", "State",
            "Fine", "more", "Go", "Ada", "Edit"
        ]
    );
    let rings = frame
        .sheet
        .ops
        .iter()
        .filter(|op| matches!(op, DrawOp::Fill(_, color) if *color == FOCUS))
        .count();
    assert_eq!(rings, 4);
    assert!(frame
        .sheet
        .ops
        .contains(&DrawOp::Round(layout.window, 16, CARD_OPAQUE)));
    assert_ne!(status_colour(SettingTone::Warning), status_colour(SettingTone::Muted));
}
