//! The card of the first-run setup.

use crate::drawing::{boxed, disc, shortened, truncate, Canvas, Frame, Mark, Sheet};
use crate::geometry::{area, area_of, at_least_one, local_to, seen_from, surface_size, Rect, Size};
use crate::num::{clamped, larger, smaller};
use crate::text::{concat3, decimal, decimal_text};
use vstd::prelude::*;
use vstd::string::*;

verus! {

pub const BACKDROP: u32 = 0x0513_26be;

pub const CARD: u32 = 0xf2f8_fcff;

pub const TEXT: u32 = 0x1324_34ff;

pub const MUTED: u32 = 0x586d_7cff;

pub const ACCENT: u32 = 0x087f_b2ff;

pub const ACCENT_SOFT: u32 = 0xd6ef_f8ff;

pub const ERROR: u32 = 0xb936_3fff;

pub const ERROR_SOFT: u32 = 0xffeb_ecff;

pub const DONE: u32 = 0x2b9b_60ff;

pub const TRACK: u32 = 0xd3df_e7ff;

#[derive(Debug, Clone, Copy, PartialEq, Eq, Structural)]
pub enum SetupStep {
    Welcome,
    Dependencies,
    GraphicsBackend,
    Swapfile,
    DesktopEntry,
    Autostart,
    InterfaceStage1,
    Complete,
}

#[derive(Debug, Clone, Copy, PartialEq, Eq, Structural)]
pub enum SetupStatus {
    NotStarted,
    InProgress,
    Failed,
    Complete,
}

/// Where setup stands.
#[derive(Debug, Clone, PartialEq, Eq)]
pub struct SetupView {
    /// The steps that are listed.
    pub steps: Vec<SetupStep>,
    pub completed: Vec<SetupStep>,
    pub skipped: Vec<SetupStep>,
    pub current_step: SetupStep,
    /// Whether the current step may be skipped.
    pub optional: bool,
    pub complete: bool,
    pub status: SetupStatus,
    pub last_error: Option<String>,
}

// ---- geometry --------------------------------------------------------------------------

pub open spec fn card_area(work_area: Rect) -> Rect {
    let width = larger(work_area.size.width as int, 1);
    let height = larger(work_area.size.height as int, 1);
    let card_width = larger(smaller(720, width - 48), 0);
    let card_height = larger(smaller(520, height - 48), 0);
    area(
        work_area.origin.x + (width - card_width) / 2,
        work_area.origin.y + (height - card_height) / 2,
        card_width,
        card_height,
    )
}

/// The card, in the middle of the work area.
pub fn card_rect(work_area: Rect) -> (card: Rect)
    ensures
        card == card_area(work_area),
{
    let size = surface_size(work_area.size);
    let (width, height): (i128, i128) = (size.width as i128, size.height as i128);
    let card_width: i128 = if width >= 768 {
        720
    } else if width > 48 {
        width - 48
    } else {
        0
    };
    let card_height: i128 = if height >= 568 {
        520
    } else if height > 48 {
        height - 48
    } else {
        0
    };
    area_of(
        work_area.origin.x as i128 + (width - card_width) / 2,
        work_area.origin.y as i128 + (height - card_height) / 2,
        card_width,
        card_height,
    )
}

pub open spec fn button_area(work_area: Rect) -> Rect {
    let card = card_area(work_area);
    area(card.right_edge() - 184, card.bottom_edge() - 60, 142, 36)
}

/// The button of the primary action.
pub fn button_rect(work_area: Rect) -> (button: Rect)
    ensures
        button == button_area(work_area),
{
    let card = card_rect(work_area);
    area_of(card.right() as i128 - 184, card.bottom() as i128 - 60, 142, 36)
}

// ---- texts -----------------------------------------------------------------------------

pub open spec fn label_text(step: SetupStep) -> Seq<char> {
    match step {
        SetupStep::Welcome => "Confirm setup"@,
        SetupStep::Dependencies => "Check dependencies"@,
        SetupStep::GraphicsBackend => "Choose renderer"@,
        SetupStep::Swapfile => "Review swapfile"@,
        SetupStep::DesktopEntry => "Install app entry"@,
        SetupStep::Autostart => "Start with system"@,
        SetupStep::InterfaceStage1 => "Activate first interface stage"@,
        SetupStep::Complete => "Complete"@,
    }
}

pub fn step_label(step: SetupStep) -> (label: &'static str)
    ensures
        label@ == label_text(step),
{
    match step {
        SetupStep::Welcome => "Confirm setup",
        SetupStep::Dependencies => "Check dependencies",
        SetupStep::GraphicsBackend => "Choose renderer",
        SetupStep::Swapfile => "Review swapfile",
        SetupStep::DesktopEntry => "Install app entry",
        SetupStep::Autostart => "Start with system",
        SetupStep::InterfaceStage1 => "Activate first interface stage",
        SetupStep::Complete => "Complete",
    }
}

pub open spec fn hint_text(step: SetupStep) -> Seq<char> {
    match step {
        SetupStep::Welcome => "Rouch will keep this setup resumable."@,
        SetupStep::Dependencies => "Only the runtime pieces needed by the first stage are installed."@,
        SetupStep::GraphicsBackend => "Vulkan is preferred; OpenGL keeps the desktop usable."@,
        SetupStep::Swapfile => "Recommended for memory pressure; changing an active file needs confirmation."@,
        SetupStep::DesktopEntry => "Adds Rouch to the desktop application menu."@,
        SetupStep::Autostart => "Optional: launch Rouch when your graphical session starts."@,
        SetupStep::InterfaceStage1 => "Downloads the shell bootstrap, not the whole catalog or media set."@,
        SetupStep::Complete => ""@,
    }
}

pub fn step_hint(step: SetupStep) -> (hint: &'static str)
    ensures
        hint@ == hint_text(step),
{
    match step {
        SetupStep::Welcome => "Rouch will keep this setup resumable.",
        SetupStep::Dependencies => "Only the runtime pieces needed by the first stage are installed.",
        SetupStep::GraphicsBackend => "Vulkan is preferred; OpenGL keeps the desktop usable.",
        SetupStep::Swapfile => "Recommended for memory pressure; changing an active file needs confirmation.",
        SetupStep::DesktopEntry => "Adds Rouch to the desktop application menu.",
        SetupStep::Autostart => "Optional: launch Rouch when your graphical session starts.",
        SetupStep::InterfaceStage1 => "Downloads the shell bootstrap, not the whole catalog or media set.",
        SetupStep::Complete => "",
    }
}

pub open spec fn status_text(status: SetupStatus) -> Seq<char> {
    match status {
        SetupStatus::NotStarted => "Ready to begin"@,
        SetupStatus::InProgress => "Current step needs your decision"@,
        SetupStatus::Failed => "This step needs attention"@,
        SetupStatus::Complete => "Rouch is ready"@,
    }
}

/// The button's text, and how far its left edge is from the card's right one.
pub open spec fn action_text(status: SetupStatus) -> (Seq<char>, int, int) {
    match status {
        SetupStatus::Complete => ("Continue"@, 154, 100),
        SetupStatus::Failed => ("Retry step"@, 158, 110),
        SetupStatus::NotStarted => ("Begin setup"@, 164, 124),
        SetupStatus::InProgress => ("Apply step"@, 164, 124),
    }
}

// ---- drawing ---------------------------------------------------------------------------

/// The card and its heading.
pub open spec fn heading_marks(card: Rect, size: Size) -> Seq<Mark> {
    let (x, y, width) = (card.origin.x as int, card.origin.y as int, card.size.width as int);
    Seq::<Mark>::empty().push(
        Mark::Fill(area(0, 0, size.width as int, size.height as int), BACKDROP),
    ).push(Mark::Round(card, 22, CARD)).push(
        boxed(area(x + 42, y + 34, width - 84, 26), TEXT, "Set up your Rouch environment"@, 24),
    ).push(
        boxed(
            area(x + 42, y + 70, width - 84, 14),
            MUTED,
            "Choose how Rouch should start, render, and recover."@,
            12,
        ),
    )
}

pub open spec fn is_done(view: SetupView, step: SetupStep) -> bool {
    view.completed@.contains(step) || view.skipped@.contains(step)
}

pub open spec fn is_current(view: SetupView, step: SetupStep) -> bool {
    view.current_step == step && !view.complete
}

/// One line of the list of steps: a dot, the label, and a hint below the
/// current one.
pub open spec fn step_marks(before: Seq<Mark>, left: int, y: int, view: SetupView, step: SetupStep) -> Seq<
    Mark,
> {
    let color = if is_done(view, step) {
        DONE
    } else if is_current(view, step) {
        ACCENT
    } else {
        MUTED
    };
    let dot = before.push(
        disc(
            left + 9,
            y + 10,
            8,
            if is_current(view, step) {
                ACCENT_SOFT
            } else {
                color
            },
        ),
    );
    let ticked = if is_done(view, step) {
        dot.push(disc(left + 9, y + 10, 4, DONE))
    } else {
        dot
    };
    let labelled = ticked.push(
        boxed(area(left + 28, y + 3, 250, 14), color, label_text(step), 12),
    );
    if is_current(view, step) {
        labelled.push(boxed(area(left + 28, y + 20, 390, 11), MUTED, hint_text(step), 9))
    } else {
        labelled
    }
}

pub open spec fn list_marks(before: Seq<Mark>, card: Rect, view: SetupView, count: nat) -> Seq<Mark>
    decreases count,
{
    if count == 0 {
        before
    } else {
        step_marks(
            list_marks(before, card, view, (count - 1) as nat),
            card.origin.x + 42,
            card.origin.y + 120 + (count - 1) * 42,
            view,
            view.steps@[count - 1],
        )
    }
}

pub open spec fn progress(view: SetupView) -> nat {
    view.completed@.len() + view.skipped@.len()
}

/// The right half: the status, and below it the error or the progress.
pub open spec fn status_marks(before: Seq<Mark>, card: Rect, view: SetupView) -> Seq<Mark> {
    let right = card.origin.x + 430;
    let top = card.origin.y + 132;
    let edge = card.right_edge();
    let told = before.push(
        boxed(
            area(right, top, 240, 16),
            if view.status == SetupStatus::Failed {
                ERROR
            } else {
                TEXT
            },
            status_text(view.status),
            14,
        ),
    );
    match view.last_error {
        Some(error) => told.push(
            Mark::Round(area(right, top + 38, edge - right - 42, 76), 10, ERROR_SOFT),
        ).push(
            boxed(
                area(right + 14, top + 52, edge - right - 70, 50),
                ERROR,
                shortened(error@, 56),
                10,
            ),
        ),
        None => {
            let track = area(right, top + 72, edge - right - 42, 8);
            let steps = larger(view.steps@.len() as int, 1);
            told.push(
                boxed(
                    area(right, top + 38, 260, 14),
                    MUTED,
                    decimal(progress(view)) + "/"@ + (decimal(view.steps@.len())
                        + " stages accounted for"@),
                    11,
                ),
            ).push(Mark::Round(track, 4, TRACK)).push(
                Mark::Round(
                    area(
                        track.origin.x as int,
                        track.origin.y as int,
                        clamped(
                            track.size.width * progress(view) as int / steps,
                            0,
                            track.size.width as int,
                        ),
                        track.size.height as int,
                    ),
                    4,
                    ACCENT,
                ),
            )
        },
    }
}

/// The button, and the hint that an optional step can be skipped.
pub open spec fn footer_marks(before: Seq<Mark>, card: Rect, view: SetupView) -> Seq<Mark> {
    let footer = card.bottom_edge() - 60;
    let edge = card.right_edge();
    let (text, inset, width) = action_text(view.status);
    let button = before.push(Mark::Round(area(edge - 184, footer, 142, 36), 10, ACCENT_SOFT)).push(
        boxed(area(edge - inset, footer + 12, width, 12), ACCENT, text, 11),
    );
    if view.optional && view.status == SetupStatus::InProgress {
        button.push(
            boxed(
                area(card.origin.x + 42, footer + 12, 190, 12),
                MUTED,
                "Press Escape to skip this optional step"@,
                9,
            ),
        )
    } else {
        button
    }
}

/// The whole overlay.
pub open spec fn setup_marks(card: Rect, size: Size, view: SetupView) -> Seq<Mark> {
    footer_marks(
        status_marks(
            list_marks(heading_marks(card, size), card, view, view.steps@.len()),
            card,
            view,
        ),
        card,
        view,
    )
}

fn holds_step(list: &Vec<SetupStep>, step: SetupStep) -> (yes: bool)
    ensures
        yes == list@.contains(step),
{
    let mut i: usize = 0;
    while i < list.len()
        invariant
            i <= list.len(),
            forall|k: int| 0 <= k < i ==> list@[k] != step,
        decreases list.len() - i,
    {
        if list[i] == step {
            return true;
        }
        i += 1;
    }
    false
}

fn draw_heading(card: Rect, size: Size) -> (sheet: Sheet)
    ensures
        sheet@ == heading_marks(card, size),
{
    let (x, y): (i128, i128) = (card.origin.x as i128, card.origin.y as i128);
    let wide: i128 = card.size.width as i128 - 84;
    let mut sheet = Sheet::new();
    sheet.fill(area_of(0, 0, size.width as i128, size.height as i128), BACKDROP);
    sheet.round(card, 22, CARD);
    sheet.write(area_of(x + 42, y + 34, wide, 26), TEXT, "Set up your Rouch environment", 24);
    sheet.write(
        area_of(x + 42, y + 70, wide, 14),
        MUTED,
        "Choose how Rouch should start, render, and recover.",
        12,
    );
    sheet
}

fn draw_step(sheet: &mut Sheet, left: i128, y: i128, view: &SetupView, step: SetupStep)
    requires
        -0x1_0000_0000 <= left <= 0x1_0000_0000,
        -0x1_0000_0000 <= y <= 0x1_0000_0000_0000_0000_0000,
    ensures
        final(sheet)@ == step_marks(old(sheet)@, left as int, y as int, *view, step),
{
    let done = holds_step(&view.completed, step) || holds_step(&view.skipped, step);
    let current = view.current_step == step && !view.complete;
    let color: u32 = if done {
        DONE
    } else if current {
        ACCENT
    } else {
        MUTED
    };
    sheet.circle(
        left + 9,
        y + 10,
        8,
        if current {
            ACCENT_SOFT
        } else {
            color
        },
    );
    if done {
        sheet.circle(left + 9, y + 10, 4, DONE);
    }
    sheet.write(area_of(left + 28, y + 3, 250, 14), color, step_label(step), 12);
    if current {
        sheet.write(area_of(left + 28, y + 20, 390, 11), MUTED, step_hint(step), 9);
    }
}

fn draw_status(sheet: &mut Sheet, card: Rect, view: &SetupView)
    requires
        view.last_error is Some || card.right_edge() - card.origin.x >= 472,
        progress(*view) <= i32::MAX,
    ensures
        final(sheet)@ == status_marks(old(sheet)@, card, *view),
{
    let right: i128 = card.origin.x as i128 + 430;
    let top: i128 = card.origin.y as i128 + 132;
    let edge: i128 = card.right() as i128;
    let status = match view.status {
        SetupStatus::NotStarted => "Ready to begin",
        SetupStatus::InProgress => "Current step needs your decision",
        SetupStatus::Failed => "This step needs attention",
        SetupStatus::Complete => "Rouch is ready",
    };
    let color: u32 = if view.status == SetupStatus::Failed {
        ERROR
    } else {
        TEXT
    };
    sheet.write(area_of(right, top, 240, 16), color, status, 14);
    match &view.last_error {
        Some(error) => {
            sheet.round(area_of(right, top + 38, edge - right - 42, 76), 10, ERROR_SOFT);
            let text = truncate(error.as_str(), 56);
            sheet.write(
                area_of(right + 14, top + 52, edge - right - 70, 50),
                ERROR,
                text.as_str(),
                10,
            );
        },
        None => {
            let done: usize = view.completed.len() + view.skipped.len();
            let number = decimal_text(done as u64);
            let total = decimal_text(view.steps.len() as u64);
            let rest = crate::text::concat2(total.as_str(), " stages accounted for");
            let text = concat3(number.as_str(), "/", rest.as_str());
            sheet.write(area_of(right, top + 38, 260, 14), MUTED, text.as_str(), 11);
            let track = area_of(right, top + 72, edge - right - 42, 8);
            sheet.round(track, 4, TRACK);
            let steps: i128 = if view.steps.len() > 0 {
                view.steps.len() as i128
            } else {
                1
            };
            let wide: i128 = track.size.width as i128;
            proof {
                assert(0 <= wide * done <= i32::MAX * i32::MAX) by (nonlinear_arith)
                    requires
                        0 <= wide <= i32::MAX,
                        0 <= done <= i32::MAX,
                ;
            }
            let share: i128 = wide * done as i128 / steps;
            let filled: i128 = if share > wide {
                wide
            } else {
                share
            };
            proof {
                assert(0 <= share) by (nonlinear_arith)
                    requires
                        share == (wide * done) / (steps as int),
                        0 <= wide * done,
                        steps > 0,
                ;
            }
            sheet.round(
                area_of(
                    track.origin.x as i128,
                    track.origin.y as i128,
                    filled,
                    track.size.height as i128,
                ),
                4,
                ACCENT,
            );
        },
    }
}

fn draw_footer(sheet: &mut Sheet, card: Rect, view: &SetupView)
    ensures
        final(sheet)@ == footer_marks(old(sheet)@, card, *view),
{
    let footer: i128 = card.bottom() as i128 - 60;
    let edge: i128 = card.right() as i128;
    sheet.round(area_of(edge - 184, footer, 142, 36), 10, ACCENT_SOFT);
    match view.status {
        SetupStatus::Complete => {
            sheet.write(area_of(edge - 154, footer + 12, 100, 12), ACCENT, "Continue", 11);
        },
        SetupStatus::Failed => {
            sheet.write(area_of(edge - 158, footer + 12, 110, 12), ACCENT, "Retry step", 11);
        },
        SetupStatus::NotStarted => {
            sheet.write(area_of(edge - 164, footer + 12, 124, 12), ACCENT, "Begin setup", 11);
        },
        SetupStatus::InProgress => {
            sheet.write(area_of(edge - 164, footer + 12, 124, 12), ACCENT, "Apply step", 11);
        },
    }
    if view.optional && view.status == SetupStatus::InProgress {
        sheet.write(
            area_of(card.origin.x as i128 + 42, footer + 12, 190, 12),
            MUTED,
            "Press Escape to skip this optional step",
            9,
        );
    }
}

/// The renderer of the setup overlay, as large as the output.
#[derive(Debug, Clone, Copy, PartialEq, Eq, Structural)]
pub struct SetupRenderer {
    pub canvas: Canvas,
}

impl SetupRenderer {
    pub fn new() -> (renderer: Self)
        ensures
            renderer.canvas.size == (Size { width: 0, height: 0 }),
    {
        SetupRenderer { canvas: Canvas::new() }
    }

    /// The overlay as it stands. The progress bar needs a card of 472 pixels.
    pub fn element(&mut self, work_area: Rect, view: &SetupView) -> (frame: Frame)
        requires
            view.last_error is Some || work_area.size.width >= 520,
            progress(*view) <= i32::MAX,
        ensures
            frame.origin == work_area.origin,
            frame.size == at_least_one(work_area.size),
            frame.resized == (old(self).canvas.size != frame.size),
            final(self).canvas.size == frame.size,
            frame.sheet@ == setup_marks(
                seen_from(card_area(work_area), work_area.origin),
                frame.size,
                *view,
            ),
    {
        let size = surface_size(work_area.size);
        let resized = self.canvas.fit(size);
        let card = local_to(card_rect(work_area), work_area.origin);
        let mut sheet = draw_heading(card, size);
        let ghost heading = sheet@;
        let left: i128 = card.origin.x as i128 + 42;
        let top: i128 = card.origin.y as i128 + 120;
        let mut index: usize = 0;
        while index < view.steps.len()
            invariant
                index <= view.steps.len(),
                left == card.origin.x + 42,
                top == card.origin.y + 120,
                sheet@ == list_marks(heading, card, *view, index as nat),
            decreases view.steps.len() - index,
        {
            draw_step(&mut sheet, left, top + index as i128 * 42, view, view.steps[index]);
            index += 1;
        }
        draw_status(&mut sheet, card, view);
        draw_footer(&mut sheet, card, view);
        Frame { origin: work_area.origin, size, resized, sheet }
    }
}

// ---- laws ------------------------------------------------------------------------------

/// On an output with room for it, the button lies inside the card.
pub proof fn the_button_is_on_the_card(work_area: Rect)
    requires
        work_area.size.width >= 232,
        work_area.size.height >= 108,
        work_area.origin.x + work_area.size.width <= i32::MAX,
        work_area.origin.y + work_area.size.height <= i32::MAX,
    ensures
        ({
            let (card, button) = (card_area(work_area), button_area(work_area));
            &&& card.origin.x <= button.origin.x
            &&& card.origin.y <= button.origin.y
            &&& button.right_edge() <= card.right_edge()
            &&& button.bottom_edge() <= card.bottom_edge()
        }),
{
}

// ---- more laws -------------------------------------------------------------------------

/// The card stands in the middle of the work area, at most 720 wide and 520 high
/// and 24 pixels from its sides; its button stands at the lower right.
pub proof fn the_card_stands_in_the_middle(work_area: Rect)
    requires
        0 <= work_area.origin.x <= 0x1_0000 && 0 <= work_area.origin.y <= 0x1_0000,
        48 <= work_area.size.width <= 0x1_0000 && 48 <= work_area.size.height <= 0x1_0000,
    ensures
        ({
            let card = card_area(work_area);
            let button = button_area(work_area);
            &&& work_area.size.width >= 768 ==> card.size.width == 720
            &&& work_area.size.width < 768 ==> card.size.width == work_area.size.width - 48
            &&& work_area.size.height >= 568 ==> card.size.height == 520
            &&& work_area.size.height < 568 ==> card.size.height == work_area.size.height - 48
            &&& card.origin.x - work_area.origin.x == (work_area.size.width - card.size.width) / 2
            &&& card.origin.y - work_area.origin.y == (work_area.size.height - card.size.height) / 2
            &&& button.origin.x + 184 == card.origin.x + card.size.width
            &&& button.origin.y + 60 == card.origin.y + card.size.height
            &&& button.size.width == 142 && button.size.height == 36
        }),
{
}

/// What the card says of the setup: each state has its own line and its own
/// button, and a step is done where it was completed or skipped.
pub proof fn the_card_tells_the_state(view: SetupView, step: SetupStep)
    ensures
        status_text(SetupStatus::NotStarted) == "Ready to begin"@,
        status_text(SetupStatus::InProgress) == "Current step needs your decision"@,
        status_text(SetupStatus::Failed) == "This step needs attention"@,
        status_text(SetupStatus::Complete) == "Rouch is ready"@,
        action_text(SetupStatus::NotStarted).0 == "Begin setup"@,
        action_text(SetupStatus::InProgress).0 == "Apply step"@,
        action_text(SetupStatus::Failed).0 == "Retry step"@,
        action_text(SetupStatus::Complete).0 == "Continue"@,
        is_done(view, step) <==> view.completed@.contains(step) || view.skipped@.contains(step),
        is_current(view, step) <==> view.current_step == step && !view.complete,
{
}

} // verus!
