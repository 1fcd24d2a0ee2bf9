//! The layers of a frame, from the bottom up.

use crate::shell::{SessionScreen, ShellState, WelcomeStage};
use vstd::prelude::*;

verus! {

/// One layer of the scene. Windows are named by their number, popups by their
/// place in the popup list; opacities are binary32.
#[derive(Debug, Clone, Copy, PartialEq, Eq, Structural)]
pub enum SceneLayer {
    Wallpaper,
    /// The surfaces of a client window.
    Surfaces { window: u64, opacity: u32 },
    /// The title bar and traffic lights of a client window.
    Chrome(u64),
    Popup { place: usize, opacity: u32 },
    Terminal { battery_saver: bool },
    Dock,
    FirstRun,
    UpdateCard,
    Widgets,
    RemovePopup,
    ControlCentre,
    Finder,
    Settings,
    AppStore,
    Launcher,
    Notifications { open: bool },
    Setup,
    RestScreen,
    LockScreen,
    TopBar,
}

/// The opacity of a window at rest: 1.0 as binary32.
pub const OPAQUE: u32 = 0x3f80_0000;

/// A window of the manager, as a frame shows it.
#[derive(Debug, Clone, Copy, PartialEq, Eq, Structural)]
pub struct SceneWindow {
    pub id: u64,
    pub renderable: bool,
    /// Whether its chrome could be drawn.
    pub chrome: bool,
    /// Its opacity in an animation that runs.
    pub opacity: Option<u32>,
}

/// An element of the render space: the window it belongs to, if it still
/// belongs to one, and whether it has a location.
#[derive(Debug, Clone, Copy, PartialEq, Eq, Structural)]
pub struct SpaceElement {
    pub window: Option<u64>,
    pub located: bool,
}

/// A placed popup: the window at the root of its tree, and whether its surface
/// still lives.
#[derive(Debug, Clone, Copy, PartialEq, Eq, Structural)]
pub struct ScenePopup {
    pub root: u64,
    pub alive: bool,
}

/// What a frame is made from.
#[derive(Debug, Clone)]
pub struct SceneFacts {
    pub shell: ShellState,
    /// Whether a wallpaper was decoded.
    pub wallpaper: bool,
    pub windows: Vec<SceneWindow>,
    /// The render space, back to front.
    pub space: Vec<SpaceElement>,
    pub popups: Vec<ScenePopup>,
    pub battery_saver: bool,
    /// Whether the first-run film has come to its end.
    pub first_run_finished: bool,
    pub notifications_empty: bool,
}

/// What a frame is made from, as a value.
#[verifier::ext_equal]
pub struct SceneModel {
    pub shell: ShellState,
    pub wallpaper: bool,
    pub windows: Seq<SceneWindow>,
    pub space: Seq<SpaceElement>,
    pub popups: Seq<ScenePopup>,
    pub battery_saver: bool,
    pub first_run_finished: bool,
    pub notifications_empty: bool,
}

impl View for SceneFacts {
    type V = SceneModel;

    open spec fn view(&self) -> SceneModel {
        SceneModel {
            shell: self.shell,
            wallpaper: self.wallpaper,
            windows: self.windows@,
            space: self.space@,
            popups: self.popups@,
            battery_saver: self.battery_saver,
            first_run_finished: self.first_run_finished,
            notifications_empty: self.notifications_empty,
        }
    }
}

pub open spec fn layer_if(show: bool, layer: SceneLayer) -> Seq<SceneLayer> {
    if show {
        seq![layer]
    } else {
        Seq::empty()
    }
}

pub open spec fn is_renderable(windows: Seq<SceneWindow>, id: u64) -> bool {
    exists|i: int| 0 <= i < windows.len() && (#[trigger] windows[i]).id == id && windows[i].renderable
}

/// The opacity that the surfaces of window `id` are drawn with.
pub open spec fn opacity_of(windows: Seq<SceneWindow>, id: u64) -> u32
    decreases windows.len(),
{
    if windows.len() == 0 {
        OPAQUE
    } else if windows.last().id == id {
        match windows.last().opacity {
            Some(opacity) => opacity,
            None => OPAQUE,
        }
    } else {
        opacity_of(windows.drop_last(), id)
    }
}

/// The windows that have chrome in this frame.
pub open spec fn chrome_of(windows: Seq<SceneWindow>) -> Seq<u64>
    decreases windows.len(),
{
    if windows.len() == 0 {
        Seq::empty()
    } else {
        let before = chrome_of(windows.drop_last());
        if windows.last().renderable && windows.last().chrome {
            before.push(windows.last().id)
        } else {
            before
        }
    }
}

/// The window that an element draws, if it draws one.
pub open spec fn drawn_window(windows: Seq<SceneWindow>, element: SpaceElement) -> Option<u64> {
    match element.window {
        Some(id) if element.located && is_renderable(windows, id) => Some(id),
        _ => None,
    }
}

/// How many of the elements draw window `id`.
pub open spec fn times_drawn(
    windows: Seq<SceneWindow>,
    space: Seq<SpaceElement>,
    id: u64,
) -> nat
    decreases space.len(),
{
    if space.len() == 0 {
        0
    } else {
        times_drawn(windows, space.drop_last(), id) + if drawn_window(windows, space.last())
            == Some(id) {
            1nat
        } else {
            0nat
        }
    }
}

pub open spec fn times_in(chrome: Seq<u64>, id: u64) -> nat
    decreases chrome.len(),
{
    if chrome.len() == 0 {
        0
    } else {
        times_in(chrome.drop_last(), id) + if chrome.last() == id {
            1nat
        } else {
            0nat
        }
    }
}

/// The layers of the windows: each client's surfaces, and right above them its
/// own chrome, where there is one left for it.
pub open spec fn window_layers(windows: Seq<SceneWindow>, space: Seq<SpaceElement>) -> Seq<
    SceneLayer,
>
    decreases space.len(),
{
    if space.len() == 0 {
        Seq::empty()
    } else {
        let before = window_layers(windows, space.drop_last());
        match drawn_window(windows, space.last()) {
            None => before,
            Some(id) => before.push(
                SceneLayer::Surfaces { window: id, opacity: opacity_of(windows, id) },
            ) + layer_if(
                times_drawn(windows, space.drop_last(), id) < times_in(chrome_of(windows), id),
                SceneLayer::Chrome(id),
            ),
        }
    }
}

/// The popups in their order, each as opaque as the window it belongs to.
pub open spec fn popup_layers(windows: Seq<SceneWindow>, popups: Seq<ScenePopup>) -> Seq<
    SceneLayer,
> {
    Seq::new(
        popups.len(),
        |i: int|
            SceneLayer::Popup { place: i as usize, opacity: opacity_of(windows, popups[i].root) },
    )
}

impl SceneModel {
    /// Whether a welcome still stands after this frame: a first-run film that
    /// has ended is dismissed while the frame is built.
    pub open spec fn welcome_left(self) -> bool {
        match self.shell.welcome {
            None => false,
            Some(WelcomeStage::FirstRun) => !self.first_run_finished,
            Some(WelcomeStage::Update) => true,
        }
    }

    /// The desktop below the shell's own surfaces: the wallpaper and the
    /// windows.
    pub open spec fn desktop(self) -> Seq<SceneLayer> {
        layer_if(self.wallpaper, SceneLayer::Wallpaper) + window_layers(self.windows, self.space)
    }

    /// With the popups of clients, the terminal, the dock and the welcome.
    pub open spec fn with_dock(self, below: Seq<SceneLayer>) -> Seq<SceneLayer> {
        below + popup_layers(self.windows, self.popups) + layer_if(
            self.shell.terminal_open,
            SceneLayer::Terminal { battery_saver: self.battery_saver },
        ) + layer_if(true, SceneLayer::Dock) + layer_if(
            self.shell.welcome == Some(WelcomeStage::FirstRun),
            SceneLayer::FirstRun,
        ) + layer_if(
            self.shell.welcome == Some(WelcomeStage::Update),
            SceneLayer::UpdateCard,
        )
    }

    /// With the widget rail and the shell's windows.
    pub open spec fn with_panels(self, below: Seq<SceneLayer>) -> Seq<SceneLayer> {
        below + layer_if(true, SceneLayer::Widgets) + layer_if(
            self.shell.remove_popup,
            SceneLayer::RemovePopup,
        ) + layer_if(self.shell.control_open, SceneLayer::ControlCentre) + layer_if(
            self.shell.finder_open,
            SceneLayer::Finder,
        ) + layer_if(self.shell.settings_open, SceneLayer::Settings) + layer_if(
            self.shell.app_store_open,
            SceneLayer::AppStore,
        ) + layer_if(self.shell.launcher_open, SceneLayer::Launcher)
    }

    /// With notifications, setup, the rest and lock screens and the top bar.
    pub open spec fn with_screens(self, below: Seq<SceneLayer>) -> Seq<SceneLayer> {
        below + layer_if(
            self.shell.notifications_open || (!self.notifications_empty && !self.welcome_left()),
            SceneLayer::Notifications { open: self.shell.notifications_open },
        ) + layer_if(self.shell.setup_open && !self.welcome_left(), SceneLayer::Setup) + layer_if(
            self.shell.session == SessionScreen::Rest,
            SceneLayer::RestScreen,
        ) + layer_if(self.shell.session == SessionScreen::Lock, SceneLayer::LockScreen)
            + layer_if(true, SceneLayer::TopBar)
    }

    /// The same scene once the frame was built.
    pub open spec fn after_frame(self) -> Self {
        SceneModel {
            shell: ShellState {
                welcome: if self.welcome_left() {
                    self.shell.welcome
                } else {
                    None
                },
                ..self.shell
            },
            ..self
        }
    }

    /// The layers of the frame, from the bottom up.
    pub open spec fn layers(self) -> Seq<SceneLayer> {
        self.with_screens(self.with_panels(self.with_dock(self.desktop())))
    }
}

fn push_if(layers: &mut Vec<SceneLayer>, show: bool, layer: SceneLayer)
    ensures
        final(layers)@ == old(layers)@ + layer_if(show, layer),
{
    if show {
        layers.push(layer);
        assert(layers@ =~= old(layers)@ + seq![layer]);
    } else {
        assert(layers@ =~= old(layers)@ + Seq::<SceneLayer>::empty());
    }
}

/// Where `id` stands in a list.
fn place_in(list: &Vec<u64>, id: u64) -> (place: Option<usize>)
    ensures
        match place {
            Some(i) => i < list.len() && list@[i as int] == id,
            None => !list@.contains(id),
        },
{
    let mut i: usize = 0;
    while i < list.len()
        invariant
            i <= list.len(),
            forall|k: int| 0 <= k < i ==> list@[k] != id,
        decreases list.len() - i,
    {
        if list[i] == id {
            return Some(i);
        }
        i += 1;
    }
    None
}

proof fn times_in_removed(chrome: Seq<u64>, i: int, id: u64)
    requires
        0 <= i < chrome.len(),
    ensures
        times_in(chrome.remove(i), id) == times_in(chrome, id) - if chrome[i] == id {
            1int
        } else {
            0int
        },
    decreases chrome.len(),
{
    if i == chrome.len() - 1 {
        assert(chrome.remove(i) =~= chrome.drop_last());
    } else {
        times_in_removed(chrome.drop_last(), i, id);
        assert(chrome.remove(i).drop_last() =~= chrome.drop_last().remove(i));
        assert(chrome.remove(i).last() == chrome.last());
    }
}

proof fn times_in_absent(chrome: Seq<u64>, id: u64)
    ensures
        chrome.contains(id) <==> times_in(chrome, id) > 0,
    decreases chrome.len(),
{
    if chrome.len() > 0 {
        let rest = chrome.drop_last();
        times_in_absent(rest, id);
        assert(chrome[chrome.len() - 1] == chrome.last());
        if rest.contains(id) {
            let k = choose|k: int| 0 <= k < rest.len() && rest[k] == id;
            assert(chrome[k] == id);
        }
        if chrome.contains(id) {
            let k = choose|k: int| 0 <= k < chrome.len() && chrome[k] == id;
            if k < rest.len() {
                assert(rest[k] == id);
            }
        }
    }
}

fn renderable_in(windows: &Vec<SceneWindow>, id: u64) -> (yes: bool)
    ensures
        yes == is_renderable(windows@, id),
{
    let mut i: usize = 0;
    while i < windows.len()
        invariant
            i <= windows.len(),
            forall|k: int| 0 <= k < i ==> !((#[trigger] windows@[k]).id == id && windows@[k].renderable),
        decreases windows.len() - i,
    {
        if windows[i].id == id && windows[i].renderable {
            return true;
        }
        i += 1;
    }
    false
}

fn opacity_in(windows: &Vec<SceneWindow>, id: u64) -> (opacity: u32)
    ensures
        opacity == opacity_of(windows@, id),
{
    let mut opacity: u32 = OPAQUE;
    let mut i: usize = 0;
    while i < windows.len()
        invariant
            i <= windows.len(),
            opacity == opacity_of(windows@.subrange(0, i as int), id),
        decreases windows.len() - i,
    {
        let ghost next = windows@.subrange(0, i + 1);
        assert(next.drop_last() =~= windows@.subrange(0, i as int));
        assert(next.last() == windows@[i as int]);
        let window = windows[i];
        if window.id == id {
            opacity = match window.opacity {
                Some(given) => given,
                None => OPAQUE,
            };
        }
        i += 1;
    }
    assert(windows@.subrange(0, i as int) =~= windows@);
    opacity
}

fn chrome_in(windows: &Vec<SceneWindow>) -> (chrome: Vec<u64>)
    ensures
        chrome@ == chrome_of(windows@),
{
    let mut chrome: Vec<u64> = Vec::new();
    let mut i: usize = 0;
    assert(chrome@ =~= chrome_of(windows@.subrange(0, 0)));
    while i < windows.len()
        invariant
            i <= windows.len(),
            chrome@ == chrome_of(windows@.subrange(0, i as int)),
        decreases windows.len() - i,
    {
        let ghost next = windows@.subrange(0, i + 1);
        assert(next.drop_last() =~= windows@.subrange(0, i as int));
        assert(next.last() == windows@[i as int]);
        let window = windows[i];
        if window.renderable && window.chrome {
            chrome.push(window.id);
        }
        i += 1;
    }
    assert(windows@.subrange(0, i as int) =~= windows@);
    chrome
}

/// Adds the windows; each client's chrome is taken from the list when it is
/// drawn.
fn push_windows(layers: &mut Vec<SceneLayer>, facts: &SceneFacts)
    ensures
        final(layers)@ == old(layers)@ + window_layers(facts.windows@, facts.space@),
{
    let ghost below = layers@;
    let ghost windows = facts.windows@;
    let ghost space = facts.space@;
    let ghost chrome = chrome_of(windows);
    let mut left: Vec<u64> = chrome_in(&facts.windows);
    let mut i: usize = 0;
    assert(below + window_layers(windows, space.subrange(0, 0)) =~= below);
    while i < facts.space.len()
        invariant
            i <= facts.space.len(),
            windows == facts.windows@,
            space == facts.space@,
            chrome == chrome_of(windows),
            layers@ == below + window_layers(windows, space.subrange(0, i as int)),
            forall|id: u64|
                #[trigger] times_in(left@, id) == if times_in(chrome, id) > times_drawn(
                    windows,
                    space.subrange(0, i as int),
                    id,
                ) {
                    times_in(chrome, id) - times_drawn(windows, space.subrange(0, i as int), id)
                } else {
                    0
                },
        decreases facts.space.len() - i,
    {
        let ghost done = space.subrange(0, i as int);
        let ghost next = space.subrange(0, i + 1);
        assert(next.drop_last() =~= done);
        assert(next.last() == space[i as int]);
        let element = facts.space[i];
        match element.window {
            Some(id) => {
                if element.located && renderable_in(&facts.windows, id) {
                    let ghost remaining = left@;
                    let opacity: u32 = opacity_in(&facts.windows, id);
                    layers.push(SceneLayer::Surfaces { window: id, opacity });
                    let place = place_in(&left, id);
                    proof {
                        times_in_absent(remaining, id);
                    }
                    match place {
                        Some(k) => {
                            assert(remaining.contains(id));
                            left.remove(k);
                            layers.push(SceneLayer::Chrome(id));
                            proof {
                                assert forall|other: u64| #[trigger] times_in(left@, other)
                                    == times_in(remaining, other) - if other == id {
                                    1int
                                } else {
                                    0int
                                } by {
                                    times_in_removed(remaining, k as int, other);
                                }
                            }
                        },
                        None => {},
                    }
                    assert(layers@ =~= below + window_layers(windows, next));
                }
            },
            None => {},
        }
        i += 1;
    }
    assert(space.subrange(0, i as int) =~= space);
}

fn push_dock(layers: &mut Vec<SceneLayer>, facts: &SceneFacts)
    ensures
        final(layers)@ == facts@.with_dock(old(layers)@),
{
    let ghost below = layers@;
    let ghost windows = facts.windows@;
    let ghost popups = facts.popups@;
    let mut p: usize = 0;
    assert(below + popup_layers(windows, popups.subrange(0, 0)) =~= below);
    while p < facts.popups.len()
        invariant
            p <= facts.popups.len(),
            windows == facts.windows@,
            popups == facts.popups@,
            layers@ == below + popup_layers(windows, popups.subrange(0, p as int)),
        decreases facts.popups.len() - p,
    {
        let opacity: u32 = opacity_in(&facts.windows, facts.popups[p].root);
        layers.push(SceneLayer::Popup { place: p, opacity });
        assert(layers@ =~= below + popup_layers(windows, popups.subrange(0, p + 1)));
        p += 1;
    }
    assert(popups.subrange(0, p as int) =~= popups);
    push_if(
        layers,
        facts.shell.terminal_open,
        SceneLayer::Terminal { battery_saver: facts.battery_saver },
    );
    push_if(layers, true, SceneLayer::Dock);
    let first_run = match facts.shell.welcome {
        Some(WelcomeStage::FirstRun) => true,
        _ => false,
    };
    let update = match facts.shell.welcome {
        Some(WelcomeStage::Update) => true,
        _ => false,
    };
    push_if(layers, first_run, SceneLayer::FirstRun);
    push_if(layers, update, SceneLayer::UpdateCard);
}

fn push_panels(layers: &mut Vec<SceneLayer>, facts: &SceneFacts)
    ensures
        final(layers)@ == facts@.with_panels(old(layers)@),
{
    push_if(layers, true, SceneLayer::Widgets);
    push_if(layers, facts.shell.remove_popup, SceneLayer::RemovePopup);
    push_if(layers, facts.shell.control_open, SceneLayer::ControlCentre);
    push_if(layers, facts.shell.finder_open, SceneLayer::Finder);
    push_if(layers, facts.shell.settings_open, SceneLayer::Settings);
    push_if(layers, facts.shell.app_store_open, SceneLayer::AppStore);
    push_if(layers, facts.shell.launcher_open, SceneLayer::Launcher);
}

fn push_screens(layers: &mut Vec<SceneLayer>, facts: &SceneFacts)
    ensures
        final(layers)@ == facts@.with_screens(old(layers)@),
{
    let welcome_left = match facts.shell.welcome {
        None => false,
        Some(WelcomeStage::FirstRun) => !facts.first_run_finished,
        Some(WelcomeStage::Update) => true,
    };
    push_if(
        layers,
        facts.shell.notifications_open || (!facts.notifications_empty && !welcome_left),
        SceneLayer::Notifications { open: facts.shell.notifications_open },
    );
    push_if(layers, facts.shell.setup_open && !welcome_left, SceneLayer::Setup);
    push_if(layers, facts.shell.session == SessionScreen::Rest, SceneLayer::RestScreen);
    push_if(layers, facts.shell.session == SessionScreen::Lock, SceneLayer::LockScreen);
    push_if(layers, true, SceneLayer::TopBar);
}

fn stack_layers(facts: &SceneFacts) -> (layers: Vec<SceneLayer>)
    ensures
        layers@ == facts@.layers(),
{
    let mut layers: Vec<SceneLayer> = Vec::new();
    push_if(&mut layers, facts.wallpaper, SceneLayer::Wallpaper);
    assert(layers@ =~= layer_if(facts.wallpaper, SceneLayer::Wallpaper));
    push_windows(&mut layers, facts);
    push_dock(&mut layers, facts);
    push_panels(&mut layers, facts);
    push_screens(&mut layers, facts);
    layers
}

fn end_first_run(facts: &mut SceneFacts)
    ensures
        final(facts)@ == old(facts)@.after_frame(),
{
    match facts.shell.welcome {
        Some(WelcomeStage::FirstRun) => {
            if facts.first_run_finished {
                facts.shell.welcome = None;
            }
        },
        _ => {},
    }
    assert(facts@ =~= old(facts)@.after_frame());
}

/// The whole scene of a frame, from the wallpaper up to the top bar. The
/// nested and the native backend draw the same layers. A first-run film that
/// has ended is dismissed.
pub fn build_render_elements(facts: &mut SceneFacts) -> (layers: Vec<SceneLayer>)
    ensures
        layers@ == old(facts)@.layers(),
        final(facts)@ == old(facts)@.after_frame(),
{
    let layers = stack_layers(facts);
    end_first_run(facts);
    layers
}

/// What a redraw of the host window does: a blank session draws nothing, not
/// even a cleared frame.
pub fn render_frame(facts: &mut SceneFacts) -> (layers: Option<Vec<SceneLayer>>)
    ensures
        match layers {
            None => old(facts)@.shell.session == SessionScreen::Blank && final(facts)@ == old(
                facts,
            )@,
            Some(list) => old(facts)@.shell.session != SessionScreen::Blank && list@ == old(
                facts,
            )@.layers() && final(facts)@ == old(facts)@.after_frame(),
        },
{
    if facts.shell.session == SessionScreen::Blank {
        None
    } else {
        Some(build_render_elements(facts))
    }
}

/// Who is told that a frame was shown.
#[derive(Debug, Clone, Copy, PartialEq, Eq, Structural)]
pub enum FrameCallback {
    /// An element of the render space, by its place.
    Element(usize),
    /// A popup, by its place.
    Popup(usize),
}

/// The callbacks of the popups that still live.
pub open spec fn popup_callbacks(popups: Seq<ScenePopup>) -> Seq<FrameCallback>
    decreases popups.len(),
{
    if popups.len() == 0 {
        Seq::empty()
    } else {
        let before = popup_callbacks(popups.drop_last());
        if popups.last().alive {
            before.push(FrameCallback::Popup((popups.len() - 1) as usize))
        } else {
            before
        }
    }
}

pub open spec fn element_callbacks(count: nat) -> Seq<FrameCallback> {
    Seq::new(count, |i: int| FrameCallback::Element(i as usize))
}

/// The frame callbacks after a frame: every element of the space, then every
/// popup that still lives. A frame that could not be shown calls nobody.
pub fn complete_native_frame(facts: &SceneFacts, shown: bool) -> (callbacks: Vec<FrameCallback>)
    ensures
        callbacks@ == if shown {
            element_callbacks(facts@.space.len()) + popup_callbacks(facts@.popups)
        } else {
            Seq::empty()
        },
{
    let mut callbacks: Vec<FrameCallback> = Vec::new();
    if !shown {
        return callbacks;
    }
    let mut i: usize = 0;
    while i < facts.space.len()
        invariant
            i <= facts.space.len(),
            callbacks@ =~= element_callbacks(i as nat),
        decreases facts.space.len() - i,
    {
        callbacks.push(FrameCallback::Element(i));
        i += 1;
    }
    let ghost elements = callbacks@;
    let ghost popups = facts.popups@;
    let mut p: usize = 0;
    assert(elements + popup_callbacks(popups.subrange(0, 0)) =~= elements);
    while p < facts.popups.len()
        invariant
            p <= facts.popups.len(),
            popups == facts.popups@,
            callbacks@ == elements + popup_callbacks(popups.subrange(0, p as int)),
        decreases facts.popups.len() - p,
    {
        let ghost next = popups.subrange(0, p + 1);
        assert(next.drop_last() =~= popups.subrange(0, p as int));
        assert(next.last() == popups[p as int]);
        if facts.popups[p].alive {
            callbacks.push(FrameCallback::Popup(p));
            assert(callbacks@ =~= elements + popup_callbacks(next));
        }
        p += 1;
    }
    assert(popups.subrange(0, p as int) =~= popups);
    callbacks
}

// ---- laws ----------------------------------------------------------------------------

/// The top bar closes every scene.
pub proof fn the_top_bar_is_on_top(scene: SceneModel)
    ensures
        scene.layers().len() > 0,
        scene.layers().last() == SceneLayer::TopBar,
{
}

/// While the session is locked, only the top bar is drawn above the lock
/// screen.
pub proof fn a_lock_screen_covers_the_desktop(scene: SceneModel)
    requires
        scene.shell.session == SessionScreen::Lock,
    ensures
        scene.layers().len() >= 2,
        scene.layers()[scene.layers().len() - 2] == SceneLayer::LockScreen,
{
}

proof fn window_layers_interleave(windows: Seq<SceneWindow>, space: Seq<SpaceElement>, k: int)
    requires
        0 <= k < window_layers(windows, space).len(),
    ensures
        match window_layers(windows, space)[k] {
            SceneLayer::Surfaces { .. } => true,
            SceneLayer::Chrome(id) => k > 0 && window_layers(windows, space)[k - 1]
                == (SceneLayer::Surfaces { window: id, opacity: opacity_of(windows, id) }),
            _ => false,
        },
    decreases space.len(),
{
    let before = window_layers(windows, space.drop_last());
    if k < before.len() {
        window_layers_interleave(windows, space.drop_last(), k);
    }
}

/// Whether `whole` begins with `part`.
pub open spec fn stands_on(whole: Seq<SceneLayer>, part: Seq<SceneLayer>) -> bool {
    part.len() <= whole.len() && forall|i: int| 0 <= i < part.len() ==> whole[i] == #[trigger] part[i]
}

proof fn more_layers_stand_on(below: Seq<SceneLayer>, more: Seq<SceneLayer>, base: Seq<SceneLayer>)
    requires
        stands_on(below, base),
    ensures
        stands_on(below + more, base),
{
    assert forall|i: int| 0 <= i < base.len() implies (below + more)[i] == #[trigger] base[i] by {
        assert(below[i] == base[i]);
    }
}

proof fn the_dock_stands_on(scene: SceneModel, below: Seq<SceneLayer>, base: Seq<SceneLayer>)
    requires
        stands_on(below, base),
    ensures
        stands_on(scene.with_dock(below), base),
{
    let shell = scene.shell;
    let a = below + popup_layers(scene.windows, scene.popups);
    let b = a + layer_if(
        shell.terminal_open,
        SceneLayer::Terminal { battery_saver: scene.battery_saver },
    );
    let c = b + layer_if(true, SceneLayer::Dock);
    let first = layer_if(shell.welcome == Some(WelcomeStage::FirstRun), SceneLayer::FirstRun);
    let update = layer_if(shell.welcome == Some(WelcomeStage::Update), SceneLayer::UpdateCard);
    more_layers_stand_on(below, popup_layers(scene.windows, scene.popups), base);
    more_layers_stand_on(
        a,
        layer_if(shell.terminal_open, SceneLayer::Terminal { battery_saver: scene.battery_saver }),
        base,
    );
    more_layers_stand_on(b, layer_if(true, SceneLayer::Dock), base);
    more_layers_stand_on(c, first, base);
    more_layers_stand_on(c + first, update, base);
}

proof fn the_panels_stand_on(scene: SceneModel, below: Seq<SceneLayer>, base: Seq<SceneLayer>)
    requires
        stands_on(below, base),
    ensures
        stands_on(scene.with_panels(below), base),
{
    let shell = scene.shell;
    let widgets = layer_if(true, SceneLayer::Widgets);
    let popup = layer_if(shell.remove_popup, SceneLayer::RemovePopup);
    let control = layer_if(shell.control_open, SceneLayer::ControlCentre);
    let finder = layer_if(shell.finder_open, SceneLayer::Finder);
    let settings = layer_if(shell.settings_open, SceneLayer::Settings);
    let store = layer_if(shell.app_store_open, SceneLayer::AppStore);
    let launcher = layer_if(shell.launcher_open, SceneLayer::Launcher);
    more_layers_stand_on(below, widgets, base);
    more_layers_stand_on(below + widgets, popup, base);
    more_layers_stand_on(below + widgets + popup, control, base);
    more_layers_stand_on(below + widgets + popup + control, finder, base);
    more_layers_stand_on(below + widgets + popup + control + finder, settings, base);
    more_layers_stand_on(below + widgets + popup + control + finder + settings, store, base);
    more_layers_stand_on(
        below + widgets + popup + control + finder + settings + store,
        launcher,
        base,
    );
}

proof fn the_screens_stand_on(scene: SceneModel, below: Seq<SceneLayer>, base: Seq<SceneLayer>)
    requires
        stands_on(below, base),
    ensures
        stands_on(scene.with_screens(below), base),
{
    let shell = scene.shell;
    let centre = layer_if(
        shell.notifications_open || (!scene.notifications_empty && !scene.welcome_left()),
        SceneLayer::Notifications { open: shell.notifications_open },
    );
    let setup = layer_if(shell.setup_open && !scene.welcome_left(), SceneLayer::Setup);
    let rest = layer_if(shell.session == SessionScreen::Rest, SceneLayer::RestScreen);
    let lock = layer_if(shell.session == SessionScreen::Lock, SceneLayer::LockScreen);
    more_layers_stand_on(below, centre, base);
    more_layers_stand_on(below + centre, setup, base);
    more_layers_stand_on(below + centre + setup, rest, base);
    more_layers_stand_on(below + centre + setup + rest, lock, base);
    more_layers_stand_on(
        below + centre + setup + rest + lock,
        layer_if(true, SceneLayer::TopBar),
        base,
    );
}

/// The shell's own surfaces are all above the desktop.
pub proof fn the_shell_is_above_the_desktop(scene: SceneModel)
    ensures
        stands_on(scene.layers(), scene.desktop()),
{
    let desktop = scene.desktop();
    the_dock_stands_on(scene, desktop, desktop);
    the_panels_stand_on(scene, scene.with_dock(desktop), desktop);
    the_screens_stand_on(scene, scene.with_panels(scene.with_dock(desktop)), desktop);
}

/// The windows form one band of surfaces and chrome, in which every chrome
/// stands right above the surfaces of its own client: below the next window,
/// and never above another client.
pub proof fn chrome_stands_on_its_own_client(scene: SceneModel, k: int)
    requires
        0 <= k < window_layers(scene.windows, scene.space).len(),
    ensures
        ({
            let at = k + layer_if(scene.wallpaper, SceneLayer::Wallpaper).len();
            &&& at < scene.desktop().len()
            &&& scene.desktop()[at] == window_layers(scene.windows, scene.space)[k]
            &&& scene.desktop()[at] matches SceneLayer::Chrome(id) ==> at > 0
                && scene.desktop()[at - 1] == (SceneLayer::Surfaces {
                window: id,
                opacity: opacity_of(scene.windows, id),
            })
        }),
{
    window_layers_interleave(scene.windows, scene.space, k);
}

// ---- more laws -------------------------------------------------------------------------

/// How far in front a layer stands.
pub open spec fn rank(layer: SceneLayer) -> int {
    match layer {
        SceneLayer::Wallpaper => 0,
        SceneLayer::Surfaces { window, opacity } => 1,
        SceneLayer::Chrome(window) => 1,
        SceneLayer::Popup { place, opacity } => 2,
        SceneLayer::Terminal { battery_saver } => 3,
        SceneLayer::Dock => 4,
        SceneLayer::FirstRun => 5,
        SceneLayer::UpdateCard => 6,
        SceneLayer::Widgets => 7,
        SceneLayer::RemovePopup => 8,
        SceneLayer::ControlCentre => 9,
        SceneLayer::Finder => 10,
        SceneLayer::Settings => 11,
        SceneLayer::AppStore => 12,
        SceneLayer::Launcher => 13,
        SceneLayer::Notifications { open } => 14,
        SceneLayer::Setup => 15,
        SceneLayer::RestScreen => 16,
        SceneLayer::LockScreen => 17,
        SceneLayer::TopBar => 18,
    }
}

#[verifier::opaque]
spec fn ranked_up_to(layers: Seq<SceneLayer>, most: int) -> bool {
    &&& forall|i: int| 0 <= i < layers.len() ==> rank(#[trigger] layers[i]) <= most
    &&& forall|i: int, j: int|
        #![trigger layers[i], layers[j]]
        0 <= i < j < layers.len() ==> rank(layers[i]) <= rank(layers[j])
}

proof fn another_layer(layers: Seq<SceneLayer>, most: int, show: bool, layer: SceneLayer)
    requires
        ranked_up_to(layers, most),
        most <= rank(layer),
    ensures
        ranked_up_to(layers + layer_if(show, layer), rank(layer)),
{
    reveal(ranked_up_to);
    let all = layers + layer_if(show, layer);
    assert forall|i: int| 0 <= i < all.len() implies rank(#[trigger] all[i]) <= rank(layer) by {
        if i < layers.len() {
            assert(all[i] == layers[i]);
        }
    }
    assert forall|i: int, j: int|
        #![trigger all[i], all[j]]
        0 <= i < j < all.len() implies rank(all[i]) <= rank(all[j]) by {
        if j < layers.len() {
            assert(all[i] == layers[i] && all[j] == layers[j]);
        }
    }
}

proof fn window_layers_are_of_windows(windows: Seq<SceneWindow>, space: Seq<SpaceElement>)
    ensures
        forall|i: int|
            0 <= i < window_layers(windows, space).len() ==> rank(
                #[trigger] window_layers(windows, space)[i],
            ) == 1,
    decreases space.len(),
{
    if space.len() > 0 {
        window_layers_are_of_windows(windows, space.drop_last());
        let before = window_layers(windows, space.drop_last());
        let all = window_layers(windows, space);
        assert forall|i: int| 0 <= i < all.len() implies rank(#[trigger] all[i]) == 1 by {
            if i < before.len() {
                assert(all[i] == before[i]);
            }
        }
    }
}

proof fn the_desktop_is_ranked(scene: SceneModel)
    ensures
        ranked_up_to(scene.desktop() + popup_layers(scene.windows, scene.popups), 2),
{
    reveal(ranked_up_to);
    let windows = window_layers(scene.windows, scene.space);
    window_layers_are_of_windows(scene.windows, scene.space);
    let wall = layer_if(scene.wallpaper, SceneLayer::Wallpaper);
    let desktop = scene.desktop();
    let popups = popup_layers(scene.windows, scene.popups);
    let all = desktop + popups;
    assert forall|k: int| 0 <= k < all.len() implies {
        &&& k < wall.len() ==> rank(#[trigger] all[k]) == 0
        &&& wall.len() <= k < desktop.len() ==> rank(all[k]) == 1
        &&& desktop.len() <= k ==> rank(all[k]) == 2
    } by {
        if k < desktop.len() {
            assert(all[k] == desktop[k]);
            if k >= wall.len() {
                assert(desktop[k] == windows[k - wall.len()]);
            }
        } else {
            assert(all[k] == popups[k - desktop.len()]);
        }
    }
}

proof fn the_dock_is_ranked(scene: SceneModel)
    ensures
        ranked_up_to(scene.with_dock(scene.desktop()), 6),
{
    let shell = scene.shell;
    the_desktop_is_ranked(scene);
    let l2 = scene.desktop() + popup_layers(scene.windows, scene.popups);
    let terminal = SceneLayer::Terminal { battery_saver: scene.battery_saver };
    another_layer(l2, 2, shell.terminal_open, terminal);
    let l3 = l2 + layer_if(shell.terminal_open, terminal);
    another_layer(l3, 3, true, SceneLayer::Dock);
    let l4 = l3 + layer_if(true, SceneLayer::Dock);
    let first = shell.welcome == Some(WelcomeStage::FirstRun);
    another_layer(l4, 4, first, SceneLayer::FirstRun);
    let l5 = l4 + layer_if(first, SceneLayer::FirstRun);
    let update = shell.welcome == Some(WelcomeStage::Update);
    another_layer(l5, 5, update, SceneLayer::UpdateCard);
}

proof fn the_panels_are_ranked(scene: SceneModel, l6: Seq<SceneLayer>)
    requires
        ranked_up_to(l6, 6),
    ensures
        ranked_up_to(scene.with_panels(l6), 13),
{
    let shell = scene.shell;
    another_layer(l6, 6, true, SceneLayer::Widgets);
    let l7 = l6 + layer_if(true, SceneLayer::Widgets);
    another_layer(l7, 7, shell.remove_popup, SceneLayer::RemovePopup);
    let l8 = l7 + layer_if(shell.remove_popup, SceneLayer::RemovePopup);
    another_layer(l8, 8, shell.control_open, SceneLayer::ControlCentre);
    let l9 = l8 + layer_if(shell.control_open, SceneLayer::ControlCentre);
    another_layer(l9, 9, shell.finder_open, SceneLayer::Finder);
    let l10 = l9 + layer_if(shell.finder_open, SceneLayer::Finder);
    another_layer(l10, 10, shell.settings_open, SceneLayer::Settings);
    let l11 = l10 + layer_if(shell.settings_open, SceneLayer::Settings);
    another_layer(l11, 11, shell.app_store_open, SceneLayer::AppStore);
    let l12 = l11 + layer_if(shell.app_store_open, SceneLayer::AppStore);
    another_layer(l12, 12, shell.launcher_open, SceneLayer::Launcher);
}

proof fn the_screens_are_ranked(scene: SceneModel, l13: Seq<SceneLayer>)
    requires
        ranked_up_to(l13, 13),
    ensures
        ranked_up_to(scene.with_screens(l13), 18),
{
    let shell = scene.shell;
    let notes = shell.notifications_open || (!scene.notifications_empty && !scene.welcome_left());
    let centre = SceneLayer::Notifications { open: shell.notifications_open };
    another_layer(l13, 13, notes, centre);
    let l14 = l13 + layer_if(notes, centre);
    let setup = shell.setup_open && !scene.welcome_left();
    another_layer(l14, 14, setup, SceneLayer::Setup);
    let l15 = l14 + layer_if(setup, SceneLayer::Setup);
    let rest = shell.session == SessionScreen::Rest;
    another_layer(l15, 15, rest, SceneLayer::RestScreen);
    let l16 = l15 + layer_if(rest, SceneLayer::RestScreen);
    let lock = shell.session == SessionScreen::Lock;
    another_layer(l16, 16, lock, SceneLayer::LockScreen);
    let l17 = l16 + layer_if(lock, SceneLayer::LockScreen);
    another_layer(l17, 17, true, SceneLayer::TopBar);
}

/// The layers of a scene stand in one order, from back to front: the wallpaper,
/// the windows, their popups, the terminal, the dock, the welcome, the widgets and
/// the panels, the notifications, setup, the session's screens and the top bar.
pub proof fn layers_stand_in_order(scene: SceneModel, i: int, j: int)
    requires
        0 <= i < j < scene.layers().len(),
    ensures
        rank(scene.layers()[i]) <= rank(scene.layers()[j]),
{
    the_dock_is_ranked(scene);
    let docked = scene.with_dock(scene.desktop());
    the_panels_are_ranked(scene, docked);
    the_screens_are_ranked(scene, scene.with_panels(docked));
    reveal(ranked_up_to);
}

proof fn appending_shows(layers: Seq<SceneLayer>, show: bool, layer: SceneLayer, other: SceneLayer)
    ensures
        (layers + layer_if(show, layer)).contains(other) <==> layers.contains(other) || (show
            && other == layer),
{
    let all = layers + layer_if(show, layer);
    if layers.contains(other) {
        let k = choose|k: int| 0 <= k < layers.len() && layers[k] == other;
        assert(all[k] == other);
    }
    if show {
        assert(all[layers.len() as int] == layer);
    }
    if all.contains(other) {
        let k = choose|k: int| 0 <= k < all.len() && all[k] == other;
        if k < layers.len() {
            assert(layers[k] == other);
        }
    }
}

proof fn the_desktop_shows(scene: SceneModel, layer: SceneLayer)
    requires
        rank(layer) > 2,
    ensures
        !(scene.desktop() + popup_layers(scene.windows, scene.popups)).contains(layer),
{
    let windows = window_layers(scene.windows, scene.space);
    window_layers_are_of_windows(scene.windows, scene.space);
    let wall = layer_if(scene.wallpaper, SceneLayer::Wallpaper);
    let desktop = scene.desktop();
    let popups = popup_layers(scene.windows, scene.popups);
    let all = desktop + popups;
    if all.contains(layer) {
        let k = choose|k: int| 0 <= k < all.len() && all[k] == layer;
        if k < desktop.len() {
            assert(all[k] == desktop[k]);
            if k >= wall.len() {
                assert(desktop[k] == windows[k - wall.len()]);
            }
        } else {
            assert(all[k] == popups[k - desktop.len()]);
        }
    }
}

proof fn the_dock_shows(scene: SceneModel, layer: SceneLayer)
    requires
        rank(layer) > 2,
    ensures
        scene.with_dock(scene.desktop()).contains(layer) <==> {
            ||| scene.shell.terminal_open && layer == (SceneLayer::Terminal {
                battery_saver: scene.battery_saver,
            })
            ||| layer == SceneLayer::Dock
            ||| scene.shell.welcome == Some(WelcomeStage::FirstRun) && layer == SceneLayer::FirstRun
            ||| scene.shell.welcome == Some(WelcomeStage::Update) && layer == SceneLayer::UpdateCard
        },
{
    let shell = scene.shell;
    the_desktop_shows(scene, layer);
    let l2 = scene.desktop() + popup_layers(scene.windows, scene.popups);
    let terminal = SceneLayer::Terminal { battery_saver: scene.battery_saver };
    appending_shows(l2, shell.terminal_open, terminal, layer);
    let l3 = l2 + layer_if(shell.terminal_open, terminal);
    appending_shows(l3, true, SceneLayer::Dock, layer);
    let l4 = l3 + layer_if(true, SceneLayer::Dock);
    let first = shell.welcome == Some(WelcomeStage::FirstRun);
    appending_shows(l4, first, SceneLayer::FirstRun, layer);
    let l5 = l4 + layer_if(first, SceneLayer::FirstRun);
    let update = shell.welcome == Some(WelcomeStage::Update);
    appending_shows(l5, update, SceneLayer::UpdateCard, layer);
}

proof fn the_panels_show(scene: SceneModel, l6: Seq<SceneLayer>, layer: SceneLayer)
    ensures
        scene.with_panels(l6).contains(layer) <==> {
            ||| l6.contains(layer)
            ||| layer == SceneLayer::Widgets
            ||| scene.shell.remove_popup && layer == SceneLayer::RemovePopup
            ||| scene.shell.control_open && layer == SceneLayer::ControlCentre
            ||| scene.shell.finder_open && layer == SceneLayer::Finder
            ||| scene.shell.settings_open && layer == SceneLayer::Settings
            ||| scene.shell.app_store_open && layer == SceneLayer::AppStore
            ||| scene.shell.launcher_open && layer == SceneLayer::Launcher
        },
{
    let shell = scene.shell;
    appending_shows(l6, true, SceneLayer::Widgets, layer);
    let l7 = l6 + layer_if(true, SceneLayer::Widgets);
    appending_shows(l7, shell.remove_popup, SceneLayer::RemovePopup, layer);
    let l8 = l7 + layer_if(shell.remove_popup, SceneLayer::RemovePopup);
    appending_shows(l8, shell.control_open, SceneLayer::ControlCentre, layer);
    let l9 = l8 + layer_if(shell.control_open, SceneLayer::ControlCentre);
    appending_shows(l9, shell.finder_open, SceneLayer::Finder, layer);
    let l10 = l9 + layer_if(shell.finder_open, SceneLayer::Finder);
    appending_shows(l10, shell.settings_open, SceneLayer::Settings, layer);
    let l11 = l10 + layer_if(shell.settings_open, SceneLayer::Settings);
    appending_shows(l11, shell.app_store_open, SceneLayer::AppStore, layer);
    let l12 = l11 + layer_if(shell.app_store_open, SceneLayer::AppStore);
    appending_shows(l12, shell.launcher_open, SceneLayer::Launcher, layer);
}

proof fn the_screens_show(scene: SceneModel, l13: Seq<SceneLayer>, layer: SceneLayer)
    ensures
        scene.with_screens(l13).contains(layer) <==> {
            ||| l13.contains(layer)
            ||| (scene.shell.notifications_open || (!scene.notifications_empty
                && !scene.welcome_left())) && layer == (SceneLayer::Notifications {
                open: scene.shell.notifications_open,
            })
            ||| scene.shell.setup_open && !scene.welcome_left() && layer == SceneLayer::Setup
            ||| scene.shell.session == SessionScreen::Rest && layer == SceneLayer::RestScreen
            ||| scene.shell.session == SessionScreen::Lock && layer == SceneLayer::LockScreen
            ||| layer == SceneLayer::TopBar
        },
{
    let shell = scene.shell;
    let notes = shell.notifications_open || (!scene.notifications_empty && !scene.welcome_left());
    let centre = SceneLayer::Notifications { open: shell.notifications_open };
    appending_shows(l13, notes, centre, layer);
    let l14 = l13 + layer_if(notes, centre);
    let setup = shell.setup_open && !scene.welcome_left();
    appending_shows(l14, setup, SceneLayer::Setup, layer);
    let l15 = l14 + layer_if(setup, SceneLayer::Setup);
    let rest = shell.session == SessionScreen::Rest;
    appending_shows(l15, rest, SceneLayer::RestScreen, layer);
    let l16 = l15 + layer_if(rest, SceneLayer::RestScreen);
    let lock = shell.session == SessionScreen::Lock;
    appending_shows(l16, lock, SceneLayer::LockScreen, layer);
    let l17 = l16 + layer_if(lock, SceneLayer::LockScreen);
    appending_shows(l17, true, SceneLayer::TopBar, layer);
}

/// Each surface of the shell is drawn exactly where it is open: the terminal, the
/// panels, the welcome and the session's screens; setup only once the welcome is
/// over, and notifications also while there are any, unless a welcome is left. The
/// dock, the widgets and the top bar are always drawn.
pub proof fn open_surfaces_are_drawn(scene: SceneModel, layer: SceneLayer)
    requires
        rank(layer) > 2,
    ensures
        ({
            let shell = scene.shell;
            let left = shell.welcome == Some(WelcomeStage::Update) || (shell.welcome == Some(
                WelcomeStage::FirstRun,
            ) && !scene.first_run_finished);
            scene.layers().contains(layer) <==> match layer {
                SceneLayer::Terminal { battery_saver } => shell.terminal_open && battery_saver
                    == scene.battery_saver,
                SceneLayer::FirstRun => shell.welcome == Some(WelcomeStage::FirstRun),
                SceneLayer::UpdateCard => shell.welcome == Some(WelcomeStage::Update),
                SceneLayer::RemovePopup => shell.remove_popup,
                SceneLayer::ControlCentre => shell.control_open,
                SceneLayer::Finder => shell.finder_open,
                SceneLayer::Settings => shell.settings_open,
                SceneLayer::AppStore => shell.app_store_open,
                SceneLayer::Launcher => shell.launcher_open,
                SceneLayer::Notifications { open } => open == shell.notifications_open && (open || (
                !scene.notifications_empty && !left)),
                SceneLayer::Setup => shell.setup_open && !left,
                SceneLayer::RestScreen => shell.session == SessionScreen::Rest,
                SceneLayer::LockScreen => shell.session == SessionScreen::Lock,
                _ => true,
            }
        }),
{
    let docked = scene.with_dock(scene.desktop());
    the_dock_shows(scene, layer);
    the_panels_show(scene, docked, layer);
    the_screens_show(scene, scene.with_panels(docked), layer);
}

/// A frame ends the first run once its film is over, and changes nothing else.
pub proof fn frames_end_the_first_run(scene: SceneModel)
    ensures
        scene.after_frame().shell.welcome == (if scene.shell.welcome == Some(WelcomeStage::FirstRun)
            && scene.first_run_finished {
            None
        } else {
            scene.shell.welcome
        }),
        scene.after_frame().windows == scene.windows && scene.after_frame().space == scene.space
            && scene.after_frame().popups == scene.popups,
        scene.after_frame().shell.session == scene.shell.session
            && scene.after_frame().shell.terminal_open == scene.shell.terminal_open,
{
}

/// An element of the space is drawn where its window is located and renderable,
/// with the opacity of its animation, or whole where none runs.
pub proof fn located_windows_are_drawn(
    windows: Seq<SceneWindow>,
    element: SpaceElement,
    space: Seq<SpaceElement>,
    id: u64,
)
    ensures
        drawn_window(windows, element) == Some(id) <==> element.window == Some(id)
            && element.located && is_renderable(windows, id),
        drawn_window(windows, element) == Some(id) ==> window_layers(
            windows,
            space.push(element),
        ).contains(SceneLayer::Surfaces { window: id, opacity: opacity_of(windows, id) }),
        drawn_window(windows, element) is None ==> window_layers(windows, space.push(element))
            == window_layers(windows, space),
        windows.len() == 1 && windows[0].id == id ==> opacity_of(windows, id) == (
        match windows[0].opacity {
            Some(opacity) => opacity,
            None => 0x3f80_0000,
        }),
{
    assert(space.push(element).drop_last() =~= space);
    if drawn_window(windows, element) == Some(id) {
        let before = window_layers(windows, space);
        let all = window_layers(windows, space.push(element));
        assert(all[before.len() as int] == (SceneLayer::Surfaces {
            window: id,
            opacity: opacity_of(windows, id),
        }));
    }
}

/// Every popup that is alive is answered once its frame was shown, by its own
/// place, and no other is; and so is every element of the space.
pub proof fn living_popups_are_answered(popups: Seq<ScenePopup>, count: nat, k: int)
    requires
        popups.len() <= usize::MAX,
        count <= usize::MAX,
    ensures
        0 <= k < popups.len() ==> (popup_callbacks(popups).contains(
            FrameCallback::Popup(k as usize),
        ) <==> popups[k].alive),
        element_callbacks(count).len() == count,
        0 <= k < count ==> element_callbacks(count)[k] == FrameCallback::Element(k as usize),
{
    if 0 <= k < popups.len() {
        popups_are_answered(popups, k);
    }
}

proof fn popups_are_answered(popups: Seq<ScenePopup>, k: int)
    requires
        0 <= k <= usize::MAX,
        popups.len() <= usize::MAX,
    ensures
        popup_callbacks(popups).contains(FrameCallback::Popup(k as usize)) <==> k < popups.len()
            && popups[k].alive,
    decreases popups.len(),
{
    let wanted = FrameCallback::Popup(k as usize);
    if popups.len() > 0 {
        let rest = popups.drop_last();
        let before = popup_callbacks(rest);
        let all = popup_callbacks(popups);
        popups_are_answered(rest, k);
        if all.contains(wanted) {
            let n = choose|n: int| 0 <= n < all.len() && all[n] == wanted;
            if n < before.len() {
                assert(before[n] == wanted);
                assert(rest[k] == popups[k]);
            }
        }
        if k < popups.len() && popups[k].alive {
            if k < rest.len() {
                assert(rest[k] == popups[k]);
                let n = choose|n: int| 0 <= n < before.len() && before[n] == wanted;
                assert(all[n] == wanted);
            } else {
                assert(all[all.len() - 1] == wanted);
            }
        }
    }
}

/// Popups are drawn in their order, each with the opacity of the window that it
/// hangs on.
pub proof fn popups_are_drawn_with_their_window(
    windows: Seq<SceneWindow>,
    popups: Seq<ScenePopup>,
    k: int,
)
    requires
        0 <= k < popups.len() <= usize::MAX,
    ensures
        popup_layers(windows, popups).len() == popups.len(),
        popup_layers(windows, popups)[k] == (SceneLayer::Popup {
            place: k as usize,
            opacity: opacity_of(windows, popups[k].root),
        }),
{
}

} // verus!
