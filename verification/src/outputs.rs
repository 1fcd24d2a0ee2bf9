//! Display modes, output geometry and connector discovery.
//!
//! The model is independent of a DRM device. Geometry is in logical pixels,
//! after scale; a scale is the bit pattern of a binary64 number.

use crate::binary64::{
    clamp, equal, finite, is_equal, is_finite, lengths_are_divided_by_their_scale, scale_length,
    scaled_length, within, ONE,
};
use crate::num::{
    larger, magnitude, magnitude_of, max_i32, min_i32, minus, plus, saturated, smaller,
};
use crate::text::{chars_of, same, trim, trimmed, trimming_twice_is_trimming};
use vstd::prelude::*;
use vstd::string::*;

verus! {

/// Lowest accepted output scale, 0.5. Values outside the range are clamped, so
/// that a corrupt configuration cannot produce a zero-sized logical output.
pub const MIN_OUTPUT_SCALE: u64 = 0x3fe0_0000_0000_0000;

/// Highest accepted output scale, 4.0.
pub const MAX_OUTPUT_SCALE: u64 = 0x4010_0000_0000_0000;

// ---- modes ---------------------------------------------------------------

/// A display mode as exposed by the compositor model.
#[derive(Debug, Clone, Copy, PartialEq, Eq, Hash, Structural)]
pub struct OutputMode {
    /// Physical horizontal pixels.
    pub width: i32,
    /// Physical vertical pixels.
    pub height: i32,
    /// Refresh rate in millihertz, for example `60000` for 60 Hz.
    pub refresh_mhz: i32,
}

impl OutputMode {
    /// A mode with positive bounds.
    pub fn new(width: i32, height: i32, refresh_mhz: i32) -> (mode: Self)
        ensures
            mode.width == larger(width as int, 1),
            mode.height == larger(height as int, 1),
            mode.refresh_mhz == larger(refresh_mhz as int, 1),
    {
        OutputMode {
            width: max_i32(width, 1),
            height: max_i32(height, 1),
            refresh_mhz: max_i32(refresh_mhz, 1),
        }
    }

    pub open spec fn usable(self) -> bool {
        self.width > 0 && self.height > 0 && self.refresh_mhz > 0
    }

    /// Whether this mode is usable without further repair.
    pub fn is_valid(self) -> (valid: bool)
        ensures
            valid == self.usable(),
    {
        self.width > 0 && self.height > 0 && self.refresh_mhz > 0
    }

    pub open spec fn pixels(self) -> int {
        larger(self.width as int, 0) * larger(self.height as int, 0)
    }

    /// Pixel area used for deterministic mode ranking.
    pub fn area(self) -> (area: i64)
        ensures
            area == self.pixels(),
    {
        let width: i64 = max_i32(self.width, 0) as i64;
        let height: i64 = max_i32(self.height, 0) as i64;
        assert(0 <= width * height <= 0x4000_0000_0000_0000) by (nonlinear_arith)
            requires
                0 <= width <= 0x7fff_ffff,
                0 <= height <= 0x7fff_ffff,
        ;
        width * height
    }

    /// Order by width, then height, then refresh rate.
    pub open spec fn smaller_than(self, other: Self) -> bool {
        ||| self.width < other.width
        ||| self.width == other.width && self.height < other.height
        ||| self.width == other.width && self.height == other.height && self.refresh_mhz
            < other.refresh_mhz
    }

    fn is_smaller_than(self, other: Self) -> (yes: bool)
        ensures
            yes == self.smaller_than(other),
    {
        self.width < other.width || (self.width == other.width && (self.height < other.height || (
        self.height == other.height && self.refresh_mhz < other.refresh_mhz)))
    }
}

/// A requested size and rate from a user configuration or compositor policy.
#[derive(Debug, Clone, Copy, PartialEq, Eq, Structural)]
pub struct ModeRequest {
    /// Desired physical width.
    pub width: i32,
    /// Desired physical height.
    pub height: i32,
    /// Optional desired refresh. The closest supported rate wins.
    pub refresh_mhz: Option<i32>,
}

impl ModeRequest {
    pub open spec fn fits(self, mode: OutputMode) -> bool {
        mode.usable() && mode.width == self.width && mode.height == self.height
    }

    /// How far a mode's refresh rate is from the wanted one.
    pub open spec fn distance(self, mode: OutputMode) -> nat {
        match self.refresh_mhz {
            Some(wanted) => magnitude(mode.refresh_mhz - wanted),
            None => 0,
        }
    }

    /// Whether `candidate` answers the request better than `best`: its rate is
    /// nearer, or as near and higher.
    pub open spec fn prefers(self, candidate: OutputMode, best: OutputMode) -> bool {
        ||| self.distance(candidate) < self.distance(best)
        ||| self.distance(candidate) == self.distance(best) && candidate.refresh_mhz
            > best.refresh_mhz
    }

    fn answers_better(self, candidate: OutputMode, best: OutputMode) -> (yes: bool)
        ensures
            yes == self.prefers(candidate, best),
    {
        match self.refresh_mhz {
            None => candidate.refresh_mhz > best.refresh_mhz,
            Some(wanted) => {
                let best_distance: u64 = magnitude_of(best.refresh_mhz as i64 - wanted as i64);
                let distance: u64 = magnitude_of(candidate.refresh_mhz as i64 - wanted as i64);
                distance < best_distance || (distance == best_distance && candidate.refresh_mhz
                    > best.refresh_mhz)
            },
        }
    }
}

/// The mode of the requested size that answers the request best.
pub open spec fn best_answer(modes: Seq<OutputMode>, request: ModeRequest) -> Option<OutputMode>
    decreases modes.len(),
{
    if modes.len() == 0 {
        None
    } else {
        let before = best_answer(modes.drop_last(), request);
        let mode = modes.last();
        if !request.fits(mode) {
            before
        } else {
            match before {
                Some(best) if !request.prefers(mode, best) => before,
                _ => Some(mode),
            }
        }
    }
}

/// Whether `a` ranks at least as high as `b`: by area, then by refresh rate.
pub open spec fn ranks_with(a: OutputMode, b: OutputMode) -> bool {
    a.pixels() > b.pixels() || (a.pixels() == b.pixels() && a.refresh_mhz >= b.refresh_mhz)
}

/// The usable mode with the highest rank, the last of those that share it.
pub open spec fn largest(modes: Seq<OutputMode>) -> Option<OutputMode>
    decreases modes.len(),
{
    if modes.len() == 0 {
        None
    } else {
        let before = largest(modes.drop_last());
        let mode = modes.last();
        if !mode.usable() {
            before
        } else {
            match before {
                Some(best) if !ranks_with(mode, best) => before,
                _ => Some(mode),
            }
        }
    }
}

/// `mode`, where it is usable and among `modes`.
pub open spec fn supported(modes: Seq<OutputMode>, mode: Option<OutputMode>) -> Option<OutputMode> {
    match mode {
        Some(m) if m.usable() && modes.contains(m) => mode,
        _ => None,
    }
}

pub open spec fn or_else<T>(first: Option<T>, second: Option<T>) -> Option<T> {
    match first {
        Some(_) => first,
        None => second,
    }
}

/// The mode to use: the best answer to the request, else the preferred mode,
/// else the current one, else the largest.
pub open spec fn chosen_mode(
    modes: Seq<OutputMode>,
    preferred: Option<OutputMode>,
    current: Option<OutputMode>,
    request: Option<ModeRequest>,
) -> Option<OutputMode> {
    let answer = match request {
        Some(wanted) => best_answer(modes, wanted),
        None => None,
    };
    or_else(
        answer,
        or_else(
            supported(modes, preferred),
            or_else(supported(modes, current), largest(modes)),
        ),
    )
}

fn has_mode(modes: &[OutputMode], mode: OutputMode) -> (yes: bool)
    ensures
        yes == modes@.contains(mode),
{
    let mut i: usize = 0;
    while i < modes.len()
        invariant
            i <= modes.len(),
            forall|k: int| 0 <= k < i ==> modes@[k] != mode,
        decreases modes.len() - i,
    {
        if modes[i] == mode {
            return true;
        }
        i += 1;
    }
    false
}

fn support(modes: &[OutputMode], mode: Option<OutputMode>) -> (result: Option<OutputMode>)
    ensures
        result == supported(modes@, mode),
{
    match mode {
        Some(m) => if m.is_valid() && has_mode(modes, m) {
            mode
        } else {
            None
        },
        None => None,
    }
}

/// Picks a mode without ever returning an unsupported one.
///
/// Exact requested dimensions win. Within those the nearest refresh is
/// selected; if the request cannot be met, the preferred mode, the current
/// mode and then the largest available mode are used in that order.
pub fn select_mode(
    modes: &[OutputMode],
    preferred: Option<OutputMode>,
    current: Option<OutputMode>,
    request: Option<ModeRequest>,
) -> (result: Option<OutputMode>)
    ensures
        result == chosen_mode(modes@, preferred, current, request),
{
    let mut answer: Option<OutputMode> = None;
    let mut top: Option<OutputMode> = None;
    let mut i: usize = 0;
    assert(modes@.subrange(0, 0) =~= Seq::empty());
    while i < modes.len()
        invariant
            i <= modes.len(),
            answer == (match request {
                Some(wanted) => best_answer(modes@.subrange(0, i as int), wanted),
                None => None,
            }),
            top == largest(modes@.subrange(0, i as int)),
        decreases modes.len() - i,
    {
        let mode = modes[i];
        assert(modes@.subrange(0, i + 1).drop_last() =~= modes@.subrange(0, i as int));
        match request {
            Some(wanted) => {
                if mode.is_valid() && mode.width == wanted.width && mode.height == wanted.height {
                    match answer {
                        Some(best) => {
                            if wanted.answers_better(mode, best) {
                                answer = Some(mode);
                            }
                        },
                        None => {
                            answer = Some(mode);
                        },
                    }
                }
            },
            None => {},
        }
        if mode.is_valid() {
            match top {
                Some(best) => {
                    let area: i64 = mode.area();
                    let best_area: i64 = best.area();
                    if area > best_area || (area == best_area && mode.refresh_mhz
                        >= best.refresh_mhz) {
                        top = Some(mode);
                    }
                },
                None => {
                    top = Some(mode);
                },
            }
        }
        i += 1;
    }
    assert(modes@.subrange(0, i as int) =~= modes@);
    if answer.is_some() {
        return answer;
    }
    let wanted = support(modes, preferred);
    if wanted.is_some() {
        return wanted;
    }
    let kept = support(modes, current);
    if kept.is_some() {
        return kept;
    }
    top
}

proof fn best_answer_is_best(modes: Seq<OutputMode>, request: ModeRequest)
    ensures
        best_answer(modes, request) matches Some(mode) ==> modes.contains(mode) && request.fits(
            mode,
        ),
        forall|i: int|
            0 <= i < modes.len() && request.fits(#[trigger] modes[i]) ==> best_answer(
                modes,
                request,
            ) is Some && !request.prefers(modes[i], best_answer(modes, request)->Some_0),
    decreases modes.len(),
{
    if modes.len() > 0 {
        let rest = modes.drop_last();
        best_answer_is_best(rest, request);
        assert(modes[modes.len() - 1] == modes.last());
        assert forall|m: OutputMode| rest.contains(m) implies modes.contains(m) by {
            let k = choose|k: int| 0 <= k < rest.len() && rest[k] == m;
            assert(modes[k] == m);
        }
        assert forall|i: int| 0 <= i < modes.len() && request.fits(#[trigger] modes[i]) implies {
            &&& best_answer(modes, request) is Some
            &&& !request.prefers(modes[i], best_answer(modes, request)->Some_0)
        } by {
            if i < rest.len() {
                assert(rest[i] == modes[i]);
            }
        }
    }
}

proof fn largest_is_largest(modes: Seq<OutputMode>)
    ensures
        largest(modes) matches Some(mode) ==> modes.contains(mode) && mode.usable(),
        forall|i: int|
            0 <= i < modes.len() && (#[trigger] modes[i]).usable() ==> largest(modes) is Some
                && ranks_with(largest(modes)->Some_0, modes[i]),
    decreases modes.len(),
{
    if modes.len() > 0 {
        let rest = modes.drop_last();
        largest_is_largest(rest);
        assert(modes[modes.len() - 1] == modes.last());
        assert forall|m: OutputMode| rest.contains(m) implies modes.contains(m) by {
            let k = choose|k: int| 0 <= k < rest.len() && rest[k] == m;
            assert(modes[k] == m);
        }
        assert forall|i: int| 0 <= i < modes.len() && (#[trigger] modes[i]).usable() implies {
            &&& largest(modes) is Some
            &&& ranks_with(largest(modes)->Some_0, modes[i])
        } by {
            if i < rest.len() {
                assert(rest[i] == modes[i]);
            }
        }
    }
}

/// The chosen mode is always one of the usable modes, and there is one exactly
/// when there is a usable mode.
pub proof fn chosen_mode_is_supported(
    modes: Seq<OutputMode>,
    preferred: Option<OutputMode>,
    current: Option<OutputMode>,
    request: Option<ModeRequest>,
)
    ensures
        chosen_mode(modes, preferred, current, request) matches Some(mode) ==> modes.contains(mode)
            && mode.usable(),
        chosen_mode(modes, preferred, current, request) is Some <==> exists|i: int|
            0 <= i < modes.len() && (#[trigger] modes[i]).usable(),
{
    largest_is_largest(modes);
    if request is Some {
        best_answer_is_best(modes, request->Some_0);
    }
    let chosen = chosen_mode(modes, preferred, current, request);
    if chosen is Some {
        let k = choose|k: int| 0 <= k < modes.len() && modes[k] == chosen->Some_0;
        assert(modes[k].usable());
    }
}

/// Where modes of the requested size exist, the chosen one has that size, and
/// no other of that size has a nearer refresh rate.
pub proof fn requested_size_wins(
    modes: Seq<OutputMode>,
    preferred: Option<OutputMode>,
    current: Option<OutputMode>,
    request: ModeRequest,
    i: int,
)
    requires
        0 <= i < modes.len(),
        request.fits(modes[i]),
    ensures
        chosen_mode(modes, preferred, current, Some(request)) matches Some(mode) && request.fits(
            mode,
        ) && request.distance(mode) <= request.distance(modes[i]),
{
    best_answer_is_best(modes, request);
}

// ---- transforms and geometry ----------------------------------------------

/// Rotation and flip state advertised to clients.
#[derive(Debug, Clone, Copy, PartialEq, Eq, Hash, Default, Structural)]
pub enum OutputTransform {
    /// No transform.
    #[default]
    Normal,
    /// Rotate clockwise by 90 degrees.
    Rotate90,
    /// Rotate by 180 degrees.
    Rotate180,
    /// Rotate clockwise by 270 degrees.
    Rotate270,
    /// Flip vertically.
    Flipped,
    /// Flip and rotate clockwise by 90 degrees.
    Flipped90,
    /// Flip and rotate by 180 degrees.
    Flipped180,
    /// Flip and rotate clockwise by 270 degrees.
    Flipped270,
}

/// A logical point in the global compositor space.
#[derive(Debug, Clone, Copy, PartialEq, Eq, Hash, Structural)]
pub struct LogicalPoint {
    /// Horizontal position.
    pub x: i32,
    /// Vertical position.
    pub y: i32,
}

impl Default for LogicalPoint {
    fn default() -> (point: Self)
        ensures
            point.x == 0,
            point.y == 0,
    {
        LogicalPoint { x: 0, y: 0 }
    }
}

/// Half of `x`, rounded toward zero.
pub open spec fn half(x: int) -> int {
    if x >= 0 {
        x / 2
    } else {
        -((-x) / 2)
    }
}

fn half_of(x: i64) -> (h: i64)
    requires
        -0x1_0000_0000 <= x <= 0x1_0000_0000,
    ensures
        h == half(x as int),
{
    if x >= 0 {
        x / 2
    } else {
        -((-x) / 2)
    }
}

/// A logical output rectangle in the global compositor space.
#[derive(Debug, Clone, Copy, PartialEq, Eq, Hash, Structural)]
pub struct OutputGeometry {
    /// Horizontal position.
    pub x: i32,
    /// Vertical position.
    pub y: i32,
    /// Logical width.
    pub width: i32,
    /// Logical height.
    pub height: i32,
}

impl Default for OutputGeometry {
    fn default() -> (geometry: Self)
        ensures
            geometry == (OutputGeometry { x: 0, y: 0, width: 0, height: 0 }),
    {
        OutputGeometry { x: 0, y: 0, width: 0, height: 0 }
    }
}

impl OutputGeometry {
    pub open spec fn spec_new(x: int, y: int, width: int, height: int) -> Self {
        OutputGeometry {
            x: x as i32,
            y: y as i32,
            width: larger(width, 1) as i32,
            height: larger(height, 1) as i32,
        }
    }

    /// A rectangle with positive dimensions.
    pub fn new(x: i32, y: i32, width: i32, height: i32) -> (geometry: Self)
        ensures
            geometry == Self::spec_new(x as int, y as int, width as int, height as int),
    {
        OutputGeometry { x, y, width: max_i32(width, 1), height: max_i32(height, 1) }
    }

    pub open spec fn right_edge(self) -> int {
        saturated(self.x + self.width)
    }

    pub open spec fn bottom_edge(self) -> int {
        saturated(self.y + self.height)
    }

    /// Right edge in global coordinates.
    pub fn right(self) -> (edge: i32)
        ensures
            edge == self.right_edge(),
    {
        plus(self.x, self.width)
    }

    /// Bottom edge in global coordinates.
    pub fn bottom(self) -> (edge: i32)
        ensures
            edge == self.bottom_edge(),
    {
        plus(self.y, self.height)
    }

    pub open spec fn middle(self) -> (int, int) {
        (self.x + half(self.width as int), self.y + half(self.height as int))
    }

    /// Center point used by directional output focus.
    pub fn center(self) -> (point: (i64, i64))
        ensures
            (point.0 as int, point.1 as int) == self.middle(),
    {
        (self.x as i64 + half_of(self.width as i64), self.y as i64 + half_of(self.height as i64))
    }

    pub open spec fn covers(self, point: LogicalPoint) -> bool {
        self.x <= point.x < self.right_edge() && self.y <= point.y < self.bottom_edge()
    }

    /// Whether a global point falls inside this output.
    pub fn contains(self, point: LogicalPoint) -> (inside: bool)
        ensures
            inside == self.covers(point),
    {
        point.x >= self.x && point.x < self.right() && point.y >= self.y && point.y < self.bottom()
    }

    pub open spec fn joined(self, other: Self) -> Self {
        let left = smaller(self.x as int, other.x as int);
        let top = smaller(self.y as int, other.y as int);
        let right = larger(self.right_edge(), other.right_edge());
        let bottom = larger(self.bottom_edge(), other.bottom_edge());
        Self::spec_new(left, top, saturated(right - left), saturated(bottom - top))
    }

    /// The bounding rectangle of two, at least one pixel in each direction.
    pub fn union(self, other: Self) -> (both: Self)
        ensures
            both == self.joined(other),
    {
        let left: i32 = min_i32(self.x, other.x);
        let top: i32 = min_i32(self.y, other.y);
        let right: i32 = max_i32(self.right(), other.right());
        let bottom: i32 = max_i32(self.bottom(), other.bottom());
        OutputGeometry::new(left, top, minus(right, left), minus(bottom, top))
    }
}

/// A union covers every point that either rectangle covers, as long as its
/// sides are 32-bit numbers.
pub proof fn union_covers_both(a: OutputGeometry, b: OutputGeometry, point: LogicalPoint)
    requires
        a.covers(point) || b.covers(point),
        larger(a.right_edge(), b.right_edge()) - smaller(a.x as int, b.x as int) <= i32::MAX,
        larger(a.bottom_edge(), b.bottom_edge()) - smaller(a.y as int, b.y as int) <= i32::MAX,
    ensures
        a.joined(b).covers(point),
{
}

// ---- snapshots -------------------------------------------------------------

/// A display snapshot produced by sysfs, DRM, or a nested host backend.
#[derive(Debug, Clone, PartialEq)]
pub struct OutputSnapshot {
    /// Stable connector identifier, such as `card0-HDMI-A-1`.
    pub id: String,
    /// User-visible connector name.
    pub name: String,
    /// EDID make when available.
    pub make: String,
    /// EDID model when available.
    pub model: String,
    /// Physical dimensions in millimeters, if known.
    pub physical_mm: Option<(i32, i32)>,
    /// Modes currently reported by the connector.
    pub modes: Vec<OutputMode>,
    /// Kernel or driver current mode when known.
    pub current_mode: Option<OutputMode>,
    /// Driver preferred mode when known.
    pub preferred_mode: Option<OutputMode>,
    /// Logical scale requested for this output: the bits of a binary64 number.
    pub scale: u64,
    /// Rotation and flip requested for this output.
    pub transform: OutputTransform,
    /// Optional user-preserved location. The layout policy may replace it.
    pub position: Option<LogicalPoint>,
    /// Whether this connector is the chosen primary output.
    pub primary: bool,
}

/// What a snapshot says.
#[verifier::ext_equal]
pub struct SnapshotModel {
    pub id: Seq<char>,
    pub name: Seq<char>,
    pub make: Seq<char>,
    pub model: Seq<char>,
    pub physical_mm: Option<(i32, i32)>,
    pub modes: Seq<OutputMode>,
    pub current_mode: Option<OutputMode>,
    pub preferred_mode: Option<OutputMode>,
    pub scale: u64,
    pub transform: OutputTransform,
    pub position: Option<LogicalPoint>,
    pub primary: bool,
}

impl View for OutputSnapshot {
    type V = SnapshotModel;

    open spec fn view(&self) -> SnapshotModel {
        SnapshotModel {
            id: self.id@,
            name: self.name@,
            make: self.make@,
            model: self.model@,
            physical_mm: self.physical_mm,
            modes: self.modes@,
            current_mode: self.current_mode,
            preferred_mode: self.preferred_mode,
            scale: self.scale,
            transform: self.transform,
            position: self.position,
            primary: self.primary,
        }
    }
}

/// What a list of snapshots says.
pub open spec fn snapshot_views(list: Seq<OutputSnapshot>) -> Seq<SnapshotModel> {
    Seq::new(list.len(), |i: int| list[i]@)
}

pub open spec fn sane_scale(scale: u64) -> u64 {
    if finite(scale) {
        within(scale, MIN_OUTPUT_SCALE, MAX_OUTPUT_SCALE)
    } else {
        ONE
    }
}

/// Clamps a scale to the valid logical range; an infinite one or NaN is 1.0.
pub fn sanitize_scale(scale: u64) -> (sane: u64)
    ensures
        sane == sane_scale(scale),
{
    if is_finite(scale) {
        clamp(scale, MIN_OUTPUT_SCALE, MAX_OUTPUT_SCALE)
    } else {
        ONE
    }
}

/// `mode` put into an ascending list, unless the list holds it already.
pub open spec fn insert_mode(list: Seq<OutputMode>, mode: OutputMode) -> Seq<OutputMode>
    decreases list.len(),
{
    if list.len() == 0 {
        seq![mode]
    } else if list.last() == mode {
        list
    } else if mode.smaller_than(list.last()) {
        insert_mode(list.drop_last(), mode).push(list.last())
    } else {
        list.push(mode)
    }
}

/// The usable modes in ascending order, each once.
pub open spec fn ordered_modes(modes: Seq<OutputMode>) -> Seq<OutputMode>
    decreases modes.len(),
{
    if modes.len() == 0 {
        Seq::empty()
    } else {
        let before = ordered_modes(modes.drop_last());
        if modes.last().usable() {
            insert_mode(before, modes.last())
        } else {
            before
        }
    }
}

pub open spec fn ascending(modes: Seq<OutputMode>) -> bool {
    forall|i: int, j: int| 0 <= i < j < modes.len() ==> (#[trigger] modes[i]).smaller_than(#[trigger] modes[j])
}

proof fn insert_mode_keeps_order(list: Seq<OutputMode>, mode: OutputMode)
    requires
        ascending(list),
    ensures
        ascending(insert_mode(list, mode)),
        forall|m: OutputMode|
            #![trigger insert_mode(list, mode).contains(m)]
            #![trigger list.contains(m)]
            insert_mode(list, mode).contains(m) <==> list.contains(m) || m == mode,
    decreases list.len(),
{
    if list.len() == 0 {
        assert forall|m: OutputMode| insert_mode(list, mode).contains(m) <==> list.contains(m) || m
            == mode by {
            assert(seq![mode][0] == mode);
        }
    } else if list.last() == mode {
        assert(list[list.len() - 1] == mode);
    } else if mode.smaller_than(list.last()) {
        let rest = list.drop_last();
        assert forall|i: int, j: int| 0 <= i < j < rest.len() implies (#[trigger] rest[i]).smaller_than(
        #[trigger] rest[j]) by {
            assert(list[i].smaller_than(list[j]));
        }
        insert_mode_keeps_order(rest, mode);
        let inner = insert_mode(rest, mode);
        let result = inner.push(list.last());
        assert forall|m: OutputMode| result.contains(m) <==> list.contains(m) || m == mode by {
            if result.contains(m) {
                let k = choose|k: int| 0 <= k < result.len() && result[k] == m;
                if k < inner.len() {
                    assert(inner[k] == m);
                    assert(inner.contains(m));
                    if rest.contains(m) {
                        let q = choose|q: int| 0 <= q < rest.len() && rest[q] == m;
                        assert(list[q] == m);
                    }
                } else {
                    assert(list[list.len() - 1] == m);
                }
            }
            if list.contains(m) {
                let k = choose|k: int| 0 <= k < list.len() && list[k] == m;
                if k < rest.len() {
                    assert(rest[k] == m);
                    assert(inner.contains(m));
                    let q = choose|q: int| 0 <= q < inner.len() && inner[q] == m;
                    assert(result[q] == m);
                } else {
                    assert(result[inner.len() as int] == m);
                }
            }
            if m == mode {
                assert(inner.contains(m));
                let q = choose|q: int| 0 <= q < inner.len() && inner[q] == m;
                assert(result[q] == m);
            }
        }
        assert forall|i: int, j: int| 0 <= i < j < result.len() implies (#[trigger] result[i]).smaller_than(
        #[trigger] result[j]) by {
            if j == inner.len() {
                assert(inner.contains(inner[i]));
                if rest.contains(inner[i]) {
                    let q = choose|q: int| 0 <= q < rest.len() && rest[q] == inner[i];
                    assert(list[q].smaller_than(list[list.len() - 1]));
                }
            }
        }
    } else {
        let result = list.push(mode);
        assert forall|i: int, j: int| 0 <= i < j < result.len() implies (#[trigger] result[i]).smaller_than(
        #[trigger] result[j]) by {
            if j == list.len() && i < list.len() - 1 {
                assert(list[i].smaller_than(list[list.len() - 1]));
            }
        }
        assert forall|m: OutputMode| result.contains(m) <==> list.contains(m) || m == mode by {
            assert(result[list.len() as int] == mode);
            if list.contains(m) {
                let k = choose|k: int| 0 <= k < list.len() && list[k] == m;
                assert(result[k] == m);
            }
            if result.contains(m) {
                let k = choose|k: int| 0 <= k < result.len() && result[k] == m;
                if k < list.len() {
                    assert(list[k] == m);
                }
            }
        }
    }
}

/// A repaired mode list is strictly ascending and holds exactly the usable
/// modes of the list it came from.
pub proof fn ordered_modes_are_the_usable_modes(modes: Seq<OutputMode>)
    ensures
        ascending(ordered_modes(modes)),
        forall|m: OutputMode|
            #![trigger ordered_modes(modes).contains(m)]
            #![trigger modes.contains(m)]
            ordered_modes(modes).contains(m) <==> modes.contains(m) && m.usable(),
    decreases modes.len(),
{
    if modes.len() > 0 {
        let rest = modes.drop_last();
        ordered_modes_are_the_usable_modes(rest);
        if modes.last().usable() {
            insert_mode_keeps_order(ordered_modes(rest), modes.last());
        }
        assert forall|m: OutputMode|
            #![trigger ordered_modes(modes).contains(m)]
            #![trigger modes.contains(m)]
            ordered_modes(modes).contains(m) <==> modes.contains(m) && m.usable() by {
            assert(ordered_modes(rest).contains(m) <==> rest.contains(m) && m.usable());
            if modes.contains(m) {
                let k = choose|k: int| 0 <= k < modes.len() && modes[k] == m;
                if k < rest.len() {
                    assert(rest[k] == m);
                }
            }
            if rest.contains(m) {
                let k = choose|k: int| 0 <= k < rest.len() && rest[k] == m;
                assert(modes[k] == m);
            }
            assert(modes[modes.len() - 1] == modes.last());
        }
    }
}

proof fn insert_mode_skips(list: Seq<OutputMode>, mode: OutputMode, n: int)
    requires
        0 <= n <= list.len(),
        forall|k: int| n <= k < list.len() ==> mode.smaller_than(#[trigger] list[k]),
    ensures
        insert_mode(list, mode) == insert_mode(list.subrange(0, n), mode) + list.subrange(
            n,
            list.len() as int,
        ),
    decreases list.len(),
{
    if n == list.len() {
        assert(list.subrange(0, n) =~= list);
        assert(insert_mode(list, mode) + list.subrange(n, n) =~= insert_mode(list, mode));
    } else {
        let rest = list.drop_last();
        assert(mode.smaller_than(list[list.len() - 1]));
        insert_mode_skips(rest, mode, n);
        assert(rest.subrange(0, n) =~= list.subrange(0, n));
        assert(rest.subrange(n, rest.len() as int).push(list.last()) =~= list.subrange(
            n,
            list.len() as int,
        ));
        assert((insert_mode(list.subrange(0, n), mode) + rest.subrange(n, rest.len() as int)).push(
            list.last(),
        ) =~= insert_mode(list.subrange(0, n), mode) + list.subrange(n, list.len() as int));
    }
}

fn place_mode(list: &mut Vec<OutputMode>, mode: OutputMode)
    ensures
        final(list)@ == insert_mode(old(list)@, mode),
{
    let mut i: usize = list.len();
    while i > 0 && mode.is_smaller_than(list[i - 1])
        invariant
            i <= list.len(),
            list@ == old(list)@,
            forall|k: int| i <= k < list.len() ==> mode.smaller_than(#[trigger] list@[k]),
        decreases i,
    {
        i -= 1;
    }
    let ghost before = list@;
    proof {
        insert_mode_skips(before, mode, i as int);
    }
    if i > 0 && list[i - 1] == mode {
        assert(before.subrange(0, i as int) + before.subrange(i as int, before.len() as int)
            =~= before);
        return ;
    }
    list.insert(i, mode);
    proof {
        let head = before.subrange(0, i as int);
        assert(insert_mode(head, mode) =~= head.push(mode));
        assert(list@ =~= head.push(mode) + before.subrange(i as int, before.len() as int));
    }
}

pub(crate) fn copy_modes(modes: &[OutputMode]) -> (copy: Vec<OutputMode>)
    ensures
        copy@ == modes@,
{
    let mut copy: Vec<OutputMode> = Vec::new();
    let mut i: usize = 0;
    while i < modes.len()
        invariant
            i <= modes.len(),
            copy@ == modes@.subrange(0, i as int),
        decreases modes.len() - i,
    {
        copy.push(modes[i]);
        assert(modes@.subrange(0, i + 1) =~= modes@.subrange(0, i as int).push(modes@[i as int]));
        i += 1;
    }
    assert(modes@.subrange(0, i as int) =~= modes@);
    copy
}

pub open spec fn first_mode(modes: Seq<OutputMode>) -> Option<OutputMode> {
    if modes.len() > 0 {
        Some(modes[0])
    } else {
        None
    }
}

fn first_of(modes: &[OutputMode]) -> (mode: Option<OutputMode>)
    ensures
        mode == first_mode(modes@),
{
    if modes.len() > 0 {
        Some(modes[0])
    } else {
        None
    }
}

impl SnapshotModel {
    /// A connected output of which only the connector and its modes are known.
    pub open spec fn minimal(id: Seq<char>, modes: Seq<OutputMode>) -> Self {
        SnapshotModel {
            id,
            name: id,
            make: Seq::empty(),
            model: Seq::empty(),
            physical_mm: None,
            modes,
            current_mode: first_mode(modes),
            preferred_mode: first_mode(modes),
            scale: ONE,
            transform: OutputTransform::Normal,
            position: None,
            primary: false,
        }
    }

    /// The snapshot with every unreliable value repaired.
    pub open spec fn repaired(self) -> Self {
        let id = trimmed(self.id);
        let modes = ordered_modes(self.modes);
        let preferred = or_else(supported(modes, self.preferred_mode), first_mode(modes));
        SnapshotModel {
            id,
            name: trimmed(
                if trimmed(self.name).len() == 0 {
                    id
                } else {
                    self.name
                },
            ),
            modes,
            scale: sane_scale(self.scale),
            preferred_mode: preferred,
            current_mode: or_else(
                supported(modes, self.current_mode),
                chosen_mode(modes, preferred, None, None),
            ),
            physical_mm: match self.physical_mm {
                Some((width, height)) if width >= 0 && height >= 0 => self.physical_mm,
                _ => None,
            },
            ..self
        }
    }

    /// The make that clients are told.
    pub open spec fn told_make(self) -> Seq<char> {
        if self.make.len() == 0 {
            "Unknown"@
        } else {
            self.make
        }
    }

    /// The model that clients are told: the connector's name where there is none.
    pub open spec fn told_model(self) -> Seq<char> {
        if self.model.len() == 0 {
            self.name
        } else {
            self.model
        }
    }

    pub open spec fn mode(self) -> Option<OutputMode> {
        chosen_mode(self.modes, self.preferred_mode, self.current_mode, None)
    }

    /// The size in logical pixels: the mode's size divided by the scale, with
    /// parts of a pixel counted whole.
    pub open spec fn size(self) -> (int, int) {
        let (width, height) = match self.mode() {
            Some(mode) => (mode.width as int, mode.height as int),
            None => (1int, 1int),
        };
        (
            larger(scaled_length(width, self.scale), 1),
            larger(scaled_length(height, self.scale), 1),
        )
    }

    /// Whether two snapshots compare equal: every value is the same, and the
    /// scales are equal as numbers.
    pub open spec fn same_as(self, other: Self) -> bool {
        equal(self.scale, other.scale) && self == (SnapshotModel { scale: self.scale, ..other })
    }
}

impl OutputSnapshot {
    /// A minimal connected output snapshot.
    pub fn new(id: String, modes: Vec<OutputMode>) -> (snapshot: Self)
        ensures
            snapshot@ == SnapshotModel::minimal(id@, modes@),
    {
        let preferred_mode = first_of(modes.as_slice());
        let make = String::new();
        let model = String::new();
        assert(make@ =~= Seq::empty());
        assert(model@ =~= Seq::empty());
        OutputSnapshot {
            name: id.clone(),
            id,
            make,
            model,
            physical_mm: None,
            modes,
            current_mode: preferred_mode,
            preferred_mode,
            scale: ONE,
            transform: OutputTransform::Normal,
            position: None,
            primary: false,
        }
    }

    /// A second snapshot that says the same.
    pub fn duplicate(&self) -> (copy: Self)
        ensures
            copy@ == self@,
    {
        OutputSnapshot {
            id: self.id.clone(),
            name: self.name.clone(),
            make: self.make.clone(),
            model: self.model.clone(),
            physical_mm: self.physical_mm,
            modes: copy_modes(self.modes.as_slice()),
            current_mode: self.current_mode,
            preferred_mode: self.preferred_mode,
            scale: self.scale,
            transform: self.transform,
            position: self.position,
            primary: self.primary,
        }
    }

    /// Repairs values from an unreliable discovery source.
    pub fn sanitized(self) -> (sane: Self)
        ensures
            sane@ == self@.repaired(),
    {
        let id = trim(self.id.as_str());
        let name = trim(self.name.as_str());
        let name = if chars_of(name.as_str()).len() == 0 {
            trim(id.as_str())
        } else {
            name
        };
        let mut modes: Vec<OutputMode> = Vec::new();
        let mut i: usize = 0;
        assert(modes@ =~= ordered_modes(self.modes@.subrange(0, 0)));
        while i < self.modes.len()
            invariant
                i <= self.modes.len(),
                modes@ == ordered_modes(self.modes@.subrange(0, i as int)),
            decreases self.modes.len() - i,
        {
            assert(self.modes@.subrange(0, i + 1).drop_last() =~= self.modes@.subrange(
                0,
                i as int,
            ));
            if self.modes[i].is_valid() {
                place_mode(&mut modes, self.modes[i]);
            }
            i += 1;
        }
        assert(self.modes@.subrange(0, i as int) =~= self.modes@);
        let kept = support(modes.as_slice(), self.preferred_mode);
        let preferred_mode = match kept {
            Some(_) => kept,
            None => first_of(modes.as_slice()),
        };
        let kept = support(modes.as_slice(), self.current_mode);
        let current_mode = match kept {
            Some(_) => kept,
            None => select_mode(modes.as_slice(), preferred_mode, None, None),
        };
        let physical_mm = match self.physical_mm {
            Some((width, height)) => if width >= 0 && height >= 0 {
                self.physical_mm
            } else {
                None
            },
            None => None,
        };
        OutputSnapshot {
            id,
            name,
            make: self.make,
            model: self.model,
            physical_mm,
            modes,
            current_mode,
            preferred_mode,
            scale: sanitize_scale(self.scale),
            transform: self.transform,
            position: self.position,
            primary: self.primary,
        }
    }

    /// The make that clients are told.
    pub fn advertised_make(&self) -> (make: String)
        ensures
            make@ == self@.told_make(),
    {
        if self.make.as_str().is_empty() {
            "Unknown".to_owned()
        } else {
            self.make.clone()
        }
    }

    /// The model that clients are told: the connector's name where there is
    /// none.
    pub fn advertised_model(&self) -> (model: String)
        ensures
            model@ == self@.told_model(),
    {
        if self.model.as_str().is_empty() {
            self.name.clone()
        } else {
            self.model.clone()
        }
    }

    /// The selected physical mode after safe fallback.
    pub fn selected_mode(&self) -> (mode: Option<OutputMode>)
        ensures
            mode == self@.mode(),
    {
        select_mode(self.modes.as_slice(), self.preferred_mode, self.current_mode, None)
    }

    /// Converts the selected physical mode to a logical size.
    pub fn logical_size(&self) -> (size: (i32, i32))
        ensures
            (size.0 as int, size.1 as int) == self@.size(),
    {
        let mode = match self.selected_mode() {
            Some(mode) => mode,
            None => OutputMode::new(1, 1, 1),
        };
        proof {
            chosen_mode_is_supported(
                self.modes@,
                self.preferred_mode,
                self.current_mode,
                None,
            );
        }
        (scale_length(mode.width, self.scale), scale_length(mode.height, self.scale))
    }

    /// Whether two snapshots compare equal.
    pub fn is_same(&self, other: &Self) -> (yes: bool)
        ensures
            yes == self@.same_as(other@),
    {
        is_equal(self.scale, other.scale) && same(self.id.as_str(), other.id.as_str()) && same(
            self.name.as_str(),
            other.name.as_str(),
        ) && same(self.make.as_str(), other.make.as_str()) && same(
            self.model.as_str(),
            other.model.as_str(),
        ) && same_pair(self.physical_mm, other.physical_mm) && same_modes(
            self.modes.as_slice(),
            other.modes.as_slice(),
        ) && same_mode(self.current_mode, other.current_mode) && same_mode(
            self.preferred_mode,
            other.preferred_mode,
        ) && self.transform == other.transform && same_point(self.position, other.position)
            && self.primary == other.primary
    }
}

fn same_pair(a: Option<(i32, i32)>, b: Option<(i32, i32)>) -> (yes: bool)
    ensures
        yes == (a == b),
{
    match (a, b) {
        (Some(x), Some(y)) => x.0 == y.0 && x.1 == y.1,
        (None, None) => true,
        _ => false,
    }
}

fn same_mode(a: Option<OutputMode>, b: Option<OutputMode>) -> (yes: bool)
    ensures
        yes == (a == b),
{
    match (a, b) {
        (Some(x), Some(y)) => x == y,
        (None, None) => true,
        _ => false,
    }
}

fn same_point(a: Option<LogicalPoint>, b: Option<LogicalPoint>) -> (yes: bool)
    ensures
        yes == (a == b),
{
    match (a, b) {
        (Some(x), Some(y)) => x == y,
        (None, None) => true,
        _ => false,
    }
}

fn same_modes(a: &[OutputMode], b: &[OutputMode]) -> (yes: bool)
    ensures
        yes == (a@ == b@),
{
    if a.len() != b.len() {
        return false;
    }
    let mut i: usize = 0;
    while i < a.len()
        invariant
            i <= a.len(),
            a.len() == b.len(),
            forall|k: int| 0 <= k < i ==> a@[k] == b@[k],
        decreases a.len() - i,
    {
        if a[i] != b[i] {
            return false;
        }
        i += 1;
    }
    assert(a@ =~= b@);
    true
}

// ---- more laws ---------------------------------------------------------------------------

/// Whether a mode is usable and among these.
pub open spec fn offers(modes: Seq<OutputMode>, mode: Option<OutputMode>) -> bool {
    mode matches Some(m) && modes.contains(m) && m.width > 0 && m.height > 0 && m.refresh_mhz > 0
}

/// Whether no usable mode has the size that is asked for.
pub open spec fn unanswered(modes: Seq<OutputMode>, request: Option<ModeRequest>) -> bool {
    request matches Some(wanted) ==> forall|i: int|
        0 <= i < modes.len() && (#[trigger] modes[i]).refresh_mhz > 0 && modes[i].width > 0
            && modes[i].height > 0 ==> modes[i].width != wanted.width || modes[i].height
            != wanted.height
}

/// Without an answer to the request the preferred mode is chosen where it is
/// usable and offered; else the current one where it is; and only else a mode
/// of which no usable one has a larger area, nor the same area at a higher
/// rate.
pub proof fn the_preferred_mode_comes_before_the_current_one(
    modes: Seq<OutputMode>,
    preferred: Option<OutputMode>,
    current: Option<OutputMode>,
    request: Option<ModeRequest>,
)
    requires
        unanswered(modes, request),
    ensures
        offers(modes, preferred) ==> chosen_mode(modes, preferred, current, request) == preferred,
        !offers(modes, preferred) && offers(modes, current) ==> chosen_mode(
            modes,
            preferred,
            current,
            request,
        ) == current,
        !offers(modes, preferred) && !offers(modes, current) ==> {
            let chosen = chosen_mode(modes, preferred, current, request);
            forall|i: int|
                0 <= i < modes.len() && (#[trigger] modes[i]).width > 0 && modes[i].height > 0
                    && modes[i].refresh_mhz > 0 ==> offers(modes, chosen) && {
                    let best = chosen->Some_0;
                    ||| best.width * best.height > modes[i].width * modes[i].height
                    ||| best.width * best.height == modes[i].width * modes[i].height
                        && best.refresh_mhz >= modes[i].refresh_mhz
                }
        },
{
    largest_is_largest(modes);
    if request is Some {
        best_answer_is_best(modes, request->Some_0);
        match best_answer(modes, request->Some_0) {
            Some(mode) => {
                let k = choose|k: int| 0 <= k < modes.len() && modes[k] == mode;
                assert(modes[k].refresh_mhz > 0);
            },
            None => {},
        }
    }
}

/// A request is answered whenever a usable mode has its size: the chosen mode
/// has that size, and of all that do none has a rate nearer to the one asked
/// for, nor an equally near one that is higher. Without a rate in the request
/// the highest wins. Neither the preferred mode nor the current one counts.
pub proof fn requests_are_answered_by_the_nearest_rate(
    modes: Seq<OutputMode>,
    preferred: Option<OutputMode>,
    current: Option<OutputMode>,
    wanted: ModeRequest,
    i: int,
)
    requires
        0 <= i < modes.len(),
        modes[i].width == wanted.width && modes[i].height == wanted.height,
        modes[i].width > 0 && modes[i].height > 0 && modes[i].refresh_mhz > 0,
    ensures
        offers(modes, chosen_mode(modes, preferred, current, Some(wanted))),
        ({
            let chosen = chosen_mode(modes, preferred, current, Some(wanted))->Some_0;
            let far = |rate: int, from: int|
                if rate < from {
                    from - rate
                } else {
                    rate - from
                };
            &&& chosen.width == wanted.width
            &&& chosen.height == wanted.height
            &&& match wanted.refresh_mhz {
                None => chosen.refresh_mhz >= modes[i].refresh_mhz,
                Some(rate) => {
                    let own = far(chosen.refresh_mhz as int, rate as int);
                    let other = far(modes[i].refresh_mhz as int, rate as int);
                    own < other || (own == other && chosen.refresh_mhz >= modes[i].refresh_mhz)
                },
            }
        }),
{
    best_answer_is_best(modes, wanted);
    assert(wanted.fits(modes[i]));
}

/// Modes are repaired in ascending order of width, then height, then rate.
pub proof fn repaired_modes_ascend(modes: Seq<OutputMode>, i: int, j: int)
    requires
        0 <= i < j < ordered_modes(modes).len(),
    ensures
        ({
            let a = ordered_modes(modes)[i];
            let b = ordered_modes(modes)[j];
            ||| a.width < b.width
            ||| a.width == b.width && a.height < b.height
            ||| a.width == b.width && a.height == b.height && a.refresh_mhz < b.refresh_mhz
        }),
{
    ordered_modes_are_the_usable_modes(modes);
    assert(ordered_modes(modes)[i].smaller_than(ordered_modes(modes)[j]));
}

/// A scale from 0.5 to 4 is kept; a smaller one is 0.5, a larger one 4, and one
/// that is no finite number 1.
pub proof fn scales_are_kept_within_limits(scale: u64)
    ensures
        0x3fe0_0000_0000_0000 <= scale <= 0x4010_0000_0000_0000 ==> sane_scale(scale) == scale,
        0x4010_0000_0000_0000 < scale < 0x7ff0_0000_0000_0000 ==> sane_scale(scale)
            == 0x4010_0000_0000_0000,
        scale < 0x3fe0_0000_0000_0000 || 0x8000_0000_0000_0000 <= scale < 0xfff0_0000_0000_0000
            ==> sane_scale(scale) == 0x3fe0_0000_0000_0000,
        0x7ff0_0000_0000_0000 <= scale < 0x8000_0000_0000_0000 || scale >= 0xfff0_0000_0000_0000
            ==> sane_scale(scale) == 0x3ff0_0000_0000_0000,
{
}

/// What a repaired snapshot keeps: the modes that were usable, the preferred and
/// the current mode where they are among these, and everything that needs no
/// repair. Without a preferred mode the smallest is preferred, and without a
/// current one the preferred is current.
pub proof fn repairs_keep_what_is_sound(snapshot: SnapshotModel)
    ensures
        ({
            let sane = snapshot.repaired();
            &&& forall|m: OutputMode| #[trigger]
                sane.modes.contains(m) <==> offers(snapshot.modes, Some(m))
            &&& offers(snapshot.modes, snapshot.preferred_mode) ==> sane.preferred_mode
                == snapshot.preferred_mode
            &&& !offers(snapshot.modes, snapshot.preferred_mode) && sane.modes.len() > 0
                ==> sane.preferred_mode == Some(sane.modes[0])
            &&& offers(snapshot.modes, snapshot.current_mode) ==> sane.current_mode
                == snapshot.current_mode
            &&& !offers(snapshot.modes, snapshot.current_mode) ==> sane.current_mode
                == sane.preferred_mode
            &&& sane.modes.len() == 0 ==> sane.preferred_mode is None && sane.current_mode is None
            &&& sane.make == snapshot.make && sane.model == snapshot.model
            &&& sane.transform == snapshot.transform && sane.position == snapshot.position
            &&& sane.primary == snapshot.primary
            &&& snapshot.physical_mm matches Some((w, h)) ==> (w >= 0 && h >= 0
                ==> sane.physical_mm == snapshot.physical_mm) && (w < 0 || h < 0
                ==> sane.physical_mm is None)
            &&& snapshot.physical_mm is None ==> sane.physical_mm is None
        }),
{
    let modes = ordered_modes(snapshot.modes);
    ordered_modes_are_the_usable_modes(snapshot.modes);
    assert forall|m: OutputMode| #[trigger] modes.contains(m) <==> offers(snapshot.modes, Some(m)) by {
        assert(modes.contains(m) <==> snapshot.modes.contains(m) && m.usable());
    }
    match snapshot.preferred_mode {
        Some(m) => {
            assert(modes.contains(m) <==> offers(snapshot.modes, Some(m)));
        },
        None => {},
    }
    match snapshot.current_mode {
        Some(m) => {
            assert(modes.contains(m) <==> offers(snapshot.modes, Some(m)));
        },
        None => {},
    }
    if modes.len() > 0 {
        assert(modes.contains(modes[0]));
    } else {
        largest_is_largest(modes);
    }
    let sane = snapshot.repaired();
    if sane.preferred_mode is Some {
        let p = sane.preferred_mode->Some_0;
        assert(modes.contains(p));
        assert(offers(snapshot.modes, Some(p)));
    }
}

/// A rectangle holds exactly the points from its corner on, its right and
/// bottom edges excluded. (Its edges are 32-bit numbers.)
pub proof fn outputs_cover_their_points(geometry: OutputGeometry, point: LogicalPoint)
    requires
        geometry.x + geometry.width <= i32::MAX && geometry.y + geometry.height <= i32::MAX,
        geometry.x + geometry.width >= i32::MIN && geometry.y + geometry.height >= i32::MIN,
    ensures
        geometry.covers(point) <==> {
            &&& geometry.x <= point.x && point.x - geometry.x < geometry.width
            &&& geometry.y <= point.y && point.y - geometry.y < geometry.height
        },
{
}

/// The logical size is that of the mode in use, its width first: as it is at scale
/// one, doubled at one half and halved at two, with parts of a pixel counted
/// whole. Without a mode it is one pixel.
pub proof fn logical_sizes_follow_the_mode(snapshot: SnapshotModel, mode: OutputMode)
    requires
        snapshot.mode() == Some(mode),
        0 < mode.width <= 0x3fff_ffff,
        0 < mode.height <= 0x3fff_ffff,
    ensures
        snapshot.scale == 0x3ff0_0000_0000_0000 ==> snapshot.size() == (
            mode.width as int,
            mode.height as int,
        ),
        snapshot.scale == 0x3fe0_0000_0000_0000 ==> snapshot.size() == (
            2 * mode.width,
            2 * mode.height,
        ),
        snapshot.scale == 0x4000_0000_0000_0000 ==> snapshot.size() == (
            (mode.width + 1) / 2,
            (mode.height + 1) / 2,
        ),
{
    lengths_are_divided_by_their_scale(mode.width as int);
    lengths_are_divided_by_their_scale(mode.height as int);
}

/// The mode in use is the preferred one where it is offered, else the current one
/// where that is; without any usable mode there is none.
pub proof fn the_mode_in_use_is_the_preferred_one(snapshot: SnapshotModel)
    ensures
        offers(snapshot.modes, snapshot.preferred_mode) ==> snapshot.mode()
            == snapshot.preferred_mode,
        !offers(snapshot.modes, snapshot.preferred_mode) && offers(
            snapshot.modes,
            snapshot.current_mode,
        ) ==> snapshot.mode() == snapshot.current_mode,
        snapshot.mode() matches Some(mode) ==> offers(snapshot.modes, Some(mode)),
{
    the_preferred_mode_comes_before_the_current_one(
        snapshot.modes,
        snapshot.preferred_mode,
        snapshot.current_mode,
        None,
    );
    chosen_mode_is_supported(
        snapshot.modes,
        snapshot.preferred_mode,
        snapshot.current_mode,
        None,
    );
}

/// A repaired snapshot has its connector without blanks around it, its name too,
/// and the connector for a name where it has none.
pub proof fn repaired_snapshots_have_names(snapshot: SnapshotModel)
    ensures
        snapshot.repaired().id == trimmed(snapshot.id),
        trimmed(snapshot.name).len() > 0 ==> snapshot.repaired().name == trimmed(snapshot.name),
        trimmed(snapshot.name).len() == 0 ==> snapshot.repaired().name == trimmed(snapshot.id),
        snapshot.repaired().scale == sane_scale(snapshot.scale),
{
    trimming_twice_is_trimming(snapshot.id);
}

/// A bare snapshot has its connector for a name, its first mode for the preferred
/// and the current one, scale one and no position; and nothing else is known.
pub proof fn bare_snapshots_take_their_first_mode(id: Seq<char>, modes: Seq<OutputMode>)
    ensures
        ({
            let bare = SnapshotModel::minimal(id, modes);
            &&& bare.id == id && bare.name == id && bare.modes == modes
            &&& modes.len() > 0 ==> bare.current_mode == Some(modes[0]) && bare.preferred_mode
                == Some(modes[0])
            &&& modes.len() == 0 ==> bare.current_mode is None && bare.preferred_mode is None
            &&& bare.scale == 0x3ff0_0000_0000_0000 && bare.position is None && !bare.primary
            &&& bare.transform == OutputTransform::Normal && bare.physical_mm is None
            &&& bare.make.len() == 0 && bare.model.len() == 0
        }),
{
}

/// Two snapshots are the same exactly where every value is, and the scales are
/// equal as numbers.
pub proof fn snapshots_are_compared_by_every_value(a: SnapshotModel, b: SnapshotModel)
    ensures
        a.same_as(b) <==> {
            &&& a.id == b.id && a.name == b.name && a.make == b.make && a.model == b.model
            &&& a.physical_mm == b.physical_mm && a.modes == b.modes
            &&& a.current_mode == b.current_mode && a.preferred_mode == b.preferred_mode
            &&& a.transform == b.transform && a.position == b.position && a.primary == b.primary
            &&& equal(a.scale, b.scale)
        },
{
}

/// The rectangle around two is the smallest that holds both: each of its edges is
/// one of theirs. (Their edges are 32-bit numbers, and their distance too.)
pub proof fn joined_rectangles_are_tight(a: OutputGeometry, b: OutputGeometry)
    requires
        a.width > 0 && a.height > 0 && b.width > 0 && b.height > 0,
        0 <= a.x && 0 <= a.y && 0 <= b.x && 0 <= b.y,
        a.x + a.width <= i32::MAX && a.y + a.height <= i32::MAX,
        b.x + b.width <= i32::MAX && b.y + b.height <= i32::MAX,
    ensures
        ({
            let both = a.joined(b);
            &&& both.x == a.x || both.x == b.x
            &&& both.x <= a.x && both.x <= b.x
            &&& both.y == a.y || both.y == b.y
            &&& both.y <= a.y && both.y <= b.y
            &&& both.x + both.width == a.x + a.width || both.x + both.width == b.x + b.width
            &&& both.x + both.width >= a.x + a.width && both.x + both.width >= b.x + b.width
            &&& both.y + both.height == a.y + a.height || both.y + both.height == b.y + b.height
            &&& both.y + both.height >= a.y + a.height && both.y + both.height >= b.y + b.height
        }),
{
}

/// Clients are told the make and the model of an output where they are known;
/// else that the make is not, and the name for the model.
pub proof fn clients_are_told_make_and_model(snapshot: SnapshotModel)
    ensures
        snapshot.make.len() > 0 ==> snapshot.told_make() == snapshot.make,
        snapshot.make.len() == 0 ==> snapshot.told_make() == "Unknown"@,
        snapshot.model.len() > 0 ==> snapshot.told_model() == snapshot.model,
        snapshot.model.len() == 0 ==> snapshot.told_model() == snapshot.name,
{
}

/// A rectangle keeps its corner, and its size where that is positive; a side that
/// is not counts one pixel. Its middle is half of its size from its corner.
pub proof fn rectangles_have_a_size(x: i32, y: i32, width: i32, height: i32)
    ensures
        ({
            let made = OutputGeometry::spec_new(x as int, y as int, width as int, height as int);
            &&& made.x == x && made.y == y
            &&& width > 0 ==> made.width == width
            &&& height > 0 ==> made.height == height
            &&& width <= 0 ==> made.width == 1
            &&& height <= 0 ==> made.height == 1
            &&& made.middle().0 == x + made.width as int / 2
            &&& made.middle().1 == y + made.height as int / 2
        }),
{
}

} // verus!
