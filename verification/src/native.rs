//! The frame pipeline of one physical output, and the order in which
//! connectors, CRTCs and modes are tried.

use vstd::prelude::*;

verus! {

// ---- scanout candidates ------------------------------------------------------------

/// A mode that a connector advertises. Modes with the same `id` are the same
/// in every timing.
#[derive(Debug, Clone, Copy, PartialEq, Eq, Structural)]
pub struct ScanoutMode {
    pub id: u32,
    pub preferred: bool,
    pub width: u16,
    pub height: u16,
    pub refresh: u32,
}

/// The connector, CRTC and mode of a scanout pipeline.
#[derive(Debug, Clone, Copy, PartialEq, Eq, Structural)]
pub struct NativeOutputConfig {
    pub connector: u32,
    pub crtc: u32,
    pub mode: ScanoutMode,
}

/// An encoder: the CRTC that it drives now, and those that it can drive.
#[derive(Debug, Clone)]
pub struct EncoderReading {
    pub handle: u32,
    pub crtc: Option<u32>,
    pub possible_crtcs: Vec<u32>,
}

/// A connector as the device describes it.
#[derive(Debug, Clone)]
pub struct ConnectorReading {
    pub handle: u32,
    pub connected: bool,
    pub modes: Vec<ScanoutMode>,
    pub encoders: Vec<EncoderReading>,
    pub current_encoder: Option<u32>,
}

impl ScanoutMode {
    pub open spec fn pixels(self) -> int {
        self.width * self.height
    }

    /// Whether this mode is tried before `other`: a preferred one first, then
    /// the one with more pixels, then the faster one.
    pub open spec fn outranks(self, other: Self) -> bool {
        if self.preferred != other.preferred {
            self.preferred
        } else if self.pixels() != other.pixels() {
            self.pixels() > other.pixels()
        } else {
            self.refresh > other.refresh
        }
    }

    fn is_before(self, other: Self) -> (yes: bool)
        ensures
            yes == self.outranks(other),
    {
        let own: u32 = area(self.width, self.height);
        let others: u32 = area(other.width, other.height);
        if self.preferred != other.preferred {
            self.preferred
        } else if own != others {
            own > others
        } else {
            self.refresh > other.refresh
        }
    }
}

fn area(width: u16, height: u16) -> (pixels: u32)
    ensures
        pixels == width * height,
{
    assert(width * height <= 0xffff * 0xffff) by (nonlinear_arith)
        requires
            0 <= width <= 0xffff,
            0 <= height <= 0xffff,
    ;
    width as u32 * height as u32
}

/// `mode` put into a ranked list, behind those of its rank.
pub open spec fn insert_ranked(list: Seq<ScanoutMode>, mode: ScanoutMode) -> Seq<ScanoutMode>
    decreases list.len(),
{
    if list.len() > 0 && mode.outranks(list.last()) {
        insert_ranked(list.drop_last(), mode).push(list.last())
    } else {
        list.push(mode)
    }
}

/// The modes in the order in which they are tried.
pub open spec fn ranked(modes: Seq<ScanoutMode>) -> Seq<ScanoutMode>
    decreases modes.len(),
{
    if modes.len() == 0 {
        Seq::empty()
    } else {
        insert_ranked(ranked(modes.drop_last()), modes.last())
    }
}

proof fn insert_ranked_skips(list: Seq<ScanoutMode>, mode: ScanoutMode, n: int)
    requires
        0 <= n <= list.len(),
        forall|k: int| n <= k < list.len() ==> mode.outranks(#[trigger] list[k]),
        n > 0 ==> !mode.outranks(list[n - 1]),
    ensures
        insert_ranked(list, mode) == list.insert(n, mode),
    decreases list.len(),
{
    if n < list.len() {
        assert(mode.outranks(list[list.len() - 1]));
        insert_ranked_skips(list.drop_last(), mode, n);
        assert(list.drop_last().insert(n, mode).push(list.last()) =~= list.insert(n, mode));
    } else {
        assert(list.push(mode) =~= list.insert(n, mode));
    }
}

fn rank_modes(modes: &Vec<ScanoutMode>) -> (list: Vec<ScanoutMode>)
    ensures
        list@ == ranked(modes@),
{
    let mut list: Vec<ScanoutMode> = Vec::new();
    let mut i: usize = 0;
    assert(list@ =~= ranked(modes@.subrange(0, 0)));
    while i < modes.len()
        invariant
            i <= modes.len(),
            list@ == ranked(modes@.subrange(0, i as int)),
        decreases modes.len() - i,
    {
        let mode = modes[i];
        let mut at: usize = list.len();
        while at > 0 && mode.is_before(list[at - 1])
            invariant
                at <= list.len(),
                forall|k: int| at <= k < list.len() ==> mode.outranks(#[trigger] list@[k]),
            decreases at,
        {
            at -= 1;
        }
        proof {
            insert_ranked_skips(list@, mode, at as int);
            assert(modes@.subrange(0, i + 1).drop_last() =~= modes@.subrange(0, i as int));
        }
        list.insert(at, mode);
        i += 1;
    }
    assert(modes@.subrange(0, i as int) =~= modes@);
    list
}

/// What an encoder says.
#[verifier::ext_equal]
pub struct EncoderModel {
    pub handle: u32,
    pub crtc: Option<u32>,
    pub possible_crtcs: Seq<u32>,
}

impl View for EncoderReading {
    type V = EncoderModel;

    open spec fn view(&self) -> EncoderModel {
        EncoderModel {
            handle: self.handle,
            crtc: self.crtc,
            possible_crtcs: self.possible_crtcs@,
        }
    }
}

pub open spec fn encoder_views(list: Seq<EncoderReading>) -> Seq<EncoderModel> {
    Seq::new(list.len(), |i: int| list[i]@)
}

/// `crtcs` with another one behind, unless it is there already.
pub open spec fn with_crtc(crtcs: Seq<u32>, crtc: u32) -> Seq<u32> {
    if crtcs.contains(crtc) {
        crtcs
    } else {
        crtcs.push(crtc)
    }
}

pub open spec fn with_crtcs(crtcs: Seq<u32>, more: Seq<u32>) -> Seq<u32>
    decreases more.len(),
{
    if more.len() == 0 {
        crtcs
    } else {
        with_crtc(with_crtcs(crtcs, more.drop_last()), more.last())
    }
}

/// The CRTCs of an encoder behind others: the one that it drives now, then
/// those that it can drive.
pub open spec fn with_encoder(crtcs: Seq<u32>, encoder: EncoderModel) -> Seq<u32> {
    let current = match encoder.crtc {
        Some(crtc) => with_crtc(crtcs, crtc),
        None => crtcs,
    };
    with_crtcs(current, encoder.possible_crtcs)
}

/// The CRTCs of the encoders that are current, or of those that are not.
pub open spec fn crtcs_of(
    crtcs: Seq<u32>,
    encoders: Seq<EncoderModel>,
    current: Option<u32>,
    wanted: bool,
) -> Seq<u32>
    decreases encoders.len(),
{
    if encoders.len() == 0 {
        crtcs
    } else {
        let before = crtcs_of(crtcs, encoders.drop_last(), current, wanted);
        if (Some(encoders.last().handle) == current) == wanted {
            with_encoder(before, encoders.last())
        } else {
            before
        }
    }
}

fn has_crtc(crtcs: &Vec<u32>, crtc: u32) -> (yes: bool)
    ensures
        yes == crtcs@.contains(crtc),
{
    let mut i: usize = 0;
    while i < crtcs.len()
        invariant
            i <= crtcs.len(),
            forall|k: int| 0 <= k < i ==> crtcs@[k] != crtc,
        decreases crtcs.len() - i,
    {
        if crtcs[i] == crtc {
            return true;
        }
        i += 1;
    }
    false
}

fn add_crtc(crtcs: &mut Vec<u32>, crtc: u32)
    ensures
        final(crtcs)@ == with_crtc(old(crtcs)@, crtc),
{
    if !has_crtc(&*crtcs, crtc) {
        crtcs.push(crtc);
    }
}

fn add_encoder(crtcs: &mut Vec<u32>, encoder: &EncoderReading)
    ensures
        final(crtcs)@ == with_encoder(old(crtcs)@, encoder@),
{
    match encoder.crtc {
        Some(crtc) => add_crtc(crtcs, crtc),
        None => {},
    }
    let ghost start = crtcs@;
    let ghost all = encoder.possible_crtcs@;
    let mut i: usize = 0;
    assert(all.subrange(0, 0) =~= Seq::empty());
    while i < encoder.possible_crtcs.len()
        invariant
            i <= encoder.possible_crtcs.len(),
            all == encoder.possible_crtcs@,
            crtcs@ == with_crtcs(start, all.subrange(0, i as int)),
        decreases encoder.possible_crtcs.len() - i,
    {
        assert(all.subrange(0, i + 1).drop_last() =~= all.subrange(0, i as int));
        add_crtc(crtcs, encoder.possible_crtcs[i]);
        i += 1;
    }
    assert(all.subrange(0, i as int) =~= all);
}

fn is_current(encoder: &EncoderReading, current: Option<u32>) -> (yes: bool)
    ensures
        yes == (Some(encoder.handle) == current),
{
    match current {
        Some(handle) => handle == encoder.handle,
        None => false,
    }
}

fn add_encoders(crtcs: &mut Vec<u32>, encoders: &Vec<EncoderReading>, current: Option<u32>, wanted: bool)
    ensures
        final(crtcs)@ == crtcs_of(old(crtcs)@, encoder_views(encoders@), current, wanted),
{
    let ghost start = crtcs@;
    let ghost all = encoder_views(encoders@);
    let mut i: usize = 0;
    assert(all.subrange(0, 0) =~= Seq::empty());
    while i < encoders.len()
        invariant
            i <= encoders.len(),
            all == encoder_views(encoders@),
            crtcs@ == crtcs_of(start, all.subrange(0, i as int), current, wanted),
        decreases encoders.len() - i,
    {
        assert(all.subrange(0, i + 1).drop_last() =~= all.subrange(0, i as int));
        assert(all.subrange(0, i + 1).last() == encoders@[i as int]@);
        if is_current(&encoders[i], current) == wanted {
            add_encoder(crtcs, &encoders[i]);
        }
        i += 1;
    }
    assert(all.subrange(0, i as int) =~= all);
}

#[verifier::ext_equal]
pub struct ConnectorModel {
    pub handle: u32,
    pub connected: bool,
    pub modes: Seq<ScanoutMode>,
    pub encoders: Seq<EncoderModel>,
    pub current_encoder: Option<u32>,
}

impl View for ConnectorReading {
    type V = ConnectorModel;

    open spec fn view(&self) -> ConnectorModel {
        ConnectorModel {
            handle: self.handle,
            connected: self.connected,
            modes: self.modes@,
            encoders: encoder_views(self.encoders@),
            current_encoder: self.current_encoder,
        }
    }
}

pub open spec fn connector_views(list: Seq<ConnectorReading>) -> Seq<ConnectorModel> {
    Seq::new(list.len(), |i: int| list[i]@)
}

impl ConnectorModel {
    /// The CRTCs that can drive the connector, each once: those of its current
    /// encoder first.
    pub open spec fn crtcs(self) -> Seq<u32> {
        let first = crtcs_of(Seq::empty(), self.encoders, self.current_encoder, true);
        crtcs_of(first, self.encoders, self.current_encoder, false)
    }

    /// The configurations of the first `n` modes, each with every CRTC.
    pub open spec fn configs(self, n: int) -> Seq<NativeOutputConfig>
        decreases n,
    {
        if n <= 0 {
            Seq::empty()
        } else {
            self.configs(n - 1) + Seq::new(
                self.crtcs().len(),
                |k: int|
                    NativeOutputConfig {
                        connector: self.handle,
                        crtc: self.crtcs()[k],
                        mode: ranked(self.modes)[n - 1],
                    },
            )
        }
    }

    /// The configurations of a connector, in the order in which they are
    /// tried. A connector that is not connected has none.
    pub open spec fn candidates(self) -> Seq<NativeOutputConfig> {
        if self.connected {
            self.configs(self.modes.len() as int)
        } else {
            Seq::empty()
        }
    }
}

/// The configurations of all connectors, in order.
pub open spec fn candidates_of(connectors: Seq<ConnectorModel>) -> Seq<NativeOutputConfig>
    decreases connectors.len(),
{
    if connectors.len() == 0 {
        Seq::empty()
    } else {
        candidates_of(connectors.drop_last()) + connectors.last().candidates()
    }
}

proof fn insert_ranked_holds(list: Seq<ScanoutMode>, mode: ScanoutMode)
    ensures
        insert_ranked(list, mode).len() == list.len() + 1,
        insert_ranked(list, mode).to_multiset() =~= list.to_multiset().insert(mode),
    decreases list.len(),
{
    broadcast use vstd::seq_lib::group_to_multiset_ensures;

    if list.len() > 0 && mode.outranks(list.last()) {
        insert_ranked_holds(list.drop_last(), mode);
        assert(list =~= list.drop_last().push(list.last()));
    }
}

/// Ranking keeps the modes: each is tried, and as often as it is advertised.
pub proof fn ranking_keeps_modes(modes: Seq<ScanoutMode>)
    ensures
        ranked(modes).len() == modes.len(),
        ranked(modes).to_multiset() =~= modes.to_multiset(),
    decreases modes.len(),
{
    broadcast use vstd::seq_lib::group_to_multiset_ensures;

    if modes.len() > 0 {
        ranking_keeps_modes(modes.drop_last());
        insert_ranked_holds(ranked(modes.drop_last()), modes.last());
        assert(modes =~= modes.drop_last().push(modes.last()));
    } else {
        assert(ranked(modes) =~= modes);
    }
}

pub open spec fn is_ranked(modes: Seq<ScanoutMode>) -> bool {
    forall|i: int, j: int| 0 <= i < j < modes.len() ==> !(#[trigger] modes[j]).outranks(#[trigger] modes[i])
}

proof fn insert_ranked_keeps_rank(list: Seq<ScanoutMode>, mode: ScanoutMode)
    requires
        is_ranked(list),
    ensures
        is_ranked(insert_ranked(list, mode)),
        forall|k: int|
            0 <= k < insert_ranked(list, mode).len() ==> (#[trigger] insert_ranked(list, mode)[k])
                == mode || list.contains(insert_ranked(list, mode)[k]),
    decreases list.len(),
{
    let result = insert_ranked(list, mode);
    if list.len() > 0 && mode.outranks(list.last()) {
        let rest = list.drop_last();
        assert forall|i: int, j: int| 0 <= i < j < rest.len() implies !(#[trigger] rest[j]).outranks(
        #[trigger] rest[i]) by {
            assert(!list[j].outranks(list[i]));
        }
        insert_ranked_keeps_rank(rest, mode);
        let inner = insert_ranked(rest, mode);
        assert forall|i: int, j: int| 0 <= i < j < result.len() implies !(
        #[trigger] result[j]).outranks(#[trigger] result[i]) by {
            if j < inner.len() {
                assert(!inner[j].outranks(inner[i]));
            } else if inner[i] != mode {
                let k = choose|k: int| 0 <= k < rest.len() && rest[k] == inner[i];
                assert(!list[list.len() - 1].outranks(list[k]));
            }
        }
        assert forall|k: int| 0 <= k < result.len() implies (#[trigger] result[k]) == mode
            || list.contains(result[k]) by {
            if k < inner.len() {
                if inner[k] != mode {
                    let q = choose|q: int| 0 <= q < rest.len() && rest[q] == inner[k];
                    assert(list[q] == result[k]);
                }
            } else {
                assert(list[list.len() - 1] == result[k]);
            }
        }
    } else {
        assert forall|i: int, j: int| 0 <= i < j < result.len() implies !(
        #[trigger] result[j]).outranks(#[trigger] result[i]) by {
            if j < list.len() {
                assert(!list[j].outranks(list[i]));
            } else if i < list.len() - 1 {
                assert(!list[list.len() - 1].outranks(list[i]));
            }
        }
        assert forall|k: int| 0 <= k < result.len() implies (#[trigger] result[k]) == mode
            || list.contains(result[k]) by {
            if k < list.len() {
                assert(list[k] == result[k]);
            }
        }
    }
}

/// No mode is tried before one that outranks it.
pub proof fn better_modes_are_tried_first(modes: Seq<ScanoutMode>)
    ensures
        is_ranked(ranked(modes)),
    decreases modes.len(),
{
    if modes.len() > 0 {
        better_modes_are_tried_first(modes.drop_last());
        insert_ranked_keeps_rank(ranked(modes.drop_last()), modes.last());
    }
}

fn add_candidates(candidates: &mut Vec<NativeOutputConfig>, connector: &ConnectorReading)
    ensures
        final(candidates)@ == old(candidates)@ + connector@.candidates(),
{
    let ghost start = candidates@;
    let ghost model = connector@;
    if !connector.connected {
        assert(start + Seq::<NativeOutputConfig>::empty() =~= start);
        return ;
    }
    let modes = rank_modes(&connector.modes);
    let mut crtcs: Vec<u32> = Vec::new();
    assert(crtcs@ =~= Seq::empty());
    add_encoders(&mut crtcs, &connector.encoders, connector.current_encoder, true);
    add_encoders(&mut crtcs, &connector.encoders, connector.current_encoder, false);
    assert(crtcs@ == model.crtcs());
    proof {
        ranking_keeps_modes(model.modes);
    }
    let mut i: usize = 0;
    assert(start + model.configs(0) =~= start);
    while i < modes.len()
        invariant
            i <= modes.len(),
            modes@ == ranked(model.modes),
            crtcs@ == model.crtcs(),
            model.handle == connector.handle,
            candidates@ == start + model.configs(i as int),
        decreases modes.len() - i,
    {
        let ghost before = candidates@;
        let ghost row = Seq::new(
            model.crtcs().len(),
            |k: int|
                NativeOutputConfig {
                    connector: model.handle,
                    crtc: model.crtcs()[k],
                    mode: ranked(model.modes)[i as int],
                },
        );
        let mut k: usize = 0;
        assert(before + row.subrange(0, 0) =~= before);
        while k < crtcs.len()
            invariant
                i < modes.len(),
                k <= crtcs.len(),
                crtcs@ == model.crtcs(),
                modes@ == ranked(model.modes),
                model.handle == connector.handle,
                row == Seq::new(
                    model.crtcs().len(),
                    |k: int|
                        NativeOutputConfig {
                            connector: model.handle,
                            crtc: model.crtcs()[k],
                            mode: ranked(model.modes)[i as int],
                        },
                ),
                candidates@ == before + row.subrange(0, k as int),
            decreases crtcs.len() - k,
        {
            let config = NativeOutputConfig {
                connector: connector.handle,
                crtc: crtcs[k],
                mode: modes[i],
            };
            candidates.push(config);
            assert(before + row.subrange(0, k + 1) =~= (before + row.subrange(0, k as int)).push(
                config,
            ));
            k += 1;
        }
        assert(row.subrange(0, k as int) =~= row);
        assert(before + row =~= start + model.configs(i + 1));
        i += 1;
    }
}

/// The connector, CRTC and mode tuples in the order in which a compositor
/// should try them. The encoders of a connector tell which CRTCs are
/// compatible with it; the CRTC that already drives it comes first.
pub fn scanout_candidates(connectors: &Vec<ConnectorReading>) -> (candidates: Vec<
    NativeOutputConfig,
>)
    ensures
        candidates@ == candidates_of(connector_views(connectors@)),
{
    let ghost all = connector_views(connectors@);
    let mut candidates: Vec<NativeOutputConfig> = Vec::new();
    let mut i: usize = 0;
    assert(all.subrange(0, 0) =~= Seq::empty());
    assert(candidates@ =~= Seq::empty());
    while i < connectors.len()
        invariant
            i <= connectors.len(),
            all == connector_views(connectors@),
            candidates@ == candidates_of(all.subrange(0, i as int)),
        decreases connectors.len() - i,
    {
        assert(all.subrange(0, i + 1).drop_last() =~= all.subrange(0, i as int));
        assert(all.subrange(0, i + 1).last() == connectors@[i as int]@);
        add_candidates(&mut candidates, &connectors[i]);
        i += 1;
    }
    assert(all.subrange(0, i as int) =~= all);
    candidates
}

proof fn configs_belong(connector: ConnectorModel, n: int, k: int)
    requires
        0 <= n <= connector.modes.len(),
        0 <= k < connector.configs(n).len(),
    ensures
        connector.configs(n)[k].connector == connector.handle,
        connector.crtcs().contains(connector.configs(n)[k].crtc),
        connector.modes.contains(connector.configs(n)[k].mode),
    decreases n,
{
    broadcast use vstd::seq_lib::group_to_multiset_ensures;

    if n > 0 {
        let before = connector.configs(n - 1);
        if k < before.len() {
            configs_belong(connector, n - 1, k);
        } else {
            assert(connector.crtcs()[k - before.len()] == connector.configs(n)[k].crtc);
            ranking_keeps_modes(connector.modes);
            assert(ranked(connector.modes)[n - 1] == connector.configs(n)[k].mode);
            assert(ranked(connector.modes).to_multiset().count(connector.configs(n)[k].mode) > 0);
            assert(connector.modes.to_multiset().count(connector.configs(n)[k].mode) > 0);
        }
    }
}

/// Every candidate is of a connected connector, with one of its own modes and
/// a CRTC that one of its encoders can drive.
pub proof fn candidates_are_compatible(connectors: Seq<ConnectorModel>, k: int)
    requires
        0 <= k < candidates_of(connectors).len(),
    ensures
        exists|i: int|
            0 <= i < connectors.len() && (#[trigger] connectors[i]).connected
                && candidates_of(connectors)[k].connector == connectors[i].handle
                && connectors[i].modes.contains(candidates_of(connectors)[k].mode)
                && connectors[i].crtcs().contains(candidates_of(connectors)[k].crtc),
    decreases connectors.len(),
{
    let before = candidates_of(connectors.drop_last());
    if k < before.len() {
        candidates_are_compatible(connectors.drop_last(), k);
        let i = choose|i: int|
            0 <= i < connectors.drop_last().len() && (#[trigger] connectors.drop_last()[i]).connected
                && before[k].connector == connectors.drop_last()[i].handle
                && connectors.drop_last()[i].modes.contains(before[k].mode)
                && connectors.drop_last()[i].crtcs().contains(before[k].crtc);
        assert(connectors[i] == connectors.drop_last()[i]);
    } else {
        let last = connectors[connectors.len() - 1];
        configs_belong(last, last.modes.len() as int, k - before.len());
    }
}

// ---- the pipeline ------------------------------------------------------------------

/// Why a frame cannot be begun.
#[derive(Debug, Clone, Copy, PartialEq, Eq, Structural)]
pub enum FrameRefusal {
    /// The page-flip of the previous frame has not happened yet.
    FlipPending,
    /// The scanout surface is released.
    SurfacePaused,
}

impl FrameRefusal {
    pub fn message(self) -> (message: &'static str)
        ensures
            message@ == (match self {
                FrameRefusal::FlipPending => {
                    "native scanout is waiting for the previous page-flip"@
                },
                FrameRefusal::SurfacePaused => "native scanout surface is paused"@,
            }),
    {
        match self {
            FrameRefusal::FlipPending => "native scanout is waiting for the previous page-flip",
            FrameRefusal::SurfacePaused => "native scanout surface is paused",
        }
    }
}

/// One physical output and the state of its scanout: whether it holds a
/// surface, whether a page-flip is pending, and how many frames were queued
/// and presented.
#[derive(Debug, Clone, Copy, PartialEq, Eq, Structural)]
pub struct NativeFramePipeline {
    pub output: NativeOutputConfig,
    pub surface_active: bool,
    pub frame_pending: bool,
    pub queued: u64,
    pub presented: u64,
}

pub open spec fn one_more(count: u64) -> u64 {
    if count == u64::MAX {
        count
    } else {
        (count + 1) as u64
    }
}

impl NativeFramePipeline {
    pub open spec fn fresh(config: NativeOutputConfig) -> Self {
        NativeFramePipeline {
            output: config,
            surface_active: true,
            frame_pending: false,
            queued: 0,
            presented: 0,
        }
    }

    /// A frame is pending only on a surface.
    pub open spec fn wf(self) -> bool {
        self.frame_pending ==> self.surface_active
    }

    /// The pipeline of a connector whose scanout resources were created.
    pub fn new(config: NativeOutputConfig) -> (pipeline: Self)
        ensures
            pipeline == Self::fresh(config),
            pipeline.wf(),
    {
        NativeFramePipeline {
            output: config,
            surface_active: true,
            frame_pending: false,
            queued: 0,
            presented: 0,
        }
    }

    pub fn config(&self) -> (config: NativeOutputConfig)
        ensures
            config == self.output,
    {
        self.output
    }

    pub fn crtc(&self) -> (crtc: u32)
        ensures
            crtc == self.output.crtc,
    {
        self.output.crtc
    }

    pub fn size(&self) -> (size: (i32, i32))
        ensures
            size == (self.output.mode.width as i32, self.output.mode.height as i32),
    {
        (self.output.mode.width as i32, self.output.mode.height as i32)
    }

    pub fn queued_frames(&self) -> (frames: u64)
        ensures
            frames == self.queued,
    {
        self.queued
    }

    pub fn presented_frames(&self) -> (frames: u64)
        ensures
            frames == self.presented,
    {
        self.presented
    }

    pub open spec fn ready(self) -> bool {
        self.surface_active && !self.frame_pending
    }

    pub fn can_render(&self) -> (yes: bool)
        ensures
            yes == self.ready(),
    {
        self.surface_active && !self.frame_pending
    }

    pub open spec fn paused(self) -> Self {
        NativeFramePipeline { surface_active: false, frame_pending: false, ..self }
    }

    /// Stops using the scanout surface, before DRM master is released.
    pub fn pause(&mut self)
        ensures
            *final(self) == old(self).paused(),
            final(self).wf(),
    {
        self.surface_active = false;
        self.frame_pending = false;
    }

    /// Whether the surface has to be created again; one that is still there is
    /// kept.
    pub fn needs_surface(&self) -> (yes: bool)
        ensures
            yes == !self.surface_active,
    {
        !self.surface_active
    }

    pub open spec fn activated(self) -> Self {
        if self.surface_active {
            self
        } else {
            NativeFramePipeline { surface_active: true, frame_pending: false, ..self }
        }
    }

    /// Records that the surface is there after seat activation.
    pub fn activate(&mut self)
        requires
            old(self).wf(),
        ensures
            *final(self) == old(self).activated(),
            final(self).wf(),
    {
        if !self.surface_active {
            self.surface_active = true;
            self.frame_pending = false;
        }
    }

    pub open spec fn refusal(self) -> Option<FrameRefusal> {
        if self.frame_pending {
            Some(FrameRefusal::FlipPending)
        } else if !self.surface_active {
            Some(FrameRefusal::SurfacePaused)
        } else {
            None
        }
    }

    /// Whether a frame may be begun now.
    pub fn begin_frame(&self) -> (result: Result<(), FrameRefusal>)
        ensures
            match result {
                Ok(_) => self.refusal() is None,
                Err(refusal) => self.refusal() == Some(refusal),
            },
    {
        if self.frame_pending {
            return Err(FrameRefusal::FlipPending);
        }
        if !self.surface_active {
            return Err(FrameRefusal::SurfacePaused);
        }
        Ok(())
    }

    /// Records that a frame was queued for its page-flip.
    pub fn frame_queued(&mut self)
        requires
            old(self).ready(),
        ensures
            *final(self) == (NativeFramePipeline {
                frame_pending: true,
                queued: one_more(old(self).queued),
                ..*old(self)
            }),
            final(self).wf(),
    {
        self.frame_pending = true;
        self.queued = self.queued.saturating_add(1);
    }

    /// Whether a vblank of `crtc` is to be handed to the surface.
    pub fn awaits_vblank(&self, crtc: u32) -> (yes: bool)
        ensures
            yes == (crtc == self.output.crtc && self.surface_active),
    {
        crtc == self.output.crtc && self.surface_active
    }

    pub open spec fn after_vblank(self, crtc: u32, completed: bool) -> Self {
        if crtc == self.output.crtc && self.surface_active && completed {
            NativeFramePipeline {
                frame_pending: false,
                presented: one_more(self.presented),
                ..self
            }
        } else {
            self
        }
    }

    /// Records a vblank; `completed` tells whether the surface had a frame in
    /// flight. True when this pipeline presented a frame.
    pub fn frame_submitted(&mut self, crtc: u32, completed: bool) -> (presented: bool)
        requires
            old(self).wf(),
        ensures
            *final(self) == old(self).after_vblank(crtc, completed),
            final(self).wf(),
            presented == (crtc == old(self).output.crtc && old(self).surface_active && completed),
    {
        if !self.awaits_vblank(crtc) {
            return false;
        }
        if completed {
            self.frame_pending = false;
            self.presented = self.presented.saturating_add(1);
        }
        completed
    }
}

/// A buffer is never reused while its page-flip is pending: after a frame is
/// queued none can be begun until its vblank, or until the surface is released
/// and created again.
pub proof fn one_frame_in_flight(pipeline: NativeFramePipeline, crtc: u32, completed: bool)
    requires
        pipeline.ready(),
    ensures
        ({
            let queued = NativeFramePipeline {
                frame_pending: true,
                queued: one_more(pipeline.queued),
                ..pipeline
            };
            &&& queued.refusal() == Some(FrameRefusal::FlipPending)
            &&& queued.activated().refusal() == Some(FrameRefusal::FlipPending)
            &&& queued.after_vblank(crtc, completed).refusal() is None <==> (crtc
                == pipeline.output.crtc && completed)
            &&& queued.paused().refusal() == Some(FrameRefusal::SurfacePaused)
            &&& queued.paused().activated().refusal() is None
        }),
{
}

// ---- more laws ---------------------------------------------------------------------------

/// A preferred mode is tried before one that is not; of two alike the larger
/// one, and of the same size the faster.
pub proof fn preferred_modes_rank_first(a: ScanoutMode, b: ScanoutMode)
    ensures
        a.preferred && !b.preferred ==> a.outranks(b),
        a.preferred == b.preferred && a.width * a.height > b.width * b.height ==> a.outranks(b),
        a.preferred == b.preferred && a.width * a.height == b.width * b.height ==> (a.outranks(b)
            <==> a.refresh > b.refresh),
        a.outranks(b) ==> !b.outranks(a),
{
}

/// The first mode that is tried is one of the preferred ones where there are
/// any, and of these the largest and fastest.
pub proof fn the_first_mode_is_the_best(modes: Seq<ScanoutMode>, i: int)
    requires
        0 <= i < modes.len(),
    ensures
        modes.contains(ranked(modes)[0]),
        ({
            let first = ranked(modes)[0];
            &&& modes[i].preferred ==> first.preferred
            &&& modes[i].preferred == first.preferred ==> first.width * first.height
                >= modes[i].width * modes[i].height
            &&& modes[i].preferred == first.preferred && first.width * first.height
                == modes[i].width * modes[i].height ==> first.refresh >= modes[i].refresh
        }),
{
    broadcast use vstd::seq_lib::group_to_multiset_ensures;

    ranking_keeps_modes(modes);
    better_modes_are_tried_first(modes);
    let list = ranked(modes);
    assert(list.to_multiset().count(list[0]) > 0) by {
        assert(list.contains(list[0]));
    }
    assert(modes.to_multiset().count(list[0]) > 0);
    assert(modes.contains(modes[i]));
    assert(modes.to_multiset().count(modes[i]) > 0);
    assert(list.contains(modes[i]));
    let k = choose|k: int| 0 <= k < list.len() && list[k] == modes[i];
    if k > 0 {
        assert(!list[k].outranks(list[0]));
    }
}

proof fn crtcs_hold(crtcs: Seq<u32>, more: Seq<u32>, crtc: u32)
    ensures
        with_crtcs(crtcs, more).contains(crtc) <==> crtcs.contains(crtc) || more.contains(crtc),
    decreases more.len(),
{
    if more.len() > 0 {
        let rest = more.drop_last();
        crtcs_hold(crtcs, rest, crtc);
        one_crtc_holds(with_crtcs(crtcs, rest), more.last(), crtc);
        assert(more[more.len() - 1] == more.last());
        if rest.contains(crtc) {
            let k = choose|k: int| 0 <= k < rest.len() && rest[k] == crtc;
            assert(more[k] == crtc);
        }
        if more.contains(crtc) {
            let k = choose|k: int| 0 <= k < more.len() && more[k] == crtc;
            if k < rest.len() {
                assert(rest[k] == crtc);
            }
        }
    }
}

proof fn one_crtc_holds(crtcs: Seq<u32>, next: u32, crtc: u32)
    ensures
        with_crtc(crtcs, next).contains(crtc) <==> crtcs.contains(crtc) || crtc == next,
{
    let all = crtcs.push(next);
    assert(all[crtcs.len() as int] == next);
    if crtcs.contains(crtc) {
        let k = choose|k: int| 0 <= k < crtcs.len() && crtcs[k] == crtc;
        assert(all[k] == crtc);
    }
    if all.contains(crtc) {
        let k = choose|k: int| 0 <= k < all.len() && all[k] == crtc;
        if k < crtcs.len() {
            assert(crtcs[k] == crtc);
        }
    }
}

/// Whether an encoder drives a CRTC, or can.
pub open spec fn drives(encoder: EncoderModel, crtc: u32) -> bool {
    encoder.crtc == Some(crtc) || encoder.possible_crtcs.contains(crtc)
}

proof fn encoders_hold(
    crtcs: Seq<u32>,
    encoders: Seq<EncoderModel>,
    current: Option<u32>,
    wanted: bool,
    crtc: u32,
)
    ensures
        crtcs_of(crtcs, encoders, current, wanted).contains(crtc) <==> crtcs.contains(crtc)
            || exists|i: int|
            0 <= i < encoders.len() && drives(#[trigger] encoders[i], crtc) && ((Some(
                encoders[i].handle,
            ) == current) == wanted),
    decreases encoders.len(),
{
    if encoders.len() > 0 {
        let rest = encoders.drop_last();
        let last = encoders[encoders.len() - 1];
        encoders_hold(crtcs, rest, current, wanted, crtc);
        let before = crtcs_of(crtcs, rest, current, wanted);
        let own = match last.crtc {
            Some(c) => with_crtc(before, c),
            None => before,
        };
        crtcs_hold(own, last.possible_crtcs, crtc);
        if last.crtc is Some {
            one_crtc_holds(before, last.crtc->Some_0, crtc);
        }
        if exists|i: int|
            0 <= i < rest.len() && drives(#[trigger] rest[i], crtc) && ((Some(rest[i].handle)
                == current) == wanted) {
            let i = choose|i: int|
                0 <= i < rest.len() && drives(#[trigger] rest[i], crtc) && ((Some(rest[i].handle)
                    == current) == wanted);
            assert(encoders[i] == rest[i]);
        }
        if exists|i: int|
            0 <= i < encoders.len() && drives(#[trigger] encoders[i], crtc) && ((Some(
                encoders[i].handle,
            ) == current) == wanted) {
            let i = choose|i: int|
                0 <= i < encoders.len() && drives(#[trigger] encoders[i], crtc) && ((Some(
                    encoders[i].handle,
                ) == current) == wanted);
            if i < rest.len() {
                assert(rest[i] == encoders[i]);
            }
        }
    }
}

/// The CRTCs of a connector are exactly those that one of its encoders drives
/// or can drive.
pub proof fn crtcs_are_those_of_the_encoders(connector: ConnectorModel, crtc: u32)
    ensures
        connector.crtcs().contains(crtc) <==> exists|i: int|
            0 <= i < connector.encoders.len() && drives(#[trigger] connector.encoders[i], crtc),
{
    let first = crtcs_of(Seq::empty(), connector.encoders, connector.current_encoder, true);
    encoders_hold(Seq::empty(), connector.encoders, connector.current_encoder, true, crtc);
    encoders_hold(first, connector.encoders, connector.current_encoder, false, crtc);
    if exists|i: int|
        0 <= i < connector.encoders.len() && drives(#[trigger] connector.encoders[i], crtc) {
        let i = choose|i: int|
            0 <= i < connector.encoders.len() && drives(#[trigger] connector.encoders[i], crtc);
        assert(drives(connector.encoders[i], crtc) && ((Some(connector.encoders[i].handle)
            == connector.current_encoder) == true || (Some(connector.encoders[i].handle)
            == connector.current_encoder) == false));
    }
}

proof fn configs_hold(connector: ConnectorModel, n: int, m: int, c: int)
    requires
        0 <= m < n <= connector.modes.len(),
        0 <= c < connector.crtcs().len(),
    ensures
        connector.configs(n).contains(
            NativeOutputConfig {
                connector: connector.handle,
                crtc: connector.crtcs()[c],
                mode: ranked(connector.modes)[m],
            },
        ),
    decreases n,
{
    let wanted = NativeOutputConfig {
        connector: connector.handle,
        crtc: connector.crtcs()[c],
        mode: ranked(connector.modes)[m],
    };
    let before = connector.configs(n - 1);
    let all = connector.configs(n);
    if m < n - 1 {
        configs_hold(connector, n - 1, m, c);
        let k = choose|k: int| 0 <= k < before.len() && before[k] == wanted;
        assert(all[k] == wanted);
    } else {
        assert(all[before.len() + c] == wanted);
    }
}

/// Every mode of a connected connector is tried with every CRTC that one of its
/// encoders drives or can drive, and nothing is tried of one that is not
/// connected.
pub proof fn every_pairing_is_a_candidate(
    connector: ConnectorModel,
    mode: ScanoutMode,
    crtc: u32,
    i: int,
)
    requires
        0 <= i < connector.encoders.len(),
        drives(connector.encoders[i], crtc),
        connector.modes.contains(mode),
    ensures
        connector.connected ==> connector.candidates().contains(
            NativeOutputConfig { connector: connector.handle, crtc, mode },
        ),
        !connector.connected ==> connector.candidates().len() == 0,
{
    broadcast use vstd::seq_lib::group_to_multiset_ensures;

    crtcs_are_those_of_the_encoders(connector, crtc);
    ranking_keeps_modes(connector.modes);
    let list = ranked(connector.modes);
    assert(connector.modes.to_multiset().count(mode) > 0);
    assert(list.contains(mode));
    let m = choose|m: int| 0 <= m < list.len() && list[m] == mode;
    let c = choose|c: int| 0 <= c < connector.crtcs().len() && connector.crtcs()[c] == crtc;
    configs_hold(connector, connector.modes.len() as int, m, c);
}

/// What a pipeline keeps: a fresh one has a surface and no frame; a released
/// one has neither, and keeps its output and its counts; a frame that reached
/// its own vblank is counted, and no other.
pub proof fn pipelines_count_their_frames(
    config: NativeOutputConfig,
    pipeline: NativeFramePipeline,
    crtc: u32,
    completed: bool,
)
    ensures
        NativeFramePipeline::fresh(config).output == config,
        NativeFramePipeline::fresh(config).ready(),
        NativeFramePipeline::fresh(config).presented == 0,
        pipeline.ready() <==> pipeline.refusal() is None,
        pipeline.refusal() == Some(FrameRefusal::FlipPending) <==> pipeline.frame_pending,
        !pipeline.paused().surface_active && !pipeline.paused().frame_pending,
        pipeline.paused().output == pipeline.output && pipeline.paused().presented
            == pipeline.presented && pipeline.paused().queued == pipeline.queued,
        pipeline.activated().surface_active && pipeline.activated().output == pipeline.output,
        pipeline.surface_active ==> pipeline.activated() == pipeline,
        ({
            let after = pipeline.after_vblank(crtc, completed);
            let own = crtc == pipeline.output.crtc && pipeline.surface_active && completed;
            &&& !own ==> after == pipeline
            &&& own ==> !after.frame_pending && (pipeline.presented < u64::MAX ==> after.presented
                == pipeline.presented + 1) && after.queued == pipeline.queued
        }),
{
}

proof fn one_crtc_is_put_behind(crtcs: Seq<u32>, crtc: u32)
    ensures
        with_crtc(crtcs, crtc).len() >= crtcs.len(),
        forall|i: int| 0 <= i < crtcs.len() ==> #[trigger] with_crtc(crtcs, crtc)[i] == crtcs[i],
{
}

proof fn crtcs_are_put_behind(crtcs: Seq<u32>, more: Seq<u32>)
    ensures
        with_crtcs(crtcs, more).len() >= crtcs.len(),
        forall|i: int| 0 <= i < crtcs.len() ==> #[trigger] with_crtcs(crtcs, more)[i] == crtcs[i],
    decreases more.len(),
{
    if more.len() > 0 {
        crtcs_are_put_behind(crtcs, more.drop_last());
        one_crtc_is_put_behind(with_crtcs(crtcs, more.drop_last()), more.last());
    }
}

proof fn encoders_are_put_behind(
    crtcs: Seq<u32>,
    encoders: Seq<EncoderModel>,
    current: Option<u32>,
    wanted: bool,
)
    ensures
        crtcs_of(crtcs, encoders, current, wanted).len() >= crtcs.len(),
        forall|i: int|
            0 <= i < crtcs.len() ==> #[trigger] crtcs_of(crtcs, encoders, current, wanted)[i]
                == crtcs[i],
    decreases encoders.len(),
{
    if encoders.len() > 0 {
        let rest = encoders.drop_last();
        let last = encoders[encoders.len() - 1];
        encoders_are_put_behind(crtcs, rest, current, wanted);
        let before = crtcs_of(crtcs, rest, current, wanted);
        let own = match last.crtc {
            Some(c) => with_crtc(before, c),
            None => before,
        };
        match last.crtc {
            Some(c) => one_crtc_is_put_behind(before, c),
            None => {},
        }
        crtcs_are_put_behind(own, last.possible_crtcs);
    }
}

/// The CRTCs of the current encoder are tried before all others: where it drives
/// one, the first that is tried is one of its own.
pub proof fn the_current_encoder_comes_first(connector: ConnectorModel, i: int, crtc: u32)
    requires
        0 <= i < connector.encoders.len(),
        Some(connector.encoders[i].handle) == connector.current_encoder,
        drives(connector.encoders[i], crtc),
    ensures
        connector.crtcs().len() > 0,
        exists|k: int|
            0 <= k < connector.encoders.len() && Some((#[trigger] connector.encoders[k]).handle)
                == connector.current_encoder && drives(
                connector.encoders[k],
                connector.crtcs()[0],
            ),
{
    let first = crtcs_of(Seq::empty(), connector.encoders, connector.current_encoder, true);
    encoders_hold(Seq::empty(), connector.encoders, connector.current_encoder, true, crtc);
    assert(first.contains(crtc));
    encoders_hold(Seq::empty(), connector.encoders, connector.current_encoder, true, first[0]);
    assert(first.contains(first[0]));
    encoders_are_put_behind(first, connector.encoders, connector.current_encoder, false);
    assert(connector.crtcs()[0] == first[0]);
    let k = choose|k: int|
        0 <= k < connector.encoders.len() && drives(#[trigger] connector.encoders[k], first[0]) && (
        (Some(connector.encoders[k].handle) == connector.current_encoder) == true);
    assert(Some(connector.encoders[k].handle) == connector.current_encoder);
}

proof fn first_configs_are_first(connector: ConnectorModel, n: int)
    requires
        0 < n <= connector.modes.len(),
        connector.crtcs().len() > 0,
    ensures
        connector.configs(n).len() > 0,
        connector.configs(n)[0] == (NativeOutputConfig {
            connector: connector.handle,
            crtc: connector.crtcs()[0],
            mode: ranked(connector.modes)[0],
        }),
    decreases n,
{
    if n > 1 {
        first_configs_are_first(connector, n - 1);
    } else {
        reveal_with_fuel(ConnectorModel::configs, 2);
    }
}

/// The first candidate of a connector is its best mode on its first CRTC, and the
/// connectors are tried in their order.
pub proof fn the_best_pairing_is_tried_first(
    connectors: Seq<ConnectorModel>,
    connector: ConnectorModel,
)
    ensures
        connector.connected && connector.modes.len() > 0 && connector.crtcs().len() > 0 ==> {
            let first = connector.candidates()[0];
            connector.candidates().len() > 0 && first.connector == connector.handle && first.crtc
                == connector.crtcs()[0] && first.mode == ranked(connector.modes)[0]
        },
        candidates_of(connectors.push(connector)) == candidates_of(connectors)
            + connector.candidates(),
        candidates_of(Seq::empty()).len() == 0,
{
    if connector.connected && connector.modes.len() > 0 && connector.crtcs().len() > 0 {
        first_configs_are_first(connector, connector.modes.len() as int);
    }
    assert(connectors.push(connector).drop_last() =~= connectors);
}

} // verus!
