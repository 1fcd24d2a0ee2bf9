//! Startup and session policy shared by the native and nested backends.
//!
//! Nothing here acquires a seat or touches a device: command-line switches and
//! session metadata go in, decisions come out.

use crate::text::{
    begins, begins_with, concat2, concat3, debug_option, debug_quoted, decimal, lacks,
    numbers_are_written_in_digits, option_is, option_str_view, option_view, owned, parse_i32,
    parsed_i32, quoted, quoted_option, same,
    signed_decimal, signed_decimal_text, strip_all, views, without_prefixes,
};
use vstd::prelude::*;
use vstd::string::*;

verus! {

/// The graphical backend Rouch should start.
#[derive(Debug, Clone, Copy, PartialEq, Eq, Structural)]
pub enum SessionMode {
    /// Run inside the current Wayland or X11 session.
    Nested,
    /// Attempt to own a native Linux seat and DRM output.
    Native,
}

impl SessionMode {
    pub open spec fn spec_name(self) -> Seq<char> {
        match self {
            SessionMode::Nested => "nested"@,
            SessionMode::Native => "session"@,
        }
    }

    /// The switch that selects this mode, without its dashes.
    pub fn name(self) -> (name: &'static str)
        ensures
            name@ == self.spec_name(),
    {
        match self {
            SessionMode::Nested => "nested",
            SessionMode::Native => "session",
        }
    }
}

/// Command-line choices that affect startup ownership and recovery.
#[derive(Debug, Clone, PartialEq, Eq)]
pub struct SessionOptions {
    pub mode: SessionMode,
    /// Whether a failed native startup may return to the nested backend.
    pub fallback_nested: bool,
    /// Optional seat override. Normally this comes from `XDG_SEAT`.
    pub seat: Option<String>,
    /// A VT to request through libseat after the seat is acquired.
    pub vt: Option<i32>,
}

/// What `SessionOptions` stands for, and the state of reading switches:
/// `mode` is `None` while no switch has chosen one.
#[verifier::ext_equal]
pub struct Choices {
    pub mode: Option<SessionMode>,
    pub fallback_nested: bool,
    pub seat: Option<Seq<char>>,
    pub vt: Option<i32>,
}

impl SessionOptions {
    pub open spec fn choices(self) -> Choices {
        Choices {
            mode: Some(self.mode),
            fallback_nested: self.fallback_nested,
            seat: option_view(self.seat),
            vt: self.vt,
        }
    }
}

impl Default for SessionOptions {
    fn default() -> (options: Self)
        ensures
            options.choices() == (Choices {
                mode: Some(SessionMode::Nested),
                fallback_nested: true,
                seat: None,
                vt: None,
            }),
    {
        SessionOptions { mode: SessionMode::Nested, fallback_nested: true, seat: None, vt: None }
    }
}

/// The choices before any switch is read.
pub open spec fn no_choices() -> Choices {
    Choices { mode: None, fallback_nested: true, seat: None, vt: None }
}

/// A seat name: one to 64 ASCII letters, digits, dashes, underscores or dots.
pub open spec fn is_seat_name(seat: Seq<char>) -> bool {
    &&& 0 < seat.len() <= 64
    &&& forall|i: int| 0 <= i < seat.len() ==> is_seat_char(#[trigger] seat[i])
}

pub open spec fn is_seat_char(c: char) -> bool {
    'a' <= c <= 'z' || 'A' <= c <= 'Z' || '0' <= c <= '9' || c == '-' || c == '_' || c == '.'
}

/// The VT numbers that Linux exposes.
pub open spec fn is_vt(vt: int) -> bool {
    1 <= vt <= 63
}

pub open spec fn vt_message(vt: int) -> Seq<char> {
    "VT must be between 1 and 63, got "@ + signed_decimal(vt)
}

pub open spec fn mode_choice(choices: Choices, requested: SessionMode) -> Result<
    Choices,
    Seq<char>,
> {
    match choices.mode {
        Some(previous) if previous != requested => Err(
            "conflicting session modes: --"@ + previous.spec_name() + " and --"@
                + requested.spec_name(),
        ),
        _ => Ok(Choices { mode: Some(requested), ..choices }),
    }
}

/// What one switch does to the choices made so far.
pub open spec fn read_switch(choices: Choices, arg: Seq<char>) -> Result<Choices, Seq<char>> {
    if arg == "--nested"@ {
        mode_choice(choices, SessionMode::Nested)
    } else if arg == "--session"@ {
        mode_choice(choices, SessionMode::Native)
    } else if arg == "--no-fallback"@ {
        Ok(Choices { fallback_nested: false, ..choices })
    } else if arg == "--fallback-nested"@ {
        Ok(Choices { fallback_nested: true, ..choices })
    } else if arg == "--help"@ || arg == "-h"@ {
        Err(spec_usage())
    } else if begins(arg, "--seat="@) {
        let seat = strip_all(arg, "--seat="@);
        if is_seat_name(seat) {
            Ok(Choices { seat: Some(seat), ..choices })
        } else {
            Err("invalid seat name in "@ + debug_quoted(arg))
        }
    } else if begins(arg, "--vt="@) {
        match parsed_i32(strip_all(arg, "--vt="@)) {
            None => Err("invalid VT number in "@ + debug_quoted(arg)),
            Some(vt) => if is_vt(vt) {
                Ok(Choices { vt: Some(vt as i32), ..choices })
            } else {
                Err(vt_message(vt))
            },
        }
    } else {
        Err("unknown Rouch option "@ + debug_quoted(arg) + "\n\n"@ + spec_usage())
    }
}

/// The choices after every switch of `args`, or the message of the first
/// switch that is refused.
pub open spec fn read_switches(args: Seq<Seq<char>>) -> Result<Choices, Seq<char>>
    decreases args.len(),
{
    if args.len() == 0 {
        Ok(no_choices())
    } else {
        match read_switches(args.drop_last()) {
            Err(message) => Err(message),
            Ok(choices) => read_switch(choices, args.last()),
        }
    }
}

/// The choices with the default mode filled in.
pub open spec fn settled(choices: Choices) -> Choices {
    match choices.mode {
        Some(_) => choices,
        None => Choices { mode: Some(SessionMode::Nested), ..choices },
    }
}

/// Reads Rouch's startup flags. Unknown flags are rejected, so that a typo can
/// never turn a native session request into another mode.
pub fn parse_args(args: &[String]) -> (result: Result<SessionOptions, String>)
    ensures
        match (result, read_switches(views(args@))) {
            (Ok(options), Ok(choices)) => options.choices() == settled(choices),
            (Err(message), Err(expected)) => message@ == expected,
            _ => false,
        },
{
    let mut options = SessionOptions::default();
    let mut selected_mode: Option<SessionMode> = None;
    let mut i: usize = 0;
    let ghost all = views(args@);
    proof {
        assert(all.subrange(0, 0) =~= Seq::empty());
    }
    while i < args.len()
        invariant
            i <= args.len(),
            all == views(args@),
            options.mode == SessionMode::Nested,
            read_switches(all.subrange(0, i as int)) == Ok::<Choices, Seq<char>>(
                Choices { mode: selected_mode, ..options.choices() },
            ),
        decreases args.len() - i,
    {
        let ghost done = all.subrange(0, i as int);
        let ghost next = all.subrange(0, i + 1);
        let ghost before = Choices { mode: selected_mode, ..options.choices() };
        proof {
            assert(next.drop_last() =~= done);
            assert(next.last() == args@[i as int]@);
            assert(read_switches(next) == read_switch(before, args@[i as int]@));
            read_switches_keeps_errors(all, i + 1);
        }
        let arg = args[i].as_str();
        if same(arg, "--nested") {
            match select_mode(&mut selected_mode, SessionMode::Nested) {
                Err(message) => return Err(message),
                Ok(_) => {},
            }
        } else if same(arg, "--session") {
            match select_mode(&mut selected_mode, SessionMode::Native) {
                Err(message) => return Err(message),
                Ok(_) => {},
            }
        } else if same(arg, "--no-fallback") {
            options.fallback_nested = false;
        } else if same(arg, "--fallback-nested") {
            options.fallback_nested = true;
        } else if same(arg, "--help") || same(arg, "-h") {
            return Err(usage().to_owned());
        } else if begins_with(arg, "--seat=") {
            let seat = without_prefixes(arg, "--seat=");
            if !valid_seat_name(seat.as_str()) {
                return Err(concat2("invalid seat name in ", quoted(arg).as_str()));
            }
            options.seat = Some(seat);
        } else if begins_with(arg, "--vt=") {
            let raw = without_prefixes(arg, "--vt=");
            match parse_i32(raw.as_str()) {
                None => return Err(concat2("invalid VT number in ", quoted(arg).as_str())),
                Some(vt) => match validate_vt(vt) {
                    Err(message) => return Err(message),
                    Ok(vt) => {
                        options.vt = Some(vt);
                    },
                },
            }
        } else {
            let opening = concat2("unknown Rouch option ", quoted(arg).as_str());
            return Err(concat3(opening.as_str(), "\n\n", usage()));
        }
        i += 1;
        proof {
            assert(Choices { mode: selected_mode, ..options.choices() } == read_switch(
                before,
                args@[i - 1]@,
            )->Ok_0);
        }
    }
    proof {
        assert(all.subrange(0, i as int) =~= all);
    }
    match selected_mode {
        Some(mode) => {
            options.mode = mode;
        },
        None => {},
    }
    Ok(options)
}

/// A refused switch decides the outcome, whatever follows it.
pub proof fn read_switches_keeps_errors(args: Seq<Seq<char>>, n: int)
    requires
        0 <= n <= args.len(),
    ensures
        read_switches(args.subrange(0, n)) is Err ==> read_switches(args) == read_switches(
            args.subrange(0, n),
        ),
    decreases args.len(),
{
    if n < args.len() {
        read_switches_keeps_errors(args.drop_last(), n);
        assert(args.drop_last().subrange(0, n) =~= args.subrange(0, n));
    } else {
        assert(args.subrange(0, n) =~= args);
    }
}

fn select_mode(selected: &mut Option<SessionMode>, requested: SessionMode) -> (result: Result<
    (),
    String,
>)
    ensures
        ({
            let before = Choices { mode: *old(selected), ..no_choices() };
            match (result, mode_choice(before, requested)) {
                (Ok(_), Ok(after)) => after.mode == *final(selected),
                (Err(message), Err(expected)) => message@ == expected && *final(selected) == *old(
                    selected,
                ),
                _ => false,
            }
        }),
{
    match *selected {
        Some(previous) => {
            if previous != requested {
                let opening = concat3("conflicting session modes: --", previous.name(), " and --");
                return Err(concat2(opening.as_str(), requested.name()));
            }
        },
        None => {
            *selected = Some(requested);
        },
    }
    Ok(())
}

/// Whether `seat` is a name that may be handed to libseat.
pub fn valid_seat_name(seat: &str) -> (valid: bool)
    ensures
        valid == is_seat_name(seat@),
{
    let chars = crate::text::chars_of(seat);
    if chars.len() == 0 || chars.len() > 64 {
        return false;
    }
    let mut i: usize = 0;
    while i < chars.len()
        invariant
            i <= chars.len(),
            chars@ == seat@,
            forall|k: int| 0 <= k < i ==> is_seat_char(#[trigger] chars@[k]),
        decreases chars.len() - i,
    {
        let c = chars[i];
        if !(('a' <= c && c <= 'z') || ('A' <= c && c <= 'Z') || ('0' <= c && c <= '9') || c == '-'
            || c == '_' || c == '.') {
            assert(!is_seat_char(seat@[i as int]));
            return false;
        }
        i += 1;
    }
    true
}

/// Validates the VT range accepted by the native adapter.
///
/// Linux exposes VTs 1 to 63. libseat performs the final validation; the range
/// here keeps values such as zero or a negative number from reaching it.
pub fn validate_vt(vt: i32) -> (result: Result<i32, String>)
    ensures
        match result {
            Ok(accepted) => is_vt(vt as int) && accepted == vt,
            Err(message) => !is_vt(vt as int) && message@ == vt_message(vt as int),
        },
{
    if 1 <= vt && vt <= 63 {
        Ok(vt)
    } else {
        Err(concat2("VT must be between 1 and 63, got ", signed_decimal_text(vt).as_str()))
    }
}

/// A small snapshot of the session variables that matter to a compositor's
/// startup decision.
#[derive(Debug, Clone, PartialEq, Eq)]
pub struct SessionEnvironment {
    pub session_type: Option<String>,
    pub session_class: Option<String>,
    pub session_id: Option<String>,
    pub seat: String,
    pub vt: Option<i32>,
    /// `XDG_RUNTIME_DIR`, as it is displayed.
    pub runtime_dir: Option<String>,
    pub wayland_display: Option<String>,
    pub x_display: Option<String>,
    pub current_desktop: Option<String>,
}

pub open spec fn debug_vt(vt: Option<i32>) -> Seq<char> {
    match vt {
        Some(number) => "Some("@ + signed_decimal(number as int) + ")"@,
        None => "None"@,
    }
}

impl SessionEnvironment {
    /// The snapshot of a process environment: a missing seat is `seat0`, and a
    /// VT number that cannot be read is none.
    pub fn from_variables(
        session_type: Option<String>,
        session_class: Option<String>,
        session_id: Option<String>,
        seat: Option<String>,
        vt: Option<String>,
        runtime_dir: Option<String>,
        wayland_display: Option<String>,
        x_display: Option<String>,
        current_desktop: Option<String>,
    ) -> (environment: Self)
        ensures
            environment.session_type == session_type,
            environment.session_class == session_class,
            environment.session_id == session_id,
            environment.seat@ == (match option_view(seat) {
                Some(name) => name,
                None => "seat0"@,
            }),
            environment.vt == (match option_view(vt) {
                Some(text) => match parsed_i32(text) {
                    Some(number) => Some(number as i32),
                    None => None,
                },
                None => None,
            }),
            environment.runtime_dir == runtime_dir,
            environment.wayland_display == wayland_display,
            environment.x_display == x_display,
            environment.current_desktop == current_desktop,
    {
        let seat = match seat {
            Some(name) => name,
            None => "seat0".to_owned(),
        };
        let vt: Option<i32> = match vt {
            Some(text) => parse_i32(text.as_str()),
            None => None,
        };
        SessionEnvironment {
            session_type,
            session_class,
            session_id,
            seat,
            vt,
            runtime_dir,
            wayland_display,
            x_display,
            current_desktop,
        }
    }

    /// A deterministic snapshot for tests and diagnostics.
    pub fn for_test(
        session_type: Option<&str>,
        vt: Option<i32>,
        wayland_display: Option<&str>,
        x_display: Option<&str>,
    ) -> (environment: Self)
        ensures
            option_view(environment.session_type) == option_str_view(session_type),
            environment.session_class is None,
            environment.session_id is None,
            environment.seat@ == "seat0"@,
            environment.vt == vt,
            option_view(environment.runtime_dir) == Some("/run/user/test"@),
            option_view(environment.wayland_display) == option_str_view(wayland_display),
            option_view(environment.x_display) == option_str_view(x_display),
            environment.current_desktop is None,
    {
        SessionEnvironment {
            session_type: owned(session_type),
            session_class: None,
            session_id: None,
            seat: "seat0".to_owned(),
            vt,
            runtime_dir: Some("/run/user/test".to_owned()),
            wayland_display: owned(wayland_display),
            x_display: owned(x_display),
            current_desktop: None,
        }
    }

    pub open spec fn hosted(self) -> bool {
        ||| self.wayland_display is Some
        ||| self.x_display is Some
        ||| option_view(self.session_type) == Some("wayland"@)
        ||| option_view(self.session_type) == Some("x11"@)
    }

    /// Whether another graphical server is already using this process session.
    pub fn has_graphical_host(&self) -> (hosted: bool)
        ensures
            hosted == self.hosted(),
    {
        self.wayland_display.is_some() || self.x_display.is_some() || option_is(
            &self.session_type,
            "wayland",
        ) || option_is(&self.session_type, "x11")
    }

    pub open spec fn readiness(self) -> NativeReadiness {
        if self.runtime_dir is None {
            NativeReadiness::MissingRuntimeDirectory
        } else if self.hosted() {
            NativeReadiness::ExistingGraphicalHost
        } else if self.vt is Some || option_view(self.session_type) == Some("tty"@) {
            NativeReadiness::TtyCandidate
        } else {
            NativeReadiness::UnknownHost
        }
    }

    /// Native startup is most predictable from a VT without a host display.
    /// libseat still has the final say.
    pub fn native_readiness(&self) -> (readiness: NativeReadiness)
        ensures
            readiness == self.readiness(),
    {
        if self.runtime_dir.is_none() {
            return NativeReadiness::MissingRuntimeDirectory;
        }
        if self.has_graphical_host() {
            return NativeReadiness::ExistingGraphicalHost;
        }
        if self.vt.is_some() || option_is(&self.session_type, "tty") {
            NativeReadiness::TtyCandidate
        } else {
            NativeReadiness::UnknownHost
        }
    }

    pub open spec fn spec_diagnostic(self) -> Seq<char> {
        "session_type="@ + debug_option(option_view(self.session_type)) + ", class="@
            + debug_option(option_view(self.session_class)) + ", id="@ + debug_option(
            option_view(self.session_id),
        ) + ", seat="@ + self.seat@ + ", vt="@ + debug_vt(self.vt) + ", runtime_dir="@ + (
        match option_view(self.runtime_dir) {
            Some(path) => path,
            None => "missing"@,
        }) + ", wayland="@ + debug_option(option_view(self.wayland_display)) + ", x11="@
            + debug_option(option_view(self.x_display)) + ", desktop="@ + debug_option(
            option_view(self.current_desktop),
        )
    }

    /// Diagnostics that are safe to print in a startup error.
    pub fn diagnostic(&self) -> (text: String)
        ensures
            text@ == self.spec_diagnostic(),
    {
        let mut text = concat2("session_type=", quoted_option(&self.session_type).as_str());
        text.append(", class=");
        text.append(quoted_option(&self.session_class).as_str());
        text.append(", id=");
        text.append(quoted_option(&self.session_id).as_str());
        text.append(", seat=");
        text.append(self.seat.as_str());
        text.append(", vt=");
        match self.vt {
            Some(number) => {
                let shown = concat3("Some(", signed_decimal_text(number).as_str(), ")");
                text.append(shown.as_str());
            },
            None => text.append("None"),
        }
        text.append(", runtime_dir=");
        match &self.runtime_dir {
            Some(path) => text.append(path.as_str()),
            None => text.append("missing"),
        }
        text.append(", wayland=");
        text.append(quoted_option(&self.wayland_display).as_str());
        text.append(", x11=");
        text.append(quoted_option(&self.x_display).as_str());
        text.append(", desktop=");
        text.append(quoted_option(&self.current_desktop).as_str());
        text
    }
}

/// The decision made before any native resource is acquired.
#[derive(Debug, Clone, Copy, PartialEq, Eq, Structural)]
pub enum StartupPlan {
    RunNested,
    TryNative { fallback_nested: bool },
}

/// How a session is started.
pub open spec fn planned_startup(mode: SessionMode, fallback_nested: bool) -> StartupPlan {
    match mode {
        SessionMode::Nested => StartupPlan::RunNested,
        SessionMode::Native => StartupPlan::TryNative { fallback_nested },
    }
}

pub fn startup_plan(options: &SessionOptions) -> (plan: StartupPlan)
    ensures
        plan == planned_startup(options.mode, options.fallback_nested),
{
    match options.mode {
        SessionMode::Nested => StartupPlan::RunNested,
        SessionMode::Native => StartupPlan::TryNative { fallback_nested: options.fallback_nested },
    }
}

/// Whether an explicit VT switch is to be requested once the seat is held.
#[derive(Debug, Clone, Copy, PartialEq, Eq, Structural)]
pub enum VtSwitchPlan {
    NotRequested,
    AlreadyOn(i32),
    Request(i32),
}

/// What is to be done to come to the VT that was asked for.
pub open spec fn planned_switch(requested: Option<i32>, current: Option<i32>) -> VtSwitchPlan {
    match requested {
        None => VtSwitchPlan::NotRequested,
        Some(vt) => if current == Some(vt) {
            VtSwitchPlan::AlreadyOn(vt)
        } else {
            VtSwitchPlan::Request(vt)
        },
    }
}

pub fn vt_switch_plan(options: &SessionOptions, environment: &SessionEnvironment) -> (plan:
    VtSwitchPlan)
    ensures
        plan == planned_switch(options.vt, environment.vt),
{
    match options.vt {
        None => VtSwitchPlan::NotRequested,
        Some(requested) => match environment.vt {
            Some(current) if current == requested => VtSwitchPlan::AlreadyOn(requested),
            _ => VtSwitchPlan::Request(requested),
        },
    }
}

/// Coarse startup context, independent of actual seat acquisition.
#[derive(Debug, Clone, Copy, PartialEq, Eq, Structural)]
pub enum NativeReadiness {
    TtyCandidate,
    ExistingGraphicalHost,
    UnknownHost,
    MissingRuntimeDirectory,
}

impl NativeReadiness {
    pub fn description(self) -> (text: &'static str)
        ensures
            text@ == (match self {
                NativeReadiness::TtyCandidate => "tty candidate"@,
                NativeReadiness::ExistingGraphicalHost => "existing graphical host"@,
                NativeReadiness::UnknownHost => "unknown host session"@,
                NativeReadiness::MissingRuntimeDirectory => "missing XDG_RUNTIME_DIR"@,
            }),
    {
        match self {
            NativeReadiness::TtyCandidate => "tty candidate",
            NativeReadiness::ExistingGraphicalHost => "existing graphical host",
            NativeReadiness::UnknownHost => "unknown host session",
            NativeReadiness::MissingRuntimeDirectory => "missing XDG_RUNTIME_DIR",
        }
    }
}

pub open spec fn spec_usage() -> Seq<char> {
    "Usage: rouch [--nested|--session] [--no-fallback] [--seat=seat0] [--vt=N]"@
}

/// The summary of the switches, as the session's desktop entry gives it.
pub fn usage() -> (text: &'static str)
    ensures
        text@ == spec_usage(),
{
    "Usage: rouch [--nested|--session] [--no-fallback] [--seat=seat0] [--vt=N]"
}

// ---- what holds of every command line -----------------------------------

/// The mode that was chosen is the one whose switch was given.
proof fn mode_is_explicit_in(args: Seq<Seq<char>>)
    requires
        read_switches(args) is Ok,
    ensures
        ({
            let mode = (read_switches(args)->Ok_0).mode;
            &&& mode == Some(SessionMode::Nested) <==> args.contains("--nested"@)
            &&& mode == Some(SessionMode::Native) <==> args.contains("--session"@)
        }),
    decreases args.len(),
{
    reveal_strlit("--nested");
    reveal_strlit("--session");
    reveal_strlit("--no-fallback");
    reveal_strlit("--fallback-nested");
    reveal_strlit("--seat=");
    reveal_strlit("--vt=");
    assert("--nested"@.len() != "--session"@.len());
    if args.len() > 0 {
        let rest = args.drop_last();
        mode_is_explicit_in(rest);
        assert(args =~= rest.push(args.last()));
        assert forall|x: Seq<char>| args.contains(x) <==> rest.contains(x) || x == args.last() by {
            if rest.contains(x) {
                let i = choose|i: int| 0 <= i < rest.len() && rest[i] == x;
                assert(args[i] == x);
            }
            if x == args.last() {
                assert(args[args.len() - 1] == x);
            }
            if args.contains(x) {
                let i = choose|i: int| 0 <= i < args.len() && args[i] == x;
                assert(i < rest.len() ==> rest[i] == x);
            }
        }
    } else {
        assert(!args.contains("--nested"@));
    }
}

/// A native session is started only where `--session` was given.
pub proof fn native_mode_is_explicit(args: Seq<Seq<char>>)
    requires
        read_switches(args) is Ok,
    ensures
        settled(read_switches(args)->Ok_0).mode == Some(SessionMode::Native) <==> args.contains(
            "--session"@,
        ),
{
    mode_is_explicit_in(args);
}

/// A command line that asks for both modes is refused.
pub proof fn conflicting_modes_never_parse(args: Seq<Seq<char>>)
    requires
        args.contains("--nested"@),
        args.contains("--session"@),
    ensures
        read_switches(args) is Err,
{
    if read_switches(args) is Ok {
        mode_is_explicit_in(args);
    }
}

/// The switches that are known at all.
pub open spec fn is_known_switch(arg: Seq<char>) -> bool {
    ||| arg == "--nested"@
    ||| arg == "--session"@
    ||| arg == "--no-fallback"@
    ||| arg == "--fallback-nested"@
    ||| begins(arg, "--seat="@)
    ||| begins(arg, "--vt="@)
}

/// An accepted command line holds known switches only, its VT is one that
/// Linux exposes and its seat name is valid.
pub proof fn accepted_choices_are_safe(args: Seq<Seq<char>>)
    requires
        read_switches(args) is Ok,
    ensures
        forall|i: int| 0 <= i < args.len() ==> is_known_switch(#[trigger] args[i]),
        (read_switches(args)->Ok_0).vt matches Some(vt) ==> is_vt(vt as int),
        (read_switches(args)->Ok_0).seat matches Some(seat) ==> is_seat_name(seat),
    decreases args.len(),
{
    if args.len() > 0 {
        accepted_choices_are_safe(args.drop_last());
        assert forall|i: int| 0 <= i < args.len() implies is_known_switch(#[trigger] args[i]) by {
            if i < args.len() - 1 {
                assert(args.drop_last()[i] == args[i]);
            }
        }
    }
}

/// What the switches without a value do: two choose the mode, unless the other
/// one was chosen before, two say whether a failed native start falls back, and
/// two ask for the usage, which ends the reading. Nothing else changes.
pub proof fn plain_switches_do_this(choices: Choices)
    ensures
        ({
            let nested = read_switch(choices, "--nested"@);
            let native = read_switch(choices, "--session"@);
            &&& nested is Ok <==> choices.mode != Some(SessionMode::Native)
            &&& native is Ok <==> choices.mode != Some(SessionMode::Nested)
            &&& nested matches Ok(c) ==> c.mode == Some(SessionMode::Nested) && c.fallback_nested
                == choices.fallback_nested && c.seat == choices.seat && c.vt == choices.vt
            &&& native matches Ok(c) ==> c.mode == Some(SessionMode::Native) && c.fallback_nested
                == choices.fallback_nested && c.seat == choices.seat && c.vt == choices.vt
        }),
        read_switch(choices, "--no-fallback"@) matches Ok(c) && !c.fallback_nested && c.mode
            == choices.mode && c.seat == choices.seat && c.vt == choices.vt,
        read_switch(choices, "--fallback-nested"@) matches Ok(c) && c.fallback_nested && c.mode
            == choices.mode && c.seat == choices.seat && c.vt == choices.vt,
        read_switch(choices, "--help"@) is Err && read_switch(choices, "-h"@) is Err,
{
    reveal_strlit("--nested");
    reveal_strlit("--session");
    reveal_strlit("--no-fallback");
    reveal_strlit("--fallback-nested");
    reveal_strlit("--help");
    reveal_strlit("-h");
    assert("--session"@[2] != "--nested"@[2]);
    assert("--no-fallback"@[3] != "--nested"@[3]);
    assert("--no-fallback"@[2] != "--session"@[2]);
    assert("--fallback-nested"@[2] != "--nested"@[2]);
    assert("--fallback-nested"@[2] != "--session"@[2]);
    assert("--fallback-nested"@[2] != "--no-fallback"@[2]);
    assert("--help"@[2] != "--nested"@[2]);
    assert("--help"@[2] != "--session"@[2]);
    assert("--help"@[2] != "--no-fallback"@[2]);
    assert("--help"@[2] != "--fallback-nested"@[2]);
    assert("-h"@.len() == 2);
}

/// A seat is chosen by a name of one to 64 ASCII letters, digits, dashes, dots
/// and underscores, and by no other; the rest of the choices stays.
pub proof fn seats_are_chosen_by_name(choices: Choices, name: Seq<char>)
    requires
        lacks(name, '='),
    ensures
        ({
            let told = read_switch(choices, "--seat="@ + name);
            &&& told is Ok <==> 0 < name.len() && name.len() <= 64 && forall|i: int|
                0 <= i < name.len() ==> {
                    let c = #[trigger] name[i];
                    ||| 'a' <= c <= 'z'
                    ||| 'A' <= c <= 'Z'
                    ||| '0' <= c <= '9'
                    ||| c == '-'
                    ||| c == '_'
                    ||| c == '.'
                }
            &&& told matches Ok(c) ==> c.seat == Some(name) && c.mode == choices.mode
                && c.fallback_nested == choices.fallback_nested && c.vt == choices.vt
        }),
{
    let arg = "--seat="@ + name;
    reveal_strlit("--seat=");
    reveal_strlit("--nested");
    reveal_strlit("--session");
    reveal_strlit("--no-fallback");
    reveal_strlit("--fallback-nested");
    reveal_strlit("--help");
    reveal_strlit("-h");
    assert(arg[2] == 's' && arg[4] == 'a');
    assert("--nested"@[2] == 'n' && "--session"@[4] == 's' && "--no-fallback"@[2] == 'n'
        && "--fallback-nested"@[2] == 'f' && "--help"@[2] == 'h');
    assert(arg.subrange(0, 7) =~= "--seat="@);
    assert(arg.subrange(7, arg.len() as int) =~= name);
    if begins(name, "--seat="@) {
        assert(name.subrange(0, 7)[6] == name[6]);
        assert("--seat="@[6] == '=');
    }
    reveal_with_fuel(strip_all, 3);
    assert(strip_all(arg, "--seat="@) == name);
    if is_seat_name(name) {
        assert forall|i: int| 0 <= i < name.len() implies {
            let c = #[trigger] name[i];
            ||| 'a' <= c <= 'z'
            ||| 'A' <= c <= 'Z'
            ||| '0' <= c <= '9'
            ||| c == '-'
            ||| c == '_'
            ||| c == '.'
        } by {
            assert(is_seat_char(name[i]));
        }
    } else if 0 < name.len() <= 64 {
        let i = choose|i: int| 0 <= i < name.len() && !is_seat_char(#[trigger] name[i]);
        assert(!is_seat_char(name[i]));
    }
}

/// A VT is chosen by a number from 1 to 63, and by no other; the rest of the
/// choices stays.
pub proof fn terminals_are_chosen_by_number(choices: Choices, number: nat)
    requires
        number <= i32::MAX,
    ensures
        ({
            let told = read_switch(choices, "--vt="@ + decimal(number));
            &&& told is Ok <==> 1 <= number && number <= 63
            &&& told matches Ok(c) ==> c.vt == Some(number as i32) && c.mode == choices.mode
                && c.fallback_nested == choices.fallback_nested && c.seat == choices.seat
        }),
{
    let name = decimal(number);
    let arg = "--vt="@ + name;
    reveal_strlit("--vt=");
    reveal_strlit("--seat=");
    reveal_strlit("--nested");
    reveal_strlit("--session");
    reveal_strlit("--no-fallback");
    reveal_strlit("--fallback-nested");
    reveal_strlit("--help");
    reveal_strlit("-h");
    assert(arg[2] == 'v');
    assert("--nested"@[2] == 'n' && "--session"@[2] == 's' && "--no-fallback"@[2] == 'n'
        && "--fallback-nested"@[2] == 'f' && "--help"@[2] == 'h');
    if begins(arg, "--seat="@) {
        assert(arg.subrange(0, 7)[2] == arg[2]);
        assert("--seat="@[2] == 's');
    }
    assert(arg.subrange(0, 5) =~= "--vt="@);
    assert(arg.subrange(5, arg.len() as int) =~= name);
    numbers_are_written_in_digits(number, '-');
    if begins(name, "--vt="@) {
        assert(name.subrange(0, 5)[0] == name[0]);
        assert("--vt="@[0] == '-');
    }
    reveal_with_fuel(strip_all, 3);
    assert(strip_all(arg, "--vt="@) == name);
}

/// Switches are read one after another, the first on no choices: a nested
/// session is the default, and a native one falls back unless that is refused.
pub proof fn switches_are_read_in_turn(args: Seq<Seq<char>>, last: Seq<char>)
    ensures
        read_switches(Seq::empty()) matches Ok(c) && c.mode is None && c.fallback_nested
            && c.seat is None && c.vt is None,
        read_switches(args) matches Ok(choices) ==> read_switches(args.push(last)) == read_switch(
            choices,
            last,
        ),
        read_switches(args) matches Ok(choices) ==> {
            let done = settled(choices);
            &&& choices.mode is None ==> done.mode == Some(SessionMode::Nested)
            &&& choices.mode is Some ==> done.mode == choices.mode
            &&& done.fallback_nested == choices.fallback_nested && done.seat == choices.seat
                && done.vt == choices.vt
        },
{
    assert(args.push(last).drop_last() =~= args);
}

/// Where a native session can start: not without a runtime directory, nor inside
/// another graphical session; on a text terminal it can, and nothing is known
/// otherwise. A display or a graphical session type tells of a graphical host.
pub proof fn native_sessions_start_on_terminals(environment: SessionEnvironment)
    ensures
        environment.readiness() == NativeReadiness::MissingRuntimeDirectory
            <==> environment.runtime_dir is None,
        environment.readiness() == NativeReadiness::ExistingGraphicalHost
            <==> environment.runtime_dir is Some && environment.hosted(),
        environment.readiness() == NativeReadiness::TtyCandidate <==> environment.runtime_dir is Some
            && !environment.hosted() && (environment.vt is Some || (
        environment.session_type matches Some(kind) && kind@ == "tty"@)),
        environment.hosted() <==> environment.wayland_display is Some
            || environment.x_display is Some || (environment.session_type matches Some(kind) && (
        kind@ == "wayland"@ || kind@ == "x11"@)),
{
}

/// A native session is tried exactly where it was asked for, with the fallback
/// that was chosen; a VT is switched to exactly where one was asked for and
/// another is current.
pub proof fn plans_follow_the_options(
    mode: SessionMode,
    fallback: bool,
    requested: Option<i32>,
    current: Option<i32>,
    vt: i32,
)
    ensures
        planned_startup(mode, fallback) == StartupPlan::RunNested <==> mode == SessionMode::Nested,
        planned_startup(mode, fallback) == (StartupPlan::TryNative { fallback_nested: true })
            <==> mode == SessionMode::Native && fallback,
        planned_startup(mode, fallback) == (StartupPlan::TryNative { fallback_nested: false })
            <==> mode == SessionMode::Native && !fallback,
        planned_switch(requested, current) == VtSwitchPlan::Request(vt) <==> requested == Some(vt)
            && current != Some(vt),
        planned_switch(requested, current) == VtSwitchPlan::AlreadyOn(vt) <==> requested == Some(vt)
            && current == Some(vt),
        planned_switch(requested, current) == VtSwitchPlan::NotRequested <==> requested is None,
{
}

} // verus!
