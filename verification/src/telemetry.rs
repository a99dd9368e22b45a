//! Logging and tracing: what to set up for the given environment, and what to fall back to.
//!
//! Setting up telemetry fails open: whatever goes wrong on the way to exporting traces, the program
//! goes on with plain logging.
use tracing_subscriber::EnvFilter;
use vstd::prelude::*;

use crate::cmd;
use crate::cmd::LevelFilter;
use crate::text;

verus! {

/// The environment variable that holds the address of the trace collector.
pub const ENDPOINT_ENV: &'static str = "OTEL_EXPORTER_OTLP_ENDPOINT";

/// The environment variable that holds the name under which traces are exported.
pub const SERVICE_NAME_ENV: &'static str = "OTEL_SERVICE_NAME";

/// The name under which traces are exported, if none is given.
pub const DEFAULT_SERVICE_NAME: &'static str = "ouroboros-tapo";

/// The text is there and is more than whitespace.
pub open spec fn given(value: Option<String>) -> bool {
    value is Some && text::trimmed(value->0@).len() > 0
}

/// The log filter for a level of verbosity: the level for everything, this crate by name included,
/// and warnings only for the noisy dependencies.
pub fn default_directive(verbosity: LevelFilter) -> (r: String)
    ensures
        ({
            let level = cmd::level_name(verbosity).map_values(|c: char| text::ascii_lower(c));
            r@ == level + ",tapo_rest="@ + level + ",h2=warn,hyper=warn,tonic=warn,tower=warn"@
        }),
{
    let level = text::to_ascii_lower(cmd::level_text(verbosity));
    let mut r: String = level.clone();
    r.append(",tapo_rest=");
    r.append(level.as_str());
    r.append(",h2=warn,hyper=warn,tonic=warn,tower=warn");
    r
}

fn non_blank(value: Option<String>) -> (r: Option<String>)
    ensures
        r == (if given(value) {
            value
        } else {
            None
        }),
{
    match value {
        Some(s) => if text::trim(s.as_str()).is_empty() {
            None
        } else {
            Some(s)
        },
        None => None,
    }
}

/// The address of the trace collector, from the value of its environment variable. A blank value
/// is none; any other is taken as it is.
pub fn endpoint(value: Option<String>) -> (r: Option<String>)
    ensures
        r == (if given(value) {
            value
        } else {
            None
        }),
{
    non_blank(value)
}

/// The name under which traces are exported, from the value of its environment variable.
pub fn env_service_name(value: Option<String>) -> (r: String)
    ensures
        r@ == (if given(value) {
            value->0@
        } else {
            DEFAULT_SERVICE_NAME@
        }),
{
    match non_blank(value) {
        Some(s) => s,
        None => DEFAULT_SERVICE_NAME.to_owned(),
    }
}

/// Whether a text is a list of valid filter directives, as `tracing_subscriber::EnvFilter` reads
/// them.
pub uninterp spec fn filter_parses(directives: Seq<char>) -> bool;

/// The part of a directive that a character stands in: `target[span{field=value}]=level`.
#[derive(Clone, Copy, Debug, PartialEq, Eq, Structural)]
pub enum Part {
    /// Nothing was read yet.
    Start,
    /// A target, or a level by itself.
    Name,
    Span,
    Field,
    /// The fields have ended.
    Fields,
    /// The span has ended.
    Target,
    Level,
    /// The text is no directive.
    Wrong,
}

impl Part {
    /// The part that follows once a character was read.
    pub open spec fn following(self, c: char) -> Part {
        match self {
            Part::Start => if c == '[' {
                Part::Span
            } else {
                Part::Name
            },
            Part::Name => if c == '=' {
                Part::Level
            } else if c == '[' {
                Part::Span
            } else {
                Part::Name
            },
            Part::Span => if c == ']' {
                Part::Target
            } else if c == '{' {
                Part::Field
            } else {
                Part::Span
            },
            Part::Field => if c == '}' {
                Part::Fields
            } else {
                Part::Field
            },
            Part::Fields => if c == ']' {
                Part::Target
            } else {
                Part::Wrong
            },
            Part::Target => if c == '=' {
                Part::Level
            } else {
                Part::Wrong
            },
            Part::Level => Part::Level,
            Part::Wrong => Part::Wrong,
        }
    }

    /// A part that is cut out where it ends.
    pub open spec fn is_cut_out(self) -> bool {
        self == Part::Name || self == Part::Span || self == Part::Field
    }

    fn after(self, c: char) -> (r: Part)
        ensures
            r == self.following(c),
    {
        match self {
            Part::Start => if c == '[' {
                Part::Span
            } else {
                Part::Name
            },
            Part::Name => if c == '=' {
                Part::Level
            } else if c == '[' {
                Part::Span
            } else {
                Part::Name
            },
            Part::Span => if c == ']' {
                Part::Target
            } else if c == '{' {
                Part::Field
            } else {
                Part::Span
            },
            Part::Field => if c == '}' {
                Part::Fields
            } else {
                Part::Field
            },
            Part::Fields => if c == ']' {
                Part::Target
            } else {
                Part::Wrong
            },
            Part::Target => if c == '=' {
                Part::Level
            } else {
                Part::Wrong
            },
            Part::Level => Part::Level,
            Part::Wrong => Part::Wrong,
        }
    }
}

/// The part that a directive has come to after the given characters.
pub open spec fn part_after(s: Seq<char>) -> Part
    decreases s.len(),
{
    if s.len() == 0 {
        Part::Start
    } else {
        part_after(s.drop_last()).following(s.last())
    }
}

/// Where the part that a directive has come to begins, in bytes: a name at the start, and any other
/// part behind the character that led to it.
pub open spec fn part_start(s: Seq<char>) -> nat
    decreases s.len(),
{
    if s.len() == 0 || part_after(s) == Part::Name {
        0
    } else if part_after(s) != part_after(s.drop_last()) {
        text::byte_length(s)
    } else {
        part_start(s.drop_last())
    }
}

/// Whether `p` can be cut at both ends of every part that is cut out and has ended in `s`.
pub open spec fn cuttable(p: Seq<char>, s: Seq<char>) -> bool
    decreases s.len(),
{
    s.len() > 0 ==> {
        let before = s.drop_last();
        &&& cuttable(p, before)
        &&& part_after(before).is_cut_out() && part_after(s) != part_after(before)
            ==> text::char_boundary(p, part_start(before)) && text::char_boundary(
            p,
            text::byte_length(before),
        )
    }
}

/// A directive that can be cut into its parts. Its parts are found in the text without the
/// whitespace around it, and their ends are counted in bytes from there; but it is cut with the
/// leading whitespace in place, so a cut can fall elsewhere, and then must not fall inside a
/// character. A name or a level that the text ends with is cut off at its beginning.
pub open spec fn sliceable_piece(p: Seq<char>) -> bool {
    let s = text::trimmed(p);
    &&& cuttable(p, s)
    &&& part_after(s) == Part::Name || part_after(s) == Part::Level ==> text::char_boundary(
        p,
        part_start(s),
    )
}

/// A list of directives, separated by commas, that can all be cut.
pub open spec fn sliceable(directives: Seq<char>) -> bool {
    forall|i: int|
        0 <= i < text::pieces(directives, ',').len() ==> sliceable_piece(
            #[trigger] text::pieces(directives, ',')[i],
        )
}

fn is_sliceable_piece(p: &Vec<char>) -> (r: bool)
    ensures
        r == sliceable_piece(p@),
{
    let whole = text::string_of(p);
    let s = text::chars_of(text::trim(whole.as_str()));
    let mut part = Part::Start;
    let mut start: u128 = 0;
    let mut offset: u128 = 0;
    let mut i: usize = 0;
    assert(s@.take(0) == Seq::<char>::empty());
    while i < s.len()
        invariant
            i <= s@.len(),
            s@ == text::trimmed(p@),
            part == part_after(s@.take(i as int)),
            start == part_start(s@.take(i as int)),
            offset == text::byte_length(s@.take(i as int)),
            offset <= 4 * i,
            cuttable(p@, s@.take(i as int)),
        decreases s@.len() - i,
    {
        let c = s[i];
        let next = part.after(c);
        assert(s@.take(i + 1).drop_last() == s@.take(i as int));
        if next != part {
            let cut_out: bool = part == Part::Name || part == Part::Span || part == Part::Field;
            if cut_out && !(text::is_char_boundary(p, start) && text::is_char_boundary(p, offset)) {
                proof {
                    if cuttable(p@, s@) {
                        cuttable_before(p@, s@, i + 1);
                    }
                }
                return false;
            }
        }
        offset = offset + text::bytes_of(c);
        if next != part {
            start = if next == Part::Name {
                0
            } else {
                offset
            };
        }
        part = next;
        i = i + 1;
    }
    assert(s@.take(s@.len() as int) == s@);
    if part == Part::Name || part == Part::Level {
        text::is_char_boundary(p, start)
    } else {
        true
    }
}

/// A text is cut in the parts of its beginning too.
proof fn cuttable_before(p: Seq<char>, s: Seq<char>, k: int)
    requires
        0 <= k <= s.len(),
        cuttable(p, s),
    ensures
        cuttable(p, s.take(k)),
    decreases s.len(),
{
    if k == s.len() {
        assert(s.take(k) == s);
    } else {
        cuttable_before(p, s.drop_last(), k);
        assert(s.drop_last().take(k) == s.take(k));
    }
}

/// A directive without leading whitespace can be cut, and so can one in ASCII.
pub proof fn plain_directive_is_sliceable(p: Seq<char>)
    requires
        p.len() == 0 || !text::white_space(p[0]) || forall|i: int|
            0 <= i < p.len() ==> #[trigger] p[i] <= '\u{7f}',
    ensures
        sliceable_piece(p),
{
    let s = text::trimmed(p);
    let whole = s.len() as int;
    text::trimmed_is_part(p);
    let from = choose|from: int| #[trigger] text::stands_at(p, s, from);
    assert forall|k: int| 0 <= k <= s.len() implies text::char_boundary(
        p,
        #[trigger] text::byte_length(s.take(k)),
    ) by {
        if p.len() > 0 && !text::white_space(p[0]) {
            assert(p.subrange(0, s.len() as int) == s);
            assert(s.take(k) == p.take(k));
        } else {
            assert forall|i: int| 0 <= i < s.len() implies #[trigger] s[i] <= '\u{7f}' by {
                assert(p.subrange(from, from + s.len())[i] == p[from + i]);
            }
            text::ascii_byte_length(s.take(k));
            text::ascii_byte_length(p.take(k));
            assert(text::byte_length(p.take(k)) == k);
        }
    }
    cuts_at_boundaries(p, s, whole);
    assert(s.take(whole) == s);
}

/// Where every beginning of a text ends at a boundary, so does every part.
proof fn cuts_at_boundaries(p: Seq<char>, s: Seq<char>, k: int)
    requires
        0 <= k <= s.len(),
        forall|j: int|
            0 <= j <= s.len() ==> text::char_boundary(p, #[trigger] text::byte_length(s.take(j))),
    ensures
        cuttable(p, s.take(k)),
        text::char_boundary(p, part_start(s.take(k))),
    decreases k,
{
    assert(text::char_boundary(p, text::byte_length(s.take(0))));
    assert(text::char_boundary(p, text::byte_length(s.take(k))));
    assert(text::byte_length(s.take(0)) == 0);
    if k > 0 {
        cuts_at_boundaries(p, s, k - 1);
        assert(text::char_boundary(p, text::byte_length(s.take(k - 1))));
        assert(s.take(k).drop_last() == s.take(k - 1));
    }
}

/// Tells whether every directive of a list can be cut.
pub fn is_sliceable(directives: &str) -> (r: bool)
    ensures
        r == sliceable(directives@),
{
    let chars = text::chars_of(directives);
    let parts = text::split(&chars, ',');
    let ghost pieces = text::pieces(directives@, ',');
    let mut i: usize = 0;
    while i < parts.len()
        invariant
            i <= parts@.len(),
            text::views(parts@) == pieces,
            pieces == text::pieces(directives@, ','),
            forall|k: int| 0 <= k < i ==> sliceable_piece(#[trigger] pieces[k]),
        decreases parts@.len() - i,
    {
        assert(pieces[i as int] == parts@[i as int]@);
        if !is_sliceable_piece(&parts[i]) {
            return false;
        }
        i = i + 1;
    }
    assert(pieces.len() == parts@.len());
    true
}

/// `tracing_subscriber::EnvFilter::try_new` on the text succeeds. That depends on the text alone;
/// which texts are valid is left to its grammar of directives. It panics where it cuts a character
/// in two, which it does in no text that is `sliceable`.
#[verifier::external_body]
fn is_filter(directives: &str) -> (r: bool)
    requires
        sliceable(directives@),
    ensures
        r == filter_parses(directives@),
{
    EnvFilter::try_new(directives).is_ok()
}

/// The filter of last resort.
pub const LAST_RESORT_FILTER: &'static str = "info";

/// The directives to filter the log by: those that the environment gives, if it gives some and they
/// are valid; or else those for the level of verbosity, if they are valid; or else the last resort.
pub open spec fn chosen_filter(
    from_env: Option<Seq<char>>,
    env_valid: bool,
    directive: Seq<char>,
    directive_valid: bool,
) -> Seq<char> {
    if from_env is Some && env_valid {
        from_env->0
    } else if directive_valid {
        directive
    } else {
        LAST_RESORT_FILTER@
    }
}

/// Chooses the directives to filter the log by, given which of the candidates are valid.
pub fn choose_filter(
    from_env: Option<String>,
    env_valid: bool,
    directive: String,
    directive_valid: bool,
) -> (r: String)
    ensures
        r@ == chosen_filter(
            match from_env {
                Some(s) => Some(s@),
                None => None,
            },
            env_valid,
            directive@,
            directive_valid,
        ),
{
    match from_env {
        Some(s) => if env_valid {
            return s;
        },
        None => {},
    }
    if directive_valid {
        directive
    } else {
        LAST_RESORT_FILTER.to_owned()
    }
}

/// Chooses the directives to filter the log by, from the value of `RUST_LOG` and the directives for
/// the level of verbosity. Directives that cannot be cut are not valid.
pub fn env_filter(rust_log: Option<String>, default_directive: String) -> (r: String)
    ensures
        r@ == chosen_filter(
            match rust_log {
                Some(s) => Some(s@),
                None => None,
            },
            rust_log is Some && sliceable(rust_log->0@) && filter_parses(rust_log->0@),
            default_directive@,
            sliceable(default_directive@) && filter_parses(default_directive@),
        ),
{
    let env_valid: bool = match &rust_log {
        Some(s) => is_sliceable(s.as_str()) && is_filter(s.as_str()),
        None => false,
    };
    let directive_valid: bool = is_sliceable(default_directive.as_str()) && is_filter(
        default_directive.as_str(),
    );
    choose_filter(rust_log, env_valid, default_directive, directive_valid)
}

/// Where setting up telemetry stands: the step to take next, or how it ended.
#[derive(Clone, Copy, Debug, PartialEq, Eq, Structural)]
pub enum TelemetryStep {
    /// Build the exporter of traces.
    BuildProvider,
    /// Install logging together with the export of traces.
    InstallExporting,
    /// Shut the exporter down, which cannot be used.
    ShutDownProvider,
    /// Install plain logging.
    InstallPlain,
    /// Traces are exported.
    Exporting,
    /// There is plain logging only.
    Plain,
}

impl TelemetryStep {
    /// The first step, with or without a trace collector.
    pub open spec fn at_start(collector: bool) -> TelemetryStep {
        if collector {
            TelemetryStep::BuildProvider
        } else {
            TelemetryStep::InstallPlain
        }
    }

    /// The step that follows, once this one came out well (`ok`) or not.
    pub open spec fn following(self, ok: bool) -> TelemetryStep {
        match self {
            TelemetryStep::BuildProvider => if ok {
                TelemetryStep::InstallExporting
            } else {
                TelemetryStep::InstallPlain
            },
            TelemetryStep::InstallExporting => if ok {
                TelemetryStep::Exporting
            } else {
                TelemetryStep::ShutDownProvider
            },
            TelemetryStep::ShutDownProvider => TelemetryStep::InstallPlain,
            TelemetryStep::InstallPlain => TelemetryStep::Plain,
            ended => ended,
        }
    }

    /// Begins to set up telemetry, for the address of the trace collector, if there is one.
    pub fn init_telemetry(endpoint: &Option<String>) -> (r: Self)
        ensures
            r == TelemetryStep::at_start(endpoint is Some),
    {
        if endpoint.is_some() {
            TelemetryStep::BuildProvider
        } else {
            TelemetryStep::InstallPlain
        }
    }

    /// The step that follows, once this one came out well (`ok`) or not. Nothing depends on
    /// whether plain logging could be installed or the exporter shut down.
    pub fn after(self, ok: bool) -> (r: Self)
        ensures
            r == self.following(ok),
    {
        match self {
            TelemetryStep::BuildProvider => if ok {
                TelemetryStep::InstallExporting
            } else {
                TelemetryStep::InstallPlain
            },
            TelemetryStep::InstallExporting => if ok {
                TelemetryStep::Exporting
            } else {
                TelemetryStep::ShutDownProvider
            },
            TelemetryStep::ShutDownProvider => TelemetryStep::InstallPlain,
            TelemetryStep::InstallPlain => TelemetryStep::Plain,
            ended => ended,
        }
    }
}

/// Where setting up telemetry stands after steps with the given outcomes.
pub open spec fn telemetry_run(collector: bool, outcomes: Seq<bool>) -> TelemetryStep
    decreases outcomes.len(),
{
    if outcomes.len() == 0 {
        TelemetryStep::at_start(collector)
    } else {
        telemetry_run(collector, outcomes.drop_last()).following(outcomes.last())
    }
}

/// Telemetry fails open: after at most four steps, whatever came of them, the program logs. Traces
/// are exported exactly if there is a collector, the exporter was built and it was installed; in
/// every other case there is plain logging.
pub proof fn telemetry_fails_open(collector: bool, outcomes: Seq<bool>)
    requires
        outcomes.len() >= 4,
    ensures
        telemetry_run(collector, outcomes) == (if collector && outcomes[0] && outcomes[1] {
            TelemetryStep::Exporting
        } else {
            TelemetryStep::Plain
        }),
{
    telemetry_progress(collector, outcomes);
}

/// An exporter that was built and could not be installed is shut down before plain logging is
/// installed in its place.
pub proof fn unused_provider_is_shut_down(outcomes: Seq<bool>)
    requires
        outcomes.len() == 2,
        outcomes[0],
        !outcomes[1],
    ensures
        telemetry_run(true, outcomes) == TelemetryStep::ShutDownProvider,
        forall|ok: bool|
            telemetry_run(true, outcomes).following(ok) == TelemetryStep::InstallPlain,
{
    telemetry_progress(true, outcomes);
}

proof fn telemetry_progress(collector: bool, outcomes: Seq<bool>)
    ensures
        ({
            let step = telemetry_run(collector, outcomes);
            let n = outcomes.len();
            if n == 0 {
                step == TelemetryStep::at_start(collector)
            } else if !collector {
                step == TelemetryStep::Plain
            } else if !outcomes[0] {
                step == (if n == 1 {
                    TelemetryStep::InstallPlain
                } else {
                    TelemetryStep::Plain
                })
            } else if n == 1 {
                step == TelemetryStep::InstallExporting
            } else if outcomes[1] {
                step == TelemetryStep::Exporting
            } else if n == 2 {
                step == TelemetryStep::ShutDownProvider
            } else if n == 3 {
                step == TelemetryStep::InstallPlain
            } else {
                step == TelemetryStep::Plain
            }
        }),
    decreases outcomes.len(),
{
    if outcomes.len() > 0 {
        let before = outcomes.drop_last();
        telemetry_progress(collector, before);
        assert(forall|i: int| 0 <= i < before.len() ==> before[i] == outcomes[i]);
    }
}

} // verus!
