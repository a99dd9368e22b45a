//! Laws of logging and tracing.
use vstd::prelude::*;

use crate::cmd::LevelFilter;
use crate::laws::text::{self as lt};
use crate::telemetry;
use crate::telemetry::{Part, TelemetryStep};
use crate::text;

verus! {

/// Some character is no whitespace.
pub open spec fn has_text(s: Seq<char>) -> bool {
    exists|i: int| 0 <= i < s.len() && !lt::blank(#[trigger] s[i])
}

proof fn text_is_kept(s: Seq<char>)
    ensures
        text::trimmed(s).len() > 0 <==> has_text(s),
{
    let t = text::trimmed(s);
    lt::trimmed_strips(s);
    let a = choose|a: int| lt::strips(s, t, a);
    if t.len() > 0 {
        assert(t[0] == s[a]);
        assert(!lt::blank(s[a]));
    }
}

/// A collector's address is used, as it is, exactly if it holds a character that is no whitespace.
pub proof fn endpoint_with_text_is_used(value: Option<String>, r: Option<String>)
    requires
        call_ensures(telemetry::endpoint, (value,), r),
    ensures
        value is Some && has_text(value->0@) ==> r == value,
        value is None || !has_text(value->0@) ==> r is None,
{
    if value is Some {
        text_is_kept(value->0@);
    }
}

/// A service name is used, as it is, if it holds a character that is no whitespace; otherwise the
/// default name is.
pub proof fn service_name_with_text_is_used(value: Option<String>, r: String)
    requires
        call_ensures(telemetry::env_service_name, (value,), r),
    ensures
        value is Some && has_text(value->0@) ==> r@ == value->0@,
        value is None || !has_text(value->0@) ==> r@ == "ouroboros-tapo"@,
{
    if value is Some {
        text_is_kept(value->0@);
    }
}

/// With a collector's address, setting up begins with the exporter; without one, with plain
/// logging.
pub proof fn collector_begins_with_exporter(endpoint: &Option<String>, r: TelemetryStep)
    requires
        call_ensures(TelemetryStep::init_telemetry, (endpoint,), r),
    ensures
        endpoint is Some ==> r == TelemetryStep::BuildProvider,
        endpoint is None ==> r == TelemetryStep::InstallPlain,
{
}

/// The exporter is built, then installed. One that cannot be built gives way to plain logging, and
/// one that cannot be installed is shut down first. Whatever comes of the shutdown and of plain
/// logging, it ends with plain logging.
pub proof fn exporter_gives_way_to_plain_logging(
    built: TelemetryStep,
    not_built: TelemetryStep,
    installed: TelemetryStep,
    not_installed: TelemetryStep,
    ok: bool,
    shut_down: TelemetryStep,
    plain: TelemetryStep,
)
    requires
        call_ensures(TelemetryStep::after, (TelemetryStep::BuildProvider, true), built),
        call_ensures(TelemetryStep::after, (TelemetryStep::BuildProvider, false), not_built),
        call_ensures(TelemetryStep::after, (TelemetryStep::InstallExporting, true), installed),
        call_ensures(TelemetryStep::after, (TelemetryStep::InstallExporting, false), not_installed),
        call_ensures(TelemetryStep::after, (TelemetryStep::ShutDownProvider, ok), shut_down),
        call_ensures(TelemetryStep::after, (TelemetryStep::InstallPlain, ok), plain),
    ensures
        built == TelemetryStep::InstallExporting,
        not_built == TelemetryStep::InstallPlain,
        installed == TelemetryStep::Exporting,
        not_installed == TelemetryStep::ShutDownProvider,
        shut_down == TelemetryStep::InstallPlain,
        plain == TelemetryStep::Plain,
{
}

/// Setting up that has ended stays as it ended.
pub proof fn ended_telemetry_stays(step: TelemetryStep, ok: bool, r: TelemetryStep)
    requires
        call_ensures(TelemetryStep::after, (step, ok), r),
        step == TelemetryStep::Exporting || step == TelemetryStep::Plain,
    ensures
        r == step,
{
}

/// The word for a level of verbosity.
pub open spec fn level_word(verbosity: LevelFilter) -> Seq<char> {
    match verbosity {
        LevelFilter::Off => "off"@,
        LevelFilter::Error => "error"@,
        LevelFilter::Warn => "warn"@,
        LevelFilter::Info => "info"@,
        LevelFilter::Debug => "debug"@,
        LevelFilter::Trace => "trace"@,
    }
}

/// The default filter holds the level's word for everything and for this crate, and warnings only
/// for the noisy dependencies.
pub proof fn default_filter_holds_the_level(verbosity: LevelFilter, r: String)
    requires
        call_ensures(telemetry::default_directive, (verbosity,), r),
    ensures
        r@ == level_word(verbosity) + ",tapo_rest="@ + level_word(verbosity)
            + ",h2=warn,hyper=warn,tonic=warn,tower=warn"@,
{
    reveal_strlit("OFF");
    reveal_strlit("ERROR");
    reveal_strlit("WARN");
    reveal_strlit("INFO");
    reveal_strlit("DEBUG");
    reveal_strlit("TRACE");
    reveal_strlit("off");
    reveal_strlit("error");
    reveal_strlit("warn");
    reveal_strlit("info");
    reveal_strlit("debug");
    reveal_strlit("trace");
    let level = crate::cmd::level_name(verbosity).map_values(|c: char| text::ascii_lower(c));
    assert(level =~= level_word(verbosity));
}

/// The filter is that of the environment if it is valid, or else that of the level of verbosity if
/// that is valid, or else `info`.
pub proof fn first_valid_filter_is_chosen(
    from_env: Option<String>,
    env_valid: bool,
    directive: String,
    directive_valid: bool,
    r: String,
)
    requires
        call_ensures(
            telemetry::choose_filter,
            (from_env, env_valid, directive, directive_valid),
            r,
        ),
    ensures
        from_env is Some && env_valid ==> r@ == from_env->0@,
        !(from_env is Some && env_valid) && directive_valid ==> r@ == directive@,
        !(from_env is Some && env_valid) && !directive_valid ==> r@ == "info"@,
{
}

/// A text is a valid filter exactly if it can be cut and parses, and the first valid one of
/// `RUST_LOG` and the default is used.
pub proof fn valid_filter_is_used(
    rust_log: Option<String>,
    default_directive: String,
    r: String,
    log_text: &str,
    log_cut: bool,
    default_text: &str,
    default_cut: bool,
)
    requires
        call_ensures(telemetry::env_filter, (rust_log, default_directive), r),
        call_ensures(telemetry::is_sliceable, (log_text,), log_cut),
        call_ensures(telemetry::is_sliceable, (default_text,), default_cut),
        rust_log is Some ==> log_text@ == rust_log->0@,
        default_text@ == default_directive@,
    ensures
        ({
            let log_valid = rust_log is Some && log_cut && telemetry::filter_parses(log_text@);
            let default_valid = default_cut && telemetry::filter_parses(default_text@);
            &&& log_valid ==> r@ == log_text@
            &&& !log_valid && default_valid ==> r@ == default_text@
            &&& !log_valid && !default_valid ==> r@ == "info"@
        }),
{
}

/// A list can be cut exactly if each of its directives can.
pub proof fn list_is_cut_one_by_one(
    directives: &str,
    r: bool,
    entries: Seq<&str>,
    flags: Seq<bool>,
)
    requires
        call_ensures(telemetry::is_sliceable, (directives,), r),
        entries.len() > 0,
        flags.len() == entries.len(),
        forall|i: int, k: int|
            0 <= i < entries.len() && 0 <= k < entries[i]@.len() ==> #[trigger] entries[i]@[k] != ',',
        directives@ == lt::glued(Seq::new(entries.len(), |i: int| entries[i]@), ','),
        forall|i: int|
            0 <= i < entries.len() ==> call_ensures(
                telemetry::is_sliceable,
                (#[trigger] entries[i],),
                flags[i],
            ),
    ensures
        r <==> forall|i: int| 0 <= i < flags.len() ==> #[trigger] flags[i],
{
    let parts = Seq::new(entries.len(), |i: int| entries[i]@);
    assert forall|i: int, k: int| 0 <= i < parts.len() && 0 <= k < parts[i].len() implies #[trigger] parts[i][k]
        != ',' by {
        assert(entries[i]@[k] != ',');
    }
    lt::pieces_of_glued(parts, ',');
    assert forall|i: int| 0 <= i < flags.len() implies telemetry::sliceable_piece(
        #[trigger] parts[i],
    ) == flags[i] by {
        single_directive(parts[i]);
        assert(call_ensures(telemetry::is_sliceable, (entries[i],), flags[i]));
    }
    if r {
        assert forall|i: int| 0 <= i < flags.len() implies #[trigger] flags[i] by {
            assert(telemetry::sliceable_piece(parts[i]));
        }
    }
    if forall|i: int| 0 <= i < flags.len() ==> #[trigger] flags[i] {
        assert forall|i: int| 0 <= i < parts.len() implies telemetry::sliceable_piece(
            #[trigger] parts[i],
        ) by {
            assert(flags[i]);
        }
        assert(telemetry::sliceable(directives@));
    }
}

proof fn single_directive(p: Seq<char>)
    requires
        forall|k: int| 0 <= k < p.len() ==> #[trigger] p[k] != ',',
    ensures
        telemetry::sliceable(p) == telemetry::sliceable_piece(p),
{
    let parts = seq![p];
    assert(lt::glued(parts, ',') == p);
    lt::pieces_of_glued(parts, ',');
    assert(text::pieces(p, ',')[0] == p);
}

/// The place `n`, counted in bytes, is between whole characters of `p`.
pub open spec fn between(p: Seq<char>, n: nat) -> bool {
    exists|k: int| 0 <= k <= p.len() && vstd::utf8::encode_utf8(#[trigger] p.take(k)).len() == n
}

/// How many bytes the first `k` characters take.
pub open spec fn offset(s: Seq<char>, k: int) -> nat {
    vstd::utf8::encode_utf8(s.take(k)).len()
}

/// None of the characters is one of the two.
pub open spec fn holds_neither(s: Seq<char>, a: char, b: char) -> bool {
    forall|i: int| 0 <= i < s.len() ==> #[trigger] s[i] != a && s[i] != b
}

/// What ends a directive: nothing, or a level behind an equals sign.
pub open spec fn level_end(end: Seq<char>) -> bool {
    end.len() == 0 || end[0] == '='
}

/// A directive that is a name, or a level, can always be cut.
pub proof fn name_can_be_cut(directive: &str, r: bool, core: Seq<char>, a: int)
    requires
        call_ensures(telemetry::is_sliceable, (directive,), r),
        forall|k: int| 0 <= k < directive@.len() ==> #[trigger] directive@[k] != ',',
        lt::strips(directive@, core, a),
        holds_neither(core, '=', '['),
    ensures
        r,
{
    let p = directive@;
    single_directive(p);
    lt::strips_is_trimmed(p, core, a);
    name_read(p, core);
    boundary_at_start(p);
}

/// A directive `name=level` can be cut exactly if the places before and behind the equals sign,
/// counted from where the name begins, are between whole characters of the directive.
pub proof fn name_and_level_can_be_cut(
    directive: &str,
    r: bool,
    core: Seq<char>,
    a: int,
    name: Seq<char>,
    level: Seq<char>,
)
    requires
        call_ensures(telemetry::is_sliceable, (directive,), r),
        forall|k: int| 0 <= k < directive@.len() ==> #[trigger] directive@[k] != ',',
        lt::strips(directive@, core, a),
        core == name.push('=') + level,
        name.len() > 0,
        holds_neither(name, '=', '['),
    ensures
        r <==> between(directive@, offset(core, name.len() as int)) && between(
            directive@,
            offset(core, name.len() + 1int),
        ),
{
    let p = directive@;
    single_directive(p);
    lt::strips_is_trimmed(p, core, a);
    name_read(p, name);
    boundary_at_start(p);
    one_read(p, name, '=');
    level_read(p, name.push('='), level);
    assert(core.take(name.len() as int) == name);
    assert(core.take(name.len() + 1int) == name.push('='));
    boundary_is_between(p, name);
    boundary_is_between(p, name.push('='));
}

/// A directive with a span and maybe a level can be cut exactly if both ends of its name, if it has
/// one, of its span, and the beginning of its level, if it has one, are between whole characters.
pub proof fn span_can_be_cut(
    directive: &str,
    r: bool,
    core: Seq<char>,
    a: int,
    name: Seq<char>,
    span: Seq<char>,
    end: Seq<char>,
)
    requires
        call_ensures(telemetry::is_sliceable, (directive,), r),
        forall|k: int| 0 <= k < directive@.len() ==> #[trigger] directive@[k] != ',',
        lt::strips(directive@, core, a),
        core == (name.push('[') + span).push(']') + end,
        holds_neither(name, '=', '['),
        holds_neither(span, ']', '{'),
        level_end(end),
    ensures
        ({
            let opened = name.len() as int;
            let closed = opened + 1 + span.len();
            r <==> {
                &&& name.len() > 0 ==> between(directive@, offset(core, opened))
                &&& between(directive@, offset(core, opened + 1))
                &&& between(directive@, offset(core, closed))
                &&& end.len() > 0 ==> between(directive@, offset(core, closed + 2))
            }
        }),
{
    let p = directive@;
    single_directive(p);
    lt::strips_is_trimmed(p, core, a);
    let opening = name.push('[');
    span_opened(p, name);
    part_read(p, opening, span, ']', '{');
    let inner = opening + span;
    one_read(p, inner, ']');
    let closing = inner.push(']');
    end_read(p, closing, end);
    assert(core.take(name.len() as int) == name);
    assert(core.take(name.len() + 1int) == opening);
    assert(core.take(name.len() + 1int + span.len()) == inner);
    boundary_is_between(p, name);
    boundary_is_between(p, opening);
    boundary_is_between(p, inner);
    if end.len() > 0 {
        assert(core.take(name.len() + 1int + span.len() + 2) == closing.push('='));
        boundary_is_between(p, closing.push('='));
    }
}

/// A directive with a field in its span can be cut exactly if, besides, both ends of the field are
/// between whole characters.
pub proof fn field_can_be_cut(
    directive: &str,
    r: bool,
    core: Seq<char>,
    a: int,
    name: Seq<char>,
    span: Seq<char>,
    field: Seq<char>,
    end: Seq<char>,
)
    requires
        call_ensures(telemetry::is_sliceable, (directive,), r),
        forall|k: int| 0 <= k < directive@.len() ==> #[trigger] directive@[k] != ',',
        lt::strips(directive@, core, a),
        core == ((name.push('[') + span).push('{') + field).push('}').push(']') + end,
        holds_neither(name, '=', '['),
        holds_neither(span, ']', '{'),
        holds_neither(field, '}', '}'),
        level_end(end),
    ensures
        ({
            let opened = name.len() as int;
            let inside = opened + 1 + span.len();
            let closed = inside + 1 + field.len();
            r <==> {
                &&& name.len() > 0 ==> between(directive@, offset(core, opened))
                &&& between(directive@, offset(core, opened + 1))
                &&& between(directive@, offset(core, inside))
                &&& between(directive@, offset(core, inside + 1))
                &&& between(directive@, offset(core, closed))
                &&& end.len() > 0 ==> between(directive@, offset(core, closed + 3))
            }
        }),
{
    let p = directive@;
    single_directive(p);
    lt::strips_is_trimmed(p, core, a);
    let opening = name.push('[');
    span_opened(p, name);
    part_read(p, opening, span, ']', '{');
    let inner = opening + span;
    one_read(p, inner, '{');
    let fields = inner.push('{');
    part_read(p, fields, field, '}', '}');
    let filled = fields + field;
    one_read(p, filled, '}');
    one_read(p, filled.push('}'), ']');
    let closing = filled.push('}').push(']');
    end_read(p, closing, end);
    assert(core.take(name.len() as int) == name);
    assert(core.take(name.len() + 1int) == opening);
    assert(core.take(name.len() + 1int + span.len()) == inner);
    assert(core.take(name.len() + 1int + span.len() + 1) == fields);
    assert(core.take(name.len() + 1int + span.len() + 1 + field.len()) == filled);
    boundary_is_between(p, name);
    boundary_is_between(p, opening);
    boundary_is_between(p, inner);
    boundary_is_between(p, fields);
    boundary_is_between(p, filled);
    if end.len() > 0 {
        assert(core.take(name.len() + 1int + span.len() + 1 + field.len() + 3) == closing.push('='));
        boundary_is_between(p, closing.push('='));
    }
}

proof fn boundary_is_between(p: Seq<char>, s: Seq<char>)
    ensures
        text::char_boundary(p, text::byte_length(s)) == between(
            p,
            vstd::utf8::encode_utf8(s).len(),
        ),
{
    lt::byte_length_is_utf8(s);
    let n = text::byte_length(s);
    assert forall|k: int| 0 <= k <= p.len() implies text::byte_length(#[trigger] p.take(k))
        == vstd::utf8::encode_utf8(p.take(k)).len() by {
        lt::byte_length_is_utf8(p.take(k));
    }
    if text::char_boundary(p, n) {
        let k = choose|k: int| 0 <= k <= p.len() && #[trigger] text::byte_length(p.take(k)) == n;
        assert(vstd::utf8::encode_utf8(p.take(k)).len() == n);
    }
    if between(p, n) {
        let k = choose|k: int|
            0 <= k <= p.len() && vstd::utf8::encode_utf8(#[trigger] p.take(k)).len() == n;
        assert(text::byte_length(p.take(k)) == n);
    }
}

proof fn boundary_at_start(p: Seq<char>)
    ensures
        text::char_boundary(p, 0),
{
    assert(p.take(0) == Seq::<char>::empty());
    assert(text::byte_length(p.take(0)) == 0);
}

/// One more character leads to the part that follows.
proof fn one_read(p: Seq<char>, s: Seq<char>, c: char)
    ensures
        ({
            let t = s.push(c);
            let before = telemetry::part_after(s);
            let now = before.following(c);
            &&& telemetry::part_after(t) == now
            &&& telemetry::part_start(t) == (if now == Part::Name {
                0
            } else if now != before {
                text::byte_length(t)
            } else {
                telemetry::part_start(s)
            })
            &&& telemetry::cuttable(p, t) == (telemetry::cuttable(p, s) && (before.is_cut_out() && now
                != before ==> text::char_boundary(p, telemetry::part_start(s))
                && text::char_boundary(p, text::byte_length(s))))
        }),
{
    assert(s.push(c).drop_last() == s);
}

/// A part goes on until a character that ends it.
proof fn part_read(p: Seq<char>, s: Seq<char>, t: Seq<char>, x: char, y: char)
    requires
        holds_neither(t, x, y),
        ({
            let part = telemetry::part_after(s);
            ||| part == Part::Span && x == ']' && y == '{'
            ||| part == Part::Field && x == '}' && y == '}'
            ||| part == Part::Name && x == '=' && y == '['
        }),
    ensures
        telemetry::part_after(s + t) == telemetry::part_after(s),
        telemetry::part_after(s) != Part::Name ==> telemetry::part_start(s + t)
            == telemetry::part_start(s),
        telemetry::cuttable(p, s + t) == telemetry::cuttable(p, s),
    decreases t.len(),
{
    if t.len() == 0 {
        assert(s + t == s);
    } else {
        let u = t.drop_last();
        assert forall|i: int| 0 <= i < u.len() implies #[trigger] u[i] != x && u[i] != y by {
            assert(t[i] != x && t[i] != y);
        }
        part_read(p, s, u, x, y);
        assert(t[t.len() - 1] != x && t[t.len() - 1] != y);
        one_read(p, s + u, t.last());
        assert((s + u).push(t.last()) == s + t);
    }
}

/// A name by itself.
proof fn name_read(p: Seq<char>, name: Seq<char>)
    requires
        holds_neither(name, '=', '['),
    ensures
        telemetry::part_after(name) == (if name.len() == 0 {
            Part::Start
        } else {
            Part::Name
        }),
        telemetry::part_start(name) == 0,
        telemetry::cuttable(p, name),
{
    let none = Seq::<char>::empty();
    if name.len() > 0 {
        one_read(p, none, name[0]);
        let first = none.push(name[0]);
        let rest = name.drop_first();
        assert(name[0] != '[');
        assert forall|i: int| 0 <= i < rest.len() implies #[trigger] rest[i] != '=' && rest[i] != '[' by {
            assert(name[i + 1] != '=' && name[i + 1] != '[');
        }
        part_read(p, first, rest, '=', '[');
        assert(first + rest == name);
    } else {
        assert(name == none);
    }
}

/// A name, or none, and the beginning of a span.
proof fn span_opened(p: Seq<char>, name: Seq<char>)
    requires
        holds_neither(name, '=', '['),
    ensures
        telemetry::part_after(name.push('[')) == Part::Span,
        telemetry::part_start(name.push('[')) == text::byte_length(name.push('[')),
        telemetry::cuttable(p, name.push('[')) == (name.len() > 0 ==> text::char_boundary(
            p,
            text::byte_length(name),
        )),
{
    name_read(p, name);
    boundary_at_start(p);
    one_read(p, name, '[');
}

/// A level goes on to the end.
proof fn level_read(p: Seq<char>, s: Seq<char>, t: Seq<char>)
    requires
        telemetry::part_after(s) == Part::Level,
    ensures
        telemetry::part_after(s + t) == Part::Level,
        telemetry::part_start(s + t) == telemetry::part_start(s),
        telemetry::cuttable(p, s + t) == telemetry::cuttable(p, s),
    decreases t.len(),
{
    if t.len() == 0 {
        assert(s + t == s);
    } else {
        level_read(p, s, t.drop_last());
        one_read(p, s + t.drop_last(), t.last());
        assert((s + t.drop_last()).push(t.last()) == s + t);
    }
}

/// What stands behind a span.
proof fn end_read(p: Seq<char>, s: Seq<char>, end: Seq<char>)
    requires
        telemetry::part_after(s) == Part::Target,
        level_end(end),
    ensures
        telemetry::cuttable(p, s + end) == telemetry::cuttable(p, s),
        end.len() == 0 ==> telemetry::part_after(s + end) == Part::Target,
        end.len() > 0 ==> telemetry::part_after(s + end) == Part::Level && telemetry::part_start(
            s + end,
        ) == text::byte_length(s.push('=')),
{
    if end.len() == 0 {
        assert(s + end == s);
    } else {
        one_read(p, s, '=');
        level_read(p, s.push('='), end.drop_first());
        assert(s.push('=') + end.drop_first() == s + end);
    }
}

/// The environment variables that telemetry is set up by.
pub proof fn telemetry_variables()
    ensures
        telemetry::ENDPOINT_ENV@ == "OTEL_EXPORTER_OTLP_ENDPOINT"@,
        telemetry::SERVICE_NAME_ENV@ == "OTEL_SERVICE_NAME"@,
{
}

} // verus!
