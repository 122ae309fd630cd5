//! What each command answers, as log lines. `memory` reads the machine and
//! `threshold` reads and prints floating-point values; both are answered by
//! the caller.
use vstd::prelude::*;
use vstd::utf8::encode_utf8;

use super::parse::{parse_u8, parse_unsigned};
use super::{
    ClientsCommand, CommandInfo, HelpCommand, InstancesCommand, RestartCommand, StatusCommand, StopCommand,
    TpsCommand, UptimeCommand, UseCommand, VersionCommand,
};
use crate::constants::{ENGINE, PROTOCOL_VERSION, VERSION};
use crate::handlers::context::{lemma_put_back, AppState};
use crate::instance::world::world_identifier;
use crate::text::{decimal, push_decimal};

verus! {

/// How loud a line is.
#[derive(Debug, Clone, Copy, PartialEq, Eq, Structural)]
pub enum LogLevel {
    Info,
    Warn,
    Error,
}

/// One line of a command's answer.
#[derive(Debug, Clone)]
pub struct LogLine {
    pub level: LogLevel,
    pub text: String,
}

/// The lines as values.
pub open spec fn lines_view(v: Seq<LogLine>) -> Seq<(LogLevel, Seq<char>)> {
    v.map_values(|l: LogLine| (l.level, l.text@))
}

/// What commands share: the relay start time, the help entries and the
/// instance selected with `use`.
pub struct CommandContext {
    pub start_time_ms: i64,
    pub commands_info: Vec<CommandInfo>,
    pub selected_instance: Option<u8>,
}

impl CommandContext {
    /// A context with no instance selected.
    pub fn new(start_time_ms: i64, commands_info: Vec<CommandInfo>) -> (c: Self)
        ensures
            c.start_time_ms == start_time_ms,
            c.commands_info == commands_info,
            c.selected_instance is None,
    {
        CommandContext { start_time_ms, commands_info, selected_instance: None }
    }
}

fn text_line(level: LogLevel, text: &str) -> (l: LogLine)
    ensures
        l.level == level,
        l.text@ == text@,
{
    LogLine { level, text: String::from_str(text) }
}

fn one(l: LogLine) -> (v: Vec<LogLine>)
    ensures
        lines_view(v@) == seq![(l.level, l.text@)],
{
    let mut v: Vec<LogLine> = Vec::new();
    v.push(l);
    assert(lines_view(v@) =~= seq![(l.level, l.text@)]);
    v
}

// ── stop, restart, version, status ──────────────────────────────────────────

impl StopCommand {
    /// Announces the shutdown.
    pub fn execute() -> (lines: Vec<LogLine>)
        ensures
            lines_view(lines@) == seq![
                (LogLevel::Warn, "[Command] Stop command received - initiating graceful shutdown"@),
                (LogLevel::Warn, "[Command] Relay shutdown initiated. Disconnecting all clients and stopping instances..."@),
            ],
    {
        let mut v: Vec<LogLine> = Vec::new();
        v.push(text_line(LogLevel::Warn, "[Command] Stop command received - initiating graceful shutdown"));
        v.push(text_line(LogLevel::Warn, "[Command] Relay shutdown initiated. Disconnecting all clients and stopping instances..."));
        assert(lines_view(v@) =~= seq![
            (LogLevel::Warn, "[Command] Stop command received - initiating graceful shutdown"@),
            (LogLevel::Warn, "[Command] Relay shutdown initiated. Disconnecting all clients and stopping instances..."@),
        ]);
        v
    }
}

impl RestartCommand {
    /// Says that restarting is not available.
    pub fn execute() -> (lines: Vec<LogLine>)
        ensures
            lines_view(lines@) == seq![
                (LogLevel::Warn, "[Command] Restart command received"@),
                (LogLevel::Warn, "[Command] Relay restart not implemented yet. Use stop and manually restart the process."@),
            ],
    {
        let mut v: Vec<LogLine> = Vec::new();
        v.push(text_line(LogLevel::Warn, "[Command] Restart command received"));
        v.push(text_line(LogLevel::Warn, "[Command] Relay restart not implemented yet. Use stop and manually restart the process."));
        assert(lines_view(v@) =~= seq![
            (LogLevel::Warn, "[Command] Restart command received"@),
            (LogLevel::Warn, "[Command] Relay restart not implemented yet. Use stop and manually restart the process."@),
        ]);
        v
    }
}

/// `"  Engine: {ENGINE} v{VERSION}"`.
pub open spec fn engine_line() -> Seq<char> {
    "  Engine: "@ + ENGINE@ + " v"@ + VERSION@
}

fn build_engine_line() -> (s: String)
    ensures
        s@ == engine_line(),
{
    let mut s = String::new();
    s.append("  Engine: ");
    s.append(ENGINE);
    s.append(" v");
    s.append(VERSION);
    s
}

impl VersionCommand {
    /// Engine, version and protocol.
    pub fn execute() -> (lines: Vec<LogLine>)
        ensures
            lines_view(lines@) == seq![
                (LogLevel::Info, "Relay Version:"@),
                (LogLevel::Info, engine_line()),
                (LogLevel::Info, "  Protocol: "@ + decimal(PROTOCOL_VERSION as nat)),
            ],
    {
        let mut v: Vec<LogLine> = Vec::new();
        v.push(text_line(LogLevel::Info, "Relay Version:"));
        v.push(LogLine { level: LogLevel::Info, text: build_engine_line() });
        let mut p = String::new();
        p.append("  Protocol: ");
        push_decimal(&mut p, PROTOCOL_VERSION as u64);
        v.push(LogLine { level: LogLevel::Info, text: p });
        assert(lines_view(v@) =~= seq![
            (LogLevel::Info, "Relay Version:"@),
            (LogLevel::Info, engine_line()),
            (LogLevel::Info, "  Protocol: "@ + decimal(PROTOCOL_VERSION as nat)),
        ]);
        v
    }
}

impl StatusCommand {
    /// Instance and client counts.
    pub fn execute(state: &AppState) -> (lines: Vec<LogLine>)
        ensures
            lines_view(lines@) == seq![
                (LogLevel::Info, "Relay Status:"@),
                (LogLevel::Info, "  Running: Yes"@),
                (LogLevel::Info, "  Instances: "@ + decimal(state.instances@.dom().len()) + "/"@ + decimal(state.config.max_instances as nat)),
                (LogLevel::Info, "  Clients: "@ + decimal(state.clients@.dom().len())),
                (LogLevel::Info, engine_line()),
            ],
    {
        let mut v: Vec<LogLine> = Vec::new();
        v.push(text_line(LogLevel::Info, "Relay Status:"));
        v.push(text_line(LogLevel::Info, "  Running: Yes"));
        let mut a = String::new();
        a.append("  Instances: ");
        push_decimal(&mut a, state.instances.count() as u64);
        a.append("/");
        push_decimal(&mut a, state.config.max_instances as u64);
        v.push(LogLine { level: LogLevel::Info, text: a });
        let mut b = String::new();
        b.append("  Clients: ");
        push_decimal(&mut b, state.clients.count() as u64);
        v.push(LogLine { level: LogLevel::Info, text: b });
        v.push(LogLine { level: LogLevel::Info, text: build_engine_line() });
        assert(lines_view(v@) =~= seq![
            (LogLevel::Info, "Relay Status:"@),
            (LogLevel::Info, "  Running: Yes"@),
            (LogLevel::Info, "  Instances: "@ + decimal(state.instances@.dom().len()) + "/"@ + decimal(state.config.max_instances as nat)),
            (LogLevel::Info, "  Clients: "@ + decimal(state.clients@.dom().len())),
            (LogLevel::Info, engine_line()),
        ]);
        v
    }
}

// ── use, tps ────────────────────────────────────────────────────────────────

impl UseCommand {
    /// `use <internal_id>`: selects an existing instance for `tps` and `threshold`.
    pub fn execute(ctx: &mut CommandContext, state: &AppState, args: &Vec<String>) -> (lines: Vec<LogLine>)
        ensures
            final(ctx).start_time_ms == old(ctx).start_time_ms,
            final(ctx).commands_info == old(ctx).commands_info,
            args@.len() == 0 ==> final(ctx).selected_instance == old(ctx).selected_instance
                && lines_view(lines@) == seq![(LogLevel::Warn, "Usage: use <internal_id>"@)],
            args@.len() > 0 ==> match parse_unsigned(args@[0]@, 256) {
                None => final(ctx).selected_instance == old(ctx).selected_instance
                    && lines_view(lines@) == seq![(LogLevel::Warn, "Invalid internal_id: '"@ + args@[0]@ + "' (must be 0–254)"@)],
                Some(v) => if state.instances@.contains_key(v as u8) {
                    final(ctx).selected_instance == Some(v as u8)
                        && lines_view(lines@) == seq![(LogLevel::Info, "Selected instance #"@ + decimal(v))]
                } else {
                    final(ctx).selected_instance == old(ctx).selected_instance
                        && lines_view(lines@) == seq![(LogLevel::Warn, "No instance with internal_id "@ + decimal(v))]
                },
            },
    {
        if args.len() == 0 {
            return one(text_line(LogLevel::Warn, "Usage: use <internal_id>"));
        }
        match parse_u8(args[0].as_str()) {
            None => {
                let mut t = String::new();
                t.append("Invalid internal_id: '");
                t.append(args[0].as_str());
                t.append("' (must be 0–254)");
                assert(t@ =~= "Invalid internal_id: '"@ + args@[0]@ + "' (must be 0–254)"@);
                one(LogLine { level: LogLevel::Warn, text: t })
            },
            Some(iid) => {
                if !state.instances.contains(iid) {
                    let mut t = String::new();
                    t.append("No instance with internal_id ");
                    push_decimal(&mut t, iid as u64);
                    return one(LogLine { level: LogLevel::Warn, text: t });
                }
                ctx.selected_instance = Some(iid);
                let mut t = String::new();
                t.append("Selected instance #");
                push_decimal(&mut t, iid as u64);
                one(LogLine { level: LogLevel::Info, text: t })
            },
        }
    }
}

/// The warning when no instance is selected.
pub open spec fn no_selection() -> Seq<char> {
    "No instance selected. Use 'use <internal_id>' first."@
}

impl TpsCommand {
    /// `tps [value]` on the selected instance: shows its TPS and effective TPS
    /// (`adaptive_tps` being what load balancing gives it now), or sets its TPS
    /// to a positive value.
    pub fn execute(ctx: &CommandContext, state: &mut AppState, args: &Vec<String>, adaptive_tps: u8) -> (lines: Vec<LogLine>)
        requires
            old(state).wf(),
        ensures
            final(state).wf(),
            final(state).clients@ == old(state).clients@,
            final(state).config == old(state).config,
            final(state).instances@.dom() == old(state).instances@.dom(),
            match ctx.selected_instance {
                None => final(state).instances@ == old(state).instances@
                    && lines_view(lines@) == seq![(LogLevel::Warn, no_selection())],
                Some(iid) => if !old(state).instances@.contains_key(iid) {
                    final(state).instances@ == old(state).instances@
                        && lines_view(lines@) == seq![(LogLevel::Warn, "Instance #"@ + decimal(iid as nat) + " no longer exists."@)]
                } else {
                    let inst = old(state).instances@[iid];
                    let head = "Instance #"@ + decimal(iid as nat);
                    if args@.len() == 0 {
                        final(state).instances@ == old(state).instances@ && lines_view(lines@) == seq![
                            (LogLevel::Info, head + " TPS: "@ + decimal(inst.tps as nat) + " (effective: "@ + decimal(
                                inst.spec_get_effective_tps(old(state).config.load_balancing, adaptive_tps) as nat,
                            ) + ")"@),
                        ]
                    } else {
                        match parse_unsigned(args@[0]@, 256) {
                            None => final(state).instances@ == old(state).instances@
                                && lines_view(lines@) == seq![(LogLevel::Warn, "Invalid TPS value: '"@ + args@[0]@ + "'"@)],
                            Some(v) => if v == 0 {
                                final(state).instances@ == old(state).instances@
                                    && lines_view(lines@) == seq![(LogLevel::Warn, "TPS must be > 0, got '"@ + args@[0]@ + "'"@)]
                            } else {
                                &&& final(state).instances@ == old(state).instances@.insert(iid, final(state).instances@[iid])
                                &&& final(state).instances@[iid] == crate::instance::instance::Instance { tps: v as u8, ..inst }
                                &&& lines_view(lines@) == seq![(LogLevel::Info, head + " TPS set to "@ + decimal(v))]
                            },
                        }
                    }
                },
            },
    {
        let iid = match ctx.selected_instance {
            Some(i) => i,
            None => return one(text_line(LogLevel::Warn, "No instance selected. Use 'use <internal_id>' first.")),
        };
        let mut inst = match state.instances.remove(iid) {
            Some(i) => i,
            None => {
                let mut t = String::new();
                t.append("Instance #");
                push_decimal(&mut t, iid as u64);
                t.append(" no longer exists.");
                return one(LogLine { level: LogLevel::Warn, text: t });
            },
        };
        let mut t = String::new();
        t.append("Instance #");
        push_decimal(&mut t, iid as u64);
        if args.len() == 0 {
            t.append(" TPS: ");
            push_decimal(&mut t, inst.tps as u64);
            t.append(" (effective: ");
            push_decimal(&mut t, inst.get_effective_tps(&state.config.load_balancing, adaptive_tps) as u64);
            t.append(")");
            state.instances.add(inst);
            proof { lemma_put_back(old(state).instances@, iid); }
            return one(LogLine { level: LogLevel::Info, text: t });
        }
        match parse_u8(args[0].as_str()) {
            None => {
                state.instances.add(inst);
                proof { lemma_put_back(old(state).instances@, iid); }
                let mut w = String::new();
                w.append("Invalid TPS value: '");
                w.append(args[0].as_str());
                w.append("'");
                assert(w@ =~= "Invalid TPS value: '"@ + args@[0]@ + "'"@);
                one(LogLine { level: LogLevel::Warn, text: w })
            },
            Some(v) => {
                if v == 0 {
                    state.instances.add(inst);
                    proof { lemma_put_back(old(state).instances@, iid); }
                    let mut w = String::new();
                    w.append("TPS must be > 0, got '");
                    w.append(args[0].as_str());
                    w.append("'");
                    assert(w@ =~= "TPS must be > 0, got '"@ + args@[0]@ + "'"@);
                    return one(LogLine { level: LogLevel::Warn, text: w });
                }
                inst.tps = v;
                state.instances.add(inst);
                t.append(" TPS set to ");
                push_decimal(&mut t, v as u64);
                one(LogLine { level: LogLevel::Info, text: t })
            },
        }
    }
}

// ── uptime ──────────────────────────────────────────────────────────────────

/// Integer division rounding toward zero, as Rust's `/` on integers.
pub open spec fn trunc_div(a: int, b: int) -> int {
    if a >= 0 {
        a / b
    } else {
        -((-a) / b)
    }
}

/// The remainder that goes with `trunc_div`, as Rust's `%` on integers.
pub open spec fn trunc_rem(a: int, b: int) -> int {
    a - b * trunc_div(a, b)
}

/// The decimal rendering of a signed integer.
pub open spec fn signed_decimal(v: int) -> Seq<char> {
    if v < 0 {
        "-"@ + decimal((-v) as nat)
    } else {
        decimal(v as nat)
    }
}

/// `"Relay uptime: {h}h {m}m {s}s"` for a relay started at `start_ms`, at `now_ms`.
pub open spec fn uptime_text(start_ms: i64, now_ms: i64) -> Seq<char> {
    let secs = trunc_div(now_ms - start_ms, 1000);
    "Relay uptime: "@ + signed_decimal(trunc_div(secs, 3600)) + "h "@ + signed_decimal(trunc_div(trunc_rem(secs, 3600), 60))
        + "m "@ + signed_decimal(trunc_rem(secs, 60)) + "s"@
}

fn push_signed(s: &mut String, negative: bool, magnitude: u64)
    ensures
        final(s)@ == old(s)@ + signed_decimal(if negative { -(magnitude as int) } else { magnitude as int }),
{
    if negative && magnitude != 0 {
        s.append("-");
    }
    push_decimal(s, magnitude);
    proof {
        if negative && magnitude == 0 {
            assert(signed_decimal(0) == decimal(0));
        }
    }
}

impl UptimeCommand {
    /// How long the relay has run, at `now_ms`.
    pub fn execute(ctx: &CommandContext, now_ms: i64) -> (lines: Vec<LogLine>)
        requires
            i64::MIN <= now_ms - ctx.start_time_ms <= i64::MAX,
        ensures
            lines_view(lines@) == seq![(LogLevel::Info, uptime_text(ctx.start_time_ms, now_ms))],
    {
        let diff = now_ms - ctx.start_time_ms;
        let negative = diff < 0;
        let mag: u64 = if negative {
            (0i128 - diff as i128) as u64
        } else {
            diff as u64
        };
        let secs = mag / 1000;
        let h = secs / 3600;
        let m = (secs % 3600) / 60;
        let sec = secs % 60;
        proof {
            let d = now_ms - ctx.start_time_ms;
            let si = trunc_div(d, 1000);
            assert(si == if negative { -(secs as int) } else { secs as int });
            assert(trunc_div(si, 3600) == if negative { -(h as int) } else { h as int });
            assert(trunc_rem(si, 3600) == if negative { -((secs % 3600) as int) } else { (secs % 3600) as int });
            assert(trunc_div(trunc_rem(si, 3600), 60) == if negative { -(m as int) } else { m as int });
            assert(trunc_rem(si, 60) == if negative { -(sec as int) } else { sec as int });
        }
        let mut t = String::new();
        t.append("Relay uptime: ");
        push_signed(&mut t, negative, h);
        t.append("h ");
        push_signed(&mut t, negative, m);
        t.append("m ");
        push_signed(&mut t, negative, sec);
        t.append("s");
        one(LogLine { level: LogLevel::Info, text: t })
    }
}

// ── help ────────────────────────────────────────────────────────────────────

/// The widest command name, in bytes.
pub open spec fn help_width(infos: Seq<CommandInfo>) -> nat
    decreases infos.len(),
{
    if infos.len() == 0 {
        0
    } else {
        let w = help_width(infos.drop_last());
        let n = encode_utf8(infos.last().name@).len();
        if n > w {
            n
        } else {
            w
        }
    }
}

/// `n` spaces.
pub open spec fn spaces(n: nat) -> Seq<char> {
    Seq::new(n, |i: int| ' ')
}

/// `"  {name:<width} - {description}"`: the name padded with spaces to
/// `width` characters.
pub open spec fn help_line(info: CommandInfo, width: nat) -> Seq<char> {
    let pad = if info.name@.len() < width { (width - info.name@.len()) as nat } else { 0 };
    "  "@ + info.name@ + spaces(pad) + " - "@ + info.description@
}

fn byte_len(s: &str) -> (n: usize)
    ensures
        n == encode_utf8(s@).len(),
{
    proof {
        vstd::utf8::encode_utf8_decode_utf8(s@);
    }
    let b = s.as_bytes();
    assert(b@ == encode_utf8(s@));
    b.len()
}

impl HelpCommand {
    /// Every registered command with its description, names aligned.
    pub fn execute(ctx: &CommandContext) -> (lines: Vec<LogLine>)
        ensures
            lines_view(lines@) == seq![(LogLevel::Info, "Available Commands:"@)] + ctx.commands_info@.map_values(
                |info: CommandInfo| (LogLevel::Info, help_line(info, help_width(ctx.commands_info@))),
            ),
    {
        let infos = &ctx.commands_info;
        let mut width: usize = 0;
        let mut i: usize = 0;
        while i < infos.len()
            invariant
                i <= infos@.len(),
                width == help_width(infos@.take(i as int)),
            decreases infos@.len() - i,
        {
            assert(infos@.take(i + 1).drop_last() =~= infos@.take(i as int));
            let n = byte_len(infos[i].name.as_str());
            if n > width {
                width = n;
            }
            i = i + 1;
        }
        assert(infos@.take(infos@.len() as int) =~= infos@);
        let mut v: Vec<LogLine> = Vec::new();
        v.push(text_line(LogLevel::Info, "Available Commands:"));
        let ghost head = lines_view(v@);
        let ghost f = |info: CommandInfo| (LogLevel::Info, help_line(info, width as nat));
        let mut j: usize = 0;
        while j < infos.len()
            invariant
                j <= infos@.len(),
                width == help_width(infos@),
                f == (|info: CommandInfo| (LogLevel::Info, help_line(info, width as nat))),
                head == seq![(LogLevel::Info, "Available Commands:"@)],
                lines_view(v@) == head + infos@.take(j as int).map_values(f),
            decreases infos@.len() - j,
        {
            let info = &infos[j];
            let mut t = String::new();
            t.append("  ");
            t.append(info.name.as_str());
            let nl = info.name.as_str().unicode_len();
            let mut k = nl;
            let ghost t0 = t@;
            assert(t@ =~= t0 + spaces(0));
            while k < width
                invariant
                    nl <= k <= width || (nl > width && k == nl),
                    t@ == t0 + spaces((k - nl) as nat),
                decreases width - k,
            {
                t.append(" ");
                proof {
                    reveal_strlit(" ");
                    assert(t@ =~= t0 + spaces((k + 1 - nl) as nat));
                }
                k = k + 1;
            }
            proof {
                let pad = if info.name@.len() < width { (width - info.name@.len()) as nat } else { 0 };
                assert(t@ =~= t0 + spaces(pad));
            }
            t.append(" - ");
            t.append(info.description.as_str());
            let ghost before = lines_view(v@);
            v.push(LogLine { level: LogLevel::Info, text: t });
            proof {
                assert(infos@.take(j + 1).map_values(f) =~= infos@.take(j as int).map_values(f).push(f(infos@[j as int])));
                assert(lines_view(v@) =~= before.push((LogLevel::Info, t@)));
                assert(t@ =~= help_line(infos@[j as int], width as nat));
            }
            j = j + 1;
        }
        assert(infos@.take(infos@.len() as int) =~= infos@);
        v
    }
}

// ── instances, clients ──────────────────────────────────────────────────────

/// `"  [{id}] {world} - {count} players"`.
pub open spec fn instance_line(inst: crate::instance::instance::Instance) -> Seq<char> {
    "  ["@ + decimal(inst.internal_id as nat) + "] "@ + world_identifier(inst.world.master_id, inst.world.version, inst.world.address@)
        + " - "@ + decimal(inst.players().len()) + " players"@
}

impl InstancesCommand {
    /// Every hosted instance with its world and player count, in an order the
    /// registry does not fix.
    pub fn execute(state: &mut AppState) -> (lines: Vec<LogLine>)
        requires
            old(state).wf(),
        ensures
            final(state).wf(),
            final(state).clients@ == old(state).clients@,
            final(state).instances@ == old(state).instances@,
            final(state).config == old(state).config,
            if old(state).instances@.dom().len() == 0 {
                lines_view(lines@) == seq![(LogLevel::Info, "No instances running"@)]
            } else {
                exists|order: Seq<u8>| #![trigger order.to_set()]
                    order.no_duplicates() && order.to_set() == old(state).instances@.dom() && lines_view(lines@)
                        == seq![(LogLevel::Info, "Running Instances ("@ + decimal(old(state).instances@.dom().len()) + "):"@)]
                        + order.map_values(|k: u8| (LogLevel::Info, instance_line(old(state).instances@[k])))
            },
    {
        let count = state.instances.count();
        if count == 0 {
            return one(text_line(LogLevel::Info, "No instances running"));
        }
        let mut h = String::new();
        h.append("Running Instances (");
        push_decimal(&mut h, count as u64);
        h.append("):");
        let mut v: Vec<LogLine> = Vec::new();
        v.push(LogLine { level: LogLevel::Info, text: h });
        let ghost head = lines_view(v@);
        let ids = state.instances.ids();
        let ghost insts = old(state).instances@;
        let ghost f = |k: u8| (LogLevel::Info, instance_line(insts[k]));
        let mut i: usize = 0;
        while i < ids.len()
            invariant
                insts == old(state).instances@,
                i <= ids@.len(),
                ids@.to_set() == insts.dom(),
                state.wf(),
                state.instances@ == insts,
                state.clients@ == old(state).clients@,
                state.config == old(state).config,
                f == (|k: u8| (LogLevel::Info, instance_line(insts[k]))),
                lines_view(v@) == head + ids@.take(i as int).map_values(f),
            decreases ids@.len() - i,
        {
            let iid = ids[i];
            proof { assert(ids@.to_set().contains(iid)); }
            let inst = state.instances.remove(iid).unwrap();
            let mut t = String::new();
            t.append("  [");
            push_decimal(&mut t, inst.internal_id as u64);
            t.append("] ");
            let w = inst.world.to_identifier();
            t.append(w.as_str());
            t.append(" - ");
            push_decimal(&mut t, inst.players.len() as u64);
            t.append(" players");
            state.instances.add(inst);
            proof { lemma_put_back(insts, iid); }
            let ghost before = lines_view(v@);
            v.push(LogLine { level: LogLevel::Info, text: t });
            proof {
                assert(ids@.take(i + 1).map_values(f) =~= ids@.take(i as int).map_values(f).push(f(iid)));
                assert(lines_view(v@) =~= before.push((LogLevel::Info, t@)));
            }
            i = i + 1;
        }
        assert(ids@.take(ids@.len() as int) =~= ids@);
        v
    }
}

/// `"  [{id}] {name} - {platform} ({engine})"`, the name being the user's
/// display name or `"Guest"`.
pub open spec fn client_line(c: crate::client::client::Client) -> Seq<char> {
    let name = match c.user {
        Some(u) => u.display_name@,
        None => "Guest"@,
    };
    "  ["@ + decimal(c.id as nat) + "] "@ + name + " - "@ + c.platform@ + " ("@ + c.engine@ + ")"@
}

impl ClientsCommand {
    /// Every connected client with its user, platform and engine, in an
    /// order the registry does not fix.
    pub fn execute(state: &AppState) -> (lines: Vec<LogLine>)
        requires
            state.wf(),
        ensures
            if state.clients@.dom().len() == 0 {
                lines_view(lines@) == seq![(LogLevel::Info, "No clients connected"@)]
            } else {
                exists|order: Seq<u16>| #![trigger order.to_set()]
                    order.no_duplicates() && order.to_set() == state.clients@.dom() && lines_view(lines@)
                        == seq![(LogLevel::Info, "Connected Clients ("@ + decimal(state.clients@.dom().len()) + "):"@)]
                        + order.map_values(|k: u16| (LogLevel::Info, client_line(state.clients@[k])))
            },
    {
        let count = state.clients.count();
        if count == 0 {
            return one(text_line(LogLevel::Info, "No clients connected"));
        }
        let mut h = String::new();
        h.append("Connected Clients (");
        push_decimal(&mut h, count as u64);
        h.append("):");
        let mut v: Vec<LogLine> = Vec::new();
        v.push(LogLine { level: LogLevel::Info, text: h });
        let ghost head = lines_view(v@);
        let ids = state.clients.ids();
        let ghost f = |k: u16| (LogLevel::Info, client_line(state.clients@[k]));
        let mut i: usize = 0;
        while i < ids.len()
            invariant
                i <= ids@.len(),
                ids@.to_set() == state.clients@.dom(),
                state.wf(),
                f == (|k: u16| (LogLevel::Info, client_line(state.clients@[k]))),
                lines_view(v@) == head + ids@.take(i as int).map_values(f),
            decreases ids@.len() - i,
        {
            let id = ids[i];
            proof { assert(ids@.to_set().contains(id)); }
            let c = state.clients.get(id).unwrap();
            let mut t = String::new();
            t.append("  [");
            push_decimal(&mut t, c.id as u64);
            t.append("] ");
            match &c.user {
                Some(u) => t.append(u.display_name.as_str()),
                None => t.append("Guest"),
            }
            t.append(" - ");
            t.append(c.platform.as_str());
            t.append(" (");
            t.append(c.engine.as_str());
            t.append(")");
            let ghost before = lines_view(v@);
            v.push(LogLine { level: LogLevel::Info, text: t });
            proof {
                assert(ids@.take(i + 1).map_values(f) =~= ids@.take(i as int).map_values(f).push(f(id)));
                assert(lines_view(v@) =~= before.push((LogLevel::Info, t@)));
            }
            i = i + 1;
        }
        assert(ids@.take(ids@.len() as int) =~= ids@);
        v
    }
}

/// The hours, minutes and seconds of a nonnegative uptime add up to it, with
/// minutes and seconds below 60.
pub proof fn lemma_uptime_parts(secs: int)
    requires
        secs >= 0,
    ensures
        trunc_div(secs, 3600) * 3600 + trunc_div(trunc_rem(secs, 3600), 60) * 60 + trunc_rem(secs, 60) == secs,
        0 <= trunc_div(trunc_rem(secs, 3600), 60) < 60,
        0 <= trunc_rem(secs, 60) < 60,
{
    let h = secs / 3600;
    let r = secs % 3600;
    assert(secs == h * 3600 + r && 0 <= r < 3600) by (nonlinear_arith)
        requires
            secs >= 0,
            h == secs / 3600,
            r == secs % 3600,
    {
    }
    assert(trunc_rem(secs, 3600) == r);
    let m = r / 60;
    let s2 = r % 60;
    assert(r == m * 60 + s2 && 0 <= s2 < 60 && 0 <= m < 60) by (nonlinear_arith)
        requires
            0 <= r < 3600,
            m == r / 60,
            s2 == r % 60,
    {
    }
    assert(secs % 60 == s2) by (nonlinear_arith)
        requires
            secs == h * 3600 + m * 60 + s2,
            0 <= s2 < 60,
            h >= 0,
            m >= 0,
    {
    }
    assert(trunc_rem(secs, 60) == secs % 60) by (nonlinear_arith)
        requires
            secs >= 0,
    {
    }
}

} // verus!
