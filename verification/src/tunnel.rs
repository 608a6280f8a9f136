//! Tunnel sessions of browser surfaces: the output kept from their processes, the
//! status reported for them, and what starting one involves.
use vstd::prelude::*;
use crate::runtime::{
    allocate_internal_tunnel_port, forward_port_spec, internal_probe_url, local_probe_url_spec,
    local_port_spec, no_free_port, port_of, registry_extends, resolve_runtime_vite_hmr_tunnel_command, rewrite_tunnel_forward_port,
    runtime_hmr_spec, surface_local_port, url_known_port, url_parses, PortRegistry,
    RuntimeSurface, RuntimeSurfaceV, INTERNAL_TUNNEL_PORT_END, INTERNAL_TUNNEL_PORT_START,
};
use crate::model::strs;
use crate::sessions::{is_current_in, removed_if_current};
use crate::text::{blank, chars_of, concat2, concat3, is_blank, owned, slice_chars, string_from_chars, trim, trim_seq};

verus! {

// ---------------------------------------------------------------------------
// The output buffer of a process
// ---------------------------------------------------------------------------
/// The most output kept for a process, in UTF-8 bytes.
pub const OUTPUT_BUFFER_LIMIT: usize = 131072;

/// The number of bytes of a character in UTF-8.
pub open spec fn byte_width(c: char) -> nat {
    if (c as u32) <= 0x7F {
        1
    } else if (c as u32) <= 0x7FF {
        2
    } else if (c as u32) <= 0xFFFF {
        3
    } else {
        4
    }
}

/// The number of bytes of a text in UTF-8.
pub open spec fn bytes_len(s: Seq<char>) -> nat
    decreases s.len(),
{
    if s.len() == 0 {
        0
    } else {
        byte_width(s[0]) + bytes_len(s.drop_first())
    }
}

/// `bytes_len` is the length of the UTF-8 encoding.
pub proof fn lemma_bytes_len_encoding(s: Seq<char>)
    ensures
        bytes_len(s) == vstd::utf8::encode_utf8(s).len(),
    decreases s.len(),
{
    if s.len() > 0 {
        lemma_bytes_len_encoding(s.drop_first());
        let v = s[0] as u32;
        assert(vstd::utf8::encode_scalar(v).len() == byte_width(s[0])) by {
            vstd::utf8::char_is_scalar(s[0]);
        }
    }
}

proof fn lemma_bytes_len_skip(s: Seq<char>, k: int)
    requires
        0 <= k < s.len(),
    ensures
        bytes_len(s.skip(k)) == byte_width(s[k]) + bytes_len(s.skip(k + 1)),
{
    assert(s.skip(k).drop_first() =~= s.skip(k + 1));
}

/// The first `k` at or after `from` from which the rest of the text fits in `limit`
/// bytes.
pub open spec fn fit_start_from(s: Seq<char>, limit: nat, from: int) -> int
    decreases s.len() - from,
{
    if from >= s.len() || bytes_len(s.skip(from)) <= limit {
        from
    } else {
        fit_start_from(s, limit, from + 1)
    }
}

/// The longest end of a text that fits in `limit` bytes.
pub open spec fn keep_tail(s: Seq<char>, limit: nat) -> Seq<char> {
    s.skip(fit_start_from(s, limit, 0))
}

fn char_width(c: char) -> (r: u8)
    ensures
        r == byte_width(c),
{
    let v = c as u32;
    if v <= 0x7F {
        1
    } else if v <= 0x7FF {
        2
    } else if v <= 0xFFFF {
        3
    } else {
        4
    }
}

/// Appends a chunk of output to a buffer, then drops from the front the fewest
/// whole characters that bring the buffer back within the limit.
pub fn append_output(output: &mut String, chunk: &str)
    ensures
        final(output)@ == keep_tail(old(output)@ + chunk@, OUTPUT_BUFFER_LIMIT as nat),
{
    let mut all = chars_of(output.as_str());
    let more = chars_of(chunk);
    crate::text::extend_chars(&mut all, more.as_slice());
    let ghost s = all@;
    let n = all.len();
    let mut total: u128 = 0;
    let mut i: usize = n;
    proof {
        assert(s.skip(n as int) =~= Seq::<char>::empty());
    }
    while i > 0
        invariant
            s == all@,
            n == all@.len(),
            i <= n,
            total == bytes_len(s.skip(i as int)),
            total <= 4 * (n - i),
        decreases i,
    {
        let w = char_width(all[i - 1]);
        proof {
            lemma_bytes_len_skip(s, i - 1);
        }
        total = total + w as u128;
        i = i - 1;
    }
    let mut k: usize = 0;
    let mut rest: u128 = total;
    while k < n && rest > OUTPUT_BUFFER_LIMIT as u128
        invariant
            s == all@,
            n == all@.len(),
            k <= n,
            rest == bytes_len(s.skip(k as int)),
            fit_start_from(s, OUTPUT_BUFFER_LIMIT as nat, 0) == fit_start_from(
                s,
                OUTPUT_BUFFER_LIMIT as nat,
                k as int,
            ),
        decreases n - k,
    {
        let w = char_width(all[k]);
        proof {
            lemma_bytes_len_skip(s, k as int);
        }
        rest = rest - w as u128;
        k = k + 1;
    }
    let kept = slice_chars(all.as_slice(), k, n);
    proof {
        assert(kept@ =~= s.skip(k as int));
    }
    *output = string_from_chars(kept.as_slice());
}

// ---------------------------------------------------------------------------
// Tunnel status
// ---------------------------------------------------------------------------
/// The status of a surface's tunnel, as reported to the interface.
#[derive(Debug, Clone)]
pub struct TunnelStatus {
    pub target_id: String,
    pub surface_id: String,
    pub state: String,
    pub message: String,
}

/// View of a tunnel status.
pub ghost struct StatusV {
    pub target_id: Seq<char>,
    pub surface_id: Seq<char>,
    pub state: Seq<char>,
    pub message: Seq<char>,
}

impl View for TunnelStatus {
    type V = StatusV;

    open spec fn view(&self) -> StatusV {
        StatusV {
            target_id: self.target_id@,
            surface_id: self.surface_id@,
            state: self.state@,
            message: self.message@,
        }
    }
}

/// A tunnel status.
pub fn tunnel_status(target_id: &str, surface_id: &str, state: &str, message: String) -> (r:
    TunnelStatus)
    ensures
        r@ == (StatusV {
            target_id: target_id@,
            surface_id: surface_id@,
            state: state@,
            message: message@,
        }),
{
    TunnelStatus {
        target_id: owned(target_id),
        surface_id: owned(surface_id),
        state: owned(state),
        message,
    }
}

/// The status of a surface opened at its local URL without a tunnel.
pub fn direct_tunnel_status(target_id: &str, surface: &RuntimeSurface) -> (r: TunnelStatus)
    ensures
        r@ == (StatusV {
            target_id: target_id@,
            surface_id: surface.id@,
            state: "direct"@,
            message: surface.label@ + " is using the local URL directly."@,
        }),
{
    let message = concat2(surface.label.as_str(), " is using the local URL directly.");
    tunnel_status(target_id, surface.id.as_str(), "direct", message)
}

/// Unicode lower case of a text (`str::to_lowercase`).
pub uninterp spec fn unicode_lower(s: Seq<char>) -> Seq<char>;

/// `str::to_lowercase`.
#[verifier::external_body]
fn to_lowercase(s: &str) -> (r: String)
    ensures
        r@ == unicode_lower(s@),
{
    s.to_lowercase()
}

/// The status of a tunnel just started.
pub fn starting_tunnel_status(target_id: &str, surface: &RuntimeSurface) -> (r: TunnelStatus)
    ensures
        r@ == (StatusV {
            target_id: target_id@,
            surface_id: surface.id@,
            state: "starting"@,
            message: "Starting the "@ + unicode_lower(surface.label@)
                + " tunnel and probing "@ + surface.local_url@ + " for readiness."@,
        }),
{
    let lower = to_lowercase(surface.label.as_str());
    let mut message = concat3("Starting the ", lower.as_str(), " tunnel and probing ");
    message.append(surface.local_url.as_str());
    message.append(" for readiness.");
    tunnel_status(target_id, surface.id.as_str(), "starting", message)
}

/// The status of a tunnel that forwards traffic.
pub fn running_tunnel_status(target_id: &str, surface: &RuntimeSurface) -> (r: TunnelStatus)
    ensures
        r@ == (StatusV {
            target_id: target_id@,
            surface_id: surface.id@,
            state: "running"@,
            message: surface.label@ + " is forwarding browser traffic to "@ + surface.local_url@
                + "."@,
        }),
{
    let mut message = concat3(surface.label.as_str(), " is forwarding browser traffic to ", surface.local_url.as_str());
    message.append(".");
    tunnel_status(target_id, surface.id.as_str(), "running", message)
}

/// How long after its start a tunnel that is not ready says it is waiting.
pub const TUNNEL_PROBE_MESSAGE_DELAY_MS: u64 = 2000;

/// The status of a tunnel that is up, waiting for its URL to answer.
pub open spec fn waiting_message(surface: RuntimeSurfaceV) -> Seq<char> {
    surface.label + " tunnel is up, waiting for "@ + surface.local_url + " to accept connections."@
}

fn waiting_status(target_id: &str, surface: &RuntimeSurface) -> (r: TunnelStatus)
    ensures
        r@ == (StatusV {
            target_id: target_id@,
            surface_id: surface.id@,
            state: "starting"@,
            message: waiting_message(surface@),
        }),
{
    let mut message = concat3(surface.label.as_str(), " tunnel is up, waiting for ", surface.local_url.as_str());
    message.append(" to accept connections.");
    tunnel_status(target_id, surface.id.as_str(), "starting", message)
}

/// The status of a running session: running once ready; after the delay, waiting
/// for the URL; before it, starting.
pub fn active_tunnel_status(target_id: &str, surface: &RuntimeSurface, ready: bool, elapsed_ms: u64) -> (r:
    TunnelStatus)
    ensures
        r@.target_id == target_id@,
        r@.surface_id == surface.id@,
        ready ==> r@.state == "running"@,
        !ready && elapsed_ms >= TUNNEL_PROBE_MESSAGE_DELAY_MS ==> r@.state == "starting"@
            && r@.message == waiting_message(surface@),
        !ready && elapsed_ms < TUNNEL_PROBE_MESSAGE_DELAY_MS ==> r@.state == "starting"@
            && r@.message == "Starting the "@ + unicode_lower(surface.label@)
            + " tunnel and probing "@ + surface.local_url@ + " for readiness."@,
        ready ==> r@.message == surface.label@ + " is forwarding browser traffic to "@
            + surface.local_url@ + "."@,
{
    if ready {
        return running_tunnel_status(target_id, surface);
    }
    if elapsed_ms >= TUNNEL_PROBE_MESSAGE_DELAY_MS {
        return waiting_status(target_id, surface);
    }
    starting_tunnel_status(target_id, surface)
}

// ---------------------------------------------------------------------------
// Excerpts of process output
// ---------------------------------------------------------------------------
/// The lines of a text (split at each newline).
pub open spec fn newline_pieces(s: Seq<char>) -> Seq<Seq<char>> {
    crate::text::fields(s, crate::text::CharClass::Single('\n'))
}

/// The last non-blank line of a list, trimmed.
pub open spec fn last_nonblank(lines: Seq<Seq<char>>) -> Option<Seq<char>>
    decreases lines.len(),
{
    if lines.len() == 0 {
        None
    } else if !blank(lines.last()) {
        Some(trim_seq(lines.last()))
    } else {
        last_nonblank(lines.drop_last())
    }
}

/// The last non-blank line of some output, trimmed and cut to 220 characters.
pub open spec fn excerpt_spec(output: Seq<char>) -> Option<Seq<char>> {
    match last_nonblank(newline_pieces(output)) {
        Some(line) => Some(line.take(if line.len() < 220 {
            line.len() as int
        } else {
            220
        })),
        None => None,
    }
}

/// The last non-blank line of a process's output, trimmed and cut to 220
/// characters.
pub fn tunnel_output_excerpt(output: &str) -> (r: Option<String>)
    ensures
        crate::model::opt_v(r) == excerpt_spec(output@),
{
    let v = chars_of(output);
    let pieces = crate::text::split_fields(v.as_slice(), crate::text::CharClass::Single('\n'));
    let ghost pv = pieces.deep_view();
    let mut i: usize = pieces.len();
    proof {
        assert(pv.take(i as int) =~= pv);
    }
    while i > 0
        invariant
            i <= pieces@.len(),
            pv == pieces.deep_view(),
            pv == newline_pieces(output@),
            last_nonblank(pv) == last_nonblank(pv.take(i as int)),
        decreases i,
    {
        let k = i - 1;
        proof {
            assert(pv.take(i as int).drop_last() =~= pv.take(k as int));
            crate::text::lemma_chars_deep(pieces@[k as int]);
        }
        if !crate::text::is_blank_chars(pieces[k].as_slice()) {
            let t = trim_chars_vec(&pieces[k]);
            let cut = if t.len() < 220 {
                t.len()
            } else {
                220
            };
            let part = slice_chars(t.as_slice(), 0, cut);
            proof {
                assert(part@ =~= t@.take(cut as int));
            }
            return Some(string_from_chars(part.as_slice()));
        }
        i = k;
    }
    None
}

fn trim_chars_vec(v: &Vec<char>) -> (r: Vec<char>)
    ensures
        r@ == trim_seq(v@),
{
    crate::text::trim_chars(v.as_slice())
}

/// The output of a tunnel process, with its label.
pub struct ProcessOutput {
    pub label: String,
    pub output: String,
}

/// The first excerpt among processes, prefixed by the process's label.
pub open spec fn process_excerpt_spec(ps: Seq<(Seq<char>, Seq<char>)>) -> Option<Seq<char>>
    decreases ps.len(),
{
    if ps.len() == 0 {
        None
    } else {
        match excerpt_spec(ps[0].1) {
            Some(e) => Some(ps[0].0 + ": "@ + e),
            None => process_excerpt_spec(ps.drop_first()),
        }
    }
}

/// Views of process outputs.
pub open spec fn outputs_v(ps: Seq<ProcessOutput>) -> Seq<(Seq<char>, Seq<char>)> {
    ps.map_values(|p: ProcessOutput| (p.label@, p.output@))
}

/// The excerpt of the first process that has one, as `<label>: <excerpt>`.
pub fn tunnel_process_excerpt(processes: &[ProcessOutput]) -> (r: Option<String>)
    ensures
        crate::model::opt_v(r) == process_excerpt_spec(outputs_v(processes@)),
{
    let len = processes.len();
    let mut i: usize = 0;
    proof {
        assert(outputs_v(processes@).skip(0) =~= outputs_v(processes@));
    }
    while i < len
        invariant
            len == processes@.len(),
            i <= len,
            process_excerpt_spec(outputs_v(processes@)) == process_excerpt_spec(
                outputs_v(processes@).skip(i as int),
            ),
        decreases len - i,
    {
        let ghost rest = outputs_v(processes@).skip(i as int);
        proof {
            assert(rest[0] == (processes@[i as int].label@, processes@[i as int].output@));
            assert(rest.drop_first() =~= outputs_v(processes@).skip(i + 1));
        }
        match tunnel_output_excerpt(processes[i].output.as_str()) {
            Some(e) => {
                return Some(concat3(processes[i].label.as_str(), ": ", e.as_str()));
            },
            None => {},
        }
        i = i + 1;
    }
    None
}

// ---------------------------------------------------------------------------
// Starting a session
// ---------------------------------------------------------------------------
/// The ports of a Vite proxy: the public one the browser uses, and the local ends
/// of the HTTP and HMR tunnels it forwards to.
#[derive(Debug, Clone, Copy)]
pub struct ProxyPorts {
    pub public_port: u16,
    pub http_port: u16,
    pub hmr_port: u16,
}

/// What a tunnel session runs: its processes (command and label), the Vite proxy
/// when there is one, and the URLs probed to know it is ready.
pub struct TunnelPlan {
    pub processes: Vec<(String, String)>,
    pub proxy: Option<ProxyPorts>,
    pub probe_urls: Vec<String>,
}

/// A plain tunnel: one process running the surface's tunnel command, probed at the
/// surface's local URL.
pub fn plain_tunnel_plan(surface: &RuntimeSurface) -> (r: TunnelPlan)
    ensures
        r.processes@.len() == 1,
        r.processes@[0].0@ == surface.tunnel_command@,
        r.processes@[0].1@ == surface.label@ + " tunnel"@,
        r.proxy is None,
        strs(r.probe_urls@) == seq![surface.local_url@],
{
    let mut processes: Vec<(String, String)> = Vec::new();
    processes.push((surface.tunnel_command.clone(), concat2(surface.label.as_str(), " tunnel")));
    let mut probe_urls: Vec<String> = Vec::new();
    probe_urls.push(surface.local_url.clone());
    proof {
        assert(strs(probe_urls@) =~= seq![surface.local_url@]);
    }
    TunnelPlan { processes, proxy: None, probe_urls }
}

/// View of a session plan: the processes as command and label, the proxy's ports,
/// and the probed URLs.
pub open spec fn plan_v(plan: TunnelPlan) -> (Seq<(Seq<char>, Seq<char>)>, Option<(u16, u16, u16)>, Seq<Seq<char>>) {
    (
        plan.processes@.map_values(|p: (String, String)| (p.0@, p.1@)),
        match plan.proxy {
            Some(ports) => Some((ports.public_port, ports.http_port, ports.hmr_port)),
            None => None,
        },
        strs(plan.probe_urls@),
    )
}

/// View of a session plan or the error planning it.
pub open spec fn plan_result_v(r: Result<TunnelPlan, String>) -> Result<(Seq<(Seq<char>, Seq<char>)>, Option<(u16, u16, u16)>, Seq<Seq<char>>), Seq<char>> {
    match r {
        Ok(plan) => Ok(plan_v(plan)),
        Err(e) => Err(e@),
    }
}

/// What planning a Vite session of a surface does: the surface's local URL gives
/// the public port (else that error, nothing allocated); the two internal ports of
/// the HTTP and HMR tunnels are those the registry `new` records for the surface
/// (else the internal range is full); the HTTP tunnel's forward moves to the first,
/// the HMR tunnel runs on the second, and the two internal URLs are probed.
pub open spec fn vite_plan_spec(
    target_id: Seq<char>,
    surface: RuntimeSurfaceV,
    old: Seq<(Seq<char>, u16)>,
    new: Seq<(Seq<char>, u16)>,
    r: Result<(Seq<(Seq<char>, Seq<char>)>, Option<(u16, u16, u16)>, Seq<Seq<char>>), Seq<char>>,
) -> bool {
    match local_port_spec(surface) {
        Err(e) => r == Err::<(Seq<(Seq<char>, Seq<char>)>, Option<(u16, u16, u16)>, Seq<Seq<char>>), Seq<char>>(e) && new == old,
        Ok(public_port) => match r {
            Err(e) => e == no_free_port(INTERNAL_TUNNEL_PORT_START, INTERNAL_TUNNEL_PORT_END),
            Ok((processes, proxy, probe_urls)) => {
                &&& proxy matches Some((pp, http_port, hmr_port)) && {
                    &&& pp == public_port
                    &&& port_of(new, target_id + "::"@ + surface.id + "::"@ + "http-forward"@) == Some(http_port)
                    &&& port_of(new, target_id + "::"@ + surface.id + "::"@ + "vite-hmr"@) == Some(hmr_port)
                    &&& processes == seq![
                        (forward_port_spec(surface.tunnel_command, http_port), surface.label + " HTTP tunnel"@),
                        (runtime_hmr_spec(surface.vite_hmr_tunnel_command, hmr_port), surface.label + " HMR tunnel"@),
                    ]
                    &&& probe_urls == seq![local_probe_url_spec(http_port), local_probe_url_spec(hmr_port)]
                }
            },
        },
    }
}

/// A Vite session: the HTTP tunnel moved to an internal port, the HMR tunnel on
/// another, and a proxy on the surface's public port in front of both; probed at
/// the two internal ports. An error when the surface's local URL has no port or no
/// internal port is free.
pub fn vite_proxy_plan(
    target_id: &str,
    surface: &RuntimeSurface,
    registry: &mut PortRegistry,
    port_is_free: impl Fn(u16) -> bool,
) -> (r: Result<TunnelPlan, String>)
    requires
        old(registry).wf(),
        forall|p: u16| port_is_free.requires((p,)),
    ensures
        final(registry).wf(),
        registry_extends(old(registry)@, final(registry)@),
        vite_plan_spec(target_id@, surface@, old(registry)@, final(registry)@, plan_result_v(r)),
{
    let public_port = match surface_local_port(surface) {
        Ok(p) => p,
        Err(e) => {
            return Err(e);
        },
    };
    let http_port = match allocate_internal_tunnel_port(
        registry,
        target_id,
        surface.id.as_str(),
        "http-forward",
        &port_is_free,
    ) {
        Ok(p) => p,
        Err(e) => {
            return Err(e);
        },
    };
    let hmr_port = match allocate_internal_tunnel_port(
        registry,
        target_id,
        surface.id.as_str(),
        "vite-hmr",
        &port_is_free,
    ) {
        Ok(p) => p,
        Err(e) => {
            return Err(e);
        },
    };
    let http_command = rewrite_tunnel_forward_port(surface.tunnel_command.as_str(), http_port);
    let hmr_command = resolve_runtime_vite_hmr_tunnel_command(
        surface.vite_hmr_tunnel_command.as_str(),
        hmr_port,
    );
    let mut processes: Vec<(String, String)> = Vec::new();
    processes.push((http_command, concat2(surface.label.as_str(), " HTTP tunnel")));
    processes.push((hmr_command, concat2(surface.label.as_str(), " HMR tunnel")));
    let mut probe_urls: Vec<String> = Vec::new();
    probe_urls.push(internal_probe_url(http_port));
    probe_urls.push(internal_probe_url(hmr_port));
    proof {
        assert(strs(probe_urls@) =~= seq![
            local_probe_url_spec(http_port),
            local_probe_url_spec(hmr_port),
        ]);
        assert(processes@.map_values(|p: (String, String)| (p.0@, p.1@)) =~= seq![
            (forward_port_spec(surface.tunnel_command@, http_port), surface.label@ + " HTTP tunnel"@),
            (runtime_hmr_spec(surface.vite_hmr_tunnel_command@, hmr_port), surface.label@ + " HMR tunnel"@),
        ]);
    }
    let plan = TunnelPlan {
        processes,
        proxy: Some(ProxyPorts { public_port, http_port, hmr_port }),
        probe_urls,
    };
    proof {
        let http_key = target_id@ + "::"@ + surface.id@ + "::"@ + "http-forward"@;
        assert(port_of(registry@, http_key) == Some(http_port));
        assert(local_port_spec(surface@) == Ok::<u16, Seq<char>>(public_port));
    }
    Ok(plan)
}

/// What a surface's tunnel session runs: a Vite proxy session when the surface has
/// an HMR tunnel command, else a plain tunnel.
pub fn tunnel_plan(
    target_id: &str,
    surface: &RuntimeSurface,
    registry: &mut PortRegistry,
    port_is_free: impl Fn(u16) -> bool,
) -> (r: Result<TunnelPlan, String>)
    requires
        old(registry).wf(),
        forall|p: u16| port_is_free.requires((p,)),
    ensures
        final(registry).wf(),
        registry_extends(old(registry)@, final(registry)@),
        blank(surface.vite_hmr_tunnel_command@) ==> final(registry)@ == old(registry)@ && (r matches Ok(
            plan,
        ) && plan.proxy is None && plan.processes@.len() == 1 && plan.processes@[0].0@
            == surface.tunnel_command@),
        !blank(surface.vite_hmr_tunnel_command@) ==> vite_plan_spec(
            target_id@,
            surface@,
            old(registry)@,
            final(registry)@,
            plan_result_v(r),
        ),
{
    if is_blank(surface.vite_hmr_tunnel_command.as_str()) {
        return Ok(plain_tunnel_plan(surface));
    }
    vite_proxy_plan(target_id, surface, registry, port_is_free)
}

// ---------------------------------------------------------------------------
// Watching a session
// ---------------------------------------------------------------------------
/// What the watcher of a session remembers between rounds.
#[derive(Debug, Clone, Copy)]
pub struct MonitorState {
    pub ready: bool,
    pub waiting_message_emitted: bool,
}

/// Whether a round probes the session's URLs: while it is current and not ready.
pub fn monitor_should_probe(state: MonitorState, is_current: bool) -> (r: bool)
    ensures
        r == (is_current && !state.ready),
{
    is_current && !state.ready
}

/// Whether all probed URLs answered: there is at least one and each answered.
pub fn probe_targets_ready(results: &[bool]) -> (r: bool)
    ensures
        r == (results@.len() > 0 && forall|i: int| 0 <= i < results@.len() ==> results@[i]),
{
    let n = results.len();
    if n == 0 {
        return false;
    }
    let mut i: usize = 0;
    while i < n
        invariant
            n == results@.len(),
            i <= n,
            forall|j: int| 0 <= j < i ==> results@[j],
        decreases n - i,
    {
        if !results[i] {
            return false;
        }
        i = i + 1;
    }
    true
}

/// What a round of watching reports.
pub enum MonitorReport {
    Nothing,
    Running,
    Waiting,
}

/// A round of watching after the probes, as state and report: a current session
/// that is not ready becomes ready when its probes answer, and says, once, that it
/// waits when the delay has passed; otherwise nothing changes.
pub open spec fn monitor_next(state: MonitorState, is_current: bool, probes_ready: bool, elapsed_ms: u64) -> (MonitorState, MonitorReport) {
    if is_current && !state.ready {
        if probes_ready {
            (MonitorState { ready: true, waiting_message_emitted: state.waiting_message_emitted }, MonitorReport::Running)
        } else if !state.waiting_message_emitted && elapsed_ms >= TUNNEL_PROBE_MESSAGE_DELAY_MS {
            (MonitorState { ready: false, waiting_message_emitted: true }, MonitorReport::Waiting)
        } else {
            (state, MonitorReport::Nothing)
        }
    } else {
        (state, MonitorReport::Nothing)
    }
}

/// A round of watching after the probes: a current session that answers becomes
/// ready and reports it runs; one still silent after the delay says, once, that it
/// waits; otherwise nothing is reported.
pub fn monitor_after_probe(
    target_id: &str,
    surface: &RuntimeSurface,
    state: MonitorState,
    is_current: bool,
    probes_ready: bool,
    elapsed_ms: u64,
) -> (r: (MonitorState, Option<TunnelStatus>))
    ensures
        r.0 == monitor_next(state, is_current, probes_ready, elapsed_ms).0,
        match monitor_next(state, is_current, probes_ready, elapsed_ms).1 {
            MonitorReport::Nothing => r.1 is None,
            MonitorReport::Running => r.1 matches Some(st) && st@.state == "running"@ && st@.message
                == surface.label@ + " is forwarding browser traffic to "@ + surface.local_url@ + "."@,
            MonitorReport::Waiting => r.1 matches Some(st) && st@.state == "starting"@ && st@.message
                == waiting_message(surface@),
        },
        r.1 matches Some(st) ==> st@.target_id == target_id@ && st@.surface_id == surface.id@,
{
    if is_current && !state.ready {
        if probes_ready {
            return (
                MonitorState { ready: true, waiting_message_emitted: state.waiting_message_emitted },
                Some(running_tunnel_status(target_id, surface)),
            );
        }
        if !state.waiting_message_emitted && elapsed_ms >= TUNNEL_PROBE_MESSAGE_DELAY_MS {
            return (
                MonitorState { ready: false, waiting_message_emitted: true },
                Some(waiting_status(target_id, surface)),
            );
        }
    }
    (state, None)
}

/// The status of a session whose proxy stopped: its error, or that it exited
/// unexpectedly.
pub fn proxy_exit_status(target_id: &str, surface: &RuntimeSurface, proxy_error: Option<String>) -> (r:
    TunnelStatus)
    ensures
        r@.target_id == target_id@,
        r@.surface_id == surface.id@,
        r@.state == "error"@,
        r@.message == match proxy_error {
            Some(e) => e@,
            None => surface.label@ + " proxy exited unexpectedly."@,
        },
{
    let message = match proxy_error {
        Some(e) => e,
        None => concat2(surface.label.as_str(), " proxy exited unexpectedly."),
    };
    tunnel_status(target_id, surface.id.as_str(), "error", message)
}

/// The status of a session one of whose processes exited: stopped when it
/// succeeded; else an error with its exit status and the first excerpt of output.
pub fn process_exit_status(
    target_id: &str,
    surface_id: &str,
    label: &str,
    success: bool,
    status_text: &str,
    excerpt: Option<String>,
) -> (r: TunnelStatus)
    ensures
        r@.target_id == target_id@,
        r@.surface_id == surface_id@,
        r@.state == if success {
            "stopped"@
        } else {
            "error"@
        },
        r@.message == if success {
            label@ + " exited."@
        } else {
            match excerpt {
                Some(e) => label@ + " exited with "@ + status_text@ + ". "@ + e@,
                None => label@ + " exited with "@ + status_text@ + "."@,
            }
        },
{
    let message = if success {
        concat2(label, " exited.")
    } else {
        let mut m = concat3(label, " exited with ", status_text);
        match excerpt {
            Some(e) => {
                m.append(". ");
                m.append(e.as_str());
            },
            None => {
                m.append(".");
            },
        }
        m
    };
    let state = if success {
        "stopped"
    } else {
        "error"
    };
    proof {
        reveal_strlit("stopped");
        reveal_strlit("error");
    }
    tunnel_status(target_id, surface_id, state, message)
}

/// What a round found of a session's processes, inspected in order until the first
/// that ended or could not be inspected.
pub enum ProcessCheck {
    /// Every process still runs.
    Running,
    /// A process ended: its label, whether it succeeded, and its exit status.
    Ended { label: String, success: bool, status_text: String },
    /// A process could not be inspected; the message says why.
    Failed { message: String },
}

/// The status a session whose proxy stopped reports.
pub open spec fn proxy_exit_spec(target_id: Seq<char>, surface: RuntimeSurfaceV, proxy_error: Option<Seq<char>>) -> StatusV {
    StatusV {
        target_id,
        surface_id: surface.id,
        state: "error"@,
        message: match proxy_error {
            Some(e) => e,
            None => surface.label + " proxy exited unexpectedly."@,
        },
    }
}

/// The status a session one of whose processes ended reports.
pub open spec fn process_exit_spec(
    target_id: Seq<char>,
    surface_id: Seq<char>,
    label: Seq<char>,
    success: bool,
    status_text: Seq<char>,
    excerpt: Option<Seq<char>>,
) -> StatusV {
    StatusV {
        target_id,
        surface_id,
        state: if success {
            "stopped"@
        } else {
            "error"@
        },
        message: if success {
            label + " exited."@
        } else {
            match excerpt {
                Some(e) => label + " exited with "@ + status_text + ". "@ + e,
                None => label + " exited with "@ + status_text + "."@,
            }
        },
    }
}

/// Whether a round ends the watch of a session, and with which status: a stopped
/// proxy ends it first (with the proxy's error); then a process that could not be
/// inspected (with an error naming why) or that ended (see `process_exit_spec`);
/// while the proxy, if any, runs and every process runs, the watch goes on
/// (`None`). The status is reported only when the session is still the current
/// one under its key, which the caller removes.
pub open spec fn monitor_end_spec(
    target_id: Seq<char>,
    surface: RuntimeSurfaceV,
    proxy_running: Option<bool>,
    proxy_error: Option<Seq<char>>,
    check: ProcessCheck,
    excerpt: Option<Seq<char>>,
) -> Option<StatusV> {
    if proxy_running == Some(false) {
        Some(proxy_exit_spec(target_id, surface, proxy_error))
    } else {
        match check {
            ProcessCheck::Running => None,
            ProcessCheck::Failed { message } => Some(
                StatusV { target_id, surface_id: surface.id, state: "error"@, message: message@ },
            ),
            ProcessCheck::Ended { label, success, status_text } => Some(
                process_exit_spec(target_id, surface.id, label@, success, status_text@, excerpt),
            ),
        }
    }
}

/// Whether a round ends the watch of a session (see `monitor_end_spec`):
/// `proxy_running` is the running flag of its proxy, if it has one, `check` what
/// the inspection of its processes found, and `excerpt` the last line of their
/// output.
pub fn monitor_end(
    target_id: &str,
    surface: &RuntimeSurface,
    proxy_running: Option<bool>,
    proxy_error: Option<String>,
    check: ProcessCheck,
    excerpt: Option<String>,
) -> (r: Option<TunnelStatus>)
    ensures
        match (r, monitor_end_spec(
            target_id@,
            surface@,
            proxy_running,
            crate::model::opt_v(proxy_error),
            check,
            crate::model::opt_v(excerpt),
        )) {
            (Some(st), Some(sv)) => st@ == sv,
            (None, None) => true,
            _ => false,
        },
{
    if proxy_running == Some(false) {
        return Some(proxy_exit_status(target_id, surface, proxy_error));
    }
    match check {
        ProcessCheck::Running => None,
        ProcessCheck::Failed { message } => {
            proof {
                reveal_strlit("error");
            }
            Some(tunnel_status(target_id, surface.id.as_str(), "error", message))
        },
        ProcessCheck::Ended { label, success, status_text } => Some(
            process_exit_status(target_id, surface.id.as_str(), label.as_str(), success, status_text.as_str(), excerpt),
        ),
    }
}

/// The status of a running session (see `active_tunnel_status`).
pub open spec fn active_status_spec(target_id: Seq<char>, surface: RuntimeSurfaceV, ready: bool, elapsed_ms: u64) -> StatusV {
    if ready {
        StatusV {
            target_id,
            surface_id: surface.id,
            state: "running"@,
            message: surface.label + " is forwarding browser traffic to "@ + surface.local_url + "."@,
        }
    } else if elapsed_ms >= TUNNEL_PROBE_MESSAGE_DELAY_MS {
        StatusV { target_id, surface_id: surface.id, state: "starting"@, message: waiting_message(surface) }
    } else {
        StatusV {
            target_id,
            surface_id: surface.id,
            state: "starting"@,
            message: "Starting the "@ + unicode_lower(surface.label) + " tunnel and probing "@
                + surface.local_url + " for readiness."@,
        }
    }
}

/// The answer to a request for a surface's tunnel before any session is looked
/// at: a surface without a tunnel command is used directly (its status is the
/// answer); any other needs its session (`None`).
pub fn tunnel_request_direct(target_id: &str, surface: &RuntimeSurface) -> (r: Option<TunnelStatus>)
    ensures
        blank(surface@.tunnel_command) ==> (r matches Some(st) && st@ == (StatusV {
            target_id: target_id@,
            surface_id: surface.id@,
            state: "direct"@,
            message: surface.label@ + " is using the local URL directly."@,
        })),
        !blank(surface@.tunnel_command) ==> r is None,
{
    if is_blank(surface.tunnel_command.as_str()) {
        Some(direct_tunnel_status(target_id, surface))
    } else {
        None
    }
}

/// The answer to a request for a surface's tunnel once its existing session was
/// inspected (see `tunnel_session_is_alive`): the inspection's error is returned;
/// a session that runs answers with its status (see `active_status_spec`); one
/// that stopped is to be removed and a new one started (`Ok(None)`).
pub fn existing_session_answer(
    target_id: &str,
    surface: &RuntimeSurface,
    alive: Result<bool, String>,
    ready: bool,
    elapsed_ms: u64,
) -> (r: Result<Option<TunnelStatus>, String>)
    ensures
        match alive {
            Err(e) => r matches Err(e2) && e2@ == e@,
            Ok(true) => r matches Ok(Some(st)) && st@ == active_status_spec(target_id@, surface@, ready, elapsed_ms),
            Ok(false) => r matches Ok(None),
        },
{
    match alive {
        Err(e) => Err(e),
        Ok(true) => {
            let st = active_tunnel_status(target_id, surface, ready, elapsed_ms);
            Ok(Some(st))
        },
        Ok(false) => Ok(None),
    }
}

// ---------------------------------------------------------------------------
// Laws
// ---------------------------------------------------------------------------
proof fn lemma_fit_start(s: Seq<char>, limit: nat, from: int)
    requires
        0 <= from <= s.len(),
    ensures
        from <= fit_start_from(s, limit, from) <= s.len(),
        bytes_len(s.skip(fit_start_from(s, limit, from))) <= limit,
        forall|k: int|
            from <= k < fit_start_from(s, limit, from) ==> bytes_len(#[trigger] s.skip(k)) > limit,
    decreases s.len() - from,
{
    if from >= s.len() {
        assert(s.skip(from) =~= Seq::<char>::empty());
    } else if bytes_len(s.skip(from)) > limit {
        lemma_fit_start(s, limit, from + 1);
    }
}

/// The output buffer never outgrows its limit, holds the end of what was written,
/// and drops no more than it must: what it keeps fits in the limit, is a suffix of
/// the old buffer followed by the chunk, and keeping one more character would not
/// fit.
pub proof fn law_output_buffer_bounded(old_output: Seq<char>, chunk: Seq<char>)
    ensures
        bytes_len(keep_tail(old_output + chunk, OUTPUT_BUFFER_LIMIT as nat)) <= OUTPUT_BUFFER_LIMIT,
        ({
            let all = old_output + chunk;
            let k = fit_start_from(all, OUTPUT_BUFFER_LIMIT as nat, 0);
            &&& 0 <= k <= all.len()
            &&& keep_tail(all, OUTPUT_BUFFER_LIMIT as nat) == all.skip(k)
            &&& k > 0 ==> bytes_len(all.skip(k - 1)) > OUTPUT_BUFFER_LIMIT
        }),
{
    let all = old_output + chunk;
    lemma_fit_start(all, OUTPUT_BUFFER_LIMIT as nat, 0);
}

/// Output that fits is kept whole.
pub proof fn law_output_kept_when_it_fits(old_output: Seq<char>, chunk: Seq<char>)
    requires
        bytes_len(old_output + chunk) <= OUTPUT_BUFFER_LIMIT,
    ensures
        keep_tail(old_output + chunk, OUTPUT_BUFFER_LIMIT as nat) == old_output + chunk,
{
    let all = old_output + chunk;
    assert(all.skip(0) =~= all);
}

/// A watched session that became ready stays ready, and says it waits at most
/// once: a round never clears `ready` or the waiting flag, and reports waiting only
/// while the flag is not yet set (and then sets it).
pub proof fn law_monitor_is_monotonic(
    state: MonitorState,
    is_current: bool,
    probes_ready: bool,
    elapsed_ms: u64,
)
    ensures
        ({
            let (next, report) = monitor_next(state, is_current, probes_ready, elapsed_ms);
            &&& state.ready ==> next.ready
            &&& state.waiting_message_emitted ==> next.waiting_message_emitted
            &&& report is Waiting ==> !state.waiting_message_emitted && next.waiting_message_emitted
            &&& report is Running ==> !state.ready && next.ready
        }),
{
}

/// A watched session becomes ready only in a round whose probes all answered.
pub proof fn law_ready_only_after_probes(
    state: MonitorState,
    is_current: bool,
    probes_ready: bool,
    elapsed_ms: u64,
)
    ensures
        !state.ready && monitor_next(state, is_current, probes_ready, elapsed_ms).0.ready ==> probes_ready
            && is_current,
{
}

/// The watch of a session ends exactly when its proxy stopped or one of its
/// processes ended or could not be inspected.
pub proof fn law_monitor_stops_when_session_ends(
    target_id: Seq<char>,
    surface: RuntimeSurfaceV,
    proxy_running: Option<bool>,
    proxy_error: Option<Seq<char>>,
    check: ProcessCheck,
    excerpt: Option<Seq<char>>,
)
    ensures
        monitor_end_spec(target_id, surface, proxy_running, proxy_error, check, excerpt) is Some
            <==> (proxy_running == Some(false) || !(check is Running)),
{
}

/// One round of watching a session, as its watcher sees it: the session table when
/// it looks, whether the probes all answered, how long ago the session started, the
/// running flag of its proxy (if it has one) and what the inspection of its
/// processes found.
pub ghost struct WatchRound<T> {
    pub table: Map<Seq<char>, (u64, T)>,
    pub probes_ready: bool,
    pub elapsed_ms: u64,
    pub proxy_running: Option<bool>,
    pub check: ProcessCheck,
}

/// Whether a round ends the watch (see `monitor_end_spec`).
pub open spec fn round_ends<T>(r: WatchRound<T>) -> bool {
    r.proxy_running == Some(false) || !(r.check is Running)
}

/// The watcher's state after the rounds, from `state`, of the session started under
/// `id` and recorded under `key`: each round probes while the session is current
/// and not ready (see `monitor_next`), and the watch stops after the first round
/// that ends it, whose index is given.
pub open spec fn watched<T>(key: Seq<char>, id: u64, state: MonitorState, rounds: Seq<WatchRound<T>>) -> (
    MonitorState,
    Option<int>,
)
    decreases rounds.len(),
{
    if rounds.len() == 0 {
        (state, None)
    } else {
        let r = rounds[0];
        let next = monitor_next(state, is_current_in(r.table, key, id), r.probes_ready, r.elapsed_ms).0;
        if round_ends(r) {
            (next, Some(0))
        } else {
            let rest = watched(key, id, next, rounds.skip(1));
            (
                rest.0,
                match rest.1 {
                    Some(j) => Some(j + 1),
                    None => None,
                },
            )
        }
    }
}

proof fn lemma_watched<T>(key: Seq<char>, id: u64, state: MonitorState, rounds: Seq<WatchRound<T>>)
    ensures
        ({
            let (s, stop) = watched(key, id, state, rounds);
            &&& stop matches Some(j) ==> 0 <= j < rounds.len() && round_ends(rounds[j]) && forall|i: int|
                0 <= i < j ==> !round_ends(#[trigger] rounds[i])
            &&& stop is None ==> forall|i: int| 0 <= i < rounds.len() ==> !round_ends(#[trigger] rounds[i])
            &&& s.ready && !state.ready ==> exists|i: int|
                0 <= i < rounds.len() && (stop matches Some(j) ==> i <= j) && (#[trigger] rounds[i]).probes_ready
                    && is_current_in(rounds[i].table, key, id)
            &&& state.ready ==> s.ready
        }),
    decreases rounds.len(),
{
    if rounds.len() > 0 {
        let r = rounds[0];
        let next = monitor_next(state, is_current_in(r.table, key, id), r.probes_ready, r.elapsed_ms).0;
        if !round_ends(r) {
            let tail = rounds.skip(1);
            lemma_watched(key, id, next, tail);
            let (s, stop) = watched(key, id, next, tail);
            assert forall|i: int| 0 <= i < tail.len() implies tail[i] == rounds[i + 1] by {}
            if let Some(j) = stop {
                assert forall|i: int| 0 <= i < j + 1 implies !round_ends(#[trigger] rounds[i]) by {
                    if i > 0 {
                        assert(tail[i - 1] == rounds[i]);
                    }
                }
                assert(tail[j] == rounds[j + 1]);
            } else {
                assert forall|i: int| 0 <= i < rounds.len() implies !round_ends(#[trigger] rounds[i]) by {
                    if i > 0 {
                        assert(tail[i - 1] == rounds[i]);
                    }
                }
            }
            if s.ready && !state.ready {
                if next.ready {
                    assert(rounds[0].probes_ready && is_current_in(rounds[0].table, key, id));
                } else {
                    let i = choose|i: int|
                        0 <= i < tail.len() && (stop matches Some(j) ==> i <= j) && (#[trigger] tail[i]).probes_ready
                            && is_current_in(tail[i].table, key, id);
                    assert(tail[i] == rounds[i + 1]);
                }
            }
        }
    }
}

/// The watch of a session, over any rounds: it stops at the first round in which
/// the proxy stopped or a process ended or could not be inspected, and not before;
/// the session becomes ready only after a watched round in which it was the current
/// one under its key and all its probes answered; and the removal it makes when it
/// stops takes out the session under its key only while that is still this session,
/// leaving a newer one there and every other key as it was.
pub proof fn law_session_watch<T>(
    key: Seq<char>,
    id: u64,
    rounds: Seq<WatchRound<T>>,
    table_at_stop: Map<Seq<char>, (u64, T)>,
)
    ensures
        ({
            let (s, stop) = watched(key, id, MonitorState { ready: false, waiting_message_emitted: false }, rounds);
            &&& stop matches Some(j) ==> 0 <= j < rounds.len() && round_ends(rounds[j]) && forall|i: int|
                0 <= i < j ==> !round_ends(#[trigger] rounds[i])
            &&& stop is None ==> forall|i: int| 0 <= i < rounds.len() ==> !round_ends(#[trigger] rounds[i])
            &&& s.ready ==> exists|i: int|
                0 <= i < rounds.len() && (stop matches Some(j) ==> i <= j) && (#[trigger] rounds[i]).probes_ready
                    && is_current_in(rounds[i].table, key, id)
        }),
        table_at_stop.contains_key(key) && table_at_stop[key].0 != id ==> removed_if_current(table_at_stop, key, id)
            == table_at_stop,
        forall|other: Seq<char>|
            other != key ==> (#[trigger] removed_if_current(table_at_stop, key, id).contains_key(other)
                <==> table_at_stop.contains_key(other)) && (table_at_stop.contains_key(other) ==> removed_if_current(
                table_at_stop,
                key,
                id,
            )[other] == table_at_stop[other]),
{
    lemma_watched(key, id, MonitorState { ready: false, waiting_message_emitted: false }, rounds);
}

// ---------------------------------------------------------------------------
// Whether a session still runs
// ---------------------------------------------------------------------------
/// The view of one process inspection: whether it still runs, or why it could not
/// be inspected.
pub open spec fn alive_v(o: Result<bool, String>) -> Result<bool, Seq<char>> {
    match o {
        Ok(b) => Ok(b),
        Err(e) => Err(e@),
    }
}

/// Whether a session runs, from the inspections of its processes in order (which
/// stop at the first that failed or found a process ended) and whether its proxy,
/// if it has one, runs: the first failure is the error; an ended process, or a
/// stopped proxy, means it does not run.
pub open spec fn session_alive_spec(outs: Seq<Result<bool, Seq<char>>>, proxy_running: Option<bool>) -> Result<bool, Seq<char>> {
    if outs.len() > 0 && outs.last() is Err {
        outs.last()
    } else if outs.len() > 0 && outs.last() == Ok::<bool, Seq<char>>(false) {
        Ok(false)
    } else {
        Ok(proxy_running != Some(false))
    }
}

/// Whether `out` is what inspecting the process `p` with `process_alive` can give.
pub open spec fn inspection_possible<T, F: Fn(&T) -> Result<bool, String>>(process_alive: F, p: T, out: Result<bool, Seq<char>>) -> bool {
    exists|o: Result<bool, String>| #[trigger] process_alive.ensures((&p,), o) && out == alive_v(o)
}

/// Whether `outs` are the inspections of a session's processes: one per process in
/// order, each a possible outcome of `process_alive`, all but the last finding the
/// process running, and stopping early only at a failure or an ended process.
pub open spec fn inspections_possible<T, F: Fn(&T) -> Result<bool, String>>(
    process_alive: F,
    processes: Seq<T>,
    outs: Seq<Result<bool, Seq<char>>>,
) -> bool {
    &&& outs.len() <= processes.len()
    &&& forall|i: int| 0 <= i < outs.len() ==> #[trigger] inspection_possible(process_alive, processes[i], outs[i])
    &&& forall|i: int| 0 <= i < outs.len() - 1 ==> #[trigger] outs[i] == Ok::<bool, Seq<char>>(true)
    &&& outs.len() < processes.len() ==> outs.len() > 0 && outs.last() != Ok::<bool, Seq<char>>(true)
}

/// Whether a tunnel session still runs: each of its processes is inspected by
/// `process_alive` in turn, then its proxy's running flag is read (see
/// `session_alive_spec`).
pub fn tunnel_session_is_alive<T, F: Fn(&T) -> Result<bool, String>>(
    processes: &Vec<T>,
    proxy_running: Option<bool>,
    process_alive: &F,
) -> (r: Result<bool, String>)
    requires
        forall|p: &T| process_alive.requires((p,)),
    ensures
        exists|outs: Seq<Result<bool, Seq<char>>>|
            #[trigger] inspections_possible(*process_alive, processes@, outs) && alive_v(r) == session_alive_spec(outs, proxy_running),
{
    let ghost mut outs: Seq<Result<bool, Seq<char>>> = seq![];
    let n = processes.len();
    let mut i: usize = 0;
    while i < n
        invariant
            n == processes@.len(),
            i <= n,
            forall|p: &T| process_alive.requires((p,)),
            outs.len() == i,
            forall|j: int| 0 <= j < i ==> #[trigger] outs[j] == Ok::<bool, Seq<char>>(true),
            forall|j: int| 0 <= j < outs.len() ==> #[trigger] inspection_possible(*process_alive, processes@[j], outs[j]),
        decreases n - i,
    {
        let outcome = process_alive(&processes[i]);
        let ghost o = outcome;
        proof {
            assert(process_alive.ensures((&processes@[i as int],), o));
            outs = outs.push(alive_v(o));
            assert forall|j: int| 0 <= j < outs.len() implies #[trigger] inspection_possible(*process_alive, processes@[j], outs[j]) by {
                if j < i {
                    assert(outs[j] == outs.drop_last()[j]);
                    assert(inspection_possible(*process_alive, processes@[j], outs.drop_last()[j]));
                } else {
                    assert(process_alive.ensures((&processes@[j],), o));
                }
            }
        }
        match outcome {
            Err(e) => {
                proof {
                    assert forall|j: int| 0 <= j < outs.len() - 1 implies #[trigger] outs[j] == Ok::<bool, Seq<char>>(true) by {
                        assert(outs[j] == outs.drop_last()[j]);
                    }
                    assert(inspections_possible(*process_alive, processes@, outs));
                }
                return Err(e);
            },
            Ok(false) => {
                proof {
                    assert forall|j: int| 0 <= j < outs.len() - 1 implies #[trigger] outs[j] == Ok::<bool, Seq<char>>(true) by {
                        assert(outs[j] == outs.drop_last()[j]);
                    }
                    assert(inspections_possible(*process_alive, processes@, outs));
                }
                return Ok(false);
            },
            Ok(true) => {
                proof {
                    assert forall|j: int| 0 <= j < i + 1 implies #[trigger] outs[j] == Ok::<bool, Seq<char>>(true) by {
                        if j < i {
                            assert(outs[j] == outs.drop_last()[j]);
                        }
                    }
                }
            },
        }
        i = i + 1;
    }
    proof {
        assert(inspections_possible(*process_alive, processes@, outs));
    }
    match proxy_running {
        Some(false) => Ok(false),
        _ => Ok(true),
    }
}

} // verus!
