//! Browser surfaces at run time: the stable local port each surface and internal
//! tunnel gets, and the tunnel commands and local URLs rewritten for that port.
use vstd::prelude::*;
use vstd::string::StringSliceAdditionalSpecFns;
use crate::text::{
    blank, chars_of, concat2, concat3, dec, dec_string, is_blank, join_chars, join_seq,
    owned, replace_seq, replace_str, split_words, starts_with, str_eq, string_from_chars,
    words,
};

verus! {

// ---------------------------------------------------------------------------
// Surfaces and targets as the runtime reads them
// ---------------------------------------------------------------------------
/// A browser surface of a target as the runtime configuration gives it.
#[derive(Debug, Clone)]
pub struct RuntimeSurface {
    pub id: String,
    pub label: String,
    pub tunnel_command: String,
    pub local_url: String,
    pub remote_url: String,
    pub vite_hmr_tunnel_command: String,
}

/// View of a runtime surface.
pub ghost struct RuntimeSurfaceV {
    pub id: Seq<char>,
    pub label: Seq<char>,
    pub tunnel_command: Seq<char>,
    pub local_url: Seq<char>,
    pub remote_url: Seq<char>,
    pub vite_hmr_tunnel_command: Seq<char>,
}

impl View for RuntimeSurface {
    type V = RuntimeSurfaceV;

    open spec fn view(&self) -> RuntimeSurfaceV {
        RuntimeSurfaceV {
            id: self.id@,
            label: self.label@,
            tunnel_command: self.tunnel_command@,
            local_url: self.local_url@,
            remote_url: self.remote_url@,
            vite_hmr_tunnel_command: self.vite_hmr_tunnel_command@,
        }
    }
}

impl RuntimeSurface {
    /// A copy of this surface.
    pub fn duplicate(&self) -> (r: RuntimeSurface)
        ensures
            r@ == self@,
    {
        RuntimeSurface {
            id: self.id.clone(),
            label: self.label.clone(),
            tunnel_command: self.tunnel_command.clone(),
            local_url: self.local_url.clone(),
            remote_url: self.remote_url.clone(),
            vite_hmr_tunnel_command: self.vite_hmr_tunnel_command.clone(),
        }
    }
}

/// A developer target as the runtime configuration gives it.
#[derive(Debug, Clone)]
pub struct RuntimeTarget {
    pub id: String,
    pub label: String,
    pub host: String,
    pub description: String,
    pub terminal_command: String,
    pub notes: Vec<String>,
    pub surfaces: Vec<RuntimeSurface>,
}

/// Views of a list of runtime surfaces.
pub open spec fn runtime_surfaces_v(v: Seq<RuntimeSurface>) -> Seq<RuntimeSurfaceV> {
    v.map_values(|s: RuntimeSurface| s@)
}

// ---------------------------------------------------------------------------
// Port keys and ranges
// ---------------------------------------------------------------------------
/// The first port handed to browser surfaces.
pub const SURFACE_PORT_START: u16 = 43000;

/// The last port handed to browser surfaces.
pub const SURFACE_PORT_END: u16 = 43999;

/// The first port handed to internal tunnels.
pub const INTERNAL_TUNNEL_PORT_START: u16 = 44000;

/// The last port handed to internal tunnels.
pub const INTERNAL_TUNNEL_PORT_END: u16 = 44999;

/// The key under which a surface's port is kept: `<target>::<surface>`.
pub fn surface_key(target_id: &str, surface_id: &str) -> (r: String)
    ensures
        r@ == target_id@ + "::"@ + surface_id@,
{
    concat3(target_id, "::", surface_id)
}

/// The key under which an internal tunnel's port is kept:
/// `<target>::<surface>::<suffix>`.
pub fn tunnel_port_key(target_id: &str, surface_id: &str, suffix: &str) -> (r: String)
    ensures
        r@ == target_id@ + "::"@ + surface_id@ + "::"@ + suffix@,
{
    let mut k = concat3(target_id, "::", surface_id);
    k.append("::");
    k.append(suffix);
    k
}

/// The number of ports from `start` to `end`, both included.
pub fn port_span(start: u16, end: u16) -> (r: usize)
    requires
        start <= end,
    ensures
        r == end - start + 1,
{
    (end - start) as usize + 1
}

/// The 32-bit FNV-1a hash of a byte string.
pub open spec fn fnv1a(bytes: Seq<u8>) -> u32
    decreases bytes.len(),
{
    if bytes.len() == 0 {
        2166136261u32
    } else {
        vstd::wrapping::u32_specs::wrapping_mul(fnv1a(bytes.drop_last()) ^ (bytes.last() as u32), 16777619u32)
    }
}

/// Where the search for a key's port starts: the FNV-1a hash of the key's UTF-8
/// bytes, modulo the size of the range.
pub fn stable_port_offset(key: &str, start: u16, end: u16) -> (r: usize)
    requires
        start <= end,
    ensures
        r == fnv1a(key.spec_bytes()) as int % (end - start + 1),
        r < end - start + 1,
{
    let bytes = key.as_bytes();
    let mut hash: u32 = 2166136261u32;
    let len = bytes.len();
    let mut i: usize = 0;
    while i < len
        invariant
            len == bytes@.len(),
            bytes@ == key.spec_bytes(),
            i <= len,
            hash == fnv1a(bytes@.take(i as int)),
        decreases len - i,
    {
        proof {
            assert(bytes@.take(i + 1).drop_last() =~= bytes@.take(i as int));
        }
        hash = hash ^ (bytes[i] as u32);
        hash = hash.wrapping_mul(16777619u32);
        i = i + 1;
    }
    proof {
        assert(bytes@.take(len as int) =~= bytes@);
    }
    (hash as usize) % port_span(start, end)
}

// ---------------------------------------------------------------------------
// The port registry
// ---------------------------------------------------------------------------
/// The ports handed out so far, by key. No key and no port occurs twice.
pub struct PortRegistry {
    entries: Vec<(String, u16)>,
}

impl View for PortRegistry {
    type V = Seq<(Seq<char>, u16)>;

    closed spec fn view(&self) -> Seq<(Seq<char>, u16)> {
        self.entries@.map_values(|e: (String, u16)| (e.0@, e.1))
    }
}

/// The port recorded for a key, if any.
pub open spec fn port_of(entries: Seq<(Seq<char>, u16)>, key: Seq<char>) -> Option<u16>
    decreases entries.len(),
{
    if entries.len() == 0 {
        None
    } else if entries.last().0 == key {
        Some(entries.last().1)
    } else {
        port_of(entries.drop_last(), key)
    }
}

/// Whether a port was handed to some key.
pub open spec fn port_taken(entries: Seq<(Seq<char>, u16)>, port: u16) -> bool {
    exists|i: int| 0 <= i < entries.len() && #[trigger] entries[i].1 == port
}

/// No key and no port occurs twice.
pub open spec fn registry_wf(entries: Seq<(Seq<char>, u16)>) -> bool {
    forall|i: int, j: int|
        0 <= i < j < entries.len() ==> #[trigger] entries[i].0 != #[trigger] entries[j].0
            && entries[i].1 != entries[j].1
}

proof fn lemma_port_of_some(entries: Seq<(Seq<char>, u16)>, key: Seq<char>)
    ensures
        port_of(entries, key) matches Some(p) ==> port_taken(entries, p),
        port_of(entries, key) is None ==> forall|i: int|
            0 <= i < entries.len() ==> #[trigger] entries[i].0 != key,
    decreases entries.len(),
{
    if entries.len() > 0 {
        lemma_port_of_some(entries.drop_last(), key);
        if entries.last().0 != key {
            if let Some(p) = port_of(entries.drop_last(), key) {
                let i = choose|i: int| 0 <= i < entries.drop_last().len() && #[trigger] entries.drop_last()[i].1 == p;
                assert(entries[i].1 == p);
            }
            assert forall|i: int| 0 <= i < entries.len() && port_of(entries, key) is None implies #[trigger] entries[i].0 != key by {
                if i < entries.len() - 1 {
                    assert(entries.drop_last()[i] == entries[i]);
                }
            }
        } else {
            assert(entries[entries.len() - 1].1 == entries.last().1);
        }
    }
}

proof fn lemma_port_of_push(entries: Seq<(Seq<char>, u16)>, key: Seq<char>, port: u16, other: Seq<char>)
    ensures
        port_of(entries.push((key, port)), other) == if other == key {
            Some(port)
        } else {
            port_of(entries, other)
        },
{
    assert(entries.push((key, port)).drop_last() =~= entries);
}

impl PortRegistry {
    /// The invariant: no key and no port twice (see `registry_wf`).
    pub open spec fn wf(&self) -> bool {
        registry_wf(self@)
    }

    /// A registry with no port handed out.
    pub fn new() -> (r: PortRegistry)
        ensures
            r.wf(),
            r@ == Seq::<(Seq<char>, u16)>::empty(),
    {
        let r = PortRegistry { entries: Vec::new() };
        assert(r@ =~= Seq::<(Seq<char>, u16)>::empty());
        r
    }

    /// The port handed to a key, if any.
    pub fn get(&self, key: &str) -> (r: Option<u16>)
        ensures
            r == port_of(self@, key@),
    {
        let ghost v = self@;
        let mut i: usize = self.entries.len();
        proof {
            assert(v.take(i as int) =~= v);
        }
        while i > 0
            invariant
                i <= self.entries@.len(),
                v == self@,
                port_of(v, key@) == port_of(v.take(i as int), key@),
            decreases i,
        {
            let k = i - 1;
            proof {
                assert(v.take(i as int).drop_last() =~= v.take(k as int));
                assert(v.take(i as int).last() == (self.entries@[k as int].0@, self.entries@[k as int].1));
            }
            if str_eq(self.entries[k].0.as_str(), key) {
                return Some(self.entries[k].1);
            }
            i = k;
        }
        None
    }

    /// Whether a port was handed to some key.
    pub fn is_taken(&self, port: u16) -> (r: bool)
        ensures
            r == port_taken(self@, port),
    {
        let ghost v = self@;
        let mut i: usize = 0;
        while i < self.entries.len()
            invariant
                i <= self.entries@.len(),
                v == self@,
                forall|j: int| 0 <= j < i ==> v[j].1 != port,
            decreases self.entries@.len() - i,
        {
            assert(v[i as int] == (self.entries@[i as int].0@, self.entries@[i as int].1));
            if self.entries[i].1 == port {
                assert(v.len() == self.entries@.len());
                assert(v[i as int].1 == port);
                assert(port_taken(v, port));
                return true;
            }
            i = i + 1;
        }
        false
    }

    /// Records a port for a key that has none, the port being free.
    fn insert(&mut self, key: &str, port: u16)
        requires
            old(self).wf(),
            port_of(old(self)@, key@) is None,
            !port_taken(old(self)@, port),
        ensures
            final(self).wf(),
            final(self)@ == old(self)@.push((key@, port)),
    {
        proof {
            lemma_port_of_some(old(self)@, key@);
        }
        self.entries.push((owned(key), port));
        proof {
            assert(self@ =~= old(self)@.push((key@, port)));
        }
    }
}

// ---------------------------------------------------------------------------
// Allocation
// ---------------------------------------------------------------------------
/// The candidate port at a step of the search.
pub open spec fn candidate_port(start: u16, end: u16, offset: int, step: int) -> int {
    start + (offset + step) % (end - start + 1)
}

/// The view of an allocation's result.
pub open spec fn result_v(r: Result<u16, String>) -> Result<u16, Seq<char>> {
    match r {
        Ok(p) => Ok(p),
        Err(e) => Err(e@),
    }
}

/// The error given when no port of a range is free.
pub open spec fn no_free_port(start: u16, end: u16) -> Seq<char> {
    "No free browser surface ports available in "@ + dec(start as nat) + "-"@ + dec(end as nat) + "."@
}

/// What allocating a port for a key (whose UTF-8 bytes are `bytes`) in
/// `start..=end` does to the registry `old`, giving `new` and `r`: a key with a port
/// gets it back and nothing changes; else a port of the range that no key holds,
/// found going round from the key's offset, is recorded for it; else the registry is
/// left as it was and the error names the range.
pub open spec fn allocated(
    old: Seq<(Seq<char>, u16)>,
    new: Seq<(Seq<char>, u16)>,
    key: Seq<char>,
    bytes: Seq<u8>,
    start: u16,
    end: u16,
    r: Result<u16, Seq<char>>,
) -> bool {
    match port_of(old, key) {
        Some(p) => r == Ok::<u16, Seq<char>>(p) && new == old,
        None => match r {
            Ok(p) => {
                &&& start <= p <= end
                &&& !port_taken(old, p)
                &&& exists|step: int|
                    0 <= step < end - start + 1 && p == candidate_port(
                        start,
                        end,
                        fnv1a(bytes) as int,
                        step,
                    )
                &&& new == old.push((key, p))
            },
            Err(e) => e == no_free_port(start, end) && new == old,
        },
    }
}

/// Whether the port tried at `step` for a key was passed over: a key holds it, or
/// `port_is_free` refused it.
pub open spec fn passed_over<F: Fn(u16) -> bool>(
    port_is_free: F,
    entries: Seq<(Seq<char>, u16)>,
    start: u16,
    end: u16,
    offset: int,
    step: int,
) -> bool {
    let p = candidate_port(start, end, offset, step) as u16;
    port_taken(entries, p) || port_is_free.ensures((p,), false)
}

/// A key's port: the one it already has; else the first port of the range, going
/// round from the key's stable offset, that no key holds and that `port_is_free`
/// accepts, which is then recorded for the key; else an error naming the range.
pub fn allocate_stable_port(
    registry: &mut PortRegistry,
    key: &str,
    start: u16,
    end: u16,
    port_is_free: impl Fn(u16) -> bool,
) -> (r: Result<u16, String>)
    requires
        old(registry).wf(),
        start <= end,
        forall|p: u16| port_is_free.requires((p,)),
    ensures
        final(registry).wf(),
        allocated(old(registry)@, final(registry)@, key@, key.spec_bytes(), start, end, result_v(r)),
        r matches Ok(p) ==> port_of(final(registry)@, key@) == Some(p) && forall|k: Seq<char>|
            k != key@ && #[trigger] port_of(final(registry)@, k) is Some ==> port_of(final(registry)@, k) != Some(p),
        port_of(old(registry)@, key@) is None ==> match r {
            Ok(p) => port_is_free.ensures((p,), true) && exists|step: int|
                0 <= step < end - start + 1 && p == candidate_port(start, end, fnv1a(key.spec_bytes()) as int, step)
                    && forall|s: int| 0 <= s < step ==> #[trigger] passed_over(
                    port_is_free,
                    old(registry)@,
                    start,
                    end,
                    fnv1a(key.spec_bytes()) as int,
                    s,
                ),
            Err(_) => forall|s: int| 0 <= s < end - start + 1 ==> #[trigger] passed_over(
                port_is_free,
                old(registry)@,
                start,
                end,
                fnv1a(key.spec_bytes()) as int,
                s,
            ),
        },
{
    match registry.get(key) {
        Some(port) => {
            proof {
                lemma_allocated_port_is_unique(registry@, key@, port);
            }
            return Ok(port);
        },
        None => {},
    }
    let span = port_span(start, end);
    let offset = stable_port_offset(key, start, end);
    let mut step: usize = 0;
    while step < span
        invariant
            registry.wf(),
            registry@ == old(registry)@,
            port_of(registry@, key@) is None,
            span == end - start + 1,
            start <= end,
            offset < span,
            offset == fnv1a(key.spec_bytes()) as int % (end - start + 1),
            forall|p: u16| port_is_free.requires((p,)),
            forall|s: int| 0 <= s < step ==> #[trigger] passed_over(
                port_is_free,
                registry@,
                start,
                end,
                fnv1a(key.spec_bytes()) as int,
                s,
            ),
        decreases span - step,
    {
        let candidate: u16 = start + ((offset + step) % span) as u16;
        proof {
            assert(candidate as int == candidate_port(start, end, fnv1a(key.spec_bytes()) as int, step as int)) by {
                vstd::arithmetic::div_mod::lemma_add_mod_noop_right(
                    step as int,
                    fnv1a(key.spec_bytes()) as int,
                    span as int,
                );
            }
        }
        if !registry.is_taken(candidate) {
            if port_is_free(candidate) {
                let ghost before = registry@;
                registry.insert(key, candidate);
                proof {
                    assert(before == old(registry)@);
                    lemma_port_of_push(before, key@, candidate, key@);
                    lemma_allocated_port_is_unique(registry@, key@, candidate);
                }
                return Ok(candidate);
            }
        }
        proof {
            assert(passed_over(port_is_free, registry@, start, end, fnv1a(key.spec_bytes()) as int, step as int));
        }
        step = step + 1;
    }
    let mut message = owned("No free browser surface ports available in ");
    let a = dec_string(start as u64);
    message.append(a.as_str());
    message.append("-");
    let b = dec_string(end as u64);
    message.append(b.as_str());
    message.append(".");
    Err(message)
}

/// The port of a browser surface, from the surface range.
pub fn allocate_surface_port(
    registry: &mut PortRegistry,
    target_id: &str,
    surface_id: &str,
    port_is_free: impl Fn(u16) -> bool,
) -> (r: Result<u16, String>)
    requires
        old(registry).wf(),
        forall|p: u16| port_is_free.requires((p,)),
    ensures
        final(registry).wf(),
        match port_of(old(registry)@, target_id@ + "::"@ + surface_id@) {
            Some(p) => r == Ok::<u16, String>(p) && final(registry)@ == old(registry)@,
            None => match r {
                Ok(p) => SURFACE_PORT_START <= p <= SURFACE_PORT_END && final(registry)@ == old(registry)@.push((target_id@ + "::"@ + surface_id@, p)),
                Err(e) => final(registry)@ == old(registry)@ && e@ == no_free_surface_port(),
            },
        },
        r matches Ok(p) ==> port_of(final(registry)@, target_id@ + "::"@ + surface_id@) == Some(p),
{
    let key = surface_key(target_id, surface_id);
    let r = allocate_stable_port(registry, key.as_str(), SURFACE_PORT_START, SURFACE_PORT_END, port_is_free);
    proof {
        if let Ok(p) = r {
            if port_of(old(registry)@, key@) is None {
                lemma_port_of_push(old(registry)@, key@, p, key@);
            }
        }
    }
    r
}

/// The port of an internal tunnel of a surface, from the internal range.
pub fn allocate_internal_tunnel_port(
    registry: &mut PortRegistry,
    target_id: &str,
    surface_id: &str,
    suffix: &str,
    port_is_free: impl Fn(u16) -> bool,
) -> (r: Result<u16, String>)
    requires
        old(registry).wf(),
        forall|p: u16| port_is_free.requires((p,)),
    ensures
        final(registry).wf(),
        match port_of(old(registry)@, target_id@ + "::"@ + surface_id@ + "::"@ + suffix@) {
            Some(p) => r == Ok::<u16, String>(p) && final(registry)@ == old(registry)@,
            None => match r {
                Ok(p) => INTERNAL_TUNNEL_PORT_START <= p <= INTERNAL_TUNNEL_PORT_END && final(registry)@ == old(registry)@.push((target_id@ + "::"@ + surface_id@ + "::"@ + suffix@, p)),
                Err(e) => final(registry)@ == old(registry)@ && e@ == no_free_port(
                    INTERNAL_TUNNEL_PORT_START,
                    INTERNAL_TUNNEL_PORT_END,
                ),
            },
        },
        r matches Ok(p) ==> port_of(
            final(registry)@,
            target_id@ + "::"@ + surface_id@ + "::"@ + suffix@,
        ) == Some(p),
        registry_extends(old(registry)@, final(registry)@),
{
    let key = tunnel_port_key(target_id, surface_id, suffix);
    let r = allocate_stable_port(
        registry,
        key.as_str(),
        INTERNAL_TUNNEL_PORT_START,
        INTERNAL_TUNNEL_PORT_END,
        port_is_free,
    );
    proof {
        if let Ok(p) = r {
            if port_of(old(registry)@, key@) is None {
                lemma_port_of_push(old(registry)@, key@, p, key@);
                assert forall|k: Seq<char>| #[trigger] port_of(old(registry)@, k) is Some implies port_of(
                    registry@,
                    k,
                ) == port_of(old(registry)@, k) by {
                    lemma_port_of_push(old(registry)@, key@, p, k);
                }
            }
        }
    }
    r
}

// ---------------------------------------------------------------------------
// URLs (through the `url` crate)
// ---------------------------------------------------------------------------
/// Whether `url::Url::parse` accepts the text.
pub uninterp spec fn url_parses(input: Seq<char>) -> bool;

/// What `url::ParseError` displays for text that `url::Url::parse` refuses.
pub uninterp spec fn url_parse_error_text(input: Seq<char>) -> Seq<char>;

/// `url::Url::host_str` of the URL parsed from the text.
pub uninterp spec fn url_host_text(input: Seq<char>) -> Option<Seq<char>>;

/// `url::Url::port_or_known_default` of the URL parsed from the text.
pub uninterp spec fn url_known_port(input: Seq<char>) -> Option<u16>;

/// The URL parsed from the text, serialized after `url::Url::set_host` with the
/// host and `url::Url::set_port` with the port (either ignored where it fails).
pub uninterp spec fn url_relocated(input: Seq<char>, host: Seq<char>, port: u16) -> Seq<char>;

/// The host of a URL, through `url::Url::parse` and `url::Url::host_str`: `None`
/// when the text does not parse.
#[verifier::external_body]
fn parse_url_host(input: &str) -> (r: Option<Option<String>>)
    ensures
        r is Some <==> url_parses(input@),
        r matches Some(h) ==> crate::model::opt_v(h) == url_host_text(input@),
{
    match url::Url::parse(input) {
        Ok(parsed) => match parsed.host_str() {
            Some(host) => Some(Some(host.to_string())),
            None => Some(None),
        },
        Err(_) => None,
    }
}

/// The port of a URL, through `url::Url::parse` and
/// `url::Url::port_or_known_default`: the parse error's text when it does not
/// parse.
#[verifier::external_body]
fn parse_url_port(input: &str) -> (r: Result<Option<u16>, String>)
    ensures
        r is Ok <==> url_parses(input@),
        r matches Ok(p) ==> p == url_known_port(input@),
        r matches Err(e) ==> e@ == url_parse_error_text(input@),
{
    match url::Url::parse(input) {
        Ok(parsed) => Ok(parsed.port_or_known_default()),
        Err(error) => Err(error.to_string()),
    }
}

/// A URL moved to another host and port, through `url::Url::parse`,
/// `url::Url::set_host`, `url::Url::set_port` and its serialization: `None` when
/// the text does not parse.
#[verifier::external_body]
fn relocate_url(input: &str, host: &str, port: u16) -> (r: Option<String>)
    ensures
        r is Some <==> url_parses(input@),
        r matches Some(u) ==> u@ == url_relocated(input@, host@, port),
{
    match url::Url::parse(input) {
        Ok(mut parsed) => {
            let _ = parsed.set_host(Some(host));
            let _ = parsed.set_port(Some(port));
            Some(parsed.to_string())
        },
        Err(_) => None,
    }
}

// ---------------------------------------------------------------------------
// Tunnel commands
// ---------------------------------------------------------------------------
/// The host every browser surface is served on.
pub open spec fn surface_host() -> Seq<char> {
    "127.0.0.1"@
}

/// A tunnel command with `{localPort}` replaced by the port and, when the remote URL
/// parses, `{remoteHost}`/`{previewRemoteHost}` by its host and
/// `{remotePort}`/`{previewRemotePort}` by its port.
pub open spec fn known_placeholders_spec(cmd: Seq<char>, remote_url: Seq<char>, port: u16) -> Seq<
    char,
> {
    let r1 = replace_seq(cmd, "{localPort}"@, dec(port as nat));
    if !url_parses(remote_url) {
        r1
    } else {
        let r2 = match url_host_text(remote_url) {
            Some(h) => replace_seq(replace_seq(r1, "{remoteHost}"@, h), "{previewRemoteHost}"@, h),
            None => r1,
        };
        match url_known_port(remote_url) {
            Some(p) => replace_seq(
                replace_seq(r2, "{remotePort}"@, dec(p as nat)),
                "{previewRemotePort}"@,
                dec(p as nat),
            ),
            None => r2,
        }
    }
}

/// A tunnel command with its known placeholders replaced (see
/// `known_placeholders_spec`).
pub fn replace_known_tunnel_placeholders(tunnel_command: &str, remote_url: &str, local_port: u16) -> (r:
    String)
    ensures
        r@ == known_placeholders_spec(tunnel_command@, remote_url@, local_port),
{
    proof {
        reveal_strlit("{localPort}");
        reveal_strlit("{remoteHost}");
        reveal_strlit("{previewRemoteHost}");
        reveal_strlit("{remotePort}");
        reveal_strlit("{previewRemotePort}");
    }
    let port_text = dec_string(local_port as u64);
    let mut resolved = replace_str(tunnel_command, "{localPort}", port_text.as_str());
    match parse_url_host(remote_url) {
        Some(host) => {
            match host {
                Some(h) => {
                    resolved = replace_str(resolved.as_str(), "{remoteHost}", h.as_str());
                    resolved = replace_str(resolved.as_str(), "{previewRemoteHost}", h.as_str());
                },
                None => {},
            }
            match parse_url_port(remote_url) {
                Ok(Some(p)) => {
                    let t = dec_string(p as u64);
                    resolved = replace_str(resolved.as_str(), "{remotePort}", t.as_str());
                    resolved = replace_str(resolved.as_str(), "{previewRemotePort}", t.as_str());
                },
                _ => {},
            }
        },
        None => {},
    }
    resolved
}

/// A forward specification with its local port replaced: everything before the
/// first `:` becomes the port; a specification without `:` is kept.
pub open spec fn forward_spec_spec(spec: Seq<char>, port: u16) -> Seq<char> {
    match crate::text::find_seq(spec, ":"@) {
        Some(k) => dec(port as nat) + ":"@ + spec.skip(k + 1),
        None => spec,
    }
}

fn forward_spec_chars(spec: &[char], local_port: u16) -> (r: Vec<char>)
    ensures
        r@ == forward_spec_spec(spec@, local_port),
{
    let colon: [char; 1] = [':'];
    proof {
        reveal_strlit(":");
        assert(colon@ =~= ":"@);
        assert(colon@.len() == 1);
    }
    let n = spec.len();
    let colon_slice: &[char] = &colon;
    assert(colon_slice@ == colon@);
    match crate::text::find_chars(spec, colon_slice) {
        Some(k) => {
            assert(crate::text::has_at(spec@, colon_slice@, k as int));
            assert(k + 1 <= spec@.len());
            let mut out = crate::text::dec_chars(local_port as u64);
            out.push(':');
            let rest = crate::text::slice_chars(spec, k + 1, n);
            let ghost before = out@;
            crate::text::extend_chars(&mut out, rest.as_slice());
            proof {
                assert(before =~= dec(local_port as nat) + ":"@);
                assert(rest@ =~= spec@.skip(k + 1));
            }
            out
        },
        None => crate::text::slice_chars(spec, 0, spec.len()),
    }
}

/// A forward specification with its local port replaced: everything before the
/// first `:` becomes the port.
pub fn rewrite_forward_spec_local_port(forward_spec: &str, local_port: u16) -> (r: String)
    ensures
        r@ == forward_spec_spec(forward_spec@, local_port),
{
    let v = chars_of(forward_spec);
    let r = forward_spec_chars(v.as_slice(), local_port);
    string_from_chars(r.as_slice())
}

/// The index of the first word at or after `i` that starts with `-L`.
pub open spec fn forward_index_from(tokens: Seq<Seq<char>>, i: int) -> Option<int>
    decreases tokens.len() - i,
{
    if i < 0 || i >= tokens.len() {
        None
    } else if starts_with(tokens[i], "-L"@) {
        Some(i)
    } else {
        forward_index_from(tokens, i + 1)
    }
}

/// The words of a command with the local port of its first `-L` forward replaced:
/// the word after a bare `-L`, or the rest of a `-L<spec>` word; `None` when no
/// word starts with `-L`.
pub open spec fn rewritten_words(tokens: Seq<Seq<char>>, port: u16) -> Option<Seq<Seq<char>>> {
    match forward_index_from(tokens, 0) {
        None => None,
        Some(i) => if tokens[i] == "-L"@ && i + 1 < tokens.len() {
            Some(tokens.update(i + 1, forward_spec_spec(tokens[i + 1], port)))
        } else {
            Some(tokens.update(i, "-L"@ + forward_spec_spec(tokens[i].skip(2), port)))
        },
    }
}

/// A tunnel command with the local port of its first `-L` forward replaced, its
/// words then joined by single spaces; a command without `-L` is kept as it is.
pub open spec fn forward_port_spec(cmd: Seq<char>, port: u16) -> Seq<char> {
    match rewritten_words(words(cmd), port) {
        Some(t) => join_seq(t, " "@),
        None => cmd,
    }
}

/// A tunnel command with the local port of its first `-L` forward replaced.
pub fn rewrite_tunnel_forward_port(tunnel_command: &str, local_port: u16) -> (r: String)
    ensures
        r@ == forward_port_spec(tunnel_command@, local_port),
{
    proof {
        reveal_strlit("-L");
        reveal_strlit(" ");
    }
    let v = chars_of(tunnel_command);
    let mut tokens = split_words(v.as_slice());
    let ghost tv = tokens.deep_view();
    let dash_l: [char; 2] = ['-', 'L'];
    assert(dash_l@ =~= "-L"@);
    let n = tokens.len();
    let mut i: usize = 0;
    while i < n
        invariant
            n == tokens@.len(),
            tv == tokens.deep_view(),
            tv == words(tunnel_command@),
            dash_l@ == "-L"@,
            i <= n,
            forward_index_from(tv, 0) == forward_index_from(tv, i as int),
        decreases n - i,
    {
        proof {
            crate::text::lemma_chars_deep(tokens@[i as int]);
            assert(tv[i as int] == tokens@[i as int].deep_view());
        }
        if crate::text::starts_with_chars(tokens[i].as_slice(), &dash_l) {
            let space: [char; 1] = [' '];
            proof {
                reveal_strlit(" ");
                reveal_strlit("-L");
                assert(space@ =~= " "@);
            }
            if crate::text::chars_eq(tokens[i].as_slice(), &dash_l) && i + 1 < n {
                proof {
                    crate::text::lemma_chars_deep(tokens@[i + 1]);
                    assert(tv[i + 1] == tokens@[i + 1].deep_view());
                }
                let updated = forward_spec_chars(tokens[i + 1].as_slice(), local_port);
                let ghost u = updated@;
                proof {
                    crate::text::lemma_chars_deep(updated);
                }
                tokens.set(i + 1, updated);
                proof {
                    assert(tokens.deep_view() =~= tv.update(i + 1, u));
                }
                let joined = join_chars(&tokens, &space);
                return string_from_chars(joined.as_slice());
            }
            let rest = crate::text::slice_chars(tokens[i].as_slice(), 2, tokens[i].len());
            let spec = forward_spec_chars(rest.as_slice(), local_port);
            let mut word: Vec<char> = Vec::new();
            word.push('-');
            word.push('L');
            crate::text::extend_chars(&mut word, spec.as_slice());
            let ghost w = word@;
            proof {
                crate::text::lemma_chars_deep(word);
                assert(rest@ =~= tv[i as int].skip(2));
                assert(w =~= "-L"@ + forward_spec_spec(tv[i as int].skip(2), local_port));
            }
            tokens.set(i, word);
            proof {
                assert(tokens.deep_view() =~= tv.update(i as int, w));
            }
            let joined = join_chars(&tokens, &space);
            return string_from_chars(joined.as_slice());
        }
        i = i + 1;
    }
    owned(tunnel_command)
}

/// The command a surface's tunnel runs: its known placeholders replaced, or, when
/// it has none, the local port of its first `-L` forward replaced.
pub open spec fn runtime_tunnel_spec(cmd: Seq<char>, remote_url: Seq<char>, port: u16) -> Seq<char> {
    let r1 = known_placeholders_spec(cmd, remote_url, port);
    if r1 != cmd {
        r1
    } else {
        forward_port_spec(cmd, port)
    }
}

/// The command a surface's tunnel runs for the given local port.
pub fn resolve_runtime_tunnel_command(tunnel_command: &str, remote_url: &str, local_port: u16) -> (r:
    String)
    ensures
        r@ == runtime_tunnel_spec(tunnel_command@, remote_url@, local_port),
{
    let resolved = replace_known_tunnel_placeholders(tunnel_command, remote_url, local_port);
    if !str_eq(resolved.as_str(), tunnel_command) {
        return resolved;
    }
    rewrite_tunnel_forward_port(resolved.as_str(), local_port)
}

/// The command of a surface's Vite HMR tunnel: `{localPort}` replaced, or, when it
/// does not occur, the local port of its first `-L` forward replaced.
pub open spec fn runtime_hmr_spec(cmd: Seq<char>, port: u16) -> Seq<char> {
    let r1 = replace_seq(cmd, "{localPort}"@, dec(port as nat));
    if r1 != cmd {
        r1
    } else {
        forward_port_spec(cmd, port)
    }
}

/// The command of a surface's Vite HMR tunnel for the given local port.
pub fn resolve_runtime_vite_hmr_tunnel_command(tunnel_command: &str, local_port: u16) -> (r: String)
    ensures
        r@ == runtime_hmr_spec(tunnel_command@, local_port),
{
    proof {
        reveal_strlit("{localPort}");
    }
    let port_text = dec_string(local_port as u64);
    let resolved = replace_str(tunnel_command, "{localPort}", port_text.as_str());
    if !str_eq(resolved.as_str(), tunnel_command) {
        return resolved;
    }
    rewrite_tunnel_forward_port(resolved.as_str(), local_port)
}

/// `http://127.0.0.1:<port>/`.
pub open spec fn local_probe_url_spec(port: u16) -> Seq<char> {
    "http://127.0.0.1:"@ + dec(port as nat) + "/"@
}

/// The URL a surface is opened at: its local URL (the remote one when it has none)
/// with `{localPort}` replaced and moved to `127.0.0.1` and the local port; else the
/// remote URL moved there; else `http://127.0.0.1:<port>/`.
pub open spec fn runtime_local_url_spec(local_url: Seq<char>, remote_url: Seq<char>, port: u16) -> Seq<
    char,
> {
    let template = replace_seq(
        if blank(local_url) {
            remote_url
        } else {
            local_url
        },
        "{localPort}"@,
        dec(port as nat),
    );
    if url_parses(template) {
        url_relocated(template, surface_host(), port)
    } else if url_parses(remote_url) {
        url_relocated(remote_url, surface_host(), port)
    } else {
        local_probe_url_spec(port)
    }
}

/// The URL a surface is opened at for the given local port.
pub fn resolve_runtime_local_url(local_url: &str, remote_url: &str, local_port: u16) -> (r: String)
    ensures
        r@ == runtime_local_url_spec(local_url@, remote_url@, local_port),
{
    proof {
        reveal_strlit("{localPort}");
        reveal_strlit("127.0.0.1");
    }
    let port_text = dec_string(local_port as u64);
    let source = if is_blank(local_url) {
        remote_url
    } else {
        local_url
    };
    let template = replace_str(source, "{localPort}", port_text.as_str());
    match relocate_url(template.as_str(), "127.0.0.1", local_port) {
        Some(u) => {
            return u;
        },
        None => {},
    }
    match relocate_url(remote_url, "127.0.0.1", local_port) {
        Some(u) => {
            return u;
        },
        None => {},
    }
    internal_probe_url(local_port)
}

/// The URL an internal tunnel is probed at: `http://127.0.0.1:<port>/`.
pub fn internal_probe_url(port: u16) -> (r: String)
    ensures
        r@ == local_probe_url_spec(port),
{
    let p = dec_string(port as u64);
    concat3("http://127.0.0.1:", p.as_str(), "/")
}

/// The local port of a surface, from its local URL: an error when the URL does not
/// parse or has no port.
pub open spec fn local_port_spec(surface: RuntimeSurfaceV) -> Result<u16, Seq<char>> {
    if !url_parses(surface.local_url) {
        Err("Failed to parse local URL for "@ + surface.id + " surface: "@ + url_parse_error_text(surface.local_url))
    } else {
        match url_known_port(surface.local_url) {
            Some(p) => Ok(p),
            None => Err("Local URL for "@ + surface.id + " surface is missing a port: "@ + surface.local_url),
        }
    }
}

/// The local port of a surface, from its local URL: an error when the URL does not
/// parse or has no port.
pub fn surface_local_port(surface: &RuntimeSurface) -> (r: Result<u16, String>)
    ensures
        result_v(r) == local_port_spec(surface@),
{
    match parse_url_port(surface.local_url.as_str()) {
        Ok(Some(p)) => Ok(p),
        Ok(None) => {
            let mut m = concat3("Local URL for ", surface.id.as_str(), " surface is missing a port: ");
            m.append(surface.local_url.as_str());
            Err(m)
        },
        Err(error) => {
            let mut m = concat3("Failed to parse local URL for ", surface.id.as_str(), " surface: ");
            m.append(error.as_str());
            Err(m)
        },
    }
}

// ---------------------------------------------------------------------------
// Hydrated surfaces and targets
// ---------------------------------------------------------------------------
/// A surface served on a local port: its tunnel command and local URL rewritten
/// for the port.
pub open spec fn hydrated_spec(s: RuntimeSurfaceV, port: u16) -> RuntimeSurfaceV {
    RuntimeSurfaceV {
        tunnel_command: runtime_tunnel_spec(s.tunnel_command, s.remote_url, port),
        local_url: runtime_local_url_spec(s.local_url, s.remote_url, port),
        ..s
    }
}

/// Whether `h` is the surface `s` of a target as served with the ports of the
/// registry: unchanged without a tunnel, else rewritten for the port recorded for it.
pub open spec fn surface_hydrated(
    target_id: Seq<char>,
    s: RuntimeSurfaceV,
    h: RuntimeSurfaceV,
    entries: Seq<(Seq<char>, u16)>,
) -> bool {
    if blank(s.tunnel_command) {
        h == s
    } else {
        port_of(entries, target_id + "::"@ + s.id) matches Some(p) && h == hydrated_spec(s, p)
    }
}

/// Every port recorded in `a` is recorded, the same, in `b`.
pub open spec fn registry_extends(a: Seq<(Seq<char>, u16)>, b: Seq<(Seq<char>, u16)>) -> bool {
    forall|k: Seq<char>| #[trigger] port_of(a, k) is Some ==> port_of(b, k) == port_of(a, k)
}

/// The error given when no port of the surface range is free.
pub open spec fn no_free_surface_port() -> Seq<char> {
    "No free browser surface ports available in "@ + dec(SURFACE_PORT_START as nat) + "-"@ + dec(
        SURFACE_PORT_END as nat,
    ) + "."@
}

/// A surface as served: unchanged when it has no tunnel, else with a port of the
/// surface range and its tunnel command and local URL rewritten for it.
pub fn hydrate_surface(
    target_id: &str,
    surface: &RuntimeSurface,
    registry: &mut PortRegistry,
    port_is_free: impl Fn(u16) -> bool,
) -> (r: Result<RuntimeSurface, String>)
    requires
        old(registry).wf(),
        forall|p: u16| port_is_free.requires((p,)),
    ensures
        final(registry).wf(),
        registry_extends(old(registry)@, final(registry)@),
        match r {
            Ok(h) => surface_hydrated(target_id@, surface@, h@, final(registry)@),
            Err(e) => e@ == no_free_surface_port() && final(registry)@ == old(registry)@,
        },
{
    if is_blank(surface.tunnel_command.as_str()) {
        return Ok(surface.duplicate());
    }
    let local_port = allocate_surface_port(registry, target_id, surface.id.as_str(), port_is_free);
    proof {
        assert forall|k: Seq<char>| #[trigger] port_of(old(registry)@, k) is Some implies port_of(
            registry@,
            k,
        ) == port_of(old(registry)@, k) by {
            if registry@ != old(registry)@ {
                let key = target_id@ + "::"@ + surface.id@;
                let p = local_port->Ok_0;
                lemma_port_of_push(old(registry)@, key, p, k);
            }
        }
    }
    let local_port = match local_port {
        Ok(p) => p,
        Err(e) => {
            proof {
                reveal_strlit("No free browser surface ports available in ");
            }
            return Err(e);
        },
    };
    let mut runtime_surface = surface.duplicate();
    runtime_surface.tunnel_command = resolve_runtime_tunnel_command(
        surface.tunnel_command.as_str(),
        surface.remote_url.as_str(),
        local_port,
    );
    runtime_surface.local_url = resolve_runtime_local_url(
        surface.local_url.as_str(),
        surface.remote_url.as_str(),
        local_port,
    );
    Ok(runtime_surface)
}

/// A target as served: the same target, each surface hydrated (see
/// `surface_hydrated`) against the registry `entries`.
pub open spec fn target_hydrated(target: RuntimeTarget, t: RuntimeTarget, entries: Seq<(Seq<char>, u16)>) -> bool {
    &&& t.id@ == target.id@
    &&& t.label@ == target.label@
    &&& t.host@ == target.host@
    &&& t.description@ == target.description@
    &&& t.terminal_command@ == target.terminal_command@
    &&& crate::model::strs(t.notes@) == crate::model::strs(target.notes@)
    &&& t.surfaces@.len() == target.surfaces@.len()
    &&& forall|i: int|
        0 <= i < t.surfaces@.len() ==> surface_hydrated(
            target.id@,
            #[trigger] target.surfaces@[i]@,
            t.surfaces@[i]@,
            entries,
        )
}

/// A hydrated target stays hydrated as the registry grows.
proof fn lemma_target_hydrated_extends(
    target: RuntimeTarget,
    t: RuntimeTarget,
    a: Seq<(Seq<char>, u16)>,
    b: Seq<(Seq<char>, u16)>,
)
    requires
        target_hydrated(target, t, a),
        registry_extends(a, b),
    ensures
        target_hydrated(target, t, b),
{
    assert forall|i: int| 0 <= i < t.surfaces@.len() implies surface_hydrated(
        target.id@,
        #[trigger] target.surfaces@[i]@,
        t.surfaces@[i]@,
        b,
    ) by {
        let s = target.surfaces@[i]@;
        if !blank(s.tunnel_command) {
            assert(port_of(a, target.id@ + "::"@ + s.id) is Some);
        }
    }
}

/// A target as served: its surfaces hydrated in order (see `hydrate_surface`),
/// the first error ending the work.
pub fn hydrate_target(
    target: &RuntimeTarget,
    registry: &mut PortRegistry,
    port_is_free: impl Fn(u16) -> bool,
) -> (r: Result<RuntimeTarget, String>)
    requires
        old(registry).wf(),
        forall|p: u16| port_is_free.requires((p,)),
    ensures
        final(registry).wf(),
        registry_extends(old(registry)@, final(registry)@),
        match r {
            Ok(t) => target_hydrated(*target, t, final(registry)@),
            Err(e) => e@ == no_free_surface_port(),
        },
{
    let mut surfaces: Vec<RuntimeSurface> = Vec::new();
    let len = target.surfaces.len();
    let mut i: usize = 0;
    while i < len
        invariant
            len == target.surfaces@.len(),
            i <= len,
            registry.wf(),
            registry_extends(old(registry)@, registry@),
            forall|p: u16| port_is_free.requires((p,)),
            surfaces@.len() == i,
            forall|j: int|
                0 <= j < i ==> surface_hydrated(
                    target.id@,
                    #[trigger] target.surfaces@[j]@,
                    surfaces@[j]@,
                    registry@,
                ),
        decreases len - i,
    {
        let ghost before = registry@;
        let h = hydrate_surface(target.id.as_str(), &target.surfaces[i], registry, &port_is_free);
        match h {
            Ok(h) => {
                proof {
                    assert forall|j: int| 0 <= j < i implies surface_hydrated(
                        target.id@,
                        #[trigger] target.surfaces@[j]@,
                        surfaces@[j]@,
                        registry@,
                    ) by {
                        let s = target.surfaces@[j]@;
                        if !blank(s.tunnel_command) {
                            let key = target.id@ + "::"@ + s.id;
                            assert(port_of(before, key) is Some);
                        }
                    }
                }
                surfaces.push(h);
            },
            Err(e) => {
                return Err(e);
            },
        }
        i = i + 1;
    }
    Ok(RuntimeTarget {
        id: target.id.clone(),
        label: target.label.clone(),
        host: target.host.clone(),
        description: target.description.clone(),
        terminal_command: target.terminal_command.clone(),
        notes: crate::model::copy_strings(&target.notes),
        surfaces,
    })
}

/// Every target as served (see `target_hydrated`), against the registry after all
/// of them; the first failure to find a port is the error.
pub fn read_runtime_targets_file(
    targets: &Vec<RuntimeTarget>,
    registry: &mut PortRegistry,
    port_is_free: impl Fn(u16) -> bool,
) -> (r: Result<Vec<RuntimeTarget>, String>)
    requires
        old(registry).wf(),
        forall|p: u16| port_is_free.requires((p,)),
    ensures
        final(registry).wf(),
        registry_extends(old(registry)@, final(registry)@),
        match r {
            Ok(v) => v@.len() == targets@.len() && forall|i: int|
                0 <= i < v@.len() ==> target_hydrated(#[trigger] targets@[i], v@[i], final(registry)@),
            Err(e) => e@ == no_free_surface_port(),
        },
{
    let mut out: Vec<RuntimeTarget> = Vec::new();
    let n = targets.len();
    let mut i: usize = 0;
    while i < n
        invariant
            n == targets@.len(),
            i <= n,
            registry.wf(),
            registry_extends(old(registry)@, registry@),
            forall|p: u16| port_is_free.requires((p,)),
            out@.len() == i,
            forall|j: int| 0 <= j < i ==> target_hydrated(#[trigger] targets@[j], out@[j], registry@),
        decreases n - i,
    {
        let ghost before = registry@;
        match hydrate_target(&targets[i], registry, &port_is_free) {
            Ok(t) => {
                proof {
                    assert forall|j: int| 0 <= j < i implies target_hydrated(#[trigger] targets@[j], out@[j], registry@) by {
                        lemma_target_hydrated_extends(targets@[j], out@[j], before, registry@);
                    }
                }
                out.push(t);
            },
            Err(e) => {
                return Err(e);
            },
        }
        i = i + 1;
    }
    Ok(out)
}

/// The index of the first target at or after `i` with the given identifier.
pub open spec fn runtime_target_index(ts: Seq<RuntimeTarget>, id: Seq<char>, i: int) -> Option<int>
    decreases ts.len() - i,
{
    if i < 0 || i >= ts.len() {
        None
    } else if ts[i].id@ == id {
        Some(i)
    } else {
        runtime_target_index(ts, id, i + 1)
    }
}

/// The index of the first surface at or after `i` with the given identifier.
pub open spec fn runtime_surface_index(ss: Seq<RuntimeSurface>, id: Seq<char>, i: int) -> Option<int>
    decreases ss.len() - i,
{
    if i < 0 || i >= ss.len() {
        None
    } else if ss[i].id@ == id {
        Some(i)
    } else {
        runtime_surface_index(ss, id, i + 1)
    }
}

fn find_runtime_target(targets: &Vec<RuntimeTarget>, target_id: &str) -> (r: Option<usize>)
    ensures
        match r {
            Some(i) => runtime_target_index(targets@, target_id@, 0) == Some(i as int) && i
                < targets@.len(),
            None => runtime_target_index(targets@, target_id@, 0) is None,
        },
{
    let len = targets.len();
    let mut i: usize = 0;
    while i < len
        invariant
            len == targets@.len(),
            i <= len,
            runtime_target_index(targets@, target_id@, 0) == runtime_target_index(
                targets@,
                target_id@,
                i as int,
            ),
        decreases len - i,
    {
        if str_eq(targets[i].id.as_str(), target_id) {
            return Some(i);
        }
        i = i + 1;
    }
    None
}

/// A target as served, looked up by identifier: an error for an unknown one.
pub fn resolve_runtime_target(
    targets: &Vec<RuntimeTarget>,
    target_id: &str,
    registry: &mut PortRegistry,
    port_is_free: impl Fn(u16) -> bool,
) -> (r: Result<RuntimeTarget, String>)
    requires
        old(registry).wf(),
        forall|p: u16| port_is_free.requires((p,)),
    ensures
        final(registry).wf(),
        registry_extends(old(registry)@, final(registry)@),
        match runtime_target_index(targets@, target_id@, 0) {
            None => r matches Err(e) && e@ == "Unknown target: "@ + target_id@ && final(registry)@
                == old(registry)@,
            Some(k) => match r {
                Ok(t) => t.id@ == target_id@ && target_hydrated(targets@[k], t, final(registry)@),
                Err(e) => e@ == no_free_surface_port(),
            },
        },
{
    match find_runtime_target(targets, target_id) {
        None => Err(concat2("Unknown target: ", target_id)),
        Some(k) => {
            proof {
                lemma_runtime_target_index(targets@, target_id@, 0);
            }
            hydrate_target(&targets[k], registry, port_is_free)
        },
    }
}

proof fn lemma_runtime_target_index(ts: Seq<RuntimeTarget>, id: Seq<char>, i: int)
    requires
        0 <= i,
    ensures
        runtime_target_index(ts, id, i) matches Some(k) ==> i <= k < ts.len() && ts[k].id@ == id,
    decreases ts.len() - i,
{
    if i < ts.len() && ts[i].id@ != id {
        lemma_runtime_target_index(ts, id, i + 1);
    }
}

/// A surface of a target as served, looked up by identifiers: an error for an
/// unknown target or surface.
pub fn resolve_runtime_surface(
    targets: &Vec<RuntimeTarget>,
    target_id: &str,
    surface_id: &str,
    registry: &mut PortRegistry,
    port_is_free: impl Fn(u16) -> bool,
) -> (r: Result<RuntimeSurface, String>)
    requires
        old(registry).wf(),
        forall|p: u16| port_is_free.requires((p,)),
    ensures
        final(registry).wf(),
        registry_extends(old(registry)@, final(registry)@),
        match runtime_target_index(targets@, target_id@, 0) {
            None => r matches Err(e) && e@ == "Unknown target: "@ + target_id@,
            Some(k) => match runtime_surface_index(targets@[k].surfaces@, surface_id@, 0) {
                None => r matches Err(e) && (e@ == "Unknown browser surface "@ + surface_id@
                    + " for target "@ + target_id@ || e@ == no_free_surface_port()),
                Some(j) => match r {
                    Ok(h) => surface_hydrated(
                        target_id@,
                        targets@[k].surfaces@[j]@,
                        h@,
                        final(registry)@,
                    ),
                    Err(e) => e@ == no_free_surface_port(),
                },
            },
        },
{
    let target = match resolve_runtime_target(targets, target_id, registry, port_is_free) {
        Ok(t) => t,
        Err(e) => {
            return Err(e);
        },
    };
    let ghost k = runtime_target_index(targets@, target_id@, 0)->Some_0;
    let len = target.surfaces.len();
    proof {
        lemma_runtime_target_index(targets@, target_id@, 0);
        assert forall|q: int| 0 <= q < len implies #[trigger] target.surfaces@[q].id@
            == targets@[k].surfaces@[q].id@ by {
            assert(surface_hydrated(
                target_id@,
                targets@[k].surfaces@[q]@,
                target.surfaces@[q]@,
                registry@,
            ));
        }
    }
    let mut i: usize = 0;
    while i < len
        invariant
            len == target.surfaces@.len(),
            i <= len,
            runtime_target_index(targets@, target_id@, 0) == Some(k),
            0 <= k < targets@.len(),
            registry.wf(),
            registry_extends(old(registry)@, registry@),
            forall|q: int|
                0 <= q < len ==> surface_hydrated(
                    target_id@,
                    #[trigger] targets@[k].surfaces@[q]@,
                    target.surfaces@[q]@,
                    registry@,
                ),
            target.surfaces@.len() == targets@[k].surfaces@.len(),
            forall|q: int|
                0 <= q < len ==> #[trigger] target.surfaces@[q].id@ == targets@[k].surfaces@[q].id@,
            runtime_surface_index(targets@[k].surfaces@, surface_id@, 0) == runtime_surface_index(
                targets@[k].surfaces@,
                surface_id@,
                i as int,
            ),
        decreases len - i,
    {
        if str_eq(target.surfaces[i].id.as_str(), surface_id) {
            return Ok(target.surfaces[i].duplicate());
        }
        i = i + 1;
    }
    let mut m = concat3("Unknown browser surface ", surface_id, " for target ");
    m.append(target_id);
    Err(m)
}

// ---------------------------------------------------------------------------
// Laws
// ---------------------------------------------------------------------------
/// A key keeps its port: after an allocation for a key gave a port, allocating for
/// the same key again, with any range and whatever the probe of free ports answers,
/// gives the same port and leaves the registry as it was.
pub proof fn law_allocation_is_stable(
    e0: Seq<(Seq<char>, u16)>,
    e1: Seq<(Seq<char>, u16)>,
    e2: Seq<(Seq<char>, u16)>,
    key: Seq<char>,
    bytes: Seq<u8>,
    start: u16,
    end: u16,
    start2: u16,
    end2: u16,
    port: u16,
    r2: Result<u16, Seq<char>>,
)
    requires
        allocated(e0, e1, key, bytes, start, end, Ok(port)),
        allocated(e1, e2, key, bytes, start2, end2, r2),
    ensures
        r2 == Ok::<u16, Seq<char>>(port),
        e2 == e1,
{
    if port_of(e0, key) is None {
        lemma_port_of_push(e0, key, port, key);
    }
}

/// An allocation keeps the registry well formed: no key and no port twice.
pub proof fn law_allocation_keeps_registry_wf(
    e0: Seq<(Seq<char>, u16)>,
    e1: Seq<(Seq<char>, u16)>,
    key: Seq<char>,
    bytes: Seq<u8>,
    start: u16,
    end: u16,
    r: Result<u16, Seq<char>>,
)
    requires
        registry_wf(e0),
        allocated(e0, e1, key, bytes, start, end, r),
    ensures
        registry_wf(e1),
        registry_extends(e0, e1),
{
    if let Ok(p) = r {
        if port_of(e0, key) is None {
            lemma_port_of_some(e0, key);
            assert forall|i: int, j: int| 0 <= i < j < e1.len() implies #[trigger] e1[i].0
                != #[trigger] e1[j].0 && e1[i].1 != e1[j].1 by {
                if j == e1.len() - 1 {
                    assert(e1[j] == (key, p));
                    assert(e1[i] == e0[i]);
                    if e0[i].1 == p {
                        assert(port_taken(e0, p));
                    }
                } else {
                    assert(e1[i] == e0[i]);
                    assert(e1[j] == e0[j]);
                }
            }
            assert forall|k: Seq<char>| #[trigger] port_of(e0, k) is Some implies port_of(e1, k)
                == port_of(e0, k) by {
                lemma_port_of_push(e0, key, p, k);
            }
        }
    }
}

/// No port is handed to two keys: in a registry every allocation keeps well
/// formed, two different keys that have ports have different ports.
pub proof fn law_ports_are_distinct(entries: Seq<(Seq<char>, u16)>, k1: Seq<char>, k2: Seq<char>)
    requires
        registry_wf(entries),
        k1 != k2,
        port_of(entries, k1) is Some,
        port_of(entries, k2) is Some,
    ensures
        port_of(entries, k1) != port_of(entries, k2),
{
    let i = lemma_port_of_index(entries, k1);
    let j = lemma_port_of_index(entries, k2);
    assert(i != j);
    if i < j {
        assert(entries[i].1 != entries[j].1);
    } else {
        assert(entries[j].1 != entries[i].1);
    }
}

proof fn lemma_port_of_index(entries: Seq<(Seq<char>, u16)>, key: Seq<char>) -> (i: int)
    requires
        port_of(entries, key) is Some,
    ensures
        0 <= i < entries.len(),
        entries[i].0 == key,
        port_of(entries, key) == Some(entries[i].1),
    decreases entries.len(),
{
    if entries.last().0 == key {
        (entries.len() - 1) as int
    } else {
        let i = lemma_port_of_index(entries.drop_last(), key);
        assert(entries.drop_last()[i] == entries[i]);
        i
    }
}

/// In a well-formed registry the port of a key is the port of no other key.
proof fn lemma_allocated_port_is_unique(entries: Seq<(Seq<char>, u16)>, key: Seq<char>, p: u16)
    requires
        registry_wf(entries),
        port_of(entries, key) == Some(p),
    ensures
        forall|k: Seq<char>| k != key && #[trigger] port_of(entries, k) is Some ==> port_of(entries, k) != Some(p),
{
    assert forall|k: Seq<char>| k != key && #[trigger] port_of(entries, k) is Some implies port_of(entries, k) != Some(p) by {
        law_ports_are_distinct(entries, key, k);
    }
}

/// A fresh port always lies in its range: the stable offset of any key is below the
/// size of the range, so the first candidate is `start + offset <= end`.
pub proof fn law_offset_in_range(bytes: Seq<u8>, start: u16, end: u16)
    requires
        start <= end,
    ensures
        0 <= fnv1a(bytes) as int % (end - start + 1) < end - start + 1,
        start <= candidate_port(start, end, fnv1a(bytes) as int, 0) <= end,
{
}

/// A surface is served on the port recorded for it: hydrating a surface with a
/// tunnel twice against the same registry gives the same tunnel command and URL.
pub proof fn law_hydration_is_repeatable(
    target_id: Seq<char>,
    s: RuntimeSurfaceV,
    h1: RuntimeSurfaceV,
    h2: RuntimeSurfaceV,
    entries: Seq<(Seq<char>, u16)>,
)
    requires
        surface_hydrated(target_id, s, h1, entries),
        surface_hydrated(target_id, s, h2, entries),
    ensures
        h1 == h2,
{
}


/// The specification of the first `-L` forward of a command: the word after a bare
/// `-L`, else the rest of the first word that starts with `-L`.
pub open spec fn first_forward(cmd: Seq<char>) -> Option<Seq<char>> {
    let ts = words(cmd);
    match forward_index_from(ts, 0) {
        None => None,
        Some(i) => Some(
            if ts[i] == "-L"@ && i + 1 < ts.len() {
                ts[i + 1]
            } else {
                ts[i].skip(2)
            },
        ),
    }
}

/// The local part of a forward specification: the text before its first `:`.
pub open spec fn forward_local(spec: Seq<char>) -> Option<Seq<char>> {
    match crate::text::find_seq(spec, ":"@) {
        Some(k) => Some(spec.take(k)),
        None => None,
    }
}

proof fn lemma_forward_index(ts: Seq<Seq<char>>, i0: int)
    requires
        0 <= i0,
    ensures
        forward_index_from(ts, i0) matches Some(i) ==> i0 <= i < ts.len() && starts_with(ts[i], "-L"@) && forall|k: int|
            i0 <= k < i ==> !starts_with(#[trigger] ts[k], "-L"@),
    decreases ts.len() - i0,
{
    if i0 < ts.len() && !starts_with(ts[i0], "-L"@) {
        lemma_forward_index(ts, i0 + 1);
    }
}

proof fn lemma_forward_index_at(ts: Seq<Seq<char>>, i0: int, i: int)
    requires
        0 <= i0 <= i < ts.len(),
        starts_with(ts[i], "-L"@),
        forall|k: int| i0 <= k < i ==> !starts_with(#[trigger] ts[k], "-L"@),
    ensures
        forward_index_from(ts, i0) == Some(i),
    decreases i - i0,
{
    if i0 < i {
        lemma_forward_index_at(ts, i0 + 1, i);
    }
}

/// A tunnel command without known placeholders whose first `-L` forward names a
/// local part (`<local>:<rest>`) is resolved to forward from the given local port:
/// the first `-L` forward of the result has exactly the port's digits before its
/// first `:`, and what followed that `:` is kept.
pub proof fn law_tunnel_forwards_from_the_local_port(cmd: Seq<char>, remote_url: Seq<char>, port: u16)
    ensures
        known_placeholders_spec(cmd, remote_url, port) == cmd && (first_forward(cmd) matches Some(sp) && forward_local(
            sp,
        ) is Some) ==> (first_forward(runtime_tunnel_spec(cmd, remote_url, port)) matches Some(sp2) && forward_local(
            sp2,
        ) == Some(dec(port as nat)) && sp2.skip((dec(port as nat).len() + 1) as int) == first_forward(cmd)->Some_0.skip(
            crate::text::find_seq(first_forward(cmd)->Some_0, ":"@)->Some_0 + 1,
        )),
{
    reveal_strlit("-L");
    reveal_strlit(":");
    reveal_strlit(" ");
    if known_placeholders_spec(cmd, remote_url, port) == cmd && (first_forward(cmd) matches Some(sp) && forward_local(sp) is Some) {
        let ts = words(cmd);
        lemma_forward_index(ts, 0);
        let i = forward_index_from(ts, 0)->Some_0;
        let sp = first_forward(cmd)->Some_0;
        let k = crate::text::find_seq(sp, ":"@)->Some_0;
        crate::text::lemma_find_from_some(sp, ":"@, 0);
        crate::text::lemma_find_first(sp, ":"@, 0);
        assert(sp[k] == ':') by {
            assert(sp.subrange(k, k + 1)[0] == sp[k]);
        }
        assert forall|j: int| 0 <= j < k implies #[trigger] sp[j] != ':' by {
            if sp[j] == ':' {
                assert(sp.subrange(j, j + 1) =~= ":"@);
                assert(crate::text::has_at(sp, ":"@, j));
                assert(!crate::text::has_at(sp, ":"@, j));
            }
        }
        let d = dec(port as nat);
        crate::text::lemma_dec_plain(port as nat);
        let new = d + ":"@ + sp.skip(k + 1);
        assert(forward_spec_spec(sp, port) == new);
        crate::text::lemma_words_plain(cmd);
        let bare = ts[i] == "-L"@ && i + 1 < ts.len();
        if !bare {
            assert(ts[i].len() > 2) by {
                if ts[i].len() <= 2 {
                    assert(ts[i].take(2) =~= ts[i]);
                    assert(ts[i] =~= "-L"@);
                    assert(ts[i].skip(2).len() == 0);
                }
            }
        }
        let t2 = rewritten_words(ts, port)->Some_0;
        assert(t2 == if bare {
            ts.update(i + 1, new)
        } else {
            ts.update(i, "-L"@ + new)
        });
        // the new word is plain
        assert forall|j: int| 0 <= j < new.len() implies !crate::text::is_ws(#[trigger] new[j]) by {
            if j < d.len() {
                assert(new[j] == d[j]);
            } else if j == d.len() {
                assert(new[j] == ':');
            } else {
                assert(new[j] == sp[k + 1 + (j - d.len() - 1)]);
                if bare {
                    assert(sp == ts[i + 1]);
                    assert(!crate::text::is_ws(ts[i + 1][k + 1 + (j - d.len() - 1)]));
                } else {
                    assert(sp == ts[i].skip(2));
                    assert(sp[k + 1 + (j - d.len() - 1)] == ts[i][2 + k + 1 + (j - d.len() - 1)]);
                    assert(!crate::text::is_ws(ts[i][2 + k + 1 + (j - d.len() - 1)]));
                }
            }
        }
        let lw = "-L"@ + new;
        assert forall|j: int| 0 <= j < lw.len() implies !crate::text::is_ws(#[trigger] lw[j]) by {
            if j >= 2 {
                assert(lw[j] == new[j - 2]);
            }
        }
        assert forall|m: int| 0 <= m < t2.len() implies (#[trigger] t2[m]).len() > 0 by {
            if m != i && m != i + 1 {
                assert(t2[m] == ts[m]);
            }
        }
        assert forall|m: int, j: int| 0 <= m < t2.len() && 0 <= j < t2[m].len() implies !crate::text::is_ws(
            #[trigger] t2[m][j],
        ) by {
            if bare && m == i + 1 {
                assert(t2[m] == new);
            } else if !bare && m == i {
                assert(t2[m] == lw);
            } else {
                assert(t2[m] == ts[m]);
            }
        }
        crate::text::lemma_words_of_join(t2);
        let r = runtime_tunnel_spec(cmd, remote_url, port);
        assert(r == join_seq(t2, " "@));
        assert(words(r) == t2);
        // the first forward of the result is still at i
        assert(starts_with(t2[i], "-L"@)) by {
            if !bare {
                assert(lw.take(2) =~= "-L"@);
            }
        }
        assert forall|m: int| 0 <= m < i implies !starts_with(#[trigger] t2[m], "-L"@) by {
            assert(t2[m] == ts[m]);
        }
        lemma_forward_index_at(t2, 0, i);
        let sp2 = first_forward(r)->Some_0;
        if bare {
            assert(t2[i] == ts[i]);
            assert(sp2 == new);
        } else {
            assert(t2[i] == lw);
            assert(lw != "-L"@) by {
                assert(lw.len() > 2);
            }
            assert(lw.skip(2) =~= new);
            assert(sp2 == new);
        }
        assert forall|j: int| 0 <= j < d.len() implies #[trigger] new[j] != ':' by {
            assert(new[j] == d[j]);
        }
        crate::text::lemma_first_colon(new, d.len() as int);
        assert(new.take(d.len() as int) =~= d);
        assert(new.skip((d.len() + 1) as int) =~= sp.skip(k + 1));
    }
}
} // verus!
