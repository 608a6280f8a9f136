//! Text handling of container discovery: quoting, IPv4 extraction, labels and the
//! rendering of machine templates for a container.
use crate::model::{
    BrowserServiceType, BrowserSurface, CommandService, ContainerWorkspace, DeveloperService,
    DeveloperServiceKind, EndpointService, RemoteContainerContext, RemoteContainerServer,
    ServiceV, SurfaceV, WorkspaceV,
};
use crate::ssh::{
    container_alias_spec, container_host_key_alias, ssh_flags_spec, ssh_options_for_context,
    UserHome,
};
use crate::text::{
    blank, chars_of, concat2, eq_ignore_case, eq_ignore_case_chars, fields, has_at,
    in_class, is_blank, is_blank_chars, join_chars, join_seq, keep_non_empty, non_empty,
    owned, replace_seq, replace_str, slice_chars, split_fields, starts_with, starts_with_chars,
    string_from_chars, trim_chars, trim_seq, CharClass,
};
use vstd::prelude::*;

verus! {

// ---------------------------------------------------------------------------
// Quotes
// ---------------------------------------------------------------------------
/// `s` without its leading `c` characters.
pub open spec fn strip_start_spec(s: Seq<char>, c: char) -> Seq<char>
    decreases s.len(),
{
    if s.len() > 0 && s[0] == c {
        strip_start_spec(s.drop_first(), c)
    } else {
        s
    }
}

/// `s` without its trailing `c` characters.
pub open spec fn strip_end_spec(s: Seq<char>, c: char) -> Seq<char>
    decreases s.len(),
{
    if s.len() > 0 && s.last() == c {
        strip_end_spec(s.drop_last(), c)
    } else {
        s
    }
}

/// `str::trim_matches(c)`.
pub open spec fn strip_spec(s: Seq<char>, c: char) -> Seq<char> {
    strip_end_spec(strip_start_spec(s, c), c)
}

/// `value.trim().trim_matches('"').trim_matches('\'')`.
pub open spec fn trim_quotes_spec(s: Seq<char>) -> Seq<char> {
    strip_spec(strip_spec(trim_seq(s), '"'), '\'')
}

proof fn lemma_strip_start_skip(s: Seq<char>, c: char, i: int)
    requires
        0 <= i <= s.len(),
        forall|j: int| 0 <= j < i ==> #[trigger] s[j] == c,
    ensures
        strip_start_spec(s, c) == strip_start_spec(s.skip(i), c),
    decreases i,
{
    if i > 0 {
        assert(s.drop_first().skip(i - 1) =~= s.skip(i));
        assert forall|j: int| 0 <= j < i - 1 implies #[trigger] s.drop_first()[j] == c by {
            assert(s.drop_first()[j] == s[j + 1]);
        }
        lemma_strip_start_skip(s.drop_first(), c, i - 1);
    } else {
        assert(s.skip(0) =~= s);
    }
}

proof fn lemma_strip_end_take(s: Seq<char>, c: char, j: int)
    requires
        0 <= j <= s.len(),
        forall|k: int| j <= k < s.len() ==> #[trigger] s[k] == c,
    ensures
        strip_end_spec(s, c) == strip_end_spec(s.take(j), c),
    decreases s.len() - j,
{
    if j < s.len() {
        assert(s.drop_last().take(j) =~= s.take(j));
        assert forall|k: int| j <= k < s.drop_last().len() implies #[trigger] s.drop_last()[k]
            == c by {
            assert(s.drop_last()[k] == s[k]);
        }
        lemma_strip_end_take(s.drop_last(), c, j);
    } else {
        assert(s.take(j) =~= s);
    }
}

/// `str::trim_matches(c)` on characters.
pub fn strip_char(s: &[char], c: char) -> (r: Vec<char>)
    ensures
        r@ == strip_spec(s@, c),
{
    let mut i: usize = 0;
    while i < s.len() && s[i] == c
        invariant
            i <= s@.len(),
            forall|j: int| 0 <= j < i ==> #[trigger] s@[j] == c,
        decreases s@.len() - i,
    {
        i = i + 1;
    }
    proof {
        lemma_strip_start_skip(s@, c, i as int);
    }
    let mut j: usize = s.len();
    let ghost t = s@.skip(i as int);
    while j > i && s[j - 1] == c
        invariant
            i <= j <= s@.len(),
            t == s@.skip(i as int),
            forall|k: int| j - i <= k < t.len() ==> #[trigger] t[k] == c,
        decreases j,
    {
        j = j - 1;
        assert(t[j - i] == s@[j as int]);
    }
    proof {
        lemma_strip_end_take(t, c, j - i);
        assert(t.take(j - i) =~= s@.subrange(i as int, j as int));
    }
    slice_chars(s, i, j)
}

/// A value with surrounding whitespace and quote characters removed.
pub fn trim_quotes_chars(value: &[char]) -> (r: Vec<char>)
    ensures
        r@ == trim_quotes_spec(value@),
{
    let t = trim_chars(value);
    let a = strip_char(t.as_slice(), '"');
    strip_char(a.as_slice(), '\'')
}

/// A value with surrounding whitespace, then `"` and `'` characters, removed.
pub fn trim_quotes(value: &str) -> (r: String)
    ensures
        r@ == trim_quotes_spec(value@),
{
    let v = chars_of(value);
    let t = trim_quotes_chars(v.as_slice());
    string_from_chars(t.as_slice())
}

// ---------------------------------------------------------------------------
// IPv4 addresses
// ---------------------------------------------------------------------------
/// An ASCII decimal digit.
pub open spec fn is_digit(c: char) -> bool {
    '0' <= c && c <= '9'
}

/// Value of a run of decimal digits.
pub open spec fn digits_value(s: Seq<char>) -> nat
    decreases s.len(),
{
    if s.len() == 0 {
        0
    } else {
        digits_value(s.drop_last()) * 10 + ((s.last() as nat) - 48) as nat
    }
}

/// One octet of a dotted IPv4 address: one to three digits, no leading zero unless
/// the octet is `0`, value at most 255.
pub open spec fn octet_ok(s: Seq<char>) -> bool {
    &&& 1 <= s.len() <= 3
    &&& forall|i: int| 0 <= i < s.len() ==> is_digit(#[trigger] s[i])
    &&& (s.len() > 1 ==> s[0] != '0')
    &&& digits_value(s) <= 255
}

/// Text that `std::net::Ipv4Addr` parses: four octets separated by dots.
pub open spec fn ipv4_text(s: Seq<char>) -> bool {
    let parts = fields(s, CharClass::Single('.'));
    parts.len() == 4 && forall|i: int| 0 <= i < 4 ==> octet_ok(#[trigger] parts[i])
}

fn octet_valid(s: &[char]) -> (b: bool)
    ensures
        b == octet_ok(s@),
{
    if s.len() < 1 || s.len() > 3 {
        return false;
    }
    let mut i: usize = 0;
    let mut v: u32 = 0;
    proof {
        assert(s@.take(0) =~= Seq::<char>::empty());
    }
    while i < s.len()
        invariant
            1 <= s@.len() <= 3,
            i <= s@.len(),
            forall|j: int| 0 <= j < i ==> is_digit(#[trigger] s@[j]),
            v == digits_value(s@.take(i as int)),
            i == 0 ==> v == 0,
            i <= 1 ==> v < 10,
            i <= 2 ==> v < 100,
            v < 1000,
        decreases s@.len() - i,
    {
        let c = s[i];
        if !('0' <= c && c <= '9') {
            return false;
        }
        proof {
            assert(s@.take(i + 1).drop_last() =~= s@.take(i as int));
            assert(s@.take(i + 1).last() == c);
        }
        v = v * 10 + (c as u32 - 48);
        i = i + 1;
    }
    assert(s@.take(s@.len() as int) =~= s@);
    if s.len() > 1 && s[0] == '0' {
        return false;
    }
    v <= 255
}

/// Whether text is an IPv4 address that `std::net::Ipv4Addr` accepts.
pub fn is_ipv4_text(s: &[char]) -> (b: bool)
    ensures
        b == ipv4_text(s@),
{
    let parts = split_fields(s, CharClass::Single('.'));
    if parts.len() != 4 {
        return false;
    }
    let mut i: usize = 0;
    while i < 4
        invariant
            parts@.len() == 4,
            parts.deep_view() == fields(s@, CharClass::Single('.')),
            i <= 4,
            forall|j: int| 0 <= j < i ==> octet_ok(#[trigger] parts.deep_view()[j]),
        decreases 4 - i,
    {
        proof {
            crate::text::lemma_chars_deep(parts@[i as int]);
        }
        assert(parts.deep_view()[i as int] == parts@[i as int]@);
        if !octet_valid(parts[i].as_slice()) {
            assert(!octet_ok(fields(s@, CharClass::Single('.'))[i as int]));
            return false;
        }
        i = i + 1;
    }
    true
}

/// An address and the interface it was reported on.
pub struct InterfaceAddress {
    pub ipv4: Vec<char>,
    pub interface: Vec<char>,
}

/// The first field of `e` (split on address separators, each trimmed) that is a
/// non-empty IPv4 address.
pub open spec fn first_address_from(toks: Seq<Seq<char>>, i: int) -> Option<Seq<char>>
    decreases toks.len() - i,
{
    if i < 0 || i >= toks.len() {
        None
    } else if trim_seq(toks[i]).len() > 0 && ipv4_text(trim_seq(toks[i])) {
        Some(trim_seq(toks[i]))
    } else {
        first_address_from(toks, i + 1)
    }
}

/// The interface name in `... (name) ...`: the text between the first `(` and the
/// next `)`, trimmed, or nothing.
pub open spec fn interface_spec(e: Seq<char>) -> Seq<char> {
    match crate::text::find_seq(e, seq!['(']) {
        Some(a) => {
            let tail = e.skip(a + 1);
            match crate::text::find_seq(tail, seq![')']) {
                Some(b) => trim_seq(tail.take(b)),
                None => seq![],
            }
        },
        None => seq![],
    }
}

/// The address reported by one entry of a discovery field, with its interface.
pub open spec fn entry_address(raw_entry: Seq<char>) -> Option<(Seq<char>, Seq<char>)> {
    let e = trim_quotes_spec(raw_entry);
    if e.len() == 0 {
        None
    } else {
        match first_address_from(fields(e, CharClass::AddressSeparators), 0) {
            Some(ip) => Some((ip, interface_spec(e))),
            None => None,
        }
    }
}

/// The addresses reported by the entries of a discovery field, in order.
pub open spec fn entry_addresses(entries: Seq<Seq<char>>) -> Seq<(Seq<char>, Seq<char>)>
    decreases entries.len(),
{
    if entries.len() == 0 {
        seq![]
    } else {
        let rest = entry_addresses(entries.drop_last());
        match entry_address(entries.last()) {
            Some(m) => rest.push(m),
            None => rest,
        }
    }
}

/// An interface that is a container's own network, not a bridge or loopback.
pub open spec fn primary_interface(name: Seq<char>) -> bool {
    &&& name.len() > 0
    &&& !eq_ignore_case(name, "docker0"@)
    &&& !starts_with(name, "br-"@)
    &&& !eq_ignore_case(name, "lxdbr0"@)
    &&& !eq_ignore_case(name, "lo"@)
}

/// First address (from `i` on) reported on `eth0`.
pub open spec fn first_eth0(ms: Seq<(Seq<char>, Seq<char>)>, i: int) -> Option<Seq<char>>
    decreases ms.len() - i,
{
    if i < 0 || i >= ms.len() {
        None
    } else if eq_ignore_case(ms[i].1, "eth0"@) {
        Some(ms[i].0)
    } else {
        first_eth0(ms, i + 1)
    }
}

/// First address (from `i` on) reported on a primary interface.
pub open spec fn first_primary(ms: Seq<(Seq<char>, Seq<char>)>, i: int) -> Option<Seq<char>>
    decreases ms.len() - i,
{
    if i < 0 || i >= ms.len() {
        None
    } else if primary_interface(ms[i].1) {
        Some(ms[i].0)
    } else {
        first_primary(ms, i + 1)
    }
}

/// The address of a container from the raw address field of a discovery row: the
/// `eth0` address, else the first address on a primary interface, else the first
/// address.
pub open spec fn extract_ipv4_spec(raw: Seq<char>) -> Option<Seq<char>> {
    let ms = entry_addresses(fields(raw, CharClass::NewlineOrSemicolon));
    match first_eth0(ms, 0) {
        Some(ip) => Some(ip),
        None => match first_primary(ms, 0) {
            Some(ip) => Some(ip),
            None => if ms.len() > 0 {
                Some(ms[0].0)
            } else {
                None
            },
        },
    }
}

fn first_address(toks: &Vec<Vec<char>>) -> (r: Option<Vec<char>>)
    ensures
        match first_address_from(toks.deep_view(), 0) {
            Some(a) => r is Some && r.unwrap()@ == a,
            None => r is None,
        },
{
    let mut i: usize = 0;
    while i < toks.len()
        invariant
            i <= toks@.len(),
            first_address_from(toks.deep_view(), 0) == first_address_from(
                toks.deep_view(),
                i as int,
            ),
        decreases toks@.len() - i,
    {
        proof {
            crate::text::lemma_chars_deep(toks@[i as int]);
        }
        let t = trim_chars(toks[i].as_slice());
        if t.len() > 0 && is_ipv4_text(t.as_slice()) {
            return Some(t);
        }
        i = i + 1;
    }
    None
}

fn interface_name(e: &[char]) -> (r: Vec<char>)
    ensures
        r@ == interface_spec(e@),
{
    let n = e.len();
    let open = vec!['('];
    let close = vec![')'];
    assert(open@ =~= seq!['(']);
    assert(close@ =~= seq![')']);
    match crate::text::find_chars(e, open.as_slice()) {
        Some(a) => {
            let tail = slice_chars(e, a + 1, e.len());
            assert(tail@ =~= e@.skip(a + 1));
            match crate::text::find_chars(tail.as_slice(), close.as_slice()) {
                Some(b) => {
                    assert(b <= tail@.len());
                    let name = slice_chars(tail.as_slice(), 0, b);
                    assert(name@ =~= tail@.take(b as int));
                    trim_chars(name.as_slice())
                },
                None => Vec::new(),
            }
        },
        None => Vec::new(),
    }
}

fn eq_lit_ignore_case(s: &[char], lit: &str) -> (b: bool)
    ensures
        b == eq_ignore_case(s@, lit@),
{
    let l = chars_of(lit);
    eq_ignore_case_chars(s, l.as_slice())
}

fn is_primary_interface(name: &[char]) -> (b: bool)
    ensures
        b == primary_interface(name@),
{
    let br = chars_of("br-");
    name.len() > 0 && !eq_lit_ignore_case(name, "docker0") && !starts_with_chars(
        name,
        br.as_slice(),
    ) && !eq_lit_ignore_case(name, "lxdbr0") && !eq_lit_ignore_case(name, "lo")
}

/// The address of a container from the raw address field of a discovery row (an
/// `lxc list` cell, possibly several lines like `10.0.0.2 (eth0)`): the `eth0`
/// address, else the first one on a non-bridge, non-loopback interface, else the
/// first one.
pub fn extract_ipv4(raw_ipv4: &str) -> (r: Option<String>)
    ensures
        match extract_ipv4_spec(raw_ipv4@) {
            Some(a) => r is Some && r.unwrap()@ == a,
            None => r is None,
        },
{
    let raw = chars_of(raw_ipv4);
    let entries = split_fields(raw.as_slice(), CharClass::NewlineOrSemicolon);
    let ghost ev = entries.deep_view();
    let mut ms: Vec<InterfaceAddress> = Vec::new();
    let mut i: usize = 0;
    proof {
        assert(ev.take(0) =~= Seq::<Seq<char>>::empty());
    }
    while i < entries.len()
        invariant
            i <= entries@.len(),
            ev == entries.deep_view(),
            ms@.map_values(|m: InterfaceAddress| (m.ipv4@, m.interface@)) == entry_addresses(
                ev.take(i as int),
            ),
        decreases entries@.len() - i,
    {
        proof {
            crate::text::lemma_chars_deep(entries@[i as int]);
            assert(ev.take(i + 1).drop_last() =~= ev.take(i as int));
            assert(ev.take(i + 1).last() == ev[i as int]);
        }
        let ghost prev = ms@;
        let e = trim_quotes_chars(entries[i].as_slice());
        if e.len() > 0 {
            let toks = split_fields(e.as_slice(), CharClass::AddressSeparators);
            match first_address(&toks) {
                Some(ip) => {
                    let interface = interface_name(e.as_slice());
                    let ghost m = (ip@, interface@);
                    ms.push(InterfaceAddress { ipv4: ip, interface });
                    assert(ms@.map_values(|m: InterfaceAddress| (m.ipv4@, m.interface@))
                        =~= prev.map_values(|m: InterfaceAddress| (m.ipv4@, m.interface@)).push(
                        m,
                    ));
                },
                None => {},
            }
        }
        i = i + 1;
    }
    assert(ev.take(entries@.len() as int) =~= ev);
    let ghost mv = ms@.map_values(|m: InterfaceAddress| (m.ipv4@, m.interface@));
    assert(mv == entry_addresses(fields(raw_ipv4@, CharClass::NewlineOrSemicolon)));
    // eth0 first
    let mut k: usize = 0;
    while k < ms.len()
        invariant
            k <= ms@.len(),
            mv == ms@.map_values(|m: InterfaceAddress| (m.ipv4@, m.interface@)),
            mv == entry_addresses(fields(raw_ipv4@, CharClass::NewlineOrSemicolon)),
            first_eth0(mv, 0) == first_eth0(mv, k as int),
        decreases ms@.len() - k,
    {
        assert(mv[k as int] == (ms@[k as int].ipv4@, ms@[k as int].interface@));
        if eq_lit_ignore_case(ms[k].interface.as_slice(), "eth0") {
            assert(mv[k as int] == (ms@[k as int].ipv4@, ms@[k as int].interface@));
            return Some(string_from_chars(ms[k].ipv4.as_slice()));
        }
        k = k + 1;
    }
    let mut k: usize = 0;
    while k < ms.len()
        invariant
            k <= ms@.len(),
            mv == ms@.map_values(|m: InterfaceAddress| (m.ipv4@, m.interface@)),
            mv == entry_addresses(fields(raw_ipv4@, CharClass::NewlineOrSemicolon)),
            first_eth0(mv, 0) is None,
            first_primary(mv, 0) == first_primary(mv, k as int),
        decreases ms@.len() - k,
    {
        assert(mv[k as int] == (ms@[k as int].ipv4@, ms@[k as int].interface@));
        if is_primary_interface(ms[k].interface.as_slice()) {
            return Some(string_from_chars(ms[k].ipv4.as_slice()));
        }
        k = k + 1;
    }
    if ms.len() > 0 {
        Some(string_from_chars(ms[0].ipv4.as_slice()))
    } else {
        None
    }
}

// ---------------------------------------------------------------------------
// Labels
// ---------------------------------------------------------------------------
/// The Unicode upper-case mapping of a character (`char::to_uppercase`), which may
/// have several characters.
pub uninterp spec fn upper_of(c: char) -> Seq<char>;

/// The upper-case form of a character (std's `char::to_uppercase`).
#[verifier::external_body]
fn char_to_uppercase(c: char) -> (r: Vec<char>)
    ensures
        r@ == upper_of(c),
{
    c.to_uppercase().collect()
}

/// A word with its first character upper-cased.
pub open spec fn title_case_spec(w: Seq<char>) -> Seq<char> {
    if w.len() == 0 {
        seq![]
    } else {
        upper_of(w[0]) + w.drop_first()
    }
}

/// Title case of each word.
pub open spec fn title_words(ws: Seq<Seq<char>>) -> Seq<Seq<char>> {
    ws.map_values(|w: Seq<char>| title_case_spec(w))
}

/// The label of a container named `name`: the name without the suffix, split on
/// `-`, `_` and spaces, each word title-cased, joined by spaces.
pub open spec fn default_label_spec(name: Seq<char>, suffix: Seq<char>) -> Seq<char> {
    let trimmed = if suffix.len() > 0 && crate::text::ends_with(name, suffix) {
        name.take(name.len() - suffix.len())
    } else {
        name
    };
    join_seq(title_words(non_empty(fields(trimmed, CharClass::WordSeparators))), " "@)
}

/// A word with its first character upper-cased.
pub fn title_case_word(word: &[char]) -> (r: Vec<char>)
    ensures
        r@ == title_case_spec(word@),
{
    if word.len() == 0 {
        return Vec::new();
    }
    let mut r = char_to_uppercase(word[0]);
    let rest = slice_chars(word, 1, word.len());
    crate::text::extend_chars(&mut r, rest.as_slice());
    assert(rest@ =~= word@.drop_first());
    r
}

/// The default label of a container: its name without the machine's container
/// suffix, as title-cased words (`automation-dev` becomes `Automation`).
pub fn default_container_label(name: &str, suffix: &str) -> (r: String)
    ensures
        r@ == default_label_spec(name@, suffix@),
{
    let nv = chars_of(name);
    let sv = chars_of(suffix);
    let trimmed = if sv.len() > 0 && crate::text::ends_with_chars(nv.as_slice(), sv.as_slice()) {
        slice_chars(nv.as_slice(), 0, nv.len() - sv.len())
    } else {
        slice_chars(nv.as_slice(), 0, nv.len())
    };
    assert(nv@.subrange(0, nv@.len() as int) =~= nv@);
    assert(nv@.subrange(0, nv@.len() - sv@.len()) =~= nv@.take(nv@.len() - sv@.len()));
    let parts = keep_non_empty(split_fields(trimmed.as_slice(), CharClass::WordSeparators));
    let ghost pv = parts.deep_view();
    let mut words: Vec<Vec<char>> = Vec::new();
    let mut i: usize = 0;
    while i < parts.len()
        invariant
            i <= parts@.len(),
            pv == parts.deep_view(),
            words.deep_view() == title_words(pv.take(i as int)),
        decreases parts@.len() - i,
    {
        proof {
            crate::text::lemma_chars_deep(parts@[i as int]);
        }
        let w = title_case_word(parts[i].as_slice());
        let ghost prev = words.deep_view();
        proof {
            crate::text::lemma_chars_deep(w);
        }
        words.push(w);
        proof {
            assert(pv.take(i + 1) =~= pv.take(i as int).push(pv[i as int]));
            assert(words.deep_view() =~= prev.push(title_case_spec(pv[i as int])));
        }
        i = i + 1;
    }
    assert(pv.take(parts@.len() as int) =~= pv);
    let space = chars_of(" ");
    let joined = join_chars(&words, space.as_slice());
    string_from_chars(joined.as_slice())
}

// ---------------------------------------------------------------------------
// Templates
// ---------------------------------------------------------------------------
/// The text of `template` with every placeholder of the context replaced, in order.
pub open spec fn placeholders_spec(
    t: Seq<char>,
    server: RemoteContainerServer,
    home: UserHome,
    ip: Seq<char>,
    label: Seq<char>,
    name: Seq<char>,
    user: Seq<char>,
) -> Seq<char> {
    let t1 = replace_seq(t, "{serverId}"@, server.id@);
    let t2 = replace_seq(t1, "{serverLabel}"@, server.label@);
    let t3 = replace_seq(t2, "{serverHost}"@, server.host@);
    let t4 = replace_seq(t3, "{serverDescription}"@, server.description@);
    let t5 = replace_seq(t4, "{machineId}"@, server.id@);
    let t6 = replace_seq(t5, "{machineLabel}"@, server.label@);
    let t7 = replace_seq(t6, "{machineHost}"@, server.host@);
    let t8 = replace_seq(t7, "{machineDescription}"@, server.description@);
    let t9 = replace_seq(t8, "{containerIp}"@, ip);
    let t10 = replace_seq(t9, "{containerLabel}"@, label);
    let t11 = replace_seq(t10, "{containerName}"@, name);
    let t12 = replace_seq(t11, "{containerHostKeyAlias}"@, container_alias_spec(server.id@, name));
    let t13 = replace_seq(
        t12,
        "{sshOptions}"@,
        join_seq(ssh_flags_spec(server, home, container_alias_spec(server.id@, name)), " "@),
    );
    replace_seq(t13, "{sshUser}"@, user)
}

/// The placeholders of a context applied to a template.
pub open spec fn render_spec(t: Seq<char>, p: PlaceV, home: UserHome) -> Seq<char> {
    placeholders_spec(t, p.server, home, p.ip, p.label, p.name, p.user)
}

/// The values a template context stands for: the machine, and the address, label,
/// name and SSH user of the container.
pub ghost struct PlaceV {
    pub server: RemoteContainerServer,
    pub ip: Seq<char>,
    pub label: Seq<char>,
    pub name: Seq<char>,
    pub user: Seq<char>,
}

/// The values of a template context.
pub open spec fn place_of(ctx: RemoteContainerContext) -> PlaceV {
    PlaceV {
        server: *ctx.server,
        ip: ctx.container_ip@,
        label: ctx.container_label@,
        name: ctx.container_name@,
        user: ctx.ssh_user@,
    }
}

fn replace_lit(s: String, pat: &str, rep: &str) -> (r: String)
    requires
        pat@.len() > 0,
    ensures
        r@ == replace_seq(s@, pat@, rep@),
{
    replace_str(s.as_str(), pat, rep)
}

/// A template with the placeholders of a machine and container replaced:
/// `{serverId}`, `{serverLabel}`, `{serverHost}`, `{serverDescription}`, their
/// `{machine…}` synonyms, `{containerIp}`, `{containerLabel}`, `{containerName}`,
/// `{containerHostKeyAlias}`, `{sshOptions}` and `{sshUser}`.
pub fn replace_remote_placeholders(
    template: &str,
    context: &RemoteContainerContext,
    home: &UserHome,
) -> (r: String)
    ensures
        r@ == render_spec(template@, place_of(*context), *home),
{
    proof {
        reveal_strlit("{serverId}");
        reveal_strlit("{serverLabel}");
        reveal_strlit("{serverHost}");
        reveal_strlit("{serverDescription}");
        reveal_strlit("{machineId}");
        reveal_strlit("{machineLabel}");
        reveal_strlit("{machineHost}");
        reveal_strlit("{machineDescription}");
        reveal_strlit("{containerIp}");
        reveal_strlit("{containerLabel}");
        reveal_strlit("{containerName}");
        reveal_strlit("{containerHostKeyAlias}");
        reveal_strlit("{sshOptions}");
        reveal_strlit("{sshUser}");
    }
    let server = context.server;
    let t = owned(template);
    let t = replace_lit(t, "{serverId}", server.id.as_str());
    let t = replace_lit(t, "{serverLabel}", server.label.as_str());
    let t = replace_lit(t, "{serverHost}", server.host.as_str());
    let t = replace_lit(t, "{serverDescription}", server.description.as_str());
    let t = replace_lit(t, "{machineId}", server.id.as_str());
    let t = replace_lit(t, "{machineLabel}", server.label.as_str());
    let t = replace_lit(t, "{machineHost}", server.host.as_str());
    let t = replace_lit(t, "{machineDescription}", server.description.as_str());
    let t = replace_lit(t, "{containerIp}", context.container_ip);
    let t = replace_lit(t, "{containerLabel}", context.container_label);
    let t = replace_lit(t, "{containerName}", context.container_name);
    let alias = container_host_key_alias(server, context.container_name);
    let t = replace_lit(t, "{containerHostKeyAlias}", alias.as_str());
    let options = ssh_options_for_context(server, home, context.container_name);
    let t = replace_lit(t, "{sshOptions}", options.as_str());
    replace_lit(t, "{sshUser}", context.ssh_user)
}

/// A template with its placeholders replaced, or `fallback` when the template is
/// blank.
pub fn render_template(
    template: &str,
    context: &RemoteContainerContext,
    home: &UserHome,
    fallback: String,
) -> (r: String)
    ensures
        r@ == (if blank(template@) {
            fallback@
        } else {
            render_spec(template@, place_of(*context), *home)
        }),
{
    if is_blank(template) {
        return fallback;
    }
    replace_remote_placeholders(template, context, home)
}

/// A surface with its placeholders replaced; an HTTP surface with a Vite HMR tunnel
/// becomes a Vite surface.
pub open spec fn render_surface_spec(s: SurfaceV, p: PlaceV, home: UserHome) -> SurfaceV {
    SurfaceV {
        id: s.id,
        label: render_spec(s.label, p, home),
        service_type: if s.service_type == BrowserServiceType::Http && !blank(
            s.vite_hmr_tunnel_command,
        ) {
            BrowserServiceType::Vite
        } else {
            s.service_type
        },
        background_prerender: s.background_prerender,
        tunnel_command: render_spec(s.tunnel_command, p, home),
        local_url: render_spec(s.local_url, p, home),
        remote_url: render_spec(s.remote_url, p, home),
        vite_hmr_tunnel_command: render_spec(s.vite_hmr_tunnel_command, p, home),
    }
}

/// A surface with the placeholders of a context replaced.
pub fn render_surface(
    surface: &BrowserSurface,
    context: &RemoteContainerContext,
    home: &UserHome,
) -> (r: BrowserSurface)
    ensures
        r@ == render_surface_spec(surface@, place_of(*context), *home),
{
    let service_type = if surface.service_type == BrowserServiceType::Http && !is_blank(
        surface.vite_hmr_tunnel_command.as_str(),
    ) {
        BrowserServiceType::Vite
    } else {
        surface.service_type
    };
    BrowserSurface {
        id: surface.id.clone(),
        label: replace_remote_placeholders(surface.label.as_str(), context, home),
        service_type,
        background_prerender: surface.background_prerender,
        tunnel_command: replace_remote_placeholders(surface.tunnel_command.as_str(), context, home),
        local_url: replace_remote_placeholders(surface.local_url.as_str(), context, home),
        remote_url: replace_remote_placeholders(surface.remote_url.as_str(), context, home),
        vite_hmr_tunnel_command: replace_remote_placeholders(
            surface.vite_hmr_tunnel_command.as_str(),
            context,
            home,
        ),
    }
}

/// A service with the placeholders of a context replaced in its texts, its web
/// surface and its endpoint.
pub open spec fn render_service_spec(s: ServiceV, p: PlaceV, home: UserHome) -> ServiceV {
    ServiceV {
        id: render_spec(s.id, p, home),
        label: render_spec(s.label, p, home),
        kind: s.kind,
        description: render_spec(s.description, p, home),
        web: match s.web {
            Some(w) => Some(render_surface_spec(w, p, home)),
            None => None,
        },
        endpoint: match s.endpoint {
            Some(e) => Some(
                crate::model::EndpointV {
                    probe_type: e.probe_type,
                    host: render_spec(e.host, p, home),
                    port: e.port,
                    path: render_spec(e.path, p, home),
                    url: render_spec(e.url, p, home),
                },
            ),
            None => None,
        },
        command: s.command,
    }
}

/// A service with the placeholders of a context replaced.
pub fn render_service(
    service: &DeveloperService,
    context: &RemoteContainerContext,
    home: &UserHome,
) -> (r: DeveloperService)
    ensures
        r@ == render_service_spec(service@, place_of(*context), *home),
{
    DeveloperService {
        id: replace_remote_placeholders(service.id.as_str(), context, home),
        label: replace_remote_placeholders(service.label.as_str(), context, home),
        kind: service.kind,
        description: replace_remote_placeholders(service.description.as_str(), context, home),
        web: match &service.web {
            Some(surface) => Some(render_surface(surface, context, home)),
            None => None,
        },
        endpoint: match &service.endpoint {
            Some(endpoint) => Some(
                EndpointService {
                    probe_type: endpoint.probe_type,
                    host: replace_remote_placeholders(endpoint.host.as_str(), context, home),
                    port: endpoint.port,
                    path: replace_remote_placeholders(endpoint.path.as_str(), context, home),
                    url: replace_remote_placeholders(endpoint.url.as_str(), context, home),
                },
            ),
            None => None,
        },
        command: match &service.command {
            Some(c) => Some(CommandService { restart: c.restart.clone() }),
            None => None,
        },
    }
}

/// A workspace with the placeholders of a context replaced in every field.
pub open spec fn render_workspace_spec(w: WorkspaceV, p: PlaceV, home: UserHome) -> WorkspaceV {
    WorkspaceV {
        profile: render_spec(w.profile, p, home),
        default_tool: render_spec(w.default_tool, p, home),
        project_path: render_spec(w.project_path, p, home),
        files_root: render_spec(w.files_root, p, home),
        primary_web_service_id: render_spec(w.primary_web_service_id, p, home),
        tmux_command_service_id: render_spec(w.tmux_command_service_id, p, home),
    }
}

/// A workspace with the placeholders of a context replaced.
pub fn render_workspace(
    workspace: &ContainerWorkspace,
    context: &RemoteContainerContext,
    home: &UserHome,
) -> (r: ContainerWorkspace)
    ensures
        r@ == render_workspace_spec(workspace@, place_of(*context), *home),
{
    ContainerWorkspace {
        profile: replace_remote_placeholders(workspace.profile.as_str(), context, home),
        default_tool: replace_remote_placeholders(workspace.default_tool.as_str(), context, home),
        project_path: replace_remote_placeholders(workspace.project_path.as_str(), context, home),
        files_root: replace_remote_placeholders(workspace.files_root.as_str(), context, home),
        primary_web_service_id: replace_remote_placeholders(
            workspace.primary_web_service_id.as_str(),
            context,
            home,
        ),
        tmux_command_service_id: replace_remote_placeholders(
            workspace.tmux_command_service_id.as_str(),
            context,
            home,
        ),
    }
}

/// The web service that presents a browser surface.
pub open spec fn web_service_spec(s: SurfaceV) -> ServiceV {
    ServiceV {
        id: s.id,
        label: s.label,
        kind: DeveloperServiceKind::Web,
        description: seq![],
        web: Some(s),
        endpoint: None,
        command: None,
    }
}

/// The web service that presents a browser surface: same id and label, no
/// description.
pub fn web_service(surface: &BrowserSurface) -> (r: DeveloperService)
    ensures
        r@ == web_service_spec(surface@),
{
    DeveloperService {
        id: surface.id.clone(),
        label: surface.label.clone(),
        kind: DeveloperServiceKind::Web,
        description: String::new(),
        web: Some(surface.duplicate()),
        endpoint: None,
        command: None,
    }
}


/// The addresses a raw discovery field reports, each with its interface, in order.
pub open spec fn reported_addresses(raw: Seq<char>) -> Seq<(Seq<char>, Seq<char>)> {
    entry_addresses(fields(raw, CharClass::NewlineOrSemicolon))
}

proof fn lemma_first_eth0(ms: Seq<(Seq<char>, Seq<char>)>, i: int)
    requires
        0 <= i,
    ensures
        first_eth0(ms, i) matches Some(ip) ==> exists|j: int|
            i <= j < ms.len() && eq_ignore_case((#[trigger] ms[j]).1, "eth0"@) && ms[j].0 == ip && forall|k: int|
                i <= k < j ==> !eq_ignore_case((#[trigger] ms[k]).1, "eth0"@),
        first_eth0(ms, i) is None ==> forall|k: int| i <= k < ms.len() ==> !eq_ignore_case((#[trigger] ms[k]).1, "eth0"@),
    decreases ms.len() - i,
{
    if i < ms.len() && !eq_ignore_case(ms[i].1, "eth0"@) {
        lemma_first_eth0(ms, i + 1);
        if let Some(ip) = first_eth0(ms, i + 1) {
            let j = choose|j: int|
                i + 1 <= j < ms.len() && eq_ignore_case((#[trigger] ms[j]).1, "eth0"@) && ms[j].0 == ip && forall|k: int|
                    i + 1 <= k < j ==> !eq_ignore_case((#[trigger] ms[k]).1, "eth0"@);
            assert forall|k: int| i <= k < j implies !eq_ignore_case((#[trigger] ms[k]).1, "eth0"@) by {}
        }
    }
}

proof fn lemma_first_primary(ms: Seq<(Seq<char>, Seq<char>)>, i: int)
    requires
        0 <= i,
    ensures
        first_primary(ms, i) matches Some(ip) ==> exists|j: int|
            i <= j < ms.len() && primary_interface((#[trigger] ms[j]).1) && ms[j].0 == ip && forall|k: int|
                i <= k < j ==> !primary_interface((#[trigger] ms[k]).1),
        first_primary(ms, i) is None ==> forall|k: int| i <= k < ms.len() ==> !primary_interface((#[trigger] ms[k]).1),
    decreases ms.len() - i,
{
    if i < ms.len() && !primary_interface(ms[i].1) {
        lemma_first_primary(ms, i + 1);
        if let Some(ip) = first_primary(ms, i + 1) {
            let j = choose|j: int|
                i + 1 <= j < ms.len() && primary_interface((#[trigger] ms[j]).1) && ms[j].0 == ip && forall|k: int|
                    i + 1 <= k < j ==> !primary_interface((#[trigger] ms[k]).1);
            assert forall|k: int| i <= k < j implies !primary_interface((#[trigger] ms[k]).1) by {}
        }
    }
}

/// The address chosen for a container is one the field reports: the first one on
/// `eth0` when there is one; else the first one on a container's own interface (not
/// a bridge such as `docker0`, `br-*` or `lxdbr0`, nor loopback) when there is one;
/// else the first address reported; nothing only when no address is reported.
pub proof fn law_address_prefers_the_container_network(raw: Seq<char>)
    ensures
        ({
            let ms = reported_addresses(raw);
            let r = extract_ipv4_spec(raw);
            &&& r is None <==> ms.len() == 0
            &&& (exists|j: int| 0 <= j < ms.len() && eq_ignore_case((#[trigger] ms[j]).1, "eth0"@)) ==> exists|j: int|
                0 <= j < ms.len() && eq_ignore_case((#[trigger] ms[j]).1, "eth0"@) && r == Some(ms[j].0) && forall|k: int|
                    0 <= k < j ==> !eq_ignore_case((#[trigger] ms[k]).1, "eth0"@)
            &&& (forall|j: int| 0 <= j < ms.len() ==> !eq_ignore_case((#[trigger] ms[j]).1, "eth0"@)) && (exists|j: int|
                0 <= j < ms.len() && primary_interface((#[trigger] ms[j]).1)) ==> exists|j: int|
                0 <= j < ms.len() && primary_interface((#[trigger] ms[j]).1) && r == Some(ms[j].0) && forall|k: int|
                    0 <= k < j ==> !primary_interface((#[trigger] ms[k]).1)
            &&& (forall|j: int|
                0 <= j < ms.len() ==> !eq_ignore_case((#[trigger] ms[j]).1, "eth0"@) && !primary_interface(ms[j].1))
                && ms.len() > 0 ==> r == Some(ms[0].0)
        }),
{
    let ms = reported_addresses(raw);
    lemma_first_eth0(ms, 0);
    lemma_first_primary(ms, 0);
    if first_eth0(ms, 0) is None && first_primary(ms, 0) is None && ms.len() > 0 {
        assert(!eq_ignore_case(ms[0].1, "eth0"@));
    }
}
} // verus!
