//! What the dashboard knows about the container engine and its containers.

use crate::json::{
    field_of, get_in, Json, json_of, JsonView, parse_json, text_at, text_member, text_of, text_or,
};
use crate::order::{sort_order, sorted_indices};
use crate::text::{
    chars_of, contains_sub, decimal_nat, find_char_in, find_sub, find_sub_in, index_of_char, join3,
    lemma_index_of_char_bounds, lowercase_of, parse_unsigned, parsed_unsigned, push_line, split_on,
    split_ranges, starts_with, starts_with_at, str_eq, string_of, strip_leading, strip_leading_from,
    to_lowercase, trim, trim_bounds, trimmed, u64_to_string,
};
use vstd::prelude::*;
use vstd::string::*;

verus! {

/// How the container engine is reached.
#[derive(Debug, PartialEq, Eq)]
pub struct DockerMeta {
    pub backend: String,
    pub context_name: String,
    pub socket_path: String,
    pub remote_host: String,
    pub available: bool,
    pub docker_bin: String,
}

/// The mathematical content of a [`DockerMeta`].
pub struct DockerMetaView {
    pub backend: Seq<char>,
    pub context_name: Seq<char>,
    pub socket_path: Seq<char>,
    pub remote_host: Seq<char>,
    pub available: bool,
    pub docker_bin: Seq<char>,
}

impl DeepView for DockerMeta {
    type V = DockerMetaView;

    open spec fn deep_view(&self) -> DockerMetaView {
        DockerMetaView {
            backend: self.backend@,
            context_name: self.context_name@,
            socket_path: self.socket_path@,
            remote_host: self.remote_host@,
            available: self.available,
            docker_bin: self.docker_bin@,
        }
    }
}

impl Clone for DockerMeta {
    fn clone(&self) -> (r: Self)
        ensures
            r == *self,
    {
        DockerMeta {
            backend: self.backend.clone(),
            context_name: self.context_name.clone(),
            socket_path: self.socket_path.clone(),
            remote_host: self.remote_host.clone(),
            available: self.available,
            docker_bin: self.docker_bin.clone(),
        }
    }
}

/// One port mapping of a container.
#[derive(Debug, PartialEq, Eq)]
pub struct Port {
    pub ip: Option<String>,
    pub private_port: Option<u16>,
    pub public_port: Option<u16>,
    pub port_type: Option<String>,
}

/// The mathematical content of a [`Port`].
pub struct PortView {
    pub ip: Option<Seq<char>>,
    pub private_port: Option<u16>,
    pub public_port: Option<u16>,
    pub port_type: Option<Seq<char>>,
}

impl DeepView for Port {
    type V = PortView;

    open spec fn deep_view(&self) -> PortView {
        PortView {
            ip: self.ip.deep_view(),
            private_port: self.private_port,
            public_port: self.public_port,
            port_type: self.port_type.deep_view(),
        }
    }
}

impl Clone for Port {
    fn clone(&self) -> (r: Self)
        ensures
            r == *self,
    {
        Port {
            ip: clone_text(&self.ip),
            private_port: self.private_port,
            public_port: self.public_port,
            port_type: clone_text(&self.port_type),
        }
    }
}

/// A copy of an optional text.
pub fn clone_text(t: &Option<String>) -> (r: Option<String>)
    ensures
        r == *t,
{
    match t {
        Some(s) => Some(s.clone()),
        None => None,
    }
}

/// One row of the engine's container listing.
#[derive(Debug, PartialEq, Eq)]
pub struct ContainerSummary {
    pub id: String,
    pub names: String,
    pub state: String,
    pub status: String,
    pub ports: String,
}

/// The mathematical content of a [`ContainerSummary`].
pub struct ContainerSummaryView {
    pub id: Seq<char>,
    pub names: Seq<char>,
    pub state: Seq<char>,
    pub status: Seq<char>,
    pub ports: Seq<char>,
}

impl DeepView for ContainerSummary {
    type V = ContainerSummaryView;

    open spec fn deep_view(&self) -> ContainerSummaryView {
        ContainerSummaryView {
            id: self.id@,
            names: self.names@,
            state: self.state@,
            status: self.status@,
            ports: self.ports@,
        }
    }
}

impl Clone for ContainerSummary {
    fn clone(&self) -> (r: Self)
        ensures
            r == *self,
    {
        ContainerSummary {
            id: self.id.clone(),
            names: self.names.clone(),
            state: self.state.clone(),
            status: self.status.clone(),
            ports: self.ports.clone(),
        }
    }
}

/// The engine flavour behind a context: `colima` when the context name or
/// its socket mention it, in any letter case, and `docker` otherwise.
pub open spec fn backend_of(context_name: Seq<char>, socket_path: Seq<char>) -> Seq<char> {
    if contains_sub(lowercase_of(context_name + " "@ + socket_path), "colima"@) {
        "colima"@
    } else {
        "docker"@
    }
}

/// Names the engine flavour behind a context.
pub fn classify(context_name: &str, socket_path: &str) -> (r: String)
    ensures
        r@ == backend_of(context_name@, socket_path@),
{
    let joined = join3(context_name, " ", socket_path);
    let lower = to_lowercase(joined.as_str());
    let v = chars_of(lower.as_str());
    let pat = chars_of("colima");
    proof {
        assert(v@.subrange(0, v.len() as int) == v@);
    }
    match find_sub_in(&v, 0, v.len(), &pat) {
        Some(_) => "colima".to_owned(),
        None => "docker".to_owned(),
    }
}

/// The display name in a listing's name field: the part before the first
/// comma, trimmed, without leading slashes.
pub open spec fn display_name(raw_names: Seq<char>) -> Seq<char> {
    strip_leading(trimmed(raw_names.subrange(0, index_of_char(raw_names, ','))), '/')
}

/// The display name of a container, taken from the listing's name field.
pub fn container_name(raw_names: &str) -> (r: String)
    ensures
        r@ == display_name(raw_names@),
{
    let v = chars_of(raw_names);
    proof {
        assert(v@.subrange(0, v.len() as int) == v@);
    }
    let comma = find_char_in(&v, 0, v.len(), ',');
    let (a, b) = trim_bounds(&v, 0, comma);
    let start = strip_leading_from(&v, a, b, '/');
    string_of(&v, start, b)
}

/// A mapping the dashboard can open: published, and TCP (a mapping without a
/// protocol counts as TCP).
pub open spec fn is_public_tcp(p: PortView) -> bool {
    p.public_port is Some && match p.port_type {
        Some(t) => t == "tcp"@,
        None => true,
    }
}

/// The public port of the first openable mapping whose private port is `want`.
pub open spec fn first_with_private(ports: Seq<PortView>, want: u16) -> Option<u16>
    decreases ports.len(),
{
    if ports.len() == 0 {
        None
    } else if is_public_tcp(ports[0]) && ports[0].private_port == Some(want) {
        ports[0].public_port
    } else {
        first_with_private(ports.drop_first(), want)
    }
}

/// The public port of the first openable mapping whose public port is `want`.
pub open spec fn first_with_public(ports: Seq<PortView>, want: u16) -> Option<u16>
    decreases ports.len(),
{
    if ports.len() == 0 {
        None
    } else if is_public_tcp(ports[0]) && ports[0].public_port == Some(want) {
        ports[0].public_port
    } else {
        first_with_public(ports.drop_first(), want)
    }
}

/// The public port of the first openable mapping.
pub open spec fn first_public(ports: Seq<PortView>) -> Option<u16>
    decreases ports.len(),
{
    if ports.len() == 0 {
        None
    } else if is_public_tcp(ports[0]) {
        ports[0].public_port
    } else {
        first_public(ports.drop_first())
    }
}

/// The first hit of `first_with_private` over the preferences, in their order.
pub open spec fn pick_private(ports: Seq<PortView>, prefs: Seq<u16>) -> Option<u16>
    decreases prefs.len(),
{
    if prefs.len() == 0 {
        None
    } else {
        match first_with_private(ports, prefs[0]) {
            Some(p) => Some(p),
            None => pick_private(ports, prefs.drop_first()),
        }
    }
}

/// The first hit of `first_with_public` over the preferences, in their order.
pub open spec fn pick_public(ports: Seq<PortView>, prefs: Seq<u16>) -> Option<u16>
    decreases prefs.len(),
{
    if prefs.len() == 0 {
        None
    } else {
        match first_with_public(ports, prefs[0]) {
            Some(p) => Some(p),
            None => pick_public(ports, prefs.drop_first()),
        }
    }
}

/// Private ports that usually serve a web page, most likely first.
pub open spec fn preferred_private() -> Seq<u16> {
    seq![3000u16, 8025u16, 54323u16, 5678u16, 5173u16, 4173u16, 8080u16, 80u16, 1337u16]
}

/// Public ports that usually serve a web page, most likely first.
pub open spec fn preferred_public() -> Seq<u16> {
    seq![80u16, 3000u16, 8080u16, 54324u16]
}

/// The public port to open for a container: by preferred private port, then
/// by preferred public port, then the first openable mapping.
pub open spec fn best_public_port(ports: Seq<PortView>) -> Option<u16> {
    match pick_private(ports, preferred_private()) {
        Some(p) => Some(p),
        None => match pick_public(ports, preferred_public()) {
            Some(p) => Some(p),
            None => first_public(ports),
        },
    }
}

fn holds(slot: Option<u16>, want: u16) -> (r: bool)
    ensures
        r == (slot == Some(want)),
{
    match slot {
        Some(x) => x == want,
        None => false,
    }
}

fn public_tcp(p: &Port) -> (r: bool)
    ensures
        r == is_public_tcp(p.deep_view()),
{
    p.public_port.is_some() && match &p.port_type {
        Some(t) => str_eq(t.as_str(), "tcp"),
        None => true,
    }
}

/// What a scan for the first openable mapping finds: by private port, by
/// public port, or, with no wish, any.
pub open spec fn scan_goal(ports: Seq<PortView>, by_private: bool, want: Option<u16>) -> Option<
    u16,
> {
    match want {
        Some(w) => if by_private {
            first_with_private(ports, w)
        } else {
            first_with_public(ports, w)
        },
        None => first_public(ports),
    }
}

fn scan_ports(ports: &Vec<Port>, by_private: bool, want: Option<u16>) -> (r: Option<u16>)
    ensures
        r == scan_goal(ports.deep_view(), by_private, want),
{
    let ghost all = ports.deep_view();
    let mut i: usize = 0;
    proof {
        assert(all.skip(0) =~= all);
    }
    while i < ports.len()
        invariant
            i <= ports.len(),
            all == ports.deep_view(),
            scan_goal(all, by_private, want) == scan_goal(all.skip(i as int), by_private, want),
        decreases ports.len() - i,
    {
        let p = &ports[i];
        proof {
            assert(all.skip(i as int)[0] == p.deep_view());
            assert(all.skip(i as int).drop_first() =~= all.skip(i as int + 1));
        }
        if public_tcp(p) {
            let hit = match want {
                Some(w) => if by_private {
                    holds(p.private_port, w)
                } else {
                    holds(p.public_port, w)
                },
                None => true,
            };
            if hit {
                return p.public_port;
            }
        }
        i += 1;
    }
    None
}

/// The public port to open in a browser for a container with these mappings.
pub fn pick_best_public_port(ports: &Vec<Port>) -> (r: Option<u16>)
    ensures
        r == best_public_port(ports.deep_view()),
{
    let prefs_private: Vec<u16> = vec![3000u16, 8025u16, 54323u16, 5678u16, 5173u16, 4173u16, 8080u16, 80u16, 1337u16];
    let prefs_public: Vec<u16> = vec![80u16, 3000u16, 8080u16, 54324u16];
    assert(prefs_private@ =~= preferred_private());
    assert(prefs_public@ =~= preferred_public());
    let ghost all = ports.deep_view();
    let mut k: usize = 0;
    proof {
        assert(prefs_private@.skip(0) =~= prefs_private@);
    }
    while k < prefs_private.len()
        invariant
            k <= prefs_private.len(),
            all == ports.deep_view(),
            pick_private(all, preferred_private()) == pick_private(
                all,
                prefs_private@.skip(k as int),
            ),
        decreases prefs_private.len() - k,
    {
        proof {
            assert(prefs_private@.skip(k as int).drop_first() =~= prefs_private@.skip(k as int + 1));
        }
        let hit = scan_ports(ports, true, Some(prefs_private[k]));
        if hit.is_some() {
            return hit;
        }
        k += 1;
    }
    let mut k: usize = 0;
    proof {
        assert(prefs_public@.skip(0) =~= prefs_public@);
    }
    while k < prefs_public.len()
        invariant
            k <= prefs_public.len(),
            all == ports.deep_view(),
            pick_private(all, preferred_private()) is None,
            pick_public(all, preferred_public()) == pick_public(all, prefs_public@.skip(k as int)),
        decreases prefs_public.len() - k,
    {
        proof {
            assert(prefs_public@.skip(k as int).drop_first() =~= prefs_public@.skip(k as int + 1));
        }
        let hit = scan_ports(ports, false, Some(prefs_public[k]));
        if hit.is_some() {
            return hit;
        }
        k += 1;
    }
    scan_ports(ports, false, None)
}

/// What is left of `s` behind its last `c`; all of `s` when it holds none.
pub open spec fn after_last(s: Seq<char>, c: char) -> Seq<char>
    decreases s.len(),
    via after_last_decreases
{
    let i = index_of_char(s, c);
    if i >= s.len() {
        s
    } else {
        after_last(s.skip(i + 1), c)
    }
}

#[via_fn]
proof fn after_last_decreases(s: Seq<char>, c: char) {
    lemma_index_of_char_bounds(s, c);
}

/// The machine an engine address points at. For `ssh://` and `tcp://`
/// addresses it is what stands between the scheme and the next `//`, behind
/// the last `@` and before the first `:`; for every other address it is
/// `localhost`.
pub open spec fn remote_host_of(host: Seq<char>) -> Seq<char> {
    if starts_with(host, "ssh://"@) || starts_with(host, "tcp://"@) {
        let rest = host.skip(6);
        let authority = match find_sub(rest, "//"@) {
            Some(i) => rest.subrange(0, i),
            None => rest,
        };
        let machine = after_last(authority, '@');
        machine.subrange(0, index_of_char(machine, ':'))
    } else {
        "localhost"@
    }
}

/// The machine the engine address `host` points at.
#[verifier::rlimit(50)]
pub fn remote_host(host: &str) -> (r: String)
    ensures
        r@ == remote_host_of(host@),
{
    let v = chars_of(host);
    let n = v.len();
    let ssh = chars_of("ssh://");
    let tcp = chars_of("tcp://");
    let slashes = chars_of("//");
    proof {
        reveal_strlit("ssh://");
        reveal_strlit("tcp://");
        assert(v@.subrange(0, n as int) =~= v@);
    }
    if starts_with_at(&v, 0, n, &ssh) || starts_with_at(&v, 0, n, &tcp) {
        let ghost rest = v@.skip(6);
        proof {
            assert(rest =~= v@.subrange(6, n as int));
        }
        let end = match find_sub_in(&v, 6, n, &slashes) {
            Some(i) => i,
            None => n,
        };
        let ghost authority = v@.subrange(6, end as int);
        proof {
            assert(authority =~= match find_sub(rest, "//"@) {
                Some(i) => rest.subrange(0, i),
                None => rest,
            });
        }
        let mut start: usize = 6;
        let mut at = find_char_in(&v, start, end, '@');
        while at < end
            invariant
                6 <= start <= at <= end <= n == v.len(),
                at - start == index_of_char(v@.subrange(start as int, end as int), '@'),
                after_last(authority, '@') == after_last(v@.subrange(start as int, end as int), '@'),
            decreases end - start,
        {
            proof {
                let cur = v@.subrange(start as int, end as int);
                assert(cur.skip(at - start + 1) =~= v@.subrange(at as int + 1, end as int));
            }
            start = at + 1;
            at = find_char_in(&v, start, end, '@');
        }
        let colon = find_char_in(&v, start, end, ':');
        proof {
            let machine = v@.subrange(start as int, end as int);
            lemma_index_of_char_bounds(machine, '@');
            assert(machine.subrange(0, colon - start) =~= v@.subrange(start as int, colon as int));
        }
        string_of(&v, start, colon)
    } else {
        "localhost".to_owned()
    }
}

/// The address of the engine in the inspection of a context: the `Host` of
/// the `docker` endpoint of its first entry, or nothing.
pub open spec fn context_host(doc: JsonView) -> Seq<char> {
    text_of(
        field_of(field_of(field_of(doc.at(0), "Endpoints"@), "docker"@), "Host"@),
        Seq::empty(),
    )
}

/// What is known of the engine, given what `context show` and `context
/// inspect` printed (`None` where the command failed) and whether the engine
/// answers.
pub open spec fn detected(
    docker_bin: Seq<char>,
    shown: Option<Seq<char>>,
    inspected: Option<Seq<char>>,
    available: bool,
) -> DockerMetaView {
    let unknown = DockerMetaView {
        backend: "unknown"@,
        context_name: "default"@,
        socket_path: Seq::empty(),
        remote_host: "localhost"@,
        available,
        docker_bin,
    };
    match shown {
        Some(out) => {
            let ctx = trimmed(out);
            let named = DockerMetaView { context_name: ctx, ..unknown };
            match inspected {
                Some(info) => match json_of(info) {
                    Some(doc) => DockerMetaView {
                        backend: backend_of(ctx, context_host(doc)),
                        socket_path: context_host(doc),
                        remote_host: remote_host_of(context_host(doc)),
                        ..named
                    },
                    None => named,
                },
                None => named,
            }
        },
        None => unknown,
    }
}

/// The address of the engine in the inspection of a context.
pub fn host_of_context(doc: &Json) -> (r: String)
    ensures
        r@ == context_host(doc.deep_view()),
{
    let host = get_in(get_in(get_in(doc.get_index(0), "Endpoints"), "docker"), "Host");
    text_or(host, String::new())
}

impl DockerMeta {
    /// Puts together what is known of the engine from what `context show`
    /// and `context inspect` printed (`None` where the command failed) and
    /// whether the engine answers.
    pub fn detect(
        docker_bin: &str,
        shown: Option<&str>,
        inspected: Option<&str>,
        available: bool,
    ) -> (r: Self)
        ensures
            r.deep_view() == detected(
                docker_bin@,
                match shown {
                    Some(t) => Some(t@),
                    None => None,
                },
                match inspected {
                    Some(t) => Some(t@),
                    None => None,
                },
                available,
            ),
    {
        let mut meta = DockerMeta {
            backend: "unknown".to_owned(),
            context_name: "default".to_owned(),
            socket_path: String::new(),
            remote_host: "localhost".to_owned(),
            available,
            docker_bin: docker_bin.to_owned(),
        };
        match shown {
            Some(out) => {
                let ctx = trim(out);
                match inspected {
                    Some(info) => {
                        match parse_json(info) {
                            Some(doc) => {
                                let host = host_of_context(&doc);
                                meta.backend = classify(ctx.as_str(), host.as_str());
                                meta.remote_host = remote_host(host.as_str());
                                meta.socket_path = host;
                            },
                            None => {},
                        }
                    },
                    None => {},
                }
                meta.context_name = ctx;
            },
            None => {},
        }
        meta
    }
}

/// The lines of `out` that are not blank, each trimmed, in order.
pub open spec fn filled_lines(lines: Seq<Seq<char>>) -> Seq<Seq<char>>
    decreases lines.len(),
{
    if lines.len() == 0 {
        Seq::empty()
    } else if trimmed(lines.last()).len() == 0 {
        filled_lines(lines.drop_last())
    } else {
        filled_lines(lines.drop_last()).push(trimmed(lines.last()))
    }
}

/// The records in a container listing: its lines that are not blank, each
/// trimmed.
pub open spec fn listing_records(out: Seq<char>) -> Seq<Seq<char>> {
    filled_lines(split_on(out, '\n'))
}

/// Splits a container listing into its records, one per line that is not
/// blank.
pub fn snapshot_lines(out: &str) -> (r: Vec<String>)
    ensures
        r.deep_view() == listing_records(out@),
{
    let v = chars_of(out);
    proof {
        assert(v@.subrange(0, v.len() as int) =~= v@);
    }
    let ranges = split_ranges(&v, 0, v.len(), '\n');
    let ghost lines = split_on(v@, '\n');
    let mut records: Vec<String> = Vec::new();
    let mut k: usize = 0;
    assert(lines.take(0) =~= Seq::<Seq<char>>::empty());
    assert(records.deep_view() =~= filled_lines(lines.take(0)));
    while k < ranges.len()
        invariant
            k <= ranges.len(),
            lines == split_on(v@, '\n'),
            ranges@.len() == lines.len(),
            forall|j: int|
                0 <= j < ranges@.len() ==> 0 <= (#[trigger] ranges@[j]).0 <= ranges@[j].1 <= v.len()
                    && v@.subrange(ranges@[j].0 as int, ranges@[j].1 as int) == lines[j],
            records.deep_view() == filled_lines(lines.take(k as int)),
        decreases ranges.len() - k,
    {
        proof {
            assert(lines.take(k as int + 1).drop_last() =~= lines.take(k as int));
            assert(lines.take(k as int + 1).last() == lines[k as int]);
        }
        let (a, b) = ranges[k];
        let (ta, tb) = trim_bounds(&v, a, b);
        if ta < tb {
            push_line(&mut records, string_of(&v, ta, tb));
        }
        k += 1;
    }
    assert(lines.take(ranges.len() as int) =~= lines);
    records
}

/// The private port and the protocol a port key such as `3000/tcp` names:
/// the number before the first `/`, if it is one, and what stands between
/// the first `/` and the next; `tcp` for a key without `/`.
pub open spec fn port_key(key: Seq<char>) -> (Option<u16>, Seq<char>) {
    let i = index_of_char(key, '/');
    let private = match parsed_unsigned(key.subrange(0, i), 0xffff) {
        Some(n) => Some(n as u16),
        None => None,
    };
    if i >= key.len() {
        (private, "tcp"@)
    } else {
        let rest = key.subrange(i + 1, key.len() as int);
        (private, rest.subrange(0, index_of_char(rest, '/')))
    }
}

/// The port a text names, if it names one.
pub open spec fn port_number(text: Option<Seq<char>>) -> Option<u16> {
    match text {
        Some(t) => match parsed_unsigned(t, 0xffff) {
            Some(n) => Some(n as u16),
            None => None,
        },
        None => None,
    }
}

/// The mapping one host binding of a port gives.
pub open spec fn binding_port(b: JsonView, private: Option<u16>, protocol: Seq<char>) -> PortView {
    PortView {
        ip: text_at(b, "HostIp"@),
        private_port: private,
        public_port: port_number(text_at(b, "HostPort"@)),
        port_type: Some(protocol),
    }
}

/// The mappings of a container, from the members of its `Ports` object: one
/// unpublished mapping for a port without bindings, one mapping per binding
/// otherwise.
pub open spec fn ports_of_fields(fields: Seq<(Seq<char>, JsonView)>) -> Seq<PortView>
    decreases fields.len(),
{
    if fields.len() == 0 {
        Seq::empty()
    } else {
        let rest = ports_of_fields(fields.drop_last());
        let (private, protocol) = port_key(fields.last().0);
        match fields.last().1 {
            JsonView::Null => rest.push(
                PortView {
                    ip: None,
                    private_port: private,
                    public_port: None,
                    port_type: Some(protocol),
                },
            ),
            JsonView::Array(bindings) => rest + Seq::new(
                bindings.len(),
                |j: int| binding_port(bindings[j], private, protocol),
            ),
            _ => rest,
        }
    }
}

/// The mappings of an inspected container.
pub open spec fn container_ports(item: JsonView) -> Seq<PortView> {
    match field_of(item.field("NetworkSettings"@), "Ports"@) {
        Some(JsonView::Object(fields)) => ports_of_fields(fields),
        _ => Seq::empty(),
    }
}

/// The id and the mappings of every inspected container that has an id.
pub open spec fn ports_table(items: Seq<JsonView>) -> Seq<(Seq<char>, Seq<PortView>)>
    decreases items.len(),
{
    if items.len() == 0 {
        Seq::empty()
    } else {
        match text_at(items.last(), "Id"@) {
            Some(id) => ports_table(items.drop_last()).push((id, container_ports(items.last()))),
            None => ports_table(items.drop_last()),
        }
    }
}

/// The mappings by container id that an inspection of several containers
/// gives; none when the answer is no JSON array.
pub open spec fn inspected_ports(doc: Option<JsonView>) -> Seq<(Seq<char>, Seq<PortView>)> {
    match doc {
        Some(JsonView::Array(items)) => ports_table(items),
        _ => Seq::empty(),
    }
}

/// The mappings the table holds for container `id`: those of its last entry
/// for that id, none when it has no entry.
pub open spec fn ports_for(table: Seq<(Seq<char>, Seq<PortView>)>, id: Seq<char>) -> Seq<
    PortView,
>
    decreases table.len(),
{
    if table.len() == 0 {
        Seq::empty()
    } else if table.last().0 == id {
        table.last().1
    } else {
        ports_for(table.drop_last(), id)
    }
}

fn u16_of(text: &str) -> (r: Option<u16>)
    ensures
        r == port_number(Some(text@)),
{
    match parse_unsigned(text, 0xffff) {
        Some(n) => Some(n as u16),
        None => None,
    }
}

fn read_port_key(key: &str) -> (r: (Option<u16>, String))
    ensures
        r.0 == port_key(key@).0,
        r.1@ == port_key(key@).1,
{
    let v = chars_of(key);
    let n = v.len();
    proof {
        assert(v@.subrange(0, n as int) =~= v@);
    }
    let i = find_char_in(&v, 0, n, '/');
    let first = string_of(&v, 0, i);
    let private = u16_of(first.as_str());
    if i >= n {
        (private, "tcp".to_owned())
    } else {
        let j = find_char_in(&v, i + 1, n, '/');
        proof {
            let rest = v@.subrange(i as int + 1, n as int);
            assert(rest.subrange(0, j - (i + 1)) =~= v@.subrange(i as int + 1, j as int));
        }
        (private, string_of(&v, i + 1, j))
    }
}

fn push_port(out: &mut Vec<Port>, p: Port)
    ensures
        final(out).deep_view() == old(out).deep_view().push(p.deep_view()),
{
    let ghost shown = p.deep_view();
    out.push(p);
    assert(final(out).deep_view() =~= old(out).deep_view().push(shown));
}

#[verifier::rlimit(50)]
fn ports_from_fields(fields: &Vec<(String, Json)>) -> (r: Vec<Port>)
    ensures
        r.deep_view() == ports_of_fields(fields.deep_view()),
{
    let ghost fv = fields.deep_view();
    let mut ports: Vec<Port> = Vec::new();
    assert(ports.deep_view() =~= Seq::<PortView>::empty());
    let mut i: usize = 0;
    assert(fv.take(0) =~= Seq::<(Seq<char>, JsonView)>::empty());
    while i < fields.len()
        invariant
            i <= fields.len(),
            fv == fields.deep_view(),
            ports.deep_view() == ports_of_fields(fv.take(i as int)),
        decreases fields.len() - i,
    {
        proof {
            assert(fv.take(i as int + 1).drop_last() =~= fv.take(i as int));
            assert(fv.take(i as int + 1).last() == fields[i as int].deep_view());
        }
        let (private, protocol) = read_port_key(fields[i].0.as_str());
        let ghost before = ports.deep_view();
        let value = &fields[i].1;
        if value.is_null() {
            push_port(
                &mut ports,
                Port {
                    ip: None,
                    private_port: private,
                    public_port: None,
                    port_type: Some(protocol),
                },
            );
        } else {
            match value.items() {
                Some(bindings) => {
                    let ghost bv = bindings.deep_view();
                    let mut j: usize = 0;
                    assert(ports.deep_view() =~= before + Seq::new(
                        0,
                        |k: int| binding_port(bv[k], private, protocol@),
                    ));
                    while j < bindings.len()
                        invariant
                            j <= bindings.len(),
                            bv == bindings.deep_view(),
                            ports.deep_view() == before + Seq::new(
                                j as nat,
                                |k: int| binding_port(bv[k], private, protocol@),
                            ),
                        decreases bindings.len() - j,
                    {
                        let b = &bindings[j];
                        let public = match text_member(b, "HostPort") {
                            Some(t) => u16_of(t.as_str()),
                            None => None,
                        };
                        push_port(
                            &mut ports,
                            Port {
                                ip: text_member(b, "HostIp"),
                                private_port: private,
                                public_port: public,
                                port_type: Some(protocol.clone()),
                            },
                        );
                        assert(bv[j as int] == bindings[j as int].deep_view());
                        assert(ports.deep_view() =~= before + Seq::new(
                            (j + 1) as nat,
                            |k: int| binding_port(bv[k], private, protocol@),
                        ));
                        j += 1;
                    }
                },
                None => {},
            }
        }
        i += 1;
    }
    assert(fv.take(fields.len() as int) =~= fv);
    ports
}

/// The id and the mappings of every container in an inspection of several
/// containers.
pub fn ports_from_inspect(doc: &Option<Json>) -> (r: Vec<(String, Vec<Port>)>)
    ensures
        r.deep_view() == inspected_ports(doc.deep_view()),
{
    let mut table: Vec<(String, Vec<Port>)> = Vec::new();
    assert(table.deep_view() =~= Seq::<(Seq<char>, Seq<PortView>)>::empty());
    let items = match doc {
        Some(j) => j.items(),
        None => None,
    };
    match items {
        Some(items) => {
            let ghost iv = items.deep_view();
            let mut i: usize = 0;
            assert(iv.take(0) =~= Seq::<JsonView>::empty());
            while i < items.len()
                invariant
                    i <= items.len(),
                    iv == items.deep_view(),
                    table.deep_view() == ports_table(iv.take(i as int)),
                decreases items.len() - i,
            {
                proof {
                    assert(iv.take(i as int + 1).drop_last() =~= iv.take(i as int));
                    assert(iv.take(i as int + 1).last() == items[i as int].deep_view());
                }
                let item = &items[i];
                match text_member(item, "Id") {
                    Some(id) => {
                        let fields = match get_in(item.get("NetworkSettings"), "Ports") {
                            Some(p) => p.members(),
                            None => None,
                        };
                        let ports = match fields {
                            Some(fields) => ports_from_fields(fields),
                            None => {
                                let none: Vec<Port> = Vec::new();
                                assert(none.deep_view() =~= Seq::<PortView>::empty());
                                none
                            },
                        };
                        let ghost before = table.deep_view();
                        let ghost shown = (id@, ports.deep_view());
                        table.push((id, ports));
                        assert(table.deep_view() =~= before.push(shown));
                    },
                    None => {},
                }
                i += 1;
            }
            assert(iv.take(items.len() as int) =~= iv);
        },
        None => {},
    }
    table
}

/// Reads the mappings by container id from what an inspection of several
/// containers printed.
pub fn inspect_ports_batch(out: &str) -> (r: Vec<(String, Vec<Port>)>)
    ensures
        r.deep_view() == inspected_ports(json_of(out@)),
{
    let doc = parse_json(out);
    ports_from_inspect(&doc)
}

fn lookup_ports(table: &Vec<(String, Vec<Port>)>, id: &str) -> (r: Vec<Port>)
    ensures
        r.deep_view() == ports_for(table.deep_view(), id@),
{
    let ghost tv = table.deep_view();
    let mut i: usize = table.len();
    proof {
        assert(tv.take(i as int) =~= tv);
    }
    while i > 0
        invariant
            i <= table.len(),
            tv == table.deep_view(),
            ports_for(tv, id@) == ports_for(tv.take(i as int), id@),
        decreases i,
    {
        proof {
            assert(tv.take(i as int).last() == table[i as int - 1].deep_view());
            assert(tv.take(i as int).drop_last() =~= tv.take(i as int - 1));
        }
        if str_eq(table[i - 1].0.as_str(), id) {
            let r = table[i - 1].1.clone();
            assert(r.deep_view() =~= table[i as int - 1].1.deep_view());
            return r;
        }
        i -= 1;
    }
    let none: Vec<Port> = Vec::new();
    assert(none.deep_view() =~= Seq::<PortView>::empty());
    none
}

/// A record as it enters a snapshot: a blank state reads `unknown`.
pub open spec fn normalized(c: ContainerSummaryView) -> ContainerSummaryView {
    if trimmed(c.state).len() == 0 {
        ContainerSummaryView { state: "unknown"@, ..c }
    } else {
        c
    }
}

/// The records that could be read, normalised, in order. A record that could
/// not be read is skipped.
pub open spec fn kept_records(records: Seq<Option<ContainerSummaryView>>) -> Seq<
    ContainerSummaryView,
>
    decreases records.len(),
{
    if records.len() == 0 {
        Seq::empty()
    } else {
        match records.last() {
            Some(c) => kept_records(records.drop_last()).push(normalized(c)),
            None => kept_records(records.drop_last()),
        }
    }
}

/// The key a snapshot is sorted by: the display name in lower case.
pub open spec fn sort_keys(entries: Seq<ContainerSummaryView>) -> Seq<Seq<char>> {
    Seq::new(entries.len(), |i: int| lowercase_of(display_name(entries[i].names)))
}

/// The snapshot made of the records that could be read: each with the
/// mappings the table holds for its id, sorted by display name without
/// regard to letter case; records with one name keep their order.
pub open spec fn snapshot_of(
    records: Seq<Option<ContainerSummaryView>>,
    table: Seq<(Seq<char>, Seq<PortView>)>,
) -> Seq<(ContainerSummaryView, Seq<PortView>)> {
    let kept = kept_records(records);
    let order = sort_order(sort_keys(kept), kept.len() as int);
    Seq::new(kept.len(), |i: int| (kept[order[i]], ports_for(table, kept[order[i]].id)))
}

/// The ids of the records that could be read, in order.
pub open spec fn record_ids(records: Seq<Option<ContainerSummaryView>>) -> Seq<Seq<char>>
    decreases records.len(),
{
    if records.len() == 0 {
        Seq::empty()
    } else {
        match records.last() {
            Some(c) => record_ids(records.drop_last()).push(c.id),
            None => record_ids(records.drop_last()),
        }
    }
}

/// The arguments that inspect the containers of a listing; none when no
/// record could be read, and then there is nothing to inspect.
pub fn batch_inspect_args(records: &Vec<Option<ContainerSummary>>) -> (r: Option<Vec<String>>)
    ensures
        r.deep_view() == if record_ids(records.deep_view()).len() == 0 {
            None
        } else {
            Some(seq!["inspect"@] + record_ids(records.deep_view()))
        },
{
    let ghost rv = records.deep_view();
    let mut args: Vec<String> = Vec::new();
    assert(args.deep_view() =~= Seq::<Seq<char>>::empty());
    push_line(&mut args, "inspect".to_owned());
    let mut i: usize = 0;
    assert(rv.take(0) =~= Seq::<Option<ContainerSummaryView>>::empty());
    assert(args.deep_view() =~= seq!["inspect"@] + record_ids(rv.take(0)));
    while i < records.len()
        invariant
            i <= records.len(),
            rv == records.deep_view(),
            args.deep_view() == seq!["inspect"@] + record_ids(rv.take(i as int)),
        decreases records.len() - i,
    {
        proof {
            assert(rv.take(i as int + 1).drop_last() =~= rv.take(i as int));
            assert(rv.take(i as int + 1).last() == records[i as int].deep_view());
        }
        match &records[i] {
            Some(c) => {
                push_line(&mut args, c.id.clone());
                assert(args.deep_view() =~= seq!["inspect"@] + record_ids(rv.take(i as int + 1)));
            },
            None => {},
        }
        i += 1;
    }
    assert(rv.take(records.len() as int) =~= rv);
    if args.len() == 1 {
        None
    } else {
        Some(args)
    }
}

/// Builds a snapshot from the records of a listing, `None` standing for a
/// record that could not be read, and from what the inspection of the
/// listed containers printed, `None` when there was no inspection or it
/// failed. Unreadable records are skipped; the rest is sorted by name.
#[verifier::rlimit(50)]
pub fn list_containers_all(records: Vec<Option<ContainerSummary>>, inspect_out: Option<&str>) -> (r:
    Vec<(ContainerSummary, Vec<Port>)>)
    ensures
        r.deep_view() == snapshot_of(
            records.deep_view(),
            match inspect_out {
                Some(t) => inspected_ports(json_of(t@)),
                None => Seq::empty(),
            },
        ),
{
    let ghost rv = records.deep_view();
    let table = match inspect_out {
        Some(t) => inspect_ports_batch(t),
        None => {
            let none: Vec<(String, Vec<Port>)> = Vec::new();
            assert(none.deep_view() =~= Seq::<(Seq<char>, Seq<PortView>)>::empty());
            none
        },
    };
    let mut kept: Vec<ContainerSummary> = Vec::new();
    assert(kept.deep_view() =~= Seq::<ContainerSummaryView>::empty());
    let mut i: usize = 0;
    assert(rv.take(0) =~= Seq::<Option<ContainerSummaryView>>::empty());
    while i < records.len()
        invariant
            i <= records.len(),
            rv == records.deep_view(),
            kept.deep_view() == kept_records(rv.take(i as int)),
        decreases records.len() - i,
    {
        proof {
            assert(rv.take(i as int + 1).drop_last() =~= rv.take(i as int));
            assert(rv.take(i as int + 1).last() == records[i as int].deep_view());
        }
        match &records[i] {
            Some(c) => {
                let mut c = c.clone();
                if trim(c.state.as_str()).as_str().unicode_len() == 0 {
                    c.state = "unknown".to_owned();
                }
                let ghost before = kept.deep_view();
                let ghost shown = c.deep_view();
                kept.push(c);
                assert(kept.deep_view() =~= before.push(shown));
            },
            None => {},
        }
        i += 1;
    }
    assert(rv.take(records.len() as int) =~= rv);
    let ghost kv = kept.deep_view();
    let mut keys: Vec<Vec<char>> = Vec::new();
    let mut j: usize = 0;
    while j < kept.len()
        invariant
            j <= kept.len(),
            keys.len() == j,
            forall|k: int|
                0 <= k < j ==> (#[trigger] keys[k])@ == lowercase_of(display_name(kept[k].names@)),
        decreases kept.len() - j,
    {
        let name = container_name(kept[j].names.as_str());
        keys.push(chars_of(to_lowercase(name.as_str()).as_str()));
        j += 1;
    }
    proof {
        assert forall|k: int| 0 <= k < keys.len() implies (#[trigger] keys.deep_view()[k])
            == sort_keys(kv)[k] by {
            assert(keys[k].deep_view() =~= keys[k]@);
            assert(kv[k] == kept[k].deep_view());
        }
        assert(keys.deep_view() =~= sort_keys(kv));
    }
    let order = sorted_indices(&keys);
    let ghost ov = sort_order(sort_keys(kv), kv.len() as int);
    let ghost tv = table.deep_view();
    let mut out: Vec<(ContainerSummary, Vec<Port>)> = Vec::new();
    let mut m: usize = 0;
    while m < order.len()
        invariant
            m <= order.len(),
            order.len() == kept.len(),
            kv == kept.deep_view(),
            tv == table.deep_view(),
            ov == order@.map_values(|x: usize| x as int),
            forall|k: int| 0 <= k < order.len() ==> (#[trigger] order[k]) < kept.len(),
            out.deep_view() =~= Seq::new(
                m as nat,
                |k: int| (kv[ov[k]], ports_for(tv, kv[ov[k]].id)),
            ),
        decreases order.len() - m,
    {
        let c = kept[order[m]].clone();
        let ports = lookup_ports(&table, c.id.as_str());
        let ghost before = out.deep_view();
        let ghost shown = (c.deep_view(), ports.deep_view());
        out.push((c, ports));
        proof {
            assert(ov[m as int] == order[m as int] as int);
            assert(kv[ov[m as int]] == kept[order[m as int] as int].deep_view());
            assert(out.deep_view() =~= before.push(shown));
        }
        m += 1;
    }
    out
}

fn text_list3(a: &str, b: &str, c: &str) -> (r: Vec<String>)
    ensures
        r.deep_view() == seq![a@, b@, c@],
{
    let mut v: Vec<String> = Vec::new();
    assert(v.deep_view() =~= Seq::<Seq<char>>::empty());
    push_line(&mut v, a.to_owned());
    push_line(&mut v, b.to_owned());
    push_line(&mut v, c.to_owned());
    assert(v.deep_view() =~= seq![a@, b@, c@]);
    v
}

/// The engine arguments that run the compose tool for `profile` with `args`.
pub fn compose_args(profile: &str, args: &Vec<String>) -> (r: Vec<String>)
    ensures
        r.deep_view() == seq!["compose"@, "--profile"@, profile@] + args.deep_view(),
{
    let mut full = text_list3("compose", "--profile", profile);
    let ghost head = full.deep_view();
    let mut i: usize = 0;
    assert(full.deep_view() =~= head + args.deep_view().take(0));
    while i < args.len()
        invariant
            i <= args.len(),
            full.deep_view() == head + args.deep_view().take(i as int),
        decreases args.len() - i,
    {
        push_line(&mut full, args[i].clone());
        assert(full.deep_view() =~= head + args.deep_view().take(i as int + 1));
        i += 1;
    }
    assert(args.deep_view().take(args.len() as int) =~= args.deep_view());
    full
}

/// The engine arguments that run `verb` on container `id`.
pub fn action_args(verb: &str, id: &str) -> (r: Vec<String>)
    ensures
        r.deep_view() == seq![verb@, id@],
{
    let mut v: Vec<String> = Vec::new();
    assert(v.deep_view() =~= Seq::<Seq<char>>::empty());
    push_line(&mut v, verb.to_owned());
    push_line(&mut v, id.to_owned());
    assert(v.deep_view() =~= seq![verb@, id@]);
    v
}

/// The engine arguments that remove container `id` by force.
pub fn rm_force_args(id: &str) -> (r: Vec<String>)
    ensures
        r.deep_view() == seq!["rm"@, "-f"@, id@],
{
    text_list3("rm", "-f", id)
}

/// The engine arguments that inspect container `id`.
pub fn inspect_args(id: &str) -> (r: Vec<String>)
    ensures
        r.deep_view() == seq!["inspect"@, id@],
{
    action_args("inspect", id)
}

/// The engine arguments that remove volume `name`.
pub fn volume_rm_args(name: &str) -> (r: Vec<String>)
    ensures
        r.deep_view() == seq!["volume"@, "rm"@, name@],
{
    text_list3("volume", "rm", name)
}

/// The engine arguments that follow the log of container `id`, starting
/// with its last `tail` lines.
pub fn logs_args(id: &str, tail: usize) -> (r: Vec<String>)
    ensures
        r.deep_view() == seq!["logs"@, "-f"@, "--tail"@, decimal_nat(tail as nat), id@],
{
    let mut v = text_list3("logs", "-f", "--tail");
    push_line(&mut v, u64_to_string(tail as u64));
    push_line(&mut v, id.to_owned());
    assert(v.deep_view() =~= seq!["logs"@, "-f"@, "--tail"@, decimal_nat(tail as nat), id@]);
    v
}

/// The engine arguments that list all containers, one JSON record per line.
pub fn list_args() -> (r: Vec<String>)
    ensures
        r.deep_view() == seq!["ps"@, "-a"@, "--no-trunc"@, "--format"@, "{{json .}}"@],
{
    let mut v = text_list3("ps", "-a", "--no-trunc");
    push_line(&mut v, "--format".to_owned());
    push_line(&mut v, "{{json .}}".to_owned());
    assert(v.deep_view() =~= seq!["ps"@, "-a"@, "--no-trunc"@, "--format"@, "{{json .}}"@]);
    v
}

} // verus!
