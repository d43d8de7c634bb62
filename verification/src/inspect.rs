//! Reading the engine's inspection documents.

use crate::json::{
    elements_of, field_of, get_in, integer_of, integer_or, Json, JsonView, text_at, text_member,
    text_of, text_or,
};
use crate::order::{sort_order, sorted_indices};
use crate::text::{
    chars_of, decimal_int, i64_to_string, join2, join3, join_lines, join_with, push_line,
    string_of,
};
use vstd::prelude::*;
use vstd::string::*;

verus! {

/// The names of the volumes among a container's mounts, in their order.
pub open spec fn volume_names(mounts: Seq<JsonView>) -> Seq<Seq<char>>
    decreases mounts.len(),
{
    if mounts.len() == 0 {
        Seq::empty()
    } else {
        let rest = volume_names(mounts.drop_last());
        let m = mounts.last();
        if text_at(m, "Type"@) == Some("volume"@) {
            match text_at(m, "Name"@) {
                Some(name) => rest.push(name),
                None => rest,
            }
        } else {
            rest
        }
    }
}

/// The volumes of the container an inspection document describes: the named
/// volume mounts of its first entry.
pub open spec fn volumes_of(doc: JsonView) -> Seq<Seq<char>> {
    volume_names(elements_of(field_of(doc.at(0), "Mounts"@)))
}

/// The elements of `doc`; none when `doc` is missing or no array.
fn elements<'a>(doc: Option<&'a Json>) -> (r: Option<&'a Vec<Json>>)
    ensures
        match r {
            Some(items) => elements_of(doc.deep_view()) == items.deep_view(),
            None => elements_of(doc.deep_view()) == Seq::<JsonView>::empty(),
        },
{
    match doc {
        Some(j) => j.items(),
        None => None,
    }
}

/// The names of the volumes mounted by the inspected container.
pub fn inspect_volumes(doc: &Json) -> (r: Vec<String>)
    ensures
        r.deep_view() == volumes_of(doc.deep_view()),
{
    let mut volumes: Vec<String> = Vec::new();
    assert(volumes.deep_view() =~= Seq::<Seq<char>>::empty());
    match elements(get_in(doc.get_index(0), "Mounts")) {
        Some(mounts) => {
            let ghost mv = mounts.deep_view();
            let mut i: usize = 0;
            assert(mv.take(0) =~= Seq::<JsonView>::empty());
            while i < mounts.len()
                invariant
                    i <= mounts.len(),
                    mv == mounts.deep_view(),
                    volumes.deep_view() == volume_names(mv.take(i as int)),
                decreases mounts.len() - i,
            {
                proof {
                    assert(mv.take(i as int + 1).drop_last() =~= mv.take(i as int));
                    assert(mv.take(i as int + 1).last() == mounts[i as int].deep_view());
                }
                let m = &mounts[i];
                let is_volume = match text_member(m, "Type") {
                    Some(t) => crate::text::str_eq(t.as_str(), "volume"),
                    None => false,
                };
                if is_volume {
                    match text_member(m, "Name") {
                        Some(name) => {
                            push_line(&mut volumes, name);
                        },
                        None => {},
                    }
                }
                i += 1;
            }
            assert(mv.take(mounts.len() as int) =~= mv);
        },
        None => {},
    }
    volumes
}

/// The document an inspection is about: the first element of the answer, or
/// the answer itself when it has none.
pub open spec fn info_root(doc: JsonView) -> JsonView {
    match doc.at(0) {
        Some(j) => j,
        None => doc,
    }
}

/// The host bindings of one port, as `ip:port`; a binding without a host
/// port is left out, one without a host address counts as `0.0.0.0`.
pub open spec fn binding_texts(bindings: Seq<JsonView>) -> Seq<Seq<char>>
    decreases bindings.len(),
{
    if bindings.len() == 0 {
        Seq::empty()
    } else {
        let rest = binding_texts(bindings.drop_last());
        let b = bindings.last();
        match text_at(b, "HostPort"@) {
            Some(port) => if port.len() == 0 {
                rest
            } else {
                match text_at(b, "HostIp"@) {
                    Some(ip) => rest.push(ip + ":"@ + port),
                    None => rest.push("0.0.0.0"@ + ":"@ + port),
                }
            },
            None => rest,
        }
    }
}

/// One line per port of the container: not exposed, or mapped to its bindings.
pub open spec fn port_rows(fields: Seq<(Seq<char>, JsonView)>) -> Seq<Seq<char>>
    decreases fields.len(),
{
    if fields.len() == 0 {
        Seq::empty()
    } else {
        let rest = port_rows(fields.drop_last());
        let key = fields.last().0;
        match fields.last().1 {
            JsonView::Null => rest.push("  "@ + key + " (not exposed)"@),
            JsonView::Array(bindings) => rest.push(
                "  "@ + key + " -> "@ + join_with(binding_texts(bindings), ", "@),
            ),
            _ => rest,
        }
    }
}

/// The lines under `PORTS:`.
pub open spec fn port_lines(ports: Option<JsonView>) -> Seq<Seq<char>> {
    match ports {
        Some(JsonView::Object(fields)) => port_rows(fields),
        _ => seq!["  (none)"@],
    }
}

/// The line that describes one mount.
pub open spec fn mount_row(m: JsonView) -> Seq<char> {
    "  "@ + text_of(m.field("Type"@), Seq::empty()) + ": "@ + text_of(
        m.field("Source"@),
        Seq::empty(),
    ) + " -> "@ + text_of(m.field("Destination"@), Seq::empty())
}

/// The lines under `MOUNTS:`.
pub open spec fn mount_lines(mounts: Seq<JsonView>) -> Seq<Seq<char>> {
    if mounts.len() == 0 {
        seq!["  (none)"@]
    } else {
        Seq::new(mounts.len(), |i: int| mount_row(mounts[i]))
    }
}

/// The strings among `items`, in their order.
pub open spec fn texts_in(items: Seq<JsonView>) -> Seq<Seq<char>>
    decreases items.len(),
{
    if items.len() == 0 {
        Seq::empty()
    } else {
        match items.last().text() {
            Some(t) => texts_in(items.drop_last()).push(t),
            None => texts_in(items.drop_last()),
        }
    }
}

/// The lines under `ENV VARIABLES:`: the variables in ascending order.
pub open spec fn env_lines(env: Seq<JsonView>) -> Seq<Seq<char>> {
    if env.len() == 0 {
        seq!["  (none)"@]
    } else {
        let names = texts_in(env);
        let order = sort_order(names, names.len() as int);
        Seq::new(names.len(), |i: int| "  "@ + names[order[i]])
    }
}

/// The first `n` characters of `s`, or all of it when it is shorter.
pub open spec fn first_chars(s: Seq<char>, n: int) -> Seq<char> {
    if s.len() <= n {
        s
    } else {
        s.subrange(0, n)
    }
}

/// The line that tells the state of a container.
pub open spec fn status_row(state: Option<JsonView>) -> Seq<char> {
    "Status: "@ + text_of(field_of(state, "Status"@), "unknown"@) + " (Pid: "@ + decimal_int(
        integer_of(field_of(state, "Pid"@), 0) as int,
    ) + ", Exit: "@ + decimal_int(integer_of(field_of(state, "ExitCode"@), 0) as int) + ")"@
}

/// The lines that open the summary: identity, image, state and creation
/// time, then the heading of the ports.
pub open spec fn head_lines(info: JsonView) -> Seq<Seq<char>> {
    seq![
        "ID: "@ + first_chars(text_of(info.field("Id"@), Seq::empty()), 12),
        "Image: "@ + text_of(field_of(info.field("Config"@), "Image"@), Seq::empty()),
        status_row(info.field("State"@)),
        "Created: "@ + text_of(info.field("Created"@), Seq::empty()),
        Seq::empty(),
        "PORTS:"@,
    ]
}

/// The lines of the summary shown for an inspected container.
pub open spec fn info_lines(doc: JsonView) -> Seq<Seq<char>> {
    let info = info_root(doc);
    head_lines(info) + port_lines(field_of(info.field("NetworkSettings"@), "Ports"@)) + seq![
        Seq::empty(),
        "MOUNTS:"@,
    ] + mount_lines(elements_of(info.field("Mounts"@))) + seq![Seq::empty(), "ENV VARIABLES:"@]
        + env_lines(elements_of(field_of(info.field("Config"@), "Env"@)))
}

/// The summary shown for an inspected container.
pub open spec fn container_info(doc: JsonView) -> Seq<char> {
    join_with(info_lines(doc), "\n"@)
}

fn bindings_of(bindings: &Vec<Json>) -> (r: Vec<String>)
    ensures
        r.deep_view() == binding_texts(bindings.deep_view()),
{
    let ghost bv = bindings.deep_view();
    let mut out: Vec<String> = Vec::new();
    assert(out.deep_view() =~= Seq::<Seq<char>>::empty());
    let mut i: usize = 0;
    assert(bv.take(0) =~= Seq::<JsonView>::empty());
    while i < bindings.len()
        invariant
            i <= bindings.len(),
            bv == bindings.deep_view(),
            out.deep_view() == binding_texts(bv.take(i as int)),
        decreases bindings.len() - i,
    {
        proof {
            assert(bv.take(i as int + 1).drop_last() =~= bv.take(i as int));
            assert(bv.take(i as int + 1).last() == bindings[i as int].deep_view());
        }
        let b = &bindings[i];
        match text_member(b, "HostPort") {
            Some(port) => {
                if port.as_str().unicode_len() > 0 {
                    let line = match text_member(b, "HostIp") {
                        Some(ip) => join3(ip.as_str(), ":", port.as_str()),
                        None => join3("0.0.0.0", ":", port.as_str()),
                    };
                    push_line(&mut out, line);
                }
            },
            None => {},
        }
        i += 1;
    }
    assert(bv.take(bindings.len() as int) =~= bv);
    out
}

#[verifier::rlimit(50)]
fn push_port_rows(out: &mut Vec<String>, fields: &Vec<(String, Json)>)
    ensures
        final(out).deep_view() == old(out).deep_view() + port_rows(fields.deep_view()),
{
    let ghost fv = fields.deep_view();
    let mut i: usize = 0;
    assert(fv.take(0) =~= Seq::<(Seq<char>, JsonView)>::empty());
    assert(out.deep_view() =~= old(out).deep_view() + port_rows(fv.take(0)));
    while i < fields.len()
        invariant
            i <= fields.len(),
            fv == fields.deep_view(),
            out.deep_view() == old(out).deep_view() + port_rows(fv.take(i as int)),
        decreases fields.len() - i,
    {
        proof {
            assert(fv.take(i as int + 1).drop_last() =~= fv.take(i as int));
            assert(fv.take(i as int + 1).last() == fields[i as int].deep_view());
        }
        let key = fields[i].0.as_str();
        let value = &fields[i].1;
        if value.is_null() {
            let line = join3("  ", key, " (not exposed)");
            push_line(out, line);
            assert(out.deep_view() =~= old(out).deep_view() + port_rows(fv.take(i as int + 1)));
        } else {
            match value.items() {
                Some(bindings) => {
                    let texts = bindings_of(bindings);
                    let mapped = join_lines(&texts, ", ");
                    let mut line = join3("  ", key, " -> ");
                    line.append(mapped.as_str());
                    push_line(out, line);
                    assert(out.deep_view() =~= old(out).deep_view() + port_rows(
                        fv.take(i as int + 1),
                    ));
                },
                None => {},
            }
        }
        i += 1;
    }
    assert(fv.take(fields.len() as int) =~= fv);
}

fn push_port_lines(out: &mut Vec<String>, ports: Option<&Json>)
    ensures
        final(out).deep_view() == old(out).deep_view() + port_lines(ports.deep_view()),
{
    let fields = match ports {
        Some(j) => j.members(),
        None => None,
    };
    match fields {
        Some(fields) => {
            push_port_rows(out, fields);
        },
        None => {
            push_line(out, "  (none)".to_owned());
            assert(final(out).deep_view() =~= old(out).deep_view() + seq!["  (none)"@]);
        },
    }
}

fn make_mount_row(m: &Json) -> (r: String)
    ensures
        r@ == mount_row(m.deep_view()),
{
    let typ = text_or(m.get("Type"), String::new());
    let src = text_or(m.get("Source"), String::new());
    let dst = text_or(m.get("Destination"), String::new());
    let mut line = join3("  ", typ.as_str(), ": ");
    line.append(src.as_str());
    line.append(" -> ");
    line.append(dst.as_str());
    line
}

fn push_mount_lines(out: &mut Vec<String>, mounts: Option<&Json>)
    ensures
        final(out).deep_view() == old(out).deep_view() + mount_lines(
            elements_of(mounts.deep_view()),
        ),
{
    match elements(mounts) {
        Some(items) => {
            if items.len() == 0 {
                push_line(out, "  (none)".to_owned());
                assert(final(out).deep_view() =~= old(out).deep_view() + seq!["  (none)"@]);
            } else {
                let ghost iv = items.deep_view();
                let mut i: usize = 0;
                assert(out.deep_view() =~= old(out).deep_view() + Seq::new(
                    0,
                    |k: int| mount_row(iv[k]),
                ));
                while i < items.len()
                    invariant
                        i <= items.len(),
                        iv == items.deep_view(),
                        out.deep_view() == old(out).deep_view() + Seq::new(
                            i as nat,
                            |k: int| mount_row(iv[k]),
                        ),
                    decreases items.len() - i,
                {
                    let line = make_mount_row(&items[i]);
                    push_line(out, line);
                    assert(iv[i as int] == items[i as int].deep_view());
                    assert(out.deep_view() =~= old(out).deep_view() + Seq::new(
                        (i + 1) as nat,
                        |k: int| mount_row(iv[k]),
                    ));
                    i += 1;
                }
                assert(Seq::new(items.len() as nat, |k: int| mount_row(iv[k])) =~= mount_lines(iv));
            }
        },
        None => {
            push_line(out, "  (none)".to_owned());
            assert(final(out).deep_view() =~= old(out).deep_view() + seq!["  (none)"@]);
        },
    }
}

fn strings_in(items: &Vec<Json>) -> (r: Vec<String>)
    ensures
        r.deep_view() == texts_in(items.deep_view()),
{
    let ghost iv = items.deep_view();
    let mut out: Vec<String> = Vec::new();
    assert(out.deep_view() =~= Seq::<Seq<char>>::empty());
    let mut i: usize = 0;
    assert(iv.take(0) =~= Seq::<JsonView>::empty());
    while i < items.len()
        invariant
            i <= items.len(),
            iv == items.deep_view(),
            out.deep_view() == texts_in(iv.take(i as int)),
        decreases items.len() - i,
    {
        proof {
            assert(iv.take(i as int + 1).drop_last() =~= iv.take(i as int));
            assert(iv.take(i as int + 1).last() == items[i as int].deep_view());
        }
        match items[i].as_str() {
            Some(s) => {
                push_line(&mut out, s.clone());
            },
            None => {},
        }
        i += 1;
    }
    assert(iv.take(items.len() as int) =~= iv);
    out
}

/// The characters of each text.
pub fn keys_of(texts: &Vec<String>) -> (r: Vec<Vec<char>>)
    ensures
        r.deep_view() == texts.deep_view(),
{
    let mut keys: Vec<Vec<char>> = Vec::new();
    let mut i: usize = 0;
    while i < texts.len()
        invariant
            i <= texts.len(),
            keys.len() == i,
            forall|k: int| 0 <= k < i ==> (#[trigger] keys[k])@ == texts[k]@,
        decreases texts.len() - i,
    {
        keys.push(chars_of(texts[i].as_str()));
        i += 1;
    }
    assert forall|k: int| 0 <= k < keys.len() implies (#[trigger] keys.deep_view()[k])
        == texts.deep_view()[k] by {
        assert(keys[k].deep_view() =~= keys[k]@);
    }
    assert(keys.deep_view() =~= texts.deep_view());
    keys
}

#[verifier::rlimit(50)]
fn push_env_lines(out: &mut Vec<String>, env: Option<&Json>)
    ensures
        final(out).deep_view() == old(out).deep_view() + env_lines(elements_of(env.deep_view())),
{
    match elements(env) {
        Some(items) => {
            if items.len() == 0 {
                push_line(out, "  (none)".to_owned());
                assert(final(out).deep_view() =~= old(out).deep_view() + seq!["  (none)"@]);
            } else {
                let names = strings_in(items);
                let keys = keys_of(&names);
                let order = sorted_indices(&keys);
                let ghost nv = names.deep_view();
                let ghost ov = sort_order(nv, nv.len() as int);
                let mut i: usize = 0;
                assert(out.deep_view() =~= old(out).deep_view() + Seq::new(
                    0,
                    |k: int| "  "@ + nv[ov[k]],
                ));
                while i < order.len()
                    invariant
                        i <= order.len(),
                        order.len() == names.len(),
                        nv == names.deep_view(),
                        ov == order@.map_values(|x: usize| x as int),
                        forall|k: int| 0 <= k < order.len() ==> (#[trigger] order[k]) < names.len(),
                        out.deep_view() == old(out).deep_view() + Seq::new(
                            i as nat,
                            |k: int| "  "@ + nv[ov[k]],
                        ),
                    decreases order.len() - i,
                {
                    let line = join2("  ", names[order[i]].as_str());
                    push_line(out, line);
                    assert(ov[i as int] == order[i as int] as int);
                    assert(out.deep_view() =~= old(out).deep_view() + Seq::new(
                        (i + 1) as nat,
                        |k: int| "  "@ + nv[ov[k]],
                    ));
                    i += 1;
                }
                assert(Seq::new(nv.len(), |k: int| "  "@ + nv[ov[k]]) =~= env_lines(
                    items.deep_view(),
                ));
            }
        },
        None => {
            push_line(out, "  (none)".to_owned());
            assert(final(out).deep_view() =~= old(out).deep_view() + seq!["  (none)"@]);
        },
    }
}

fn short_id(id: &str) -> (r: String)
    ensures
        r@ == first_chars(id@, 12),
{
    let v = chars_of(id);
    let shown = if v.len() <= 12 {
        v.len()
    } else {
        12
    };
    proof {
        assert(v@.subrange(0, v.len() as int) =~= v@);
    }
    string_of(&v, 0, shown)
}

fn status_line(state: Option<&Json>) -> (r: String)
    ensures
        r@ == status_row(state.deep_view()),
{
    let status = text_or(get_in(state, "Status"), "unknown".to_owned());
    let pid = integer_or(get_in(state, "Pid"), 0);
    let exit_code = integer_or(get_in(state, "ExitCode"), 0);
    let mut line = join3("Status: ", status.as_str(), " (Pid: ");
    line.append(i64_to_string(pid).as_str());
    line.append(", Exit: ");
    line.append(i64_to_string(exit_code).as_str());
    line.append(")");
    line
}

#[verifier::rlimit(50)]
fn make_head_lines(info: &Json) -> (r: Vec<String>)
    ensures
        r.deep_view() == head_lines(info.deep_view()),
{
    let id = text_or(info.get("Id"), String::new());
    let image = text_or(get_in(info.get("Config"), "Image"), String::new());
    let created = text_or(info.get("Created"), String::new());
    let l0 = join2("ID: ", short_id(id.as_str()).as_str());
    let l1 = join2("Image: ", image.as_str());
    let l2 = status_line(info.get("State"));
    let l3 = join2("Created: ", created.as_str());
    let mut out: Vec<String> = Vec::new();
    assert(out.deep_view() =~= Seq::<Seq<char>>::empty());
    let ghost v0 = l0@;
    let ghost v1 = l1@;
    let ghost v2 = l2@;
    let ghost v3 = l3@;
    push_line(&mut out, l0);
    push_line(&mut out, l1);
    push_line(&mut out, l2);
    push_line(&mut out, l3);
    push_line(&mut out, String::new());
    push_line(&mut out, "PORTS:".to_owned());
    assert(out.deep_view() =~= seq![v0, v1, v2, v3, Seq::<char>::empty(), "PORTS:"@]);
    out
}

/// The summary shown for an inspected container: identity, state, ports,
/// mounts and variables, one item per line.
#[verifier::rlimit(50)]
pub fn format_container_info(inspect_json: &Json) -> (r: String)
    ensures
        r@ == container_info(inspect_json.deep_view()),
{
    let info = match inspect_json.get_index(0) {
        Some(j) => j,
        None => inspect_json,
    };
    assert(info.deep_view() == info_root(inspect_json.deep_view()));
    let mut out = make_head_lines(info);
    push_port_lines(&mut out, get_in(info.get("NetworkSettings"), "Ports"));
    let ghost a1 = out.deep_view();
    push_line(&mut out, String::new());
    push_line(&mut out, "MOUNTS:".to_owned());
    let ghost a2 = out.deep_view();
    assert(a2 =~= a1 + seq![Seq::<char>::empty(), "MOUNTS:"@]);
    push_mount_lines(&mut out, info.get("Mounts"));
    let ghost a3 = out.deep_view();
    push_line(&mut out, String::new());
    push_line(&mut out, "ENV VARIABLES:".to_owned());
    let ghost a4 = out.deep_view();
    assert(a4 =~= a3 + seq![Seq::<char>::empty(), "ENV VARIABLES:"@]);
    push_env_lines(&mut out, get_in(info.get("Config"), "Env"));
    join_lines(&out, "\n")
}

} // verus!
