//! Classification of a machine's remote-display protocol from the text of its
//! definition.

use vstd::prelude::*;
use crate::text::{
    chars_of, contains, contains_chars, decimal, find_first, find_first_char, find_last,
    find_last_char, is_digit, lemma_decimal_digits, lemma_find_first_at, lemma_find_last_at,
    lemma_parse_decimal, lemma_split_around, lemma_split_without, occurs_at, parse_u16,
    parse_u16_spec, slice_chars, split, split_chars, views,
};

verus! {

/// The remote-display channel that a machine exposes, with its port on the host.
#[derive(Clone, Copy, Debug, PartialEq, Eq, Structural)]
pub enum RemoteProtocol {
    Rdp(u16),
    Vnc(u16),
    Spice(u16),
}

/// The guest port of the remote-desktop service.
pub const RDP_GUEST_PORT: u16 = 3389;

/// The guest port of the VNC service.
pub const VNC_GUEST_PORT: u16 = 5900;

/// The text that marks the port-forwarding declaration of a definition.
pub open spec fn forwards_marker() -> Seq<char> {
    "port_forwards"@
}

/// What one `host:guest` mapping exposes, if anything: exactly one colon, two
/// port numbers, and a guest port of a known service.
pub open spec fn mapping_protocol(m: Seq<char>) -> Option<RemoteProtocol> {
    let parts = split(m, ':');
    if parts.len() == 2 {
        match (parse_u16_spec(parts[0]), parse_u16_spec(parts[1])) {
            (Some(host), Some(guest)) => if guest == RDP_GUEST_PORT {
                Some(RemoteProtocol::Rdp(host))
            } else if guest == VNC_GUEST_PORT {
                Some(RemoteProtocol::Vnc(host))
            } else {
                None
            },
            _ => None,
        }
    } else {
        None
    }
}

/// What the first recognised mapping among `ms` exposes.
pub open spec fn first_recognized(ms: Seq<Seq<char>>) -> Option<RemoteProtocol>
    decreases ms.len(),
{
    if ms.len() == 0 {
        None
    } else {
        match mapping_protocol(ms[0]) {
            Some(p) => Some(p),
            None => first_recognized(ms.drop_first()),
        }
    }
}

/// What a declaration line exposes: the text between its first `(` and its
/// last `)`, cut at each `"`, read as mappings.
pub open spec fn line_protocol(line: Seq<char>) -> Option<RemoteProtocol> {
    match (find_first(line, '('), find_last(line, ')')) {
        (Some(a), Some(b)) => if a < b {
            first_recognized(split(line.subrange(a + 1, b), '"'))
        } else {
            None
        },
        _ => None,
    }
}

/// The first of `lines` that holds the declaration marker.
pub open spec fn marked_line(lines: Seq<Seq<char>>) -> Option<Seq<char>>
    decreases lines.len(),
{
    if lines.len() == 0 {
        None
    } else if contains(lines[0], forwards_marker()) {
        Some(lines[0])
    } else {
        marked_line(lines.drop_first())
    }
}

/// The protocol of a definition: what the first declaration line exposes, or
/// SPICE on `default_spice_port` where there is no such line or it exposes nothing.
pub open spec fn classify(text: Seq<char>, default_spice_port: u16) -> RemoteProtocol {
    match marked_line(split(text, '\n')) {
        Some(line) => match line_protocol(line) {
            Some(p) => p,
            None => RemoteProtocol::Spice(default_spice_port),
        },
        None => RemoteProtocol::Spice(default_spice_port),
    }
}

/// What one `host:guest` mapping exposes, if anything.
pub fn mapping_of(m: &Vec<char>) -> (r: Option<RemoteProtocol>)
    ensures
        r == mapping_protocol(m@),
{
    let parts = split_chars(m, ':');
    assert(views(parts@).len() == parts@.len());
    if parts.len() != 2 {
        return None;
    }
    assert(views(parts@)[0] == parts@[0]@);
    assert(views(parts@)[1] == parts@[1]@);
    let host = parse_u16(&parts[0]);
    let guest = parse_u16(&parts[1]);
    match (host, guest) {
        (Some(h), Some(g)) => if g == RDP_GUEST_PORT {
            Some(RemoteProtocol::Rdp(h))
        } else if g == VNC_GUEST_PORT {
            Some(RemoteProtocol::Vnc(h))
        } else {
            None
        },
        _ => None,
    }
}

/// What a declaration line exposes, if anything.
pub fn line_protocol_of(line: &Vec<char>) -> (r: Option<RemoteProtocol>)
    ensures
        r == line_protocol(line@),
{
    let open = find_first_char(line, '(');
    let close = find_last_char(line, ')');
    let (a, b) = match (open, close) {
        (Some(a), Some(b)) => (a, b),
        _ => {
            return None;
        },
    };
    if a >= b {
        return None;
    }
    let inner = slice_chars(line, a + 1, b);
    let ms = split_chars(&inner, '"');
    let ghost all = views(ms@);
    let mut i: usize = 0;
    assert(all.subrange(0, all.len() as int) =~= all);
    assert(line_protocol(line@) == first_recognized(all));
    while i < ms.len()
        invariant
            line_protocol(line@) == first_recognized(all),
            all == views(ms@),
            i <= ms.len(),
            all.len() == ms.len(),
            first_recognized(all) == first_recognized(all.subrange(i as int, all.len() as int)),
        decreases ms.len() - i,
    {
        let ghost rest = all.subrange(i as int, all.len() as int);
        assert(rest[0] == ms@[i as int]@);
        let p = mapping_of(&ms[i]);
        if p.is_some() {
            return p;
        }
        assert(rest.drop_first() =~= all.subrange(i + 1, all.len() as int));
        i += 1;
    }
    None
}

/// Classifies a machine from the text of its definition. Never fails: where
/// no declaration line exposes a known service, the result is SPICE on
/// `default_spice_port`.
pub fn parse_vm_config(text: &str, default_spice_port: u16) -> (r: RemoteProtocol)
    ensures
        r == classify(text@, default_spice_port),
{
    let chars = chars_of(text);
    let marker = chars_of("port_forwards");
    let lines = split_chars(&chars, '\n');
    let ghost all = views(lines@);
    let mut i: usize = 0;
    assert(all.subrange(0, all.len() as int) =~= all);
    while i < lines.len()
        invariant
            all == views(lines@),
            all == split(text@, '\n'),
            marker@ == forwards_marker(),
            i <= lines.len(),
            all.len() == lines.len(),
            marked_line(all) == marked_line(all.subrange(i as int, all.len() as int)),
        decreases lines.len() - i,
    {
        let ghost rest = all.subrange(i as int, all.len() as int);
        assert(rest[0] == lines@[i as int]@);
        if contains_chars(&lines[i], &marker) {
            return match line_protocol_of(&lines[i]) {
                Some(p) => p,
                None => RemoteProtocol::Spice(default_spice_port),
            };
        }
        assert(rest.drop_first() =~= all.subrange(i + 1, all.len() as int));
        i += 1;
    }
    RemoteProtocol::Spice(default_spice_port)
}

proof fn lemma_first_recognized_after(before: Seq<Seq<char>>, m: Seq<char>, after: Seq<Seq<char>>)
    requires
        forall|j: int| 0 <= j < before.len() ==> mapping_protocol(#[trigger] before[j]) is None,
        mapping_protocol(m) is Some,
    ensures
        first_recognized(before + seq![m] + after) == mapping_protocol(m),
    decreases before.len(),
{
    let all = before + seq![m] + after;
    if before.len() == 0 {
        assert(all[0] == m);
    } else {
        assert(all[0] == before[0]);
        assert(mapping_protocol(before[0]) is None);
        let rest = before.drop_first();
        assert forall|j: int| 0 <= j < rest.len() implies mapping_protocol(#[trigger] rest[j]) is None by {
            assert(rest[j] == before[j + 1]);
        }
        assert(all.drop_first() =~= rest + seq![m] + after);
        lemma_first_recognized_after(rest, m, after);
    }
}

/// In a definition whose first declaration line lists, between its first `(`
/// and its last `)`, a mapping `host:guest` before any other recognised
/// mapping, guest port 3389 makes the machine RDP on `host` and guest port
/// 5900 makes it VNC on `host`.
pub proof fn law_guest_port_decides(
    text: Seq<char>,
    default_spice_port: u16,
    line: Seq<char>,
    a: int,
    b: int,
    before: Seq<Seq<char>>,
    m: Seq<char>,
    after: Seq<Seq<char>>,
    host: u16,
    guest: u16,
)
    requires
        marked_line(split(text, '\n')) == Some(line),
        find_first(line, '(') == Some(a),
        find_last(line, ')') == Some(b),
        a < b,
        split(line.subrange(a + 1, b), '"') == before + seq![m] + after,
        forall|j: int| 0 <= j < before.len() ==> mapping_protocol(#[trigger] before[j]) is None,
        split(m, ':').len() == 2,
        parse_u16_spec(split(m, ':')[0]) == Some(host),
        parse_u16_spec(split(m, ':')[1]) == Some(guest),
    ensures
        guest == RDP_GUEST_PORT ==> classify(text, default_spice_port) == RemoteProtocol::Rdp(host),
        guest == VNC_GUEST_PORT ==> classify(text, default_spice_port) == RemoteProtocol::Vnc(host),
{
    if guest == RDP_GUEST_PORT || guest == VNC_GUEST_PORT {
        lemma_first_recognized_after(before, m, after);
    }
}

/// A definition without a declaration line, or whose declaration line lists
/// no recognised mapping, is SPICE on the default port.
pub proof fn law_unrecognized_is_spice(text: Seq<char>, default_spice_port: u16)
    requires
        marked_line(split(text, '\n')) matches Some(line) ==> line_protocol(line) is None,
    ensures
        classify(text, default_spice_port) == RemoteProtocol::Spice(default_spice_port),
{
}

/// The declaration line `port_forwards=("host:guest")`.
pub open spec fn forward_declaration(host: u16, guest: u16) -> Seq<char> {
    "port_forwards=(\""@ + decimal(host as nat) + ":"@ + decimal(guest as nat) + "\")"@
}

proof fn lemma_marked_line_after(before: Seq<Seq<char>>, line: Seq<char>, after: Seq<Seq<char>>)
    requires
        forall|j: int| 0 <= j < before.len() ==> !contains(#[trigger] before[j], forwards_marker()),
        contains(line, forwards_marker()),
    ensures
        marked_line(before + seq![line] + after) == Some(line),
    decreases before.len(),
{
    let all = before + seq![line] + after;
    if before.len() == 0 {
        assert(all[0] == line);
    } else {
        assert(all[0] == before[0]);
        let rest = before.drop_first();
        assert forall|j: int| 0 <= j < rest.len() implies !contains(#[trigger] rest[j], forwards_marker()) by {
            assert(rest[j] == before[j + 1]);
        }
        assert(all.drop_first() =~= rest + seq![line] + after);
        lemma_marked_line_after(rest, line, after);
    }
}

/// What the declaration line `port_forwards=("host:guest")` exposes.
proof fn lemma_declaration_protocol(host: u16, guest: u16)
    ensures
        contains(forward_declaration(host, guest), forwards_marker()),
        line_protocol(forward_declaration(host, guest)) == mapping_protocol(
            decimal(host as nat) + ":"@ + decimal(guest as nat),
        ),
        mapping_protocol(decimal(host as nat) + ":"@ + decimal(guest as nat)) == (if guest
            == RDP_GUEST_PORT {
            Some(RemoteProtocol::Rdp(host))
        } else if guest == VNC_GUEST_PORT {
            Some(RemoteProtocol::Vnc(host))
        } else {
            None
        }),
{
    reveal_strlit("port_forwards=(\"");
    reveal_strlit(":");
    reveal_strlit("\")");
    reveal_strlit("port_forwards");
    let h = decimal(host as nat);
    let g = decimal(guest as nat);
    let line = forward_declaration(host, guest);
    lemma_decimal_digits(host as nat);
    lemma_decimal_digits(guest as nat);
    let head = "port_forwards=(\""@;
    assert(head.len() == 16);
    assert(line.subrange(0, 13) =~= forwards_marker());
    assert(occurs_at(line, forwards_marker(), 0));
    let n = line.len() as int;
    assert(n == 16 + h.len() + 1 + g.len() + 2);
    assert forall|j: int| 0 <= j < h.len() implies line[16 + j] == h[j] && is_digit(h[j]) by {}
    assert forall|j: int| 0 <= j < g.len() implies line[16 + h.len() + 1 + j] == g[j] && is_digit(g[j]) by {}
    assert(line[14] == '(');
    assert forall|j: int| 0 <= j < 14 implies line[j] != '(' by {}
    lemma_find_first_at(line, '(', 14);
    assert(line[n - 1] == ')');
    lemma_find_last_at(line, ')', n - 1);
    let m = h + ":"@ + g;
    assert forall|j: int| 0 <= j < m.len() implies m[j] != '"' by {
        if j < h.len() {
            assert(m[j] == h[j]);
            assert(is_digit(h[j]));
        } else if j > h.len() {
            assert(m[j] == g[j - h.len() - 1]);
            assert(is_digit(g[j - h.len() - 1]));
        }
    }
    let inner = line.subrange(15, n - 1);
    assert(inner =~= Seq::<char>::empty() + seq!['"'] + (m + seq!['"'] + Seq::<char>::empty()));
    lemma_split_around(Seq::<char>::empty(), '"', m + seq!['"'] + Seq::<char>::empty());
    lemma_split_around(m, '"', Seq::<char>::empty());
    lemma_split_without(m, '"');
    lemma_split_without(Seq::<char>::empty(), '"');
    let pieces = split(inner, '"');
    assert(pieces =~= seq![Seq::<char>::empty(), m, Seq::<char>::empty()]);
    assert forall|j: int| 0 <= j < h.len() implies h[j] != ':' by {
        assert(is_digit(h[j]));
    }
    assert forall|j: int| 0 <= j < g.len() implies g[j] != ':' by {
        assert(is_digit(g[j]));
    }
    assert(m =~= h + seq![':'] + g);
    lemma_split_around(h, ':', g);
    lemma_split_without(h, ':');
    lemma_split_without(g, ':');
    assert(split(m, ':') =~= seq![h, g]);
    lemma_parse_decimal(host);
    lemma_parse_decimal(guest);
    lemma_split_without(Seq::<char>::empty(), ':');
    assert(mapping_protocol(Seq::<char>::empty()) is None);
    assert(pieces.drop_first() =~= seq![m, Seq::<char>::empty()]);
    assert(first_recognized(pieces) == first_recognized(pieces.drop_first()));
    let rest = pieces.drop_first();
    assert(rest[0] == m);
    if mapping_protocol(m) is None {
        assert(rest.drop_first() =~= seq![Seq::<char>::empty()]);
        assert(rest.drop_first().drop_first() =~= Seq::<Seq<char>>::empty());
        assert(first_recognized(rest.drop_first().drop_first()) is None);
        assert(first_recognized(rest.drop_first()) is None);
    }
    assert(first_recognized(pieces) == mapping_protocol(m));
    assert(line_protocol(line) == first_recognized(split(line.subrange(15, n - 1 as int), '"')));
}

/// A definition whose first declaration line is `port_forwards=("host:guest")`
/// is RDP on `host` for guest port 3389, VNC on `host` for guest port 5900,
/// and SPICE on the default port for any other guest port.
pub proof fn law_forwarded_guest_port(
    before: Seq<Seq<char>>,
    after: Seq<Seq<char>>,
    text: Seq<char>,
    host: u16,
    guest: u16,
    default_spice_port: u16,
)
    requires
        split(text, '\n') == before + seq![forward_declaration(host, guest)] + after,
        forall|j: int| 0 <= j < before.len() ==> !contains(#[trigger] before[j], forwards_marker()),
    ensures
        classify(text, default_spice_port) == (if guest == RDP_GUEST_PORT {
            RemoteProtocol::Rdp(host)
        } else if guest == VNC_GUEST_PORT {
            RemoteProtocol::Vnc(host)
        } else {
            RemoteProtocol::Spice(default_spice_port)
        }),
{
    lemma_declaration_protocol(host, guest);
    lemma_marked_line_after(before, forward_declaration(host, guest), after);
}

} // verus!
