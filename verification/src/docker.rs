//! Docker containers: the Engine API's container list turned into the
//! dashboard's view of each container.

use crate::text::{chars_of, push_chars, string_from};
use vstd::prelude::*;
use vstd::string::StringSliceAdditionalSpecFns;
use vstd::utf8::{encode_utf8, is_char_boundary};

verus! {

/// A container as the dashboard shows it.
#[derive(Clone, Debug)]
pub struct DockerContainer {
    pub id: String,
    pub name: String,
    pub image: String,
    pub status: String,
    pub state: String,
    pub is_running: bool,
    pub created_at: i64,
    pub ports: Vec<u16>,
}

/// A port mapping as the Engine API lists it.
#[derive(Clone, Debug)]
pub struct RawPort {
    pub ip: Option<String>,
    pub private_port: Option<u16>,
    pub public_port: Option<u16>,
    pub port_type: Option<String>,
}

/// A container as the Engine API lists it (`GET /containers/json`).
#[derive(Clone, Debug)]
pub struct RawContainer {
    pub id: String,
    pub names: Vec<String>,
    pub image: String,
    pub status: String,
    pub state: String,
    pub created: i64,
    pub ports: Vec<RawPort>,
}

/// Talks to the Docker Engine over its Unix socket.
#[derive(Clone, Debug)]
pub struct DockerClient {
    socket_path: String,
}

impl DockerClient {
    /// The path of the socket this client talks to.
    pub closed spec fn socket(&self) -> Seq<char> {
        self.socket_path@
    }

    /// A client of the engine at `/var/run/docker.sock`.
    pub fn new() -> (c: Self)
        ensures
            c.socket() == "/var/run/docker.sock"@,
    {
        DockerClient { socket_path: string_from("/var/run/docker.sock") }
    }

    /// The path of the socket this client talks to.
    pub fn socket_path(&self) -> (s: &str)
        ensures
            s@ == self.socket(),
    {
        self.socket_path.as_str()
    }
}

/// `s` without its leading `c` characters.
pub open spec fn trim_leading(s: Seq<char>, c: char) -> Seq<char>
    decreases s.len(),
{
    if s.len() > 0 && s[0] == c {
        trim_leading(s.drop_first(), c)
    } else {
        s
    }
}

proof fn lemma_trim_leading_skip(s: Seq<char>, c: char, i: int)
    requires
        0 <= i <= s.len(),
        forall|k: int| 0 <= k < i ==> s[k] == c,
    ensures
        trim_leading(s, c) == trim_leading(s.subrange(i, s.len() as int), c),
    decreases i,
{
    if i > 0 {
        assert(s.drop_first().subrange(i - 1, s.drop_first().len() as int) =~= s.subrange(
            i,
            s.len() as int,
        ));
        lemma_trim_leading_skip(s.drop_first(), c, i - 1);
    } else {
        assert(s.subrange(0, s.len() as int) =~= s);
    }
}

/// The characters of `s` without its leading `c` characters.
pub fn trim_leading_chars(s: &[char], c: char) -> (r: Vec<char>)
    ensures
        r@ == trim_leading(s@, c),
{
    let mut i: usize = 0;
    while i < s.len() && s[i] == c
        invariant
            i <= s@.len(),
            forall|k: int| 0 <= k < i ==> s@[k] == c,
        decreases s@.len() - i,
    {
        i = i + 1;
    }
    proof {
        lemma_trim_leading_skip(s@, c, i as int);
    }
    let mut r: Vec<char> = Vec::new();
    let mut k: usize = i;
    while k < s.len()
        invariant
            i <= k <= s@.len(),
            r@ == s@.subrange(i as int, k as int),
        decreases s@.len() - k,
    {
        r.push(s[k]);
        proof {
            assert(s@.subrange(i as int, k + 1) =~= s@.subrange(i as int, k as int).push(
                s@[k as int],
            ));
        }
        k = k + 1;
    }
    r
}

/// The name shown for a container: its first name without leading `/`, or
/// `container` when it has none.
pub open spec fn display_name(names: Seq<Seq<char>>) -> Seq<char> {
    trim_leading(
        if names.len() > 0 {
            names[0]
        } else {
            "container"@
        },
        '/',
    )
}

/// Trimming leaves no leading `c` and keeps a suffix of the text.
pub proof fn lemma_trim_leading_result(s: Seq<char>, c: char)
    ensures
        trim_leading(s, c).len() == 0 || trim_leading(s, c)[0] != c,
        trim_leading(s, c).is_suffix_of(s),
    decreases s.len(),
{
    if s.len() > 0 && s[0] == c {
        lemma_trim_leading_result(s.drop_first(), c);
        let t = trim_leading(s.drop_first(), c);
        assert forall|i: int| 0 <= i < t.len() implies t[i] == s[s.len() - t.len() + i] by {
            assert(t[i] == s.drop_first()[s.drop_first().len() - t.len() + i]);
        }
    }
}

/// A container's display name never begins with `/`, and ends its first
/// name (or `container`).
pub proof fn law_display_name_has_no_leading_slash(names: Seq<Seq<char>>)
    ensures
        display_name(names).len() == 0 || display_name(names)[0] != '/',
        display_name(names).is_suffix_of(
            if names.len() > 0 {
                names[0]
            } else {
                "container"@
            },
        ),
{
    lemma_trim_leading_result(
        if names.len() > 0 {
            names[0]
        } else {
            "container"@
        },
        '/',
    );
}

/// `c` in lower case, for ASCII letters.
pub open spec fn ascii_lower(c: char) -> char {
    if 'A' as u32 <= c as u32 <= 'Z' as u32 {
        ((c as u32) + 32) as char
    } else {
        c
    }
}

/// Whether a container state reads `running` in any letter case. (No
/// character other than an ASCII letter lower-cases to one of the letters of
/// `running`, so this is `state.to_lowercase() == "running"`.)
pub open spec fn is_running_state(state: Seq<char>) -> bool {
    let w = seq!['r', 'u', 'n', 'n', 'i', 'n', 'g'];
    state.len() == 7 && forall|i: int| 0 <= i < 7 ==> ascii_lower(#[trigger] state[i]) == w[i]
}

/// Whether a container state reads `running` in any letter case.
pub fn state_is_running(state: &str) -> (b: bool)
    ensures
        b == is_running_state(state@),
{
    let s = chars_of(state);
    let w: [char; 7] = ['r', 'u', 'n', 'n', 'i', 'n', 'g'];
    assert(w@ =~= seq!['r', 'u', 'n', 'n', 'i', 'n', 'g']);
    if s.len() != 7 {
        return false;
    }
    let mut i: usize = 0;
    while i < 7
        invariant
            i <= 7,
            s@ == state@,
            s@.len() == 7,
            w@ == seq!['r', 'u', 'n', 'n', 'i', 'n', 'g'],
            forall|k: int| 0 <= k < i ==> ascii_lower(#[trigger] s@[k]) == w@[k],
        decreases 7 - i,
    {
        let c = s[i];
        let u = c as u32;
        let lower = if 'A' as u32 <= u && u <= 'Z' as u32 {
            u + 32
        } else {
            u
        };
        if lower != w[i] as u32 {
            assert(ascii_lower(s@[i as int]) as u32 == lower);
            return false;
        }
        assert(ascii_lower(s@[i as int]) as u32 == w@[i as int] as u32);
        i = i + 1;
    }
    true
}

/// The ports a container exposes, in listing order: each mapping's public
/// port, or its private port when it has no public one.
pub open spec fn port_candidates(ports: Seq<RawPort>) -> Seq<u16>
    decreases ports.len(),
{
    if ports.len() == 0 {
        seq![]
    } else {
        let prev = port_candidates(ports.drop_last());
        let p = ports.last();
        match p.public_port {
            Some(v) => prev.push(v),
            None => match p.private_port {
                Some(v) => prev.push(v),
                None => prev,
            },
        }
    }
}

/// Each element is smaller than the next.
pub open spec fn strictly_increasing(s: Seq<u16>) -> bool {
    forall|i: int, j: int| 0 <= i < j < s.len() ==> s[i] < s[j]
}

/// Adds `p` to a strictly increasing sequence of ports, unless it is there.
fn insert_port(v: &mut Vec<u16>, p: u16)
    requires
        strictly_increasing(old(v)@),
    ensures
        strictly_increasing(final(v)@),
        forall|x: u16| final(v)@.contains(x) <==> (old(v)@.contains(x) || x == p),
{
    let mut i: usize = 0;
    while i < v.len() && v[i] < p
        invariant
            i <= v@.len(),
            v@ == old(v)@,
            forall|k: int| 0 <= k < i ==> v@[k] < p,
        decreases v@.len() - i,
    {
        i = i + 1;
    }
    if i < v.len() && v[i] == p {
        assert(v@[i as int] == p);
        return;
    }
    let ghost before = v@;
    assert(before == old(v)@);
    v.insert(i, p);
    proof {
        assert forall|a: int, b: int| 0 <= a < b < v@.len() implies v@[a] < v@[b] by {
            if b < i {
                assert(v@[a] == before[a] && v@[b] == before[b]);
            } else if b == i {
                assert(v@[a] == before[a]);
            } else if a < i {
                assert(v@[a] == before[a] && v@[b] == before[b - 1]);
                assert(before[i as int] > p);
            } else if a == i {
                assert(v@[b] == before[b - 1]);
                assert(before[b - 1] >= before[i as int]);
            } else {
                assert(v@[a] == before[a - 1] && v@[b] == before[b - 1]);
            }
        }
        assert forall|x: u16| #[trigger] v@.contains(x) <==> (before.contains(x) || x == p) by {
            if v@.contains(x) {
                let k = choose|k: int| 0 <= k < v@.len() && v@[k] == x;
                if k < i {
                    assert(before[k] == x);
                } else if k > i {
                    assert(before[k - 1] == x);
                }
            }
            if before.contains(x) {
                let k = choose|k: int| 0 <= k < before.len() && before[k] == x;
                if k < i {
                    assert(v@[k] == x);
                } else {
                    assert(v@[k + 1] == x);
                }
            }
            if x == p {
                assert(v@[i as int] == x);
            }
        }
    }
}

/// The exposed ports of a container, sorted and without repeats.
pub fn exposed_ports(ports: &Vec<RawPort>) -> (r: Vec<u16>)
    ensures
        strictly_increasing(r@),
        forall|x: u16| r@.contains(x) <==> port_candidates(ports@).contains(x),
{
    let mut r: Vec<u16> = Vec::new();
    for i in 0..ports.len()
        invariant
            strictly_increasing(r@),
            forall|x: u16| r@.contains(x) <==> port_candidates(ports@.take(i as int)).contains(x),
    {
        let ghost prev = port_candidates(ports@.take(i as int));
        proof {
            assert(ports@.take(i + 1).drop_last() =~= ports@.take(i as int));
            assert(ports@.take(i + 1).last() == ports@[i as int]);
        }
        let candidate = match ports[i].public_port {
            Some(v) => Some(v),
            None => ports[i].private_port,
        };
        match candidate {
            Some(p) => {
                insert_port(&mut r, p);
                proof {
                    assert(port_candidates(ports@.take(i + 1)) == prev.push(p));
                    assert forall|x: u16| prev.push(p).contains(x) <==> (prev.contains(x) || x
                        == p) by {
                        if prev.push(p).contains(x) {
                            let k = choose|k: int| 0 <= k < prev.len() + 1 && prev.push(p)[k] == x;
                            if k < prev.len() {
                                assert(prev[k] == x);
                            }
                        }
                        if prev.contains(x) {
                            let k = choose|k: int| 0 <= k < prev.len() && prev[k] == x;
                            assert(prev.push(p)[k] == x);
                        }
                        if x == p {
                            assert(prev.push(p)[prev.len() as int] == x);
                        }
                    }
                }
            },
            None => {
                assert(port_candidates(ports@.take(i + 1)) == prev);
            },
        }
    }
    proof {
        assert(ports@.take(ports@.len() as int) =~= ports@);
    }
    r
}

/// The number of bytes of a container id that the dashboard shows.
pub open spec fn short_id_len(id: Seq<char>) -> int {
    let n = encode_utf8(id).len() as int;
    if n < 12 {
        n
    } else {
        12
    }
}

/// A container as the dashboard shows it: the first twelve bytes of its id,
/// its display name, whether it runs, and its exposed ports sorted without
/// repeats; image, status, state and creation time are kept.
pub fn container_from_raw(raw: RawContainer) -> (c: DockerContainer)
    requires
        encode_utf8(raw.id@).len() <= usize::MAX,
        is_char_boundary(encode_utf8(raw.id@), short_id_len(raw.id@)),
    ensures
        encode_utf8(c.id@) == encode_utf8(raw.id@).take(short_id_len(raw.id@)),
        c.name@ == display_name(raw.names@.map_values(|n: String| n@)),
        c.image == raw.image,
        c.status == raw.status,
        c.state == raw.state,
        c.is_running == is_running_state(raw.state@),
        c.created_at == raw.created,
        strictly_increasing(c.ports@),
        forall|x: u16| c.ports@.contains(x) <==> port_candidates(raw.ports@).contains(x),
{
    let id_str = raw.id.as_str();
    let n = id_str.len();
    let k = if n < 12 {
        n
    } else {
        12
    };
    assert(id_str@ == raw.id@);
    assert(id_str.spec_bytes() == encode_utf8(raw.id@));
    assert(k as int == short_id_len(raw.id@));
    let (head, _) = id_str.split_at(k);
    let id = head.to_owned();
    let first = if raw.names.len() > 0 {
        chars_of(raw.names[0].as_str())
    } else {
        chars_of("container")
    };
    let trimmed = trim_leading_chars(first.as_slice(), '/');
    let mut name = String::new();
    push_chars(&mut name, trimmed.as_slice());
    let is_running = state_is_running(raw.state.as_str());
    let ports = exposed_ports(&raw.ports);
    proof {
        assert(name@ =~= display_name(raw.names@.map_values(|n: String| n@)));
    }
    DockerContainer {
        id,
        name,
        image: raw.image,
        status: raw.status,
        state: raw.state,
        is_running,
        created_at: raw.created,
        ports,
    }
}

/// Where the body of an HTTP response begins: just after the first blank
/// line (`\r\n\r\n`).
pub open spec fn body_start(r: Seq<u8>) -> Option<int> {
    if exists|i: int| 0 <= i && i + 4 <= r.len() && is_blank_line_at(r, i) {
        let i = choose|i: int|
            0 <= i && i + 4 <= r.len() && is_blank_line_at(r, i) && forall|j: int|
                0 <= j < i ==> !is_blank_line_at(r, j);
        Some(i + 4)
    } else {
        None
    }
}

/// `r` holds `\r\n\r\n` at `i`.
pub open spec fn is_blank_line_at(r: Seq<u8>, i: int) -> bool {
    &&& r[i] == 13
    &&& r[i + 1] == 10
    &&& r[i + 2] == 13
    &&& r[i + 3] == 10
}

/// The body of a raw HTTP response: the bytes after its first blank line,
/// or `None` when it has none.
pub fn response_body(response: &[u8]) -> (b: Option<Vec<u8>>)
    ensures
        match body_start(response@) {
            Some(s) => b matches Some(v) && v@ == response@.subrange(s, response@.len() as int),
            None => b is None,
        },
{
    let n = response.len();
    let mut i: usize = 0;
    while n >= 4 && i <= n - 4
        invariant
            n == response@.len(),
            forall|j: int| 0 <= j < i ==> !is_blank_line_at(response@, j),
        decreases n - i,
    {
        if response[i] == 13 && response[i + 1] == 10 && response[i + 2] == 13 && response[i + 3]
            == 10 {
            proof {
                assert(is_blank_line_at(response@, i as int));
                let c = choose|c: int|
                    0 <= c && c + 4 <= response@.len() && is_blank_line_at(response@, c) && forall|
                        j: int,
                    | 0 <= j < c ==> !is_blank_line_at(response@, j);
                if c < i {
                } else if c > i {
                    assert(!is_blank_line_at(response@, i as int));
                }
                assert(c == i);
            }
            let mut body: Vec<u8> = Vec::new();
            let mut k: usize = i + 4;
            while k < n
                invariant
                    i + 4 <= k <= n,
                    n == response@.len(),
                    body@ == response@.subrange(i + 4, k as int),
                decreases n - k,
            {
                body.push(response[k]);
                proof {
                    assert(response@.subrange(i + 4, k + 1) =~= response@.subrange(
                        i + 4,
                        k as int,
                    ).push(response@[k as int]));
                }
                k = k + 1;
            }
            return Some(body);
        }
        i = i + 1;
    }
    None
}

} // verus!
