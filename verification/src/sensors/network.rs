//! Network traffic: parsing `/proc/net/dev`, classifying interfaces into
//! LAN, WLAN and VPN, and the byte counts reported for each.

use crate::text::{
    chars_of, count_char, find_char, lemma_find_char, has_prefix, texts, views, decimal, digit_char, digit_to_char, is_whitespace, is_ws, parse_unsigned,
    parse_unsigned_chars, push_char, push_decimal, string_of, trim, trim_chars,
};
use vstd::prelude::*;

verus! {

/// Two to the power `n`.
pub open spec fn two_pow(n: nat) -> nat
    decreases n,
{
    if n == 0 {
        1
    } else {
        2 * two_pow((n - 1) as nat)
    }
}

/// Two to the power 53: every integer below it is exactly a double.
pub open spec fn double_limit() -> nat {
    0x20_0000_0000_0000
}

/// How many low bits of `x` a double cannot hold.
pub open spec fn double_shift(x: nat) -> nat
    decreases x,
{
    if x < double_limit() {
        0
    } else {
        1 + double_shift(x / 2)
    }
}

/// The value of `x as f64`: `x` rounded to 53 significant bits, to nearest,
/// ties to even.
pub open spec fn as_double(x: nat) -> nat {
    let s = double_shift(x);
    if s == 0 {
        x
    } else {
        let p = two_pow(s);
        let q = x / p;
        let r = x % p;
        let h = p / 2;
        let up = r > h || (r == h && q % 2 == 1);
        (if up {
            q + 1
        } else {
            q
        }) * p
    }
}

/// The index of the unit in which `v` bytes are shown: B, KB, MB, GB, TB
/// or PB, the first whose next step (1024 times as large) exceeds `v`.
pub open spec fn unit_index(v: nat) -> nat {
    if v < 0x400 {
        0
    } else if v < 0x10_0000 {
        1
    } else if v < 0x4000_0000 {
        2
    } else if v < 0x100_0000_0000 {
        3
    } else if v < 0x4_0000_0000_0000 {
        4
    } else {
        5
    }
}

/// The number of bytes in one of unit `k`: 1024 to the power `k`.
pub open spec fn unit_scale(k: nat) -> nat {
    if k == 0 {
        1
    } else if k == 1 {
        0x400
    } else if k == 2 {
        0x10_0000
    } else if k == 3 {
        0x4000_0000
    } else if k == 4 {
        0x100_0000_0000
    } else {
        0x4_0000_0000_0000
    }
}

/// The name of unit `k`.
pub open spec fn unit_name(k: nat) -> Seq<char> {
    if k == 0 {
        seq!['B']
    } else if k == 1 {
        seq!['K', 'B']
    } else if k == 2 {
        seq!['M', 'B']
    } else if k == 3 {
        seq!['G', 'B']
    } else if k == 4 {
        seq!['T', 'B']
    } else {
        seq!['P', 'B']
    }
}

/// `v / d` in tenths, rounded to nearest, ties to even (as `{:.1}` shows it).
pub open spec fn tenths(v: nat, d: nat) -> nat {
    let n = 10 * v;
    let q = n / d;
    let r = n % d;
    if 2 * r > d || (2 * r == d && q % 2 == 1) {
        q + 1
    } else {
        q
    }
}

/// The text of a number of tenths with one decimal place, e.g. `12.5`.
pub open spec fn one_decimal(t: nat) -> Seq<char> {
    decimal(t / 10) + seq!['.', digit_char(t % 10)]
}

/// A byte count as a human-readable size: the count, taken as a double,
/// in the largest unit below it, with one decimal place.
pub open spec fn human_bytes(bytes: nat) -> Seq<char> {
    let v = as_double(bytes);
    let k = unit_index(v);
    one_decimal(tenths(v, unit_scale(k))) + seq![' '] + unit_name(k)
}

/// A count under 1024 is shown in bytes, exactly: `512` is `512.0 B`.
pub proof fn law_small_counts_in_bytes(b: nat)
    requires
        b < 1024,
    ensures
        human_bytes(b) == decimal(b) + seq!['.', '0', ' ', 'B'],
{
    assert(double_shift(b) == 0);
    assert(as_double(b) == b);
    assert(unit_index(b) == 0);
    assert(unit_scale(0) == 1);
    assert(tenths(b, 1) == 10 * b) by (nonlinear_arith)
        requires
            b >= 0,
    {
        assert((10 * b) / 1 == 10 * b);
        assert((10 * b) % 1 == 0);
    }
    assert((10 * b) / 10 == b && (10 * b) % 10 == 0) by (nonlinear_arith)
        requires
            b >= 0,
    {
    }
    assert(digit_char(0) == '0');
    assert(human_bytes(b) =~= decimal(b) + seq!['.', '0', ' ', 'B']);
}

proof fn lemma_two_pow_pos(n: nat)
    ensures
        two_pow(n) >= 1,
    decreases n,
{
    if n > 0 {
        lemma_two_pow_pos((n - 1) as nat);
    }
}

/// The value of `x as f64`, as an exact integer.
fn double_value(x: u64) -> (v: u128)
    ensures
        v == as_double(x as nat),
        v <= 0x2_0000_0000_0000_0000,
{
    if x < 0x20_0000_0000_0000 {
        return x as u128;
    }
    let xx = x as u128;
    let mut p: u128 = 1;
    let ghost mut s: nat = 0;
    while xx / p >= 0x20_0000_0000_0000
        invariant
            xx == x,
            x >= double_limit(),
            p == two_pow(s),
            1 <= p <= 0x1000,
            s > 0 || p == 1,
            double_shift(x as nat) == s + double_shift((xx / p) as nat),
            s == 0 ==> xx / p >= double_limit(),
        decreases xx / p,
    {
        proof {
            assert(p < 0x800) by (nonlinear_arith)
                requires
                    xx / p >= 0x20_0000_0000_0000,
                    xx < 0x1_0000_0000_0000_0000,
                    p >= 1,
            {
                assert(xx / p * p <= xx);
            }
            vstd::arithmetic::div_mod::lemma_div_denominator(xx as int, p as int, 2);
            assert(two_pow(s + 1) == 2 * two_pow(s));
        }
        p = p * 2;
        proof {
            s = s + 1;
            assert(xx / p < xx / (p / 2)) by (nonlinear_arith)
                requires
                    p >= 2,
                    p % 2 == 0,
                    xx / (p / 2) >= 1,
                    xx / p == (xx / (p / 2)) / 2,
            {
            }
        }
    }
    let q = xx / p;
    let r = xx % p;
    let h = p / 2;
    let up = r > h || (r == h && q % 2 == 1);
    let qq = if up {
        q + 1
    } else {
        q
    };
    proof {
        assert(q < 0x20_0000_0000_0000);
        assert(qq * p <= 0x2_0000_0000_0000_0000) by (nonlinear_arith)
            requires
                qq <= 0x20_0000_0000_0000,
                p <= 0x1000,
        {
        }
    }
    qq * p
}

proof fn lemma_tenths_small(v: nat, d: nat)
    requires
        d >= 1,
        v < 0x400 * d || (d == 0x4_0000_0000_0000 && v <= 0x2_0000_0000_0000_0000),
    ensures
        (10 * v) / d <= 400000,
{
    let q = (10 * v) / d;
    assert(q * d <= 10 * v) by (nonlinear_arith)
        requires
            q == (10 * v) / d,
            d >= 1,
    {
    }
    if v < 0x400 * d {
        assert(q <= 400000) by (nonlinear_arith)
            requires
                q * d <= 10 * v,
                v < 0x400 * d,
                d >= 1,
        {
        }
    } else {
        assert(q <= 400000) by (nonlinear_arith)
            requires
                q * d <= 10 * v,
                d == 0x4_0000_0000_0000,
                v <= 0x2_0000_0000_0000_0000,
        {
        }
    }
}

/// Appends the name of unit `k` (B, KB, MB, GB, TB, PB).
fn push_unit(out: &mut String, k: u64)
    ensures
        final(out)@ == old(out)@ + unit_name(k as nat),
{
    if k == 0 {
        push_char(out, 'B');
    } else {
        let c = if k == 1 {
            'K'
        } else if k == 2 {
            'M'
        } else if k == 3 {
            'G'
        } else if k == 4 {
            'T'
        } else {
            'P'
        };
        push_char(out, c);
        push_char(out, 'B');
    }
    proof {
        assert(final(out)@ =~= old(out)@ + unit_name(k as nat));
    }
}

/// Formats a byte count as a human-readable size with one decimal place,
/// e.g. `512.0 B`, `1.5 KB` or `3.2 GB`, as `format!("{:.1} {}", ..)` shows
/// the count taken as `f64` and divided by 1024 until it falls below 1024
/// (or the unit reaches PB).
pub fn format_bytes(bytes: u64) -> (s: String)
    ensures
        s@ == human_bytes(bytes as nat),
{
    let v = double_value(bytes);
    let (k, d): (u64, u128) = if v < 0x400 {
        (0, 1)
    } else if v < 0x10_0000 {
        (1, 0x400)
    } else if v < 0x4000_0000 {
        (2, 0x10_0000)
    } else if v < 0x100_0000_0000 {
        (3, 0x4000_0000)
    } else if v < 0x4_0000_0000_0000 {
        (4, 0x100_0000_0000)
    } else {
        (5, 0x4_0000_0000_0000)
    };
    assert(k == unit_index(v as nat) && d == unit_scale(k as nat));
    let n = 10 * v;
    let q = n / d;
    let r = n % d;
    proof {
        lemma_tenths_small(v as nat, d as nat);
    }
    let t = if 2 * r > d || (2 * r == d && q % 2 == 1) {
        q + 1
    } else {
        q
    };
    assert(t == tenths(v as nat, d as nat));
    let mut out = String::new();
    push_decimal(&mut out, (t / 10) as u64);
    push_char(&mut out, '.');
    push_char(&mut out, digit_to_char((t % 10) as u64));
    push_char(&mut out, ' ');
    push_unit(&mut out, k);
    proof {
        assert(out@ =~= human_bytes(bytes as nat));
    }
    out
}

/// A line without its terminating carriage return, if it has one.
pub open spec fn strip_cr(l: Seq<char>) -> Seq<char> {
    if l.len() > 0 && l.last() == '\r' {
        l.drop_last()
    } else {
        l
    }
}

/// The finished lines of `s` and the unfinished one after the last newline.
pub open spec fn lines_acc(s: Seq<char>) -> (Seq<Seq<char>>, Seq<char>)
    decreases s.len(),
{
    if s.len() == 0 {
        (seq![], seq![])
    } else {
        let (done, cur) = lines_acc(s.drop_last());
        if s.last() == '\n' {
            (done.push(strip_cr(cur)), seq![])
        } else {
            (done, cur.push(s.last()))
        }
    }
}

/// The lines of `s`, as `str::lines` gives them: split at `\n`, a `\r`
/// before the `\n` dropped, and no empty line after a final newline.
pub open spec fn lines_of(s: Seq<char>) -> Seq<Seq<char>> {
    let (done, cur) = lines_acc(s);
    if cur.len() > 0 {
        done.push(cur)
    } else {
        done
    }
}

/// The lines of `s`.
pub fn split_lines(s: &[char]) -> (r: Vec<Vec<char>>)
    ensures
        views(r@) == lines_of(s@),
{
    let mut done: Vec<Vec<char>> = Vec::new();
    let mut cur: Vec<char> = Vec::new();
    for i in 0..s.len()
        invariant
            (views(done@), cur@) == lines_acc(s@.take(i as int)),
    {
        proof {
            assert(s@.take(i + 1).drop_last() =~= s@.take(i as int));
        }
        let c = s[i];
        if c == '\n' {
            if cur.len() > 0 && cur[cur.len() - 1] == '\r' {
                cur.pop();
            }
            let ghost before = done@;
            let line = cur;
            proof {
                assert(line@ == strip_cr(lines_acc(s@.take(i as int)).1));
            }
            done.push(line);
            cur = Vec::new();
            proof {
                assert(views(done@) =~= views(before).push(line@));
            }
        } else {
            cur.push(c);
        }
    }
    proof {
        assert(s@.take(s@.len() as int) =~= s@);
    }
    if cur.len() > 0 {
        let ghost before = done@;
        let ghost last = cur@;
        done.push(cur);
        proof {
            assert(views(done@) =~= views(before).push(last));
        }
    }
    done
}

/// The finished white-space-separated words of `s` and the unfinished one.
pub open spec fn words_acc(s: Seq<char>) -> (Seq<Seq<char>>, Seq<char>)
    decreases s.len(),
{
    if s.len() == 0 {
        (seq![], seq![])
    } else {
        let (done, cur) = words_acc(s.drop_last());
        if is_ws(s.last()) {
            if cur.len() > 0 {
                (done.push(cur), seq![])
            } else {
                (done, cur)
            }
        } else {
            (done, cur.push(s.last()))
        }
    }
}

/// The words of `s`, as `str::split_whitespace` gives them.
pub open spec fn words_of(s: Seq<char>) -> Seq<Seq<char>> {
    let (done, cur) = words_acc(s);
    if cur.len() > 0 {
        done.push(cur)
    } else {
        done
    }
}

/// The words that parse as `u64`, parsed, in order (unparsable words are
/// skipped).
pub open spec fn numbers_of(ws: Seq<Seq<char>>) -> Seq<u64>
    decreases ws.len(),
{
    if ws.len() == 0 {
        seq![]
    } else {
        let prev = numbers_of(ws.drop_last());
        match parse_unsigned(ws.last(), u64::MAX as nat) {
            Some(v) => prev.push(v as u64),
            None => prev,
        }
    }
}

/// The interface entry of one line of `/proc/net/dev`: a line with exactly
/// one `:`, the trimmed text before it as the name, and the received and
/// transmitted byte counts as the first and ninth number after it, when at
/// least nine numbers follow.
pub open spec fn dev_line_entry(l: Seq<char>) -> Option<(Seq<char>, u64, u64)> {
    if count_char(l, ':') == 1 {
        let i = find_char(l, ':');
        let nums = numbers_of(words_of(l.subrange(i + 1, l.len() as int)));
        if nums.len() >= 9 {
            Some((trim(l.subrange(0, i)), nums[0], nums[8]))
        } else {
            None
        }
    } else {
        None
    }
}

/// The numbers among the words of `s`.
fn numbers_in(s: &[char]) -> (r: Vec<u64>)
    ensures
        r@ == numbers_of(words_of(s@)),
{
    let mut nums: Vec<u64> = Vec::new();
    let mut cur: Vec<char> = Vec::new();
    for i in 0..s.len()
        invariant
            nums@ == numbers_of(words_acc(s@.take(i as int)).0),
            cur@ == words_acc(s@.take(i as int)).1,
    {
        proof {
            assert(s@.take(i + 1).drop_last() =~= s@.take(i as int));
        }
        let c = s[i];
        if is_whitespace(c) {
            if cur.len() > 0 {
                let ghost ws = words_acc(s@.take(i as int)).0;
                proof {
                    assert(ws.push(cur@).drop_last() =~= ws);
                }
                match parse_unsigned_chars(cur.as_slice(), u64::MAX) {
                    Some(v) => {
                        nums.push(v);
                    },
                    None => {},
                }
                cur = Vec::new();
            }
        } else {
            cur.push(c);
        }
    }
    proof {
        assert(s@.take(s@.len() as int) =~= s@);
    }
    if cur.len() > 0 {
        let ghost ws = words_acc(s@).0;
        proof {
            assert(ws.push(cur@).drop_last() =~= ws);
        }
        match parse_unsigned_chars(cur.as_slice(), u64::MAX) {
            Some(v) => {
                nums.push(v);
            },
            None => {},
        }
    }
    nums
}

/// The interface entry of one line of `/proc/net/dev`, if it has one.
pub fn parse_dev_line(l: &[char]) -> (r: Option<(Vec<char>, u64, u64)>)
    ensures
        r matches Some(e) ==> dev_line_entry(l@) == Some((e.0@, e.1, e.2)),
        r is None ==> dev_line_entry(l@) is None,
{
    let mut count: usize = 0;
    let mut pos: usize = 0;
    let mut found = false;
    for i in 0..l.len()
        invariant
            count == count_char(l@.take(i as int), ':'),
            count <= i,
            found <==> count > 0,
            found ==> pos < i && l@[pos as int] == ':',
            found ==> forall|k: int| 0 <= k < pos ==> l@[k] != ':',
            !found ==> forall|k: int| 0 <= k < i ==> l@[k] != ':',
    {
        proof {
            assert(l@.take(i + 1).drop_last() =~= l@.take(i as int));
        }
        if l[i] == ':' {
            if !found {
                pos = i;
                found = true;
            }
            count = count + 1;
        }
    }
    proof {
        assert(l@.take(l@.len() as int) =~= l@);
    }
    if count != 1 {
        return None;
    }
    proof {
        lemma_find_char(l@, ':', pos as int);
    }
    let mut after: Vec<char> = Vec::new();
    let mut k: usize = pos + 1;
    while k < l.len()
        invariant
            pos < k <= l@.len(),
            after@ == l@.subrange(pos + 1, k as int),
        decreases l@.len() - k,
    {
        after.push(l[k]);
        proof {
            assert(l@.subrange(pos + 1, k + 1) =~= l@.subrange(pos + 1, k as int).push(
                l@[k as int],
            ));
        }
        k = k + 1;
    }
    let nums = numbers_in(after.as_slice());
    if nums.len() < 9 {
        return None;
    }
    let mut before: Vec<char> = Vec::new();
    let mut j: usize = 0;
    while j < pos
        invariant
            j <= pos < l@.len(),
            before@ == l@.subrange(0, j as int),
        decreases pos - j,
    {
        before.push(l[j]);
        proof {
            assert(l@.subrange(0, j + 1) =~= l@.subrange(0, j as int).push(l@[j as int]));
        }
        j = j + 1;
    }
    let name = trim_chars(before.as_slice());
    Some((name, nums[0], nums[8]))
}

/// The cumulative received and transmitted byte counters of one interface.
#[derive(Clone, Debug)]
pub struct NetSample {
    pub name: String,
    pub rx_bytes: u64,
    pub tx_bytes: u64,
}

/// A sample as a plain triple: name, received bytes, transmitted bytes.
pub open spec fn sample_entry(x: NetSample) -> (Seq<char>, u64, u64) {
    (x.name@, x.rx_bytes, x.tx_bytes)
}

/// The samples as plain triples.
pub open spec fn sample_entries(v: Seq<NetSample>) -> Seq<(Seq<char>, u64, u64)> {
    v.map_values(|x: NetSample| sample_entry(x))
}

/// The counters by interface name after recording each triple in order, a
/// later triple for a name replacing an earlier one.
pub open spec fn entries_map(e: Seq<(Seq<char>, u64, u64)>) -> Map<Seq<char>, (u64, u64)>
    decreases e.len(),
{
    if e.len() == 0 {
        Map::empty()
    } else {
        entries_map(e.drop_last()).insert(e.last().0, (e.last().1, e.last().2))
    }
}

/// No two samples share a name.
pub open spec fn names_unique(v: Seq<NetSample>) -> bool {
    forall|i: int, j: int| 0 <= i < j < v.len() ==> v[i].name@ != v[j].name@
}

/// The entries of the given lines, in order.
pub open spec fn line_entries(ls: Seq<Seq<char>>) -> Seq<(Seq<char>, u64, u64)>
    decreases ls.len(),
{
    if ls.len() == 0 {
        seq![]
    } else {
        let prev = line_entries(ls.drop_last());
        match dev_line_entry(ls.last()) {
            Some(e) => prev.push(e),
            None => prev,
        }
    }
}

/// The interface entries of a `/proc/net/dev` text: those of its lines after
/// the two header lines.
pub open spec fn proc_net_dev_entries(s: Seq<char>) -> Seq<(Seq<char>, u64, u64)> {
    let ls = lines_of(s);
    if ls.len() <= 2 {
        seq![]
    } else {
        line_entries(ls.subrange(2, ls.len() as int))
    }
}

/// In samples with distinct names, each name maps to its own counters.
pub proof fn lemma_unique_map(v: Seq<NetSample>)
    requires
        names_unique(v),
    ensures
        forall|i: int|
            0 <= i < v.len() ==> #[trigger] entries_map(sample_entries(v)).contains_key(v[i].name@)
                && entries_map(sample_entries(v))[v[i].name@] == (v[i].rx_bytes, v[i].tx_bytes),
        forall|k: Seq<char>| #[trigger]
            entries_map(sample_entries(v)).contains_key(k) ==> exists|i: int|
                0 <= i < v.len() && v[i].name@ == k,
    decreases v.len(),
{
    if v.len() > 0 {
        let w = v.drop_last();
        assert(sample_entries(v).drop_last() =~= sample_entries(w));
        lemma_unique_map(w);
        let m = entries_map(sample_entries(v));
        let mw = entries_map(sample_entries(w));
        assert(m == mw.insert(v.last().name@, (v.last().rx_bytes, v.last().tx_bytes)));
        assert forall|k: Seq<char>| #[trigger] m.contains_key(k) implies exists|i: int|
            0 <= i < v.len() && v[i].name@ == k by {
            if k != v.last().name@ {
                assert(mw.contains_key(k));
                let i = choose|i: int| 0 <= i < w.len() && w[i].name@ == k;
                assert(v[i].name@ == k);
            } else {
                assert(v[v.len() - 1].name@ == k);
            }
        }
        assert forall|i: int| 0 <= i < v.len() implies #[trigger] m.contains_key(v[i].name@)
            && m[v[i].name@] == (v[i].rx_bytes, v[i].tx_bytes) by {
            if i < v.len() - 1 {
                assert(w[i] == v[i]);
            }
        }
    }
}

proof fn lemma_update_same_name(v: Seq<NetSample>, j: int, x: NetSample)
    requires
        names_unique(v),
        0 <= j < v.len(),
        v[j].name@ == x.name@,
    ensures
        names_unique(v.update(j, x)),
        entries_map(sample_entries(v.update(j, x))) == entries_map(sample_entries(v)).insert(
            x.name@,
            (x.rx_bytes, x.tx_bytes),
        ),
{
    let u = v.update(j, x);
    assert forall|a: int, b: int| 0 <= a < b < u.len() implies u[a].name@ != u[b].name@ by {
        assert(u[a].name@ == v[a].name@);
        assert(u[b].name@ == v[b].name@);
    }
    lemma_unique_map(v);
    lemma_unique_map(u);
    let m1 = entries_map(sample_entries(u));
    let m2 = entries_map(sample_entries(v)).insert(x.name@, (x.rx_bytes, x.tx_bytes));
    assert forall|k: Seq<char>| m1.contains_key(k) <==> m2.contains_key(k) by {
        if m1.contains_key(k) {
            let i = choose|i: int| 0 <= i < u.len() && u[i].name@ == k;
            assert(u[i].name@ == v[i].name@);
            assert(entries_map(sample_entries(v)).contains_key(v[i].name@));
        }
        if m2.contains_key(k) && k != x.name@ {
            assert(entries_map(sample_entries(v)).contains_key(k));
            let i = choose|i: int| 0 <= i < v.len() && v[i].name@ == k;
            assert(u[i].name@ == v[i].name@);
            assert(m1.contains_key(u[i].name@));
        }
        if k == x.name@ {
            assert(m1.contains_key(u[j].name@));
        }
    }
    assert forall|k: Seq<char>| m1.contains_key(k) implies m1[k] == m2[k] by {
        let i = choose|i: int| 0 <= i < u.len() && u[i].name@ == k;
        if i != j {
            assert(u[i] == v[i]);
            assert(k != x.name@);
        }
    }
    assert(m1 =~= m2);
}

/// Records `x`: replaces the sample with the same name, or appends it.
fn upsert_sample(out: &mut Vec<NetSample>, x: NetSample)
    requires
        names_unique(old(out)@),
    ensures
        names_unique(final(out)@),
        entries_map(sample_entries(final(out)@)) == entries_map(sample_entries(old(out)@)).insert(
            x.name@,
            (x.rx_bytes, x.tx_bytes),
        ),
{
    let ghost before = out@;
    let ghost xe = (x.name@, x.rx_bytes, x.tx_bytes);
    proof {
        lemma_unique_map(before);
    }
    let mut j: usize = 0;
    while j < out.len()
        invariant
            out@ == before,
            before == old(out)@,
            names_unique(before),
            j <= out@.len(),
            forall|k: int| 0 <= k < j ==> out@[k].name@ != x.name@,
        decreases out@.len() - j,
    {
        if out[j].name == x.name {
            let ghost after = before.update(j as int, x);
            proof {
                assert(before[j as int].name@ == x.name@);
                lemma_update_same_name(before, j as int, x);
            }
            out.set(j, x);
            assert(out@ == after);
            return;
        }
        j = j + 1;
    }
    out.push(x);
    proof {
        assert(sample_entries(out@).drop_last() =~= sample_entries(before));
        assert(sample_entries(out@).last() == xe);
        assert(names_unique(out@)) by {
            assert forall|a: int, b: int| 0 <= a < b < out@.len() implies out@[a].name@
                != out@[b].name@ by {
                assert(out@[a] == before[a]);
            }
        }
    }
}

/// The interfaces listed in a `/proc/net/dev` text with their cumulative
/// received and transmitted byte counters. Each interface appears once; when
/// a name is listed twice, the later line counts. The order is unspecified.
pub fn parse_proc_net_dev(content: &str) -> (r: Vec<NetSample>)
    ensures
        names_unique(r@),
        entries_map(sample_entries(r@)) == entries_map(proc_net_dev_entries(content@)),
{
    let cs = chars_of(content);
    let lines = split_lines(cs.as_slice());
    let ghost ls = views(lines@);
    let mut out: Vec<NetSample> = Vec::new();
    if lines.len() <= 2 {
        proof {
            assert(entries_map(sample_entries(out@)) =~= Map::empty());
        }
        return out;
    }
    let mut i: usize = 2;
    proof {
        assert(line_entries(ls.subrange(2, 2)) =~= seq![]);
        assert(sample_entries(out@) =~= seq![]);
    }
    while i < lines.len()
        invariant
            2 <= i <= lines@.len(),
            ls == views(lines@),
            ls == lines_of(content@),
            names_unique(out@),
            entries_map(sample_entries(out@)) == entries_map(
                line_entries(ls.subrange(2, i as int)),
            ),
        decreases lines@.len() - i,
    {
        proof {
            assert(ls.subrange(2, i + 1).drop_last() =~= ls.subrange(2, i as int));
            assert(ls.subrange(2, i + 1).last() == lines@[i as int]@);
        }
        let ghost prev = line_entries(ls.subrange(2, i as int));
        match parse_dev_line(lines[i].as_slice()) {
            Some((name, rx, tx)) => {
                let x = NetSample { name: string_of(name.as_slice()), rx_bytes: rx, tx_bytes: tx };
                proof {
                    let e = (x.name@, rx, tx);
                    assert(prev.push(e).drop_last() =~= prev);
                    assert(line_entries(ls.subrange(2, i + 1)) == prev.push(e));
                }
                upsert_sample(&mut out, x);
            },
            None => {
                assert(line_entries(ls.subrange(2, i + 1)) == prev);
            },
        }
        i = i + 1;
    }
    out
}

/// The kind of link an interface carries.
#[derive(Clone, Copy, Debug, PartialEq, Eq, Structural)]
pub enum TrafficCategory {
    Wlan,
    Lan,
    Vpn,
    Other,
}

impl TrafficCategory {
    /// The label shown for the category: `WLAN`, `LAN`, `VPN` or `Other`.
    pub fn label(&self) -> (s: String)
        ensures
            s@ == category_label(*self),
    {
        let mut s = String::new();
        match self {
            TrafficCategory::Wlan => {
                push_char(&mut s, 'W');
                push_char(&mut s, 'L');
                push_char(&mut s, 'A');
                push_char(&mut s, 'N');
            },
            TrafficCategory::Lan => {
                push_char(&mut s, 'L');
                push_char(&mut s, 'A');
                push_char(&mut s, 'N');
            },
            TrafficCategory::Vpn => {
                push_char(&mut s, 'V');
                push_char(&mut s, 'P');
                push_char(&mut s, 'N');
            },
            TrafficCategory::Other => {
                push_char(&mut s, 'O');
                push_char(&mut s, 't');
                push_char(&mut s, 'h');
                push_char(&mut s, 'e');
                push_char(&mut s, 'r');
            },
        }
        proof {
            assert(s@ =~= category_label(*self));
        }
        s
    }
}

/// The label of a category.
pub open spec fn category_label(c: TrafficCategory) -> Seq<char> {
    match c {
        TrafficCategory::Wlan => seq!['W', 'L', 'A', 'N'],
        TrafficCategory::Lan => seq!['L', 'A', 'N'],
        TrafficCategory::Vpn => seq!['V', 'P', 'N'],
        TrafficCategory::Other => seq!['O', 't', 'h', 'e', 'r'],
    }
}

/// Whether one of `prefixes` begins `name`.
pub open spec fn matches_any_prefix(name: Seq<char>, prefixes: Seq<Seq<char>>) -> bool {
    exists|i: int| 0 <= i < prefixes.len() && #[trigger] prefixes[i].is_prefix_of(name)
}

/// The category of an interface: WLAN if a WLAN prefix begins its name,
/// else LAN if a LAN prefix does, else VPN if a VPN prefix does, else Other.
pub open spec fn category_of(
    name: Seq<char>,
    lan: Seq<Seq<char>>,
    wlan: Seq<Seq<char>>,
    vpn: Seq<Seq<char>>,
) -> TrafficCategory {
    if matches_any_prefix(name, wlan) {
        TrafficCategory::Wlan
    } else if matches_any_prefix(name, lan) {
        TrafficCategory::Lan
    } else if matches_any_prefix(name, vpn) {
        TrafficCategory::Vpn
    } else {
        TrafficCategory::Other
    }
}

/// Whether one of `prefixes` begins `name`.
pub fn starts_with_any(name: &[char], prefixes: &Vec<String>) -> (b: bool)
    ensures
        b == matches_any_prefix(name@, texts(prefixes@)),
{
    let ghost ps = texts(prefixes@);
    let mut i: usize = 0;
    while i < prefixes.len()
        invariant
            i <= prefixes@.len(),
            ps == texts(prefixes@),
            forall|k: int| 0 <= k < i ==> !(#[trigger] ps[k]).is_prefix_of(name@),
        decreases prefixes@.len() - i,
    {
        let p = chars_of(prefixes[i].as_str());
        if has_prefix(name, p.as_slice()) {
            assert(ps[i as int].is_prefix_of(name@));
            return true;
        }
        i = i + 1;
    }
    false
}

/// The category of the interface `name`.
pub fn categorize(
    name: &[char],
    lan: &Vec<String>,
    wlan: &Vec<String>,
    vpn: &Vec<String>,
) -> (c: TrafficCategory)
    ensures
        c == category_of(name@, texts(lan@), texts(wlan@), texts(vpn@)),
{
    if starts_with_any(name, wlan) {
        TrafficCategory::Wlan
    } else if starts_with_any(name, lan) {
        TrafficCategory::Lan
    } else if starts_with_any(name, vpn) {
        TrafficCategory::Vpn
    } else {
        TrafficCategory::Other
    }
}

/// `a - b`, or 0 when `b` exceeds `a`.
pub open spec fn sat_sub(a: u64, b: u64) -> u64 {
    if a >= b {
        (a - b) as u64
    } else {
        0
    }
}

/// The received (`rx`) or transmitted byte counters of the samples of
/// category `cat`, summed.
pub open spec fn category_total(
    cur: Seq<NetSample>,
    lan: Seq<Seq<char>>,
    wlan: Seq<Seq<char>>,
    vpn: Seq<Seq<char>>,
    cat: TrafficCategory,
    rx: bool,
) -> nat
    decreases cur.len(),
{
    if cur.len() == 0 {
        0
    } else {
        let x = cur.last();
        category_total(cur.drop_last(), lan, wlan, vpn, cat, rx) + if category_of(
            x.name@,
            lan,
            wlan,
            vpn,
        ) == cat {
            (if rx {
                x.rx_bytes
            } else {
                x.tx_bytes
            }) as nat
        } else {
            0nat
        }
    }
}

/// `y` reports interface sample `x` of category `cat`, measured against the
/// baseline counters `b`.
pub open spec fn interface_traffic_is(
    y: InterfaceTraffic,
    x: NetSample,
    cat: TrafficCategory,
    b: (u64, u64),
) -> bool {
    &&& y.name@ == x.name@
    &&& y.category == cat
    &&& y.rx_delta == sat_sub(x.rx_bytes, b.0)
    &&& y.tx_delta == sat_sub(x.tx_bytes, b.1)
    &&& y.rx_total_human@ == human_bytes(x.rx_bytes as nat)
    &&& y.tx_total_human@ == human_bytes(x.tx_bytes as nat)
}

/// `c` reports `rx` bytes received and `tx` bytes transmitted.
pub open spec fn category_traffic_is(c: CategoryTraffic, rx: nat, tx: nat) -> bool {
    &&& c.rx_bytes == rx
    &&& c.tx_bytes == tx
    &&& c.rx_total_human@ == human_bytes(rx)
    &&& c.tx_total_human@ == human_bytes(tx)
    &&& c.combined_total_human@ == human_bytes(rx + tx)
}

/// A category report's texts show its own counters: the received text is
/// the received count, the transmitted text the transmitted count, and the
/// combined text their sum.
pub proof fn law_category_texts_show_own_counts(c: CategoryTraffic, rx: nat, tx: nat)
    requires
        category_traffic_is(c, rx, tx),
    ensures
        c.rx_total_human@ == human_bytes(c.rx_bytes as nat),
        c.tx_total_human@ == human_bytes(c.tx_bytes as nat),
        c.combined_total_human@ == human_bytes((c.rx_bytes + c.tx_bytes) as nat),
{
}

/// The report of one category's cumulative counters.
fn category_traffic(rx: u64, tx: u64) -> (c: CategoryTraffic)
    requires
        rx + tx <= u64::MAX,
    ensures
        category_traffic_is(c, rx as nat, tx as nat),
        c.rx_total_human@ == human_bytes(c.rx_bytes as nat),
        c.tx_total_human@ == human_bytes(c.tx_bytes as nat),
        c.combined_total_human@ == human_bytes((c.rx_bytes + c.tx_bytes) as nat),
{
    CategoryTraffic {
        rx_bytes: rx,
        tx_bytes: tx,
        rx_total_human: format_bytes(rx),
        tx_total_human: format_bytes(tx),
        combined_total_human: format_bytes(rx + tx),
    }
}

/// The received (`rx`) or transmitted byte counters of all samples, summed.
pub open spec fn all_total(cur: Seq<NetSample>, rx: bool) -> nat
    decreases cur.len(),
{
    if cur.len() == 0 {
        0
    } else {
        all_total(cur.drop_last(), rx) + (if rx {
            cur.last().rx_bytes
        } else {
            cur.last().tx_bytes
        }) as nat
    }
}

/// Every interface counts in exactly one category: the traffic of the LAN,
/// WLAN, VPN and other interfaces adds up to the traffic of all of them.
pub proof fn law_categories_partition_traffic(
    cur: Seq<NetSample>,
    lan: Seq<Seq<char>>,
    wlan: Seq<Seq<char>>,
    vpn: Seq<Seq<char>>,
    rx: bool,
)
    ensures
        category_total(cur, lan, wlan, vpn, TrafficCategory::Lan, rx) + category_total(
            cur,
            lan,
            wlan,
            vpn,
            TrafficCategory::Wlan,
            rx,
        ) + category_total(cur, lan, wlan, vpn, TrafficCategory::Vpn, rx) + category_total(
            cur,
            lan,
            wlan,
            vpn,
            TrafficCategory::Other,
            rx,
        ) == all_total(cur, rx),
    decreases cur.len(),
{
    if cur.len() > 0 {
        law_categories_partition_traffic(cur.drop_last(), lan, wlan, vpn, rx);
    }
}

/// A WLAN prefix takes precedence: an interface that a WLAN prefix begins
/// is WLAN whatever other list names it.
pub proof fn law_wlan_prefix_wins(
    name: Seq<char>,
    lan: Seq<Seq<char>>,
    wlan: Seq<Seq<char>>,
    vpn: Seq<Seq<char>>,
    i: int,
)
    requires
        0 <= i < wlan.len(),
        wlan[i].is_prefix_of(name),
    ensures
        category_of(name, lan, wlan, vpn) == TrafficCategory::Wlan,
{
    assert(matches_any_prefix(name, wlan));
}

/// One interface's share of a traffic sample.
#[derive(Clone, Debug)]
pub struct InterfaceTraffic {
    pub name: String,
    pub category: TrafficCategory,
    /// Bytes received since the previous sample.
    pub rx_delta: u64,
    /// Bytes transmitted since the previous sample.
    pub tx_delta: u64,
    pub rx_total_human: String,
    pub tx_total_human: String,
}

/// The cumulative traffic of one category of interfaces.
#[derive(Clone, Debug)]
pub struct CategoryTraffic {
    pub rx_bytes: u64,
    pub tx_bytes: u64,
    pub rx_total_human: String,
    pub tx_total_human: String,
    pub combined_total_human: String,
}

/// A traffic sample, broken down by interface and by category.
#[derive(Clone, Debug)]
pub struct TrafficTally {
    pub interfaces: Vec<InterfaceTraffic>,
    pub lan: CategoryTraffic,
    pub wlan: CategoryTraffic,
    pub vpn: CategoryTraffic,
}

/// One row of the per-interface table shown on the dashboard.
#[derive(Clone, Debug)]
pub struct InterfaceDetail {
    pub name: String,
    pub category: String,
    pub rx_speed_human: String,
    pub tx_speed_human: String,
    pub rx_total_human: String,
    pub tx_total_human: String,
}

/// Tracks interface counters between samples and classifies interfaces by
/// their name prefixes.
#[derive(Clone, Debug)]
pub struct NetworkCollector {
    pub last_samples: Vec<NetSample>,
    pub lan_interfaces: Vec<String>,
    pub wlan_interfaces: Vec<String>,
    pub vpn_interfaces: Vec<String>,
}

impl NetworkCollector {
    /// The collector is well formed: its remembered samples have distinct
    /// names.
    pub open spec fn wf(&self) -> bool {
        names_unique(self.last_samples@)
    }

    /// The counters remembered from the previous sample, by name.
    pub open spec fn previous(&self) -> Map<Seq<char>, (u64, u64)> {
        entries_map(sample_entries(self.last_samples@))
    }

    /// The category this collector gives the interface `name`.
    pub open spec fn category(&self, name: Seq<char>) -> TrafficCategory {
        category_of(
            name,
            texts(self.lan_interfaces@),
            texts(self.wlan_interfaces@),
            texts(self.vpn_interfaces@),
        )
    }

    /// The summed counters of category `cat` in `cur`.
    pub open spec fn total(&self, cur: Seq<NetSample>, cat: TrafficCategory, rx: bool) -> nat {
        category_total(
            cur,
            texts(self.lan_interfaces@),
            texts(self.wlan_interfaces@),
            texts(self.vpn_interfaces@),
            cat,
            rx,
        )
    }

    /// The totals of every category fit the counters that hold them.
    pub open spec fn totals_fit(&self, cur: Seq<NetSample>) -> bool {
        &&& self.total(cur, TrafficCategory::Lan, true) + self.total(cur, TrafficCategory::Lan, false)
            <= u64::MAX
        &&& self.total(cur, TrafficCategory::Wlan, true) + self.total(cur, TrafficCategory::Wlan, false)
            <= u64::MAX
        &&& self.total(cur, TrafficCategory::Vpn, true) + self.total(cur, TrafficCategory::Vpn, false)
            <= u64::MAX
    }

    /// The counters of `x` in the previous sample, or its current counters
    /// when it was not there.
    pub open spec fn baseline(&self, x: NetSample) -> (u64, u64) {
        if self.previous().contains_key(x.name@) {
            self.previous()[x.name@]
        } else {
            (x.rx_bytes, x.tx_bytes)
        }
    }

    /// A collector with no previous sample.
    pub fn new(
        lan_interfaces: Vec<String>,
        wlan_interfaces: Vec<String>,
        vpn_interfaces: Vec<String>,
    ) -> (c: Self)
        ensures
            c.wf(),
            c.last_samples@.len() == 0,
            c.lan_interfaces == lan_interfaces,
            c.wlan_interfaces == wlan_interfaces,
            c.vpn_interfaces == vpn_interfaces,
    {
        NetworkCollector { last_samples: Vec::new(), lan_interfaces, wlan_interfaces, vpn_interfaces }
    }

    /// Whether `current` can be tallied: its names are distinct and the
    /// totals of every category fit their counters.
    pub fn can_tally(&self, current: &Vec<NetSample>) -> (b: bool)
        ensures
            b == (names_unique(current@) && self.totals_fit(current@)),
    {
        let n = current.len();
        let mut i: usize = 0;
        while i < n
            invariant
                n == current@.len(),
                i <= n,
                forall|a: int, b: int| 0 <= a < b < n && a < i ==> current@[a].name@ != current@[b].name@,
            decreases n - i,
        {
            let mut j: usize = i + 1;
            while j < n
                invariant
                    n == current@.len(),
                    i < n,
                    i < j <= n,
                    forall|a: int, b: int| 0 <= a < b < n && a < i ==> current@[a].name@ != current@[b].name@,
                    forall|b: int| i < b < j ==> current@[i as int].name@ != current@[b].name@,
                decreases n - j,
            {
                if current[i].name == current[j].name {
                    return false;
                }
                j = j + 1;
            }
            i = i + 1;
        }
        let ghost cur = current@;
        assert(names_unique(cur));
        let mut sums: [u128; 6] = [0, 0, 0, 0, 0, 0];
        let mut k: usize = 0;
        while k < n
            invariant
                n == cur.len(),
                cur == current@,
                k <= n,
                sums[0] == self.total(cur.take(k as int), TrafficCategory::Lan, true),
                sums[1] == self.total(cur.take(k as int), TrafficCategory::Lan, false),
                sums[2] == self.total(cur.take(k as int), TrafficCategory::Wlan, true),
                sums[3] == self.total(cur.take(k as int), TrafficCategory::Wlan, false),
                sums[4] == self.total(cur.take(k as int), TrafficCategory::Vpn, true),
                sums[5] == self.total(cur.take(k as int), TrafficCategory::Vpn, false),
                sums[0] + sums[1] <= u64::MAX,
                sums[2] + sums[3] <= u64::MAX,
                sums[4] + sums[5] <= u64::MAX,
            decreases n - k,
        {
            proof {
                assert(cur.take(k + 1).drop_last() =~= cur.take(k as int));
                assert(cur.take(k + 1).last() == cur[k as int]);
                self.lemma_total_prefix_le(cur, k + 1);
            }
            let x = &current[k];
            let name_chars = chars_of(x.name.as_str());
            let cat = categorize(
                name_chars.as_slice(),
                &self.lan_interfaces,
                &self.wlan_interfaces,
                &self.vpn_interfaces,
            );
            let base: usize = match cat {
                TrafficCategory::Lan => 0,
                TrafficCategory::Wlan => 2,
                TrafficCategory::Vpn => 4,
                TrafficCategory::Other => 6,
            };
            if base < 6 {
                let rx = sums[base] + x.rx_bytes as u128;
                let tx = sums[base + 1] + x.tx_bytes as u128;
                proof {
                    assert(cur.take(k + 1).last() == *x);
                    assert(self.total(cur.take(k + 1), cat, true) == self.total(
                        cur.take(k as int),
                        cat,
                        true,
                    ) + x.rx_bytes);
                    assert(self.total(cur.take(k + 1), cat, false) == self.total(
                        cur.take(k as int),
                        cat,
                        false,
                    ) + x.tx_bytes);
                    assert(rx == self.total(cur.take(k + 1), cat, true));
                    assert(tx == self.total(cur.take(k + 1), cat, false));
                    assert(self.total(cur.take(k + 1), cat, true) <= self.total(cur, cat, true));
                    assert(self.total(cur.take(k + 1), cat, false) <= self.total(cur, cat, false));
                }
                if rx + tx > u64::MAX as u128 {
                    return false;
                }
                sums.set(base, rx);
                sums.set(base + 1, tx);
            }
            k = k + 1;
        }
        proof {
            assert(cur.take(n as int) =~= cur);
        }
        true
    }

    proof fn lemma_total_prefix_le(&self, cur: Seq<NetSample>, i: int)
        requires
            0 <= i <= cur.len(),
        ensures
            forall|c: TrafficCategory, rx: bool| #[trigger]
                self.total(cur.take(i), c, rx) <= self.total(cur, c, rx),
        decreases cur.len() - i,
    {
        if i < cur.len() {
            let d = cur.drop_last();
            assert(d.take(i) =~= cur.take(i));
            self.lemma_total_prefix_le(d, i);
            assert forall|c: TrafficCategory, rx: bool| #[trigger]
                self.total(d, c, rx) <= self.total(cur, c, rx) by {
            }
        } else {
            assert(cur.take(i) =~= cur);
        }
    }

    /// Once a sample has been tallied, it is the baseline of every one of its
    /// interfaces: tallying the same counters again shows no traffic.
    pub proof fn law_repeated_sample_shows_no_traffic(&self, cur: Seq<NetSample>)
        requires
            self.wf(),
            self.last_samples@ == cur,
        ensures
            forall|i: int|
                0 <= i < cur.len() ==> #[trigger] self.baseline(cur[i]) == (
                    cur[i].rx_bytes,
                    cur[i].tx_bytes,
                ) && sat_sub(cur[i].rx_bytes, self.baseline(cur[i]).0) == 0 && sat_sub(
                    cur[i].tx_bytes,
                    self.baseline(cur[i]).1,
                ) == 0,
    {
        lemma_unique_map(cur);
    }

    /// The counters of `name` in the previous sample, if it was there.
    fn previous_of(&self, name: &String) -> (r: Option<(u64, u64)>)
        requires
            self.wf(),
        ensures
            r == (if self.previous().contains_key(name@) {
                Some(self.previous()[name@])
            } else {
                None::<(u64, u64)>
            }),
    {
        proof {
            lemma_unique_map(self.last_samples@);
        }
        let mut i: usize = 0;
        while i < self.last_samples.len()
            invariant
                self.wf(),
                i <= self.last_samples@.len(),
                forall|k: int| 0 <= k < i ==> self.last_samples@[k].name@ != name@,
            decreases self.last_samples@.len() - i,
        {
            if self.last_samples[i].name == *name {
                proof {
                    lemma_unique_map(self.last_samples@);
                }
                return Some((self.last_samples[i].rx_bytes, self.last_samples[i].tx_bytes));
            }
            i = i + 1;
        }
        proof {
            lemma_unique_map(self.last_samples@);
            if self.previous().contains_key(name@) {
                let k = choose|k: int|
                    0 <= k < self.last_samples@.len() && self.last_samples@[k].name@ == name@;
                assert(self.last_samples@[k].name@ != name@);
            }
        }
        None
    }

    /// Accounts a new sample of interface counters against the previous
    /// one: each interface's category, the bytes received and transmitted
    /// since the previous sample (none for an interface seen for the first
    /// time, and none when a counter went backwards), and the cumulative
    /// counters of each category. The new sample becomes the previous one.
    pub fn tally(&mut self, current: Vec<NetSample>) -> (t: TrafficTally)
        requires
            old(self).wf(),
            names_unique(current@),
            old(self).totals_fit(current@),
        ensures
            final(self).wf(),
            final(self).last_samples@ == current@,
            final(self).lan_interfaces == old(self).lan_interfaces,
            final(self).wlan_interfaces == old(self).wlan_interfaces,
            final(self).vpn_interfaces == old(self).vpn_interfaces,
            t.interfaces@.len() == current@.len(),
            forall|i: int|
                0 <= i < current@.len() ==> interface_traffic_is(
                    #[trigger] t.interfaces@[i],
                    current@[i],
                    old(self).category(current@[i].name@),
                    old(self).baseline(current@[i]),
                ),
            category_traffic_is(
                t.lan,
                old(self).total(current@, TrafficCategory::Lan, true),
                old(self).total(current@, TrafficCategory::Lan, false),
            ),
            category_traffic_is(
                t.wlan,
                old(self).total(current@, TrafficCategory::Wlan, true),
                old(self).total(current@, TrafficCategory::Wlan, false),
            ),
            category_traffic_is(
                t.vpn,
                old(self).total(current@, TrafficCategory::Vpn, true),
                old(self).total(current@, TrafficCategory::Vpn, false),
            ),
    {
        let ghost cur = current@;
        let mut interfaces: Vec<InterfaceTraffic> = Vec::new();
        let mut lan_rx: u64 = 0;
        let mut lan_tx: u64 = 0;
        let mut wlan_rx: u64 = 0;
        let mut wlan_tx: u64 = 0;
        let mut vpn_rx: u64 = 0;
        let mut vpn_tx: u64 = 0;
        proof {
            self.lemma_totals_bounded(cur, cur.len() as int);
        }
        for i in 0..current.len()
            invariant
                self.wf(),
                self == old(self),
                cur == current@,
                old(self).totals_fit(cur),
                interfaces@.len() == i,
                forall|k: int|
                    0 <= k < i ==> interface_traffic_is(
                        #[trigger] interfaces@[k],
                        cur[k],
                        self.category(cur[k].name@),
                        self.baseline(cur[k]),
                    ),
                lan_rx == self.total(cur.take(i as int), TrafficCategory::Lan, true),
                lan_tx == self.total(cur.take(i as int), TrafficCategory::Lan, false),
                wlan_rx == self.total(cur.take(i as int), TrafficCategory::Wlan, true),
                wlan_tx == self.total(cur.take(i as int), TrafficCategory::Wlan, false),
                vpn_rx == self.total(cur.take(i as int), TrafficCategory::Vpn, true),
                vpn_tx == self.total(cur.take(i as int), TrafficCategory::Vpn, false),
        {
            let x = &current[i];
            let name_chars = chars_of(x.name.as_str());
            let cat = categorize(
                name_chars.as_slice(),
                &self.lan_interfaces,
                &self.wlan_interfaces,
                &self.vpn_interfaces,
            );
            let (old_rx, old_tx) = match self.previous_of(&x.name) {
                Some(p) => p,
                None => (x.rx_bytes, x.tx_bytes),
            };
            let rx_delta = x.rx_bytes.saturating_sub(old_rx);
            let tx_delta = x.tx_bytes.saturating_sub(old_tx);
            proof {
                assert(cur.take(i + 1).drop_last() =~= cur.take(i as int));
                assert(cur.take(i + 1).last() == cur[i as int]);
                self.lemma_totals_bounded(cur, i + 1);
            }
            match cat {
                TrafficCategory::Wlan => {
                    wlan_rx = wlan_rx + x.rx_bytes;
                    wlan_tx = wlan_tx + x.tx_bytes;
                },
                TrafficCategory::Lan => {
                    lan_rx = lan_rx + x.rx_bytes;
                    lan_tx = lan_tx + x.tx_bytes;
                },
                TrafficCategory::Vpn => {
                    vpn_rx = vpn_rx + x.rx_bytes;
                    vpn_tx = vpn_tx + x.tx_bytes;
                },
                TrafficCategory::Other => {},
            }
            interfaces.push(
                InterfaceTraffic {
                    name: x.name.clone(),
                    category: cat,
                    rx_delta,
                    tx_delta,
                    rx_total_human: format_bytes(x.rx_bytes),
                    tx_total_human: format_bytes(x.tx_bytes),
                },
            );
        }
        proof {
            assert(cur.take(cur.len() as int) =~= cur);
        }
        let lan = category_traffic(lan_rx, lan_tx);
        let wlan = category_traffic(wlan_rx, wlan_tx);
        let vpn = category_traffic(vpn_rx, vpn_tx);
        self.last_samples = current;
        TrafficTally { interfaces, lan, wlan, vpn }
    }

    proof fn lemma_totals_bounded(&self, cur: Seq<NetSample>, i: int)
        requires
            0 <= i <= cur.len(),
            self.totals_fit(cur),
        ensures
            self.total(cur.take(i), TrafficCategory::Lan, true) + self.total(
                cur.take(i),
                TrafficCategory::Lan,
                false,
            ) <= u64::MAX,
            self.total(cur.take(i), TrafficCategory::Wlan, true) + self.total(
                cur.take(i),
                TrafficCategory::Wlan,
                false,
            ) <= u64::MAX,
            self.total(cur.take(i), TrafficCategory::Vpn, true) + self.total(
                cur.take(i),
                TrafficCategory::Vpn,
                false,
            ) <= u64::MAX,
        decreases cur.len() - i,
    {
        if i < cur.len() {
            let c = cur.drop_last();
            assert(cur.take(cur.len() as int) =~= cur);
            assert(c.take(i) =~= cur.take(i));
            assert(self.totals_fit(c));
            self.lemma_totals_bounded(c, i);
        } else {
            assert(cur.take(i) =~= cur);
        }
    }
}

} // verus!
