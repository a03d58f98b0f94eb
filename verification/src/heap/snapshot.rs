//! MVCC snapshots: the `xmin:xmax:xip_list` text PostgreSQL reports for a
//! transaction snapshot (`txid_current_snapshot()`), and the visibility of
//! a tuple's inserting transaction under it.

use vstd::prelude::*;

verus! {

// ── Text ─────────────────────────────────────────────────────────────────

/// `c` is white space in the sense of Unicode's `White_Space` property (the
/// characters `str::trim` removes).
pub open spec fn is_white_space(c: char) -> bool {
    let u = c as u32;
    ||| 0x09 <= u <= 0x0D
    ||| u == 0x20
    ||| u == 0x85
    ||| u == 0xA0
    ||| u == 0x1680
    ||| 0x2000 <= u <= 0x200A
    ||| u == 0x2028
    ||| u == 0x2029
    ||| u == 0x202F
    ||| u == 0x205F
    ||| u == 0x3000
}

/// `s` without its leading white space.
pub open spec fn trim_start(s: Seq<char>) -> Seq<char>
    decreases s.len(),
{
    if s.len() > 0 && is_white_space(s[0]) {
        trim_start(s.drop_first())
    } else {
        s
    }
}

/// `s` without its trailing white space.
pub open spec fn trim_end(s: Seq<char>) -> Seq<char>
    decreases s.len(),
{
    if s.len() > 0 && is_white_space(s.last()) {
        trim_end(s.drop_last())
    } else {
        s
    }
}

/// `s` without leading and trailing white space.
pub open spec fn trim(s: Seq<char>) -> Seq<char> {
    trim_end(trim_start(s))
}

/// The position of the first `c` in `s`, if any.
pub open spec fn first_index(s: Seq<char>, c: char) -> Option<int>
    decreases s.len(),
{
    if s.len() == 0 {
        None
    } else if s[0] == c {
        Some(0)
    } else {
        match first_index(s.drop_first(), c) {
            Some(i) => Some(i + 1),
            None => None,
        }
    }
}

/// `s` split at its first two `sep` characters into at most three pieces
/// (`str::splitn(3, sep)`).
pub open spec fn split3(s: Seq<char>, sep: char) -> Seq<Seq<char>> {
    match first_index(s, sep) {
        None => seq![s],
        Some(i) => {
            let rest = s.subrange(i + 1, s.len() as int);
            match first_index(rest, sep) {
                None => seq![s.subrange(0, i), rest],
                Some(j) => seq![s.subrange(0, i), rest.subrange(0, j), rest.subrange(j + 1, rest.len() as int)],
            }
        },
    }
}

/// `s` split at every `sep` character (`str::split(sep)`): one more piece
/// than there are separators.
pub open spec fn split_all(s: Seq<char>, sep: char) -> Seq<Seq<char>>
    decreases s.len(),
{
    if s.len() == 0 {
        seq![Seq::empty()]
    } else {
        let r = split_all(s.drop_last(), sep);
        if s.last() == sep {
            r.push(Seq::empty())
        } else {
            r.update(r.len() - 1, r.last().push(s.last()))
        }
    }
}

/// The value of a string of decimal digits.
pub open spec fn decimal_value(s: Seq<char>) -> int
    decreases s.len(),
{
    if s.len() == 0 {
        0
    } else {
        decimal_value(s.drop_last()) * 10 + (s.last() as int - 48)
    }
}

/// `c` is an ASCII decimal digit.
pub open spec fn is_digit(c: char) -> bool {
    '0' <= c <= '9'
}

/// What `str::parse::<u32>` makes of `s`: an optional `+` followed by at
/// least one decimal digit, whose value fits in a `u32`.
pub open spec fn spec_parse_u32(s: Seq<char>) -> Option<u32> {
    let d = unsigned_digits(s);
    if d.len() == 0 || !all_digits(d) || decimal_value(d) > u32::MAX {
        None
    } else {
        Some(decimal_value(d) as u32)
    }
}

/// `s` without a leading `+`.
pub open spec fn unsigned_digits(s: Seq<char>) -> Seq<char> {
    if s.len() > 0 && s[0] == '+' {
        s.drop_first()
    } else {
        s
    }
}

/// Every character of `d` is a decimal digit.
pub open spec fn all_digits(d: Seq<char>) -> bool {
    forall|i: int| 0 <= i < d.len() ==> is_digit(#[trigger] d[i])
}

/// The values of the pieces of a list that parse (after trimming) as
/// `u32`, in order; the other pieces are dropped.
pub open spec fn parse_list(pieces: Seq<Seq<char>>) -> Seq<u32>
    decreases pieces.len(),
{
    if pieces.len() == 0 {
        Seq::empty()
    } else {
        let rest = parse_list(pieces.drop_last());
        match spec_parse_u32(trim(pieces.last())) {
            Some(v) => rest.push(v),
            None => rest,
        }
    }
}

// ── Snapshots ────────────────────────────────────────────────────────────

/// A PostgreSQL transaction snapshot for MVCC visibility checks, as
/// `txid_current_snapshot()` reports it inside a REPEATABLE READ
/// transaction: `xmin:xmax:xip_list`, e.g. `"100:105:101,103"`.
#[derive(Debug, Clone, Default)]
pub struct PgSnapshot {
    /// All xids < xmin are committed and visible.
    pub xmin: u32,
    /// All xids >= xmax are not yet assigned and invisible.
    pub xmax: u32,
    /// Xids in [xmin, xmax) that were in progress at snapshot time (not
    /// visible).
    pub xip: Vec<u32>,
}

/// The frozen transaction id: every xid up to it is always visible.
pub const FROZEN_XID: u32 = 2;

/// What [`PgSnapshot::parse`] reads from `s`: `(xmin, xmax, xip)`.
///
/// `s` is split at its first two colons; the first two pieces, trimmed,
/// must parse as `u32` (there must be at least two). A third piece that is
/// not blank is split at its commas and every piece that parses (after
/// trimming) is an in-progress xid; the others are skipped.
pub open spec fn spec_parse_snapshot(s: Seq<char>) -> Option<(u32, u32, Seq<u32>)> {
    let parts = split3(s, ':');
    if parts.len() < 2 {
        None
    } else {
        match (spec_parse_u32(trim(parts[0])), spec_parse_u32(trim(parts[1]))) {
            (Some(xmin), Some(xmax)) => Some(
                (
                    xmin,
                    xmax,
                    if parts.len() == 3 && trim(parts[2]).len() > 0 {
                        parse_list(split_all(parts[2], ','))
                    } else {
                        Seq::empty()
                    },
                ),
            ),
            _ => None,
        }
    }
}

/// Whether a tuple inserted by `t_xmin` is visible under the snapshot
/// `(xmin, xmax, xip)` (the inserting transaction is taken as committed):
/// frozen xids (≤ 2) and xids below `xmin` are visible; xids at or past
/// `xmax`, and xids in progress, are not.
pub open spec fn spec_xmin_visible(xmin: u32, xmax: u32, xip: Seq<u32>, t_xmin: u32) -> bool {
    if t_xmin <= FROZEN_XID {
        true
    } else if t_xmin < xmin {
        true
    } else if t_xmin >= xmax {
        false
    } else {
        !xip.contains(t_xmin)
    }
}

/// The characters of `s`.
fn str_chars(s: &str) -> (r: Vec<char>)
    ensures
        r@ == s@,
{
    let mut v: Vec<char> = Vec::new();
    for c in it: s.chars()
        invariant
            it.seq() == s@,
            v@ == s@.subrange(0, it.index() as int),
    {
        v.push(c);
    }
    assert(v@ =~= s@);
    v
}

proof fn lemma_first_index(s: Seq<char>, c: char, k: int)
    requires
        0 <= k <= s.len(),
        forall|j: int| 0 <= j < k ==> s[j] != c,
    ensures
        k < s.len() && s[k] == c ==> first_index(s, c) == Some(k),
        k == s.len() ==> first_index(s, c) is None,
    decreases k,
{
    if k > 0 {
        lemma_first_index(s.drop_first(), c, k - 1);
    }
}

/// The position of the first `c` in `v[from..to]`, relative to `from`.
fn find_char(v: &Vec<char>, from: usize, to: usize, c: char) -> (r: Option<usize>)
    requires
        from <= to <= v@.len(),
    ensures
        match r {
            Some(i) => from <= i < to && first_index(v@.subrange(from as int, to as int), c) == Some(i - from),
            None => first_index(v@.subrange(from as int, to as int), c) is None,
        },
{
    let ghost s = v@.subrange(from as int, to as int);
    let mut i = from;
    while i < to
        invariant
            from <= i <= to <= v@.len(),
            s == v@.subrange(from as int, to as int),
            forall|j: int| 0 <= j < i - from ==> s[j] != c,
        decreases to - i,
    {
        if v[i] == c {
            proof {
                lemma_first_index(s, c, i - from);
            }
            return Some(i);
        }
        i = i + 1;
    }
    proof {
        lemma_first_index(s, c, s.len() as int);
    }
    None
}

/// Whether `c` is white space (see [`is_white_space`]).
fn white_space(c: char) -> (r: bool)
    ensures
        r == is_white_space(c),
{
    let u = c as u32;
    (0x09 <= u && u <= 0x0D) || u == 0x20 || u == 0x85 || u == 0xA0 || u == 0x1680 || (0x2000 <= u && u <= 0x200A)
        || u == 0x2028 || u == 0x2029 || u == 0x202F || u == 0x205F || u == 0x3000
}

proof fn lemma_trim_start(s: Seq<char>, k: int)
    requires
        0 <= k <= s.len(),
        forall|j: int| 0 <= j < k ==> is_white_space(s[j]),
        k == s.len() || !is_white_space(s[k]),
    ensures
        trim_start(s) == s.subrange(k, s.len() as int),
    decreases k,
{
    if k == 0 {
        assert(s.subrange(0, s.len() as int) =~= s);
    } else {
        lemma_trim_start(s.drop_first(), k - 1);
        assert(s.drop_first().subrange(k - 1, s.len() - 1) =~= s.subrange(k, s.len() as int));
    }
}

proof fn lemma_trim_end(s: Seq<char>, k: int)
    requires
        0 <= k <= s.len(),
        forall|j: int| k <= j < s.len() ==> is_white_space(s[j]),
        k == 0 || !is_white_space(s[k - 1]),
    ensures
        trim_end(s) == s.subrange(0, k),
    decreases s.len() - k,
{
    if k == s.len() {
        assert(s.subrange(0, s.len() as int) =~= s);
    } else {
        lemma_trim_end(s.drop_last(), k);
        assert(s.drop_last().subrange(0, k) =~= s.subrange(0, k));
    }
}

/// The bounds of `v[from..to]` without leading and trailing white space.
fn trim_range(v: &Vec<char>, from: usize, to: usize) -> (r: (usize, usize))
    requires
        from <= to <= v@.len(),
    ensures
        from <= r.0 <= r.1 <= to,
        trim(v@.subrange(from as int, to as int)) == v@.subrange(r.0 as int, r.1 as int),
{
    let ghost s = v@.subrange(from as int, to as int);
    let mut a = from;
    while a < to && white_space(v[a])
        invariant
            from <= a <= to <= v@.len(),
            s == v@.subrange(from as int, to as int),
            forall|j: int| 0 <= j < a - from ==> is_white_space(s[j]),
        decreases to - a,
    {
        a = a + 1;
    }
    proof {
        lemma_trim_start(s, a - from);
        assert(s.subrange(a - from, s.len() as int) =~= v@.subrange(a as int, to as int));
    }
    let ghost t = v@.subrange(a as int, to as int);
    let mut b = to;
    while b > a && white_space(v[b - 1])
        invariant
            from <= a <= b <= to <= v@.len(),
            t == v@.subrange(a as int, to as int),
            forall|j: int| b - a <= j < t.len() ==> is_white_space(t[j]),
        decreases b - a,
    {
        b = b - 1;
    }
    proof {
        lemma_trim_end(t, b - a);
        assert(t.subrange(0, b - a) =~= v@.subrange(a as int, b as int));
    }
    (a, b)
}

proof fn lemma_decimal_push(s: Seq<char>, c: char)
    ensures
        decimal_value(s.push(c)) == decimal_value(s) * 10 + (c as int - 48),
{
    assert(s.push(c).drop_last() =~= s);
}

/// Parse `v[from..to]` as `str::parse::<u32>` does (see [`spec_parse_u32`]).
fn parse_u32_range(v: &Vec<char>, from: usize, to: usize) -> (r: Option<u32>)
    requires
        from <= to <= v@.len(),
    ensures
        r == spec_parse_u32(v@.subrange(from as int, to as int)),
{
    let ghost s = v@.subrange(from as int, to as int);
    let start = if from < to && v[from] == '+' {
        from + 1
    } else {
        from
    };
    let ghost d = v@.subrange(start as int, to as int);
    proof {
        if from < to && v@[from as int] == '+' {
            assert(s.drop_first() =~= d);
        } else {
            assert(s =~= d);
        }
    }
    if start == to {
        return None;
    }
    let mut value: u32 = 0;
    let mut i = start;
    while i < to
        invariant
            start <= i <= to <= v@.len(),
            s == v@.subrange(from as int, to as int),
            d == v@.subrange(start as int, to as int),
            d == unsigned_digits(s),
            d.len() > 0,
            forall|j: int| 0 <= j < i - start ==> is_digit(#[trigger] d[j]),
            value == decimal_value(d.subrange(0, i - start)),
        decreases to - i,
    {
        let c = v[i];
        assert(d[i - start] == c);
        if !('0' <= c && c <= '9') {
            proof {
                assert(!is_digit(d[i - start]));
                assert(!all_digits(d));
            }
            return None;
        }
        proof {
            lemma_decimal_push(d.subrange(0, i - start), c);
            assert(d.subrange(0, i - start).push(c) =~= d.subrange(0, i - start + 1));
        }
        let digit = (c as u32) - 48;
        match value.checked_mul(10) {
            Some(x) => match x.checked_add(digit) {
                Some(y) => {
                    value = y;
                },
                None => {
                    proof {
                        if all_digits(d) {
                            lemma_decimal_prefix_bound(d, i - start + 1);
                        }
                    }
                    return None;
                },
            },
            None => {
                proof {
                    if all_digits(d) {
                        lemma_decimal_prefix_bound(d, i - start + 1);
                    }
                }
                return None;
            },
        }
        i = i + 1;
    }
    assert(d.subrange(0, d.len() as int) =~= d);
    Some(value)
}

/// A string of digits is worth at least as much as any of its prefixes.
proof fn lemma_decimal_prefix_bound(d: Seq<char>, k: int)
    requires
        0 <= k <= d.len(),
        forall|j: int| 0 <= j < d.len() ==> is_digit(#[trigger] d[j]),
    ensures
        decimal_value(d) >= decimal_value(d.subrange(0, k)),
        decimal_value(d.subrange(0, k)) >= 0,
    decreases d.len(),
{
    if d.len() == 0 {
        assert(d.subrange(0, k) =~= d);
    } else if k == d.len() {
        assert(d.subrange(0, k) =~= d);
        lemma_decimal_prefix_bound(d.drop_last(), k - 1);
    } else {
        lemma_decimal_prefix_bound(d.drop_last(), k);
        assert(d.drop_last().subrange(0, k) =~= d.subrange(0, k));
        lemma_decimal_prefix_bound(d.drop_last(), 0);
    }
}

proof fn lemma_split_all_step(s: Seq<char>, c: char, sep: char)
    ensures
        split_all(s.push(c), sep) == if c == sep {
            split_all(s, sep).push(Seq::empty())
        } else {
            let r = split_all(s, sep);
            r.update(r.len() - 1, r.last().push(c))
        },
{
    assert(s.push(c).drop_last() =~= s);
}

proof fn lemma_split_all_nonempty(s: Seq<char>, sep: char)
    ensures
        split_all(s, sep).len() >= 1,
    decreases s.len(),
{
    if s.len() > 0 {
        lemma_split_all_nonempty(s.drop_last(), sep);
    }
}

/// The values of the comma-separated list `v[from..to]` that parse.
fn parse_xip_list(v: &Vec<char>, from: usize, to: usize) -> (r: Vec<u32>)
    requires
        from <= to <= v@.len(),
    ensures
        r@ == parse_list(split_all(v@.subrange(from as int, to as int), ',')),
{
    let ghost s = v@.subrange(from as int, to as int);
    let mut out: Vec<u32> = Vec::new();
    let mut piece = from;
    let mut i = from;
    proof {
        assert(s.subrange(0, 0) =~= Seq::<char>::empty());
        assert(split_all(Seq::<char>::empty(), ',') == seq![Seq::<char>::empty()]);
        assert(seq![Seq::<char>::empty()].drop_last() =~= Seq::<Seq<char>>::empty());
    }
    while i < to
        invariant
            from <= piece <= i <= to <= v@.len(),
            s == v@.subrange(from as int, to as int),
            split_all(s.subrange(0, i - from), ',').len() >= 1,
            split_all(s.subrange(0, i - from), ',').last() == v@.subrange(piece as int, i as int),
            out@ == parse_list(split_all(s.subrange(0, i - from), ',').drop_last()),
        decreases to - i,
    {
        let ghost pre = s.subrange(0, i - from);
        proof {
            lemma_split_all_step(pre, v@[i as int], ',');
            assert(pre.push(v@[i as int]) =~= s.subrange(0, i - from + 1));
            lemma_split_all_nonempty(pre, ',');
        }
        if v[i] == ',' {
            let (a, b) = trim_range(v, piece, i);
            match parse_u32_range(v, a, b) {
                Some(x) => out.push(x),
                None => {},
            }
            proof {
                let r = split_all(pre, ',');
                assert(r.push(Seq::<char>::empty()).drop_last() =~= r);
                assert(r.drop_last().push(r.last()) =~= r);
            }
            piece = i + 1;
            proof {
                assert(v@.subrange(piece as int, i + 1) =~= Seq::<char>::empty());
            }
        } else {
            proof {
                let r = split_all(pre, ',');
                let r2 = r.update(r.len() - 1, r.last().push(v@[i as int]));
                assert(r2.drop_last() =~= r.drop_last());
                assert(v@.subrange(piece as int, i as int).push(v@[i as int]) =~= v@.subrange(piece as int, i + 1));
            }
        }
        i = i + 1;
    }
    let (a, b) = trim_range(v, piece, to);
    match parse_u32_range(v, a, b) {
        Some(x) => out.push(x),
        None => {},
    }
    proof {
        let r = split_all(s.subrange(0, to - from), ',');
        assert(s.subrange(0, to - from) =~= s);
        assert(r.drop_last().push(r.last()) =~= r);
    }
    out
}

/// How `split3` cuts `s` where its first separators are found at `i1` and
/// (after it) `i2`.
proof fn lemma_split3(s: Seq<char>, sep: char, i1: Option<int>, i2: Option<int>)
    requires
        first_index(s.subrange(0, s.len() as int), sep) == match i1 {
            Some(i) => Some(i),
            None => None::<int>,
        },
        i1 matches Some(i) ==> 0 <= i < s.len() && first_index(s.subrange(i + 1, s.len() as int), sep) == match i2 {
            Some(j) => Some(j - i - 1),
            None => None::<int>,
        },
        i2 matches Some(j) ==> i1 is Some && i1->0 < j < s.len(),
    ensures
        i1 is None ==> split3(s, sep).len() == 1,
        i1 matches Some(i) ==> {
            &&& split3(s, sep)[0] == s.subrange(0, i)
            &&& match i2 {
                None => split3(s, sep).len() == 2 && split3(s, sep)[1] == s.subrange(i + 1, s.len() as int),
                Some(j) => split3(s, sep).len() == 3 && split3(s, sep)[1] == s.subrange(i + 1, j) && split3(s, sep)[2]
                    == s.subrange(j + 1, s.len() as int),
            }
        },
{
    assert(s.subrange(0, s.len() as int) =~= s);
    if let Some(i) = i1 {
        let rest = s.subrange(i + 1, s.len() as int);
        if let Some(j) = i2 {
            assert(rest.subrange(0, j - i - 1) =~= s.subrange(i + 1, j));
            assert(rest.subrange(j - i, rest.len() as int) =~= s.subrange(j + 1, s.len() as int));
        }
    }
}

impl PgSnapshot {
    /// Parse a PostgreSQL snapshot string `"xmin:xmax:xip_list"` (see
    /// [`spec_parse_snapshot`]); `None` when it has fewer than two fields
    /// or `xmin` or `xmax` is not a number.
    pub fn parse(s: &str) -> (r: Option<Self>)
        ensures
            match spec_parse_snapshot(s@) {
                Some((xmin, xmax, xip)) => r matches Some(p) && p.xmin == xmin && p.xmax == xmax && p.xip@ == xip,
                None => r is None,
            },
    {
        let v = str_chars(s);
        let n = v.len();
        // The fields: up to the first colon, up to the second, the rest.
        let i1 = match find_char(&v, 0, n, ':') {
            Some(i) => i,
            None => {
                proof {
                    lemma_split3(v@, ':', None, None);
                }
                return None;
            },
        };
        let (end2, third) = match find_char(&v, i1 + 1, n, ':') {
            Some(j) => (j, true),
            None => (n, false),
        };
        proof {
            lemma_split3(v@, ':', Some(i1 as int), if third { Some(end2 as int) } else { None });
        }
        let (a, b) = trim_range(&v, 0, i1);
        let xmin = match parse_u32_range(&v, a, b) {
            Some(x) => x,
            None => return None,
        };
        let (a, b) = trim_range(&v, i1 + 1, end2);
        let xmax = match parse_u32_range(&v, a, b) {
            Some(x) => x,
            None => return None,
        };
        let xip = if third {
            let (a, b) = trim_range(&v, end2 + 1, n);
            if a < b {
                parse_xip_list(&v, end2 + 1, n)
            } else {
                Vec::new()
            }
        } else {
            Vec::new()
        };
        Some(PgSnapshot { xmin, xmax, xip })
    }

    /// Whether a tuple inserted by `t_xmin` is visible under this snapshot
    /// (see [`spec_xmin_visible`]; the caller has already checked xmax).
    pub fn xmin_visible(&self, t_xmin: u32) -> (r: bool)
        ensures
            r == spec_xmin_visible(self.xmin, self.xmax, self.xip@, t_xmin),
    {
        if t_xmin <= FROZEN_XID {
            return true;
        }
        if t_xmin < self.xmin {
            return true;
        }
        if t_xmin >= self.xmax {
            return false;
        }
        let mut i: usize = 0;
        while i < self.xip.len()
            invariant
                i <= self.xip@.len(),
                FROZEN_XID < t_xmin,
                self.xmin <= t_xmin < self.xmax,
                forall|j: int| 0 <= j < i ==> self.xip@[j] != t_xmin,
            decreases self.xip@.len() - i,
        {
            if self.xip[i] == t_xmin {
                assert(self.xip@[i as int] == t_xmin);
                assert(self.xip@.contains(t_xmin));
                return false;
            }
            i = i + 1;
        }
        true
    }
}

/// MVCC visibility of an inserting transaction `t` under the snapshot `s`:
/// a transaction the snapshot lists as in progress (not frozen, at or
/// above `xmin` and below `xmax`) is never visible, nor is one at or past
/// `xmax`; frozen xids (up to 2) and xids below `xmin` are always visible,
/// and so is an xid in `[xmin, xmax)` the snapshot does not list.
pub proof fn lemma_xmin_visibility(s: PgSnapshot, t: u32)
    ensures
        s.xip@.contains(t) && 2 < t && s.xmin <= t < s.xmax ==> !spec_xmin_visible(s.xmin, s.xmax, s.xip@, t),
        2 < t && s.xmin <= t && s.xmax <= t ==> !spec_xmin_visible(s.xmin, s.xmax, s.xip@, t),
        t <= 2 || t < s.xmin ==> spec_xmin_visible(s.xmin, s.xmax, s.xip@, t),
        2 < t && s.xmin <= t < s.xmax && !s.xip@.contains(t) ==> spec_xmin_visible(s.xmin, s.xmax, s.xip@, t),
{
}

} // verus!
