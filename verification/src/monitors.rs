//! Display monitors: their session order and the virtual desktop they span.
use vstd::prelude::*;

verus! {

/// A monitor as the platform reports it. `handle` is its position in the
/// platform's own list, by which the caller finds the monitor again.
/// `scale_factor_bits` is the IEEE-754 bit pattern of the (f64) scale factor,
/// carried through untouched.
pub struct MonitorInfo {
    pub handle: usize,
    pub id: u32,
    pub name: String,
    pub x: i32,
    pub y: i32,
    pub width: u32,
    pub height: u32,
    pub scale_factor_bits: u64,
    pub is_primary: bool,
}

/// A monitor together with its index in the session order.
pub struct MonitorDescription {
    pub index: usize,
    pub id: u32,
    pub name: String,
    pub x: i32,
    pub y: i32,
    pub width: u32,
    pub height: u32,
    pub scale_factor_bits: u64,
    pub is_primary: bool,
}

/// `a` comes strictly before `b` in the session order: the primary monitor
/// first, then left to right, then top to bottom.
pub open spec fn precedes(a: MonitorInfo, b: MonitorInfo) -> bool {
    ||| a.is_primary && !b.is_primary
    ||| a.is_primary == b.is_primary && (a.x < b.x || (a.x == b.x && a.y < b.y))
}

/// `a` and `b` hold the same place in the session order.
pub open spec fn same_rank(a: MonitorInfo, b: MonitorInfo) -> bool {
    a.is_primary == b.is_primary && a.x == b.x && a.y == b.y
}

/// `output` is `input` rearranged by `p` (`output[k] == input[p[k]]`) into
/// session order, with monitors of the same rank kept in their input order.
pub open spec fn stable_arrangement(input: Seq<MonitorInfo>, output: Seq<MonitorInfo>, p: Seq<int>) -> bool {
    &&& output.len() == input.len()
    &&& p.len() == input.len()
    &&& forall|k: int| 0 <= k < p.len() ==> 0 <= #[trigger] p[k] < input.len()
    &&& forall|k: int| 0 <= k < p.len() ==> #[trigger] output[k] == input[p[k]]
    &&& forall|k1: int, k2: int| 0 <= k1 < k2 < p.len() ==> p[k1] != p[k2]
    &&& forall|k1: int, k2: int| 0 <= k1 < k2 < output.len() ==> !precedes(output[k2], output[k1])
    &&& forall|k1: int, k2: int|
        0 <= k1 < k2 < output.len() && same_rank(output[k1], output[k2]) ==> p[k1] < p[k2]
}

/// Input position `i` goes before input position `j` in any stable arrangement.
pub open spec fn goes_before(input: Seq<MonitorInfo>, i: int, j: int) -> bool {
    precedes(input[i], input[j]) || (same_rank(input[i], input[j]) && i < j)
}

/// An injective map of `0..n` into `0..n` reaches every position.
proof fn lemma_arrangement_is_onto(p: Seq<int>, n: int, v: int)
    requires
        p.len() == n,
        forall|k: int| 0 <= k < n ==> 0 <= #[trigger] p[k] < n,
        forall|k1: int, k2: int| 0 <= k1 < k2 < n ==> p[k1] != p[k2],
        0 <= v < n,
    ensures
        exists|k: int| 0 <= k < n && #[trigger] p[k] == v,
{
    assert(p.no_duplicates()) by {
        assert forall|i: int, j: int| 0 <= i < p.len() && 0 <= j < p.len() && i != j implies p[i]
            != p[j] by {
            if i < j {
            } else {
            }
        }
    }
    p.unique_seq_to_set();
    vstd::set_lib::lemma_int_range(0, n);
    let range = vstd::set_lib::set_int_range(0, n);
    assert(p.to_set().subset_of(range)) by {
        assert forall|x: int| p.to_set().contains(x) implies range.contains(x) by {
            let k = choose|k: int| 0 <= k < p.len() && p[k] == x;
        }
    }
    vstd::seq_lib::seq_to_set_is_finite(p);
    vstd::set_lib::lemma_subset_equality(p.to_set(), range);
    assert(range.contains(v));
    assert(p.to_set().contains(v));
}

/// In a stable arrangement, earlier output positions hold inputs that go before.
proof fn lemma_arrangement_orders(input: Seq<MonitorInfo>, o: Seq<MonitorInfo>, p: Seq<int>, k1: int, k2: int)
    requires
        stable_arrangement(input, o, p),
        0 <= k1 < k2 < o.len(),
    ensures
        goes_before(input, p[k1], p[k2]),
{
    assert(o[k1] == input[p[k1]]);
    assert(o[k2] == input[p[k2]]);
    assert(!precedes(o[k2], o[k1]));
}

proof fn lemma_arrangements_agree_up_to(
    input: Seq<MonitorInfo>,
    o1: Seq<MonitorInfo>,
    p1: Seq<int>,
    o2: Seq<MonitorInfo>,
    p2: Seq<int>,
    k: int,
)
    requires
        stable_arrangement(input, o1, p1),
        stable_arrangement(input, o2, p2),
        0 <= k <= input.len(),
    ensures
        forall|j: int| 0 <= j < k ==> p1[j] == p2[j],
    decreases k,
{
    if k > 0 {
        lemma_arrangements_agree_up_to(input, o1, p1, o2, p2, k - 1);
        let n = input.len() as int;
        let i = k - 1;
        let a = p1[i];
        let b = p2[i];
        if a != b {
            lemma_arrangement_is_onto(p1, n, b);
            let kb = choose|kk: int| 0 <= kk < n && #[trigger] p1[kk] == b;
            lemma_arrangement_is_onto(p2, n, a);
            let ka = choose|kk: int| 0 <= kk < n && #[trigger] p2[kk] == a;
            if kb < i {
                assert(p2[kb] == b);
            }
            if ka < i {
                assert(p1[ka] == a);
            }
            lemma_arrangement_orders(input, o1, p1, i, kb);
            lemma_arrangement_orders(input, o2, p2, i, ka);
        }
    }
}

/// The session order is determined by the monitors alone: any two stable
/// arrangements of the same input are the same sequence.
pub proof fn lemma_session_order_is_unique(
    input: Seq<MonitorInfo>,
    o1: Seq<MonitorInfo>,
    p1: Seq<int>,
    o2: Seq<MonitorInfo>,
    p2: Seq<int>,
)
    requires
        stable_arrangement(input, o1, p1),
        stable_arrangement(input, o2, p2),
    ensures
        o1 == o2,
{
    lemma_arrangements_agree_up_to(input, o1, p1, o2, p2, input.len() as int);
    assert forall|k: int| 0 <= k < o1.len() implies o1[k] == o2[k] by {
        assert(o1[k] == input[p1[k]]);
        assert(o2[k] == input[p2[k]]);
    }
    assert(o1 =~= o2);
}

/// The same monitor, whatever place the platform listed it at: every field
/// but `handle` agrees.
pub open spec fn same_monitor(a: MonitorInfo, b: MonitorInfo) -> bool {
    MonitorInfo { handle: 0, ..a } == MonitorInfo { handle: 0, ..b }
}

/// `other` lists the monitors of `input` in another order: `other[j]` is
/// `input[q[j]]`, with `q` one-to-one.
pub open spec fn is_reordering(input: Seq<MonitorInfo>, other: Seq<MonitorInfo>, q: Seq<int>) -> bool {
    &&& other.len() == input.len()
    &&& q.len() == input.len()
    &&& forall|j: int| 0 <= j < q.len() ==> 0 <= #[trigger] q[j] < input.len()
    &&& forall|j: int| 0 <= j < q.len() ==> same_monitor(#[trigger] other[j], input[q[j]])
    &&& forall|j1: int, j2: int| 0 <= j1 < j2 < q.len() ==> q[j1] != q[j2]
}

/// No two monitors share a place in the session order.
pub open spec fn distinct_ranks(s: Seq<MonitorInfo>) -> bool {
    forall|i: int, j: int| 0 <= i < j < s.len() ==> !same_rank(s[i], s[j])
}

/// The session order does not depend on the order the platform lists the
/// monitors in: the same monitors, no two of the same rank, give the same
/// monitor at every position, and so the same descriptions.
pub proof fn lemma_session_order_ignores_enumeration_order(
    input: Seq<MonitorInfo>,
    o1: Seq<MonitorInfo>,
    p1: Seq<int>,
    other: Seq<MonitorInfo>,
    q: Seq<int>,
    o2: Seq<MonitorInfo>,
    p2: Seq<int>,
)
    requires
        distinct_ranks(input),
        is_reordering(input, other, q),
        stable_arrangement(input, o1, p1),
        stable_arrangement(other, o2, p2),
    ensures
        forall|k: int| 0 <= k < o1.len() ==> same_monitor(#[trigger] o1[k], o2[k]),
        forall|k: int| 0 <= k < o1.len() ==> #[trigger] described(o1[k], k) == described(o2[k], k),
{
    let n = input.len() as int;
    let r = Seq::new(n as nat, |k: int| q[p2[k]]);
    let o3 = Seq::new(n as nat, |k: int| input[r[k]]);
    assert forall|k: int| 0 <= k < n implies #[trigger] same_monitor(o3[k], o2[k]) && 0 <= r[k] < n by {
        assert(o2[k] == other[p2[k]]);
        assert(same_monitor(other[p2[k]], input[q[p2[k]]]));
    }
    assert forall|k1: int, k2: int| 0 <= k1 < k2 < n implies r[k1] != r[k2] by {
        assert(p2[k1] != p2[k2]);
        if p2[k1] < p2[k2] {
            assert(q[p2[k1]] != q[p2[k2]]);
        } else {
            assert(q[p2[k2]] != q[p2[k1]]);
        }
    }
    assert forall|k1: int, k2: int| 0 <= k1 < k2 < n implies !precedes(o3[k2], o3[k1]) by {
        assert(same_monitor(o3[k1], o2[k1]));
        assert(same_monitor(o3[k2], o2[k2]));
        assert(!precedes(o2[k2], o2[k1]));
    }
    assert forall|k1: int, k2: int| 0 <= k1 < k2 < n && same_rank(o3[k1], o3[k2]) implies r[k1] < r[k2] by {
        if r[k1] < r[k2] {
        } else {
            assert(r[k1] != r[k2]);
            assert(!same_rank(input[r[k2]], input[r[k1]]));
        }
    }
    assert forall|k: int| 0 <= k < n implies #[trigger] o3[k] == input[r[k]] by {}
    assert(stable_arrangement(input, o3, r));
    lemma_session_order_is_unique(input, o1, p1, o3, r);
    assert forall|k: int| 0 <= k < o1.len() implies #[trigger] described(o1[k], k) == described(o2[k], k) by {
        assert(same_monitor(o3[k], o2[k]));
        assert(o1[k] == o3[k]);
        assert(MonitorInfo { handle: 0, ..o1[k] }.name == o2[k].name);
    }
    assert forall|k: int| 0 <= k < o1.len() implies same_monitor(#[trigger] o1[k], o2[k]) by {
        assert(same_monitor(o3[k], o2[k]));
    }
}

/// The description of `m` at position `index`.
pub open spec fn described(m: MonitorInfo, index: int) -> MonitorDescription {
    MonitorDescription {
        index: index as usize,
        id: m.id,
        name: m.name,
        x: m.x,
        y: m.y,
        width: m.width,
        height: m.height,
        scale_factor_bits: m.scale_factor_bits,
        is_primary: m.is_primary,
    }
}

fn precedes_exec(a: &MonitorInfo, b: &MonitorInfo) -> (r: bool)
    ensures
        r == precedes(*a, *b),
{
    (a.is_primary && !b.is_primary) || (a.is_primary == b.is_primary && (a.x < b.x || (a.x
        == b.x && a.y < b.y)))
}

/// Puts the monitors in session order (primary first, then by `x`, then by
/// `y`), keeping monitors of equal rank in the order they came in.
pub fn sort_monitors(monitors: Vec<MonitorInfo>) -> (sorted: Vec<MonitorInfo>)
    ensures
        exists|p: Seq<int>| stable_arrangement(monitors@, sorted@, p),
{
    let ghost orig = monitors@;
    let ghost n = orig.len() as int;
    let mut rest = monitors;
    let mut out: Vec<MonitorInfo> = Vec::new();
    let ghost mut p: Seq<int> = Seq::empty();
    while rest.len() > 0
        invariant
            n == orig.len(),
            rest@ == orig.take(rest.len() as int),
            rest.len() <= n,
            out.len() + rest.len() == n,
            p.len() == out.len(),
            forall|k: int| 0 <= k < p.len() ==> rest.len() <= #[trigger] p[k] < n,
            forall|k: int| 0 <= k < p.len() ==> #[trigger] out@[k] == orig[p[k]],
            forall|k1: int, k2: int| 0 <= k1 < k2 < p.len() ==> p[k1] != p[k2],
            forall|k1: int, k2: int| 0 <= k1 < k2 < out.len() ==> !precedes(out@[k2], out@[k1]),
            forall|k1: int, k2: int|
                0 <= k1 < k2 < out.len() && same_rank(out@[k1], out@[k2]) ==> p[k1] < p[k2],
        decreases rest.len(),
    {
        let ghost i = rest.len() - 1;
        let ghost old_rest = rest@;
        let m = rest.pop().unwrap();
        assert(m == old_rest[i]);
        assert(old_rest[i] == orig[i]);
        assert(rest@ =~= orig.take(rest.len() as int));
        let mut pos: usize = 0;
        while pos < out.len() && precedes_exec(&out[pos], &m)
            invariant
                pos <= out.len(),
                forall|k: int| 0 <= k < pos ==> precedes(#[trigger] out@[k], m),
            decreases out.len() - pos,
        {
            pos = pos + 1;
        }
        let ghost old_out = out@;
        let ghost old_p = p;
        proof {
            assert forall|k: int| pos <= k < old_out.len() implies !precedes(#[trigger] old_out[k], m) by {
                if k > pos {
                    assert(!precedes(old_out[k], old_out[pos as int]));
                }
            }
        }
        out.insert(pos, m);
        proof {
            p = old_p.take(pos as int).push(i) + old_p.skip(pos as int);
            assert forall|k: int| 0 <= k < p.len() implies #[trigger] out@[k] == orig[p[k]] by {
                if k < pos {
                    assert(out@[k] == old_out[k]);
                } else if k > pos {
                    assert(out@[k] == old_out[k - 1]);
                    assert(p[k] == old_p[k - 1]);
                }
            }
            assert forall|k: int| 0 <= k < p.len() implies rest.len() <= #[trigger] p[k] < n by {
                if k > pos {
                    assert(p[k] == old_p[k - 1]);
                }
            }
            assert forall|k1: int, k2: int| 0 <= k1 < k2 < p.len() implies p[k1] != p[k2] by {
                if k1 > pos {
                    assert(p[k1] == old_p[k1 - 1]);
                }
                if k2 > pos {
                    assert(p[k2] == old_p[k2 - 1]);
                }
            }
            assert forall|k1: int, k2: int| 0 <= k1 < k2 < out.len() implies !precedes(
                out@[k2],
                out@[k1],
            ) by {
                if k1 > pos {
                    assert(out@[k1] == old_out[k1 - 1]);
                }
                if k2 > pos {
                    assert(out@[k2] == old_out[k2 - 1]);
                }
                if k1 < pos {
                    assert(out@[k1] == old_out[k1]);
                }
                if k2 < pos {
                    assert(out@[k2] == old_out[k2]);
                }
            }
            assert forall|k1: int, k2: int|
                0 <= k1 < k2 < out.len() && same_rank(out@[k1], out@[k2]) implies p[k1] < p[k2] by {
                if k1 > pos {
                    assert(out@[k1] == old_out[k1 - 1]);
                    assert(p[k1] == old_p[k1 - 1]);
                }
                if k2 > pos {
                    assert(out@[k2] == old_out[k2 - 1]);
                    assert(p[k2] == old_p[k2 - 1]);
                }
                if k1 < pos {
                    assert(out@[k1] == old_out[k1]);
                    assert(p[k1] == old_p[k1]);
                }
                if k2 < pos {
                    assert(out@[k2] == old_out[k2]);
                    assert(p[k2] == old_p[k2]);
                }
            }
        }
    }
    proof {
        assert(stable_arrangement(orig, out@, p));
    }
    out
}


/// Gives each monitor, in session order, its 0-based index: the `screenN`
/// numbering that stays fixed for the session.
pub fn describe_monitors(monitors: Vec<MonitorInfo>) -> (described_list: Vec<MonitorDescription>)
    ensures
        exists|sorted: Seq<MonitorInfo>, p: Seq<int>|
            {
                &&& stable_arrangement(monitors@, sorted, p)
                &&& described_list@.len() == sorted.len()
                &&& forall|i: int|
                    0 <= i < sorted.len() ==> #[trigger] described_list@[i] == described(sorted[i], i)
            },
{
    let sorted = sort_monitors(monitors);
    let mut out: Vec<MonitorDescription> = Vec::new();
    let mut i: usize = 0;
    while i < sorted.len()
        invariant
            i <= sorted.len(),
            out.len() == i,
            forall|k: int| 0 <= k < i ==> #[trigger] out@[k] == described(sorted@[k], k),
        decreases sorted.len() - i,
    {
        let m = &sorted[i];
        out.push(
            MonitorDescription {
                index: i,
                id: m.id,
                name: m.name.clone(),
                x: m.x,
                y: m.y,
                width: m.width,
                height: m.height,
                scale_factor_bits: m.scale_factor_bits,
                is_primary: m.is_primary,
            },
        );
        i = i + 1;
    }
    out
}

/// The bounding box of all monitors in virtual-desktop pixels.
pub struct VirtualBounds {
    pub origin_x: i32,
    pub origin_y: i32,
    pub width: u32,
    pub height: u32,
}

/// `w as i32`: sizes above `i32::MAX` wrap to negative values.
pub open spec fn as_i32(w: u32) -> int {
    if w <= i32::MAX {
        w as int
    } else {
        w - 0x1_0000_0000
    }
}

/// The right edge of `m`, `x + width as i32`.
pub open spec fn right_edge(m: MonitorDescription) -> int {
    m.x + as_i32(m.width)
}

/// The bottom edge of `m`, `y + height as i32`.
pub open spec fn bottom_edge(m: MonitorDescription) -> int {
    m.y + as_i32(m.height)
}

/// Every edge is a representable `i32`.
pub open spec fn edges_in_range(ms: Seq<MonitorDescription>) -> bool {
    forall|i: int|
        0 <= i < ms.len() ==> i32::MIN <= #[trigger] right_edge(ms[i]) <= i32::MAX && i32::MIN
            <= bottom_edge(ms[i]) <= i32::MAX
}

/// The least element of `s`, or 0 when `s` is empty.
pub open spec fn min_or_zero(s: Seq<int>) -> int
    decreases s.len(),
{
    if s.len() == 0 {
        0
    } else if s.len() == 1 {
        s[0]
    } else {
        let m = min_or_zero(s.drop_last());
        if s.last() < m {
            s.last()
        } else {
            m
        }
    }
}

/// The greatest element of `s`, or 0 when `s` is empty.
pub open spec fn max_or_zero(s: Seq<int>) -> int
    decreases s.len(),
{
    if s.len() == 0 {
        0
    } else if s.len() == 1 {
        s[0]
    } else {
        let m = max_or_zero(s.drop_last());
        if s.last() > m {
            s.last()
        } else {
            m
        }
    }
}

/// `v` saturated into the `i32` range.
pub open spec fn saturate_i32(v: int) -> int {
    if v > i32::MAX {
        i32::MAX as int
    } else if v < i32::MIN {
        i32::MIN as int
    } else {
        v
    }
}

/// The extent `max(1, hi.saturating_sub(lo))`.
pub open spec fn extent(lo: int, hi: int) -> int {
    let d = saturate_i32(hi - lo);
    if d < 1 {
        1
    } else {
        d
    }
}

pub open spec fn xs_of(ms: Seq<MonitorDescription>) -> Seq<int> {
    ms.map_values(|m: MonitorDescription| m.x as int)
}

pub open spec fn ys_of(ms: Seq<MonitorDescription>) -> Seq<int> {
    ms.map_values(|m: MonitorDescription| m.y as int)
}

pub open spec fn rights_of(ms: Seq<MonitorDescription>) -> Seq<int> {
    ms.map_values(|m: MonitorDescription| right_edge(m))
}

pub open spec fn bottoms_of(ms: Seq<MonitorDescription>) -> Seq<int> {
    ms.map_values(|m: MonitorDescription| bottom_edge(m))
}

/// The bounds that cover `ms`: origin at the least `x` and `y`, size up to the
/// greatest right and bottom edge (at least 1 pixel each way).
pub open spec fn bounds_of(ms: Seq<MonitorDescription>) -> VirtualBounds {
    let min_x = min_or_zero(xs_of(ms));
    let min_y = min_or_zero(ys_of(ms));
    VirtualBounds {
        origin_x: min_x as i32,
        origin_y: min_y as i32,
        width: extent(min_x, max_or_zero(rights_of(ms))) as u32,
        height: extent(min_y, max_or_zero(bottoms_of(ms))) as u32,
    }
}

proof fn lemma_min_step(s: Seq<int>, v: int)
    ensures
        min_or_zero(s.push(v)) == if s.len() == 0 {
            v
        } else if v < min_or_zero(s) {
            v
        } else {
            min_or_zero(s)
        },
{
    assert(s.push(v).drop_last() =~= s);
}

proof fn lemma_max_step(s: Seq<int>, v: int)
    ensures
        max_or_zero(s.push(v)) == if s.len() == 0 {
            v
        } else if v > max_or_zero(s) {
            v
        } else {
            max_or_zero(s)
        },
{
    assert(s.push(v).drop_last() =~= s);
}

/// The least element is no greater than any element, and is one of them.
pub proof fn lemma_min_or_zero_bounds(s: Seq<int>)
    requires
        s.len() > 0,
    ensures
        forall|i: int| 0 <= i < s.len() ==> min_or_zero(s) <= #[trigger] s[i],
        exists|i: int| 0 <= i < s.len() && min_or_zero(s) == #[trigger] s[i],
    decreases s.len(),
{
    if s.len() == 1 {
        assert(min_or_zero(s) == s[0]);
    } else {
        let t = s.drop_last();
        lemma_min_or_zero_bounds(t);
        assert forall|i: int| 0 <= i < s.len() implies min_or_zero(s) <= #[trigger] s[i] by {
            if i < t.len() {
                assert(t[i] == s[i]);
            }
        }
        let j = choose|j: int| 0 <= j < t.len() && min_or_zero(t) == #[trigger] t[j];
        if s.last() < min_or_zero(t) {
            assert(min_or_zero(s) == s[s.len() - 1]);
        } else {
            assert(min_or_zero(s) == s[j]);
        }
    }
}

/// The greatest element is no less than any element, and is one of them.
pub proof fn lemma_max_or_zero_bounds(s: Seq<int>)
    requires
        s.len() > 0,
    ensures
        forall|i: int| 0 <= i < s.len() ==> #[trigger] s[i] <= max_or_zero(s),
        exists|i: int| 0 <= i < s.len() && max_or_zero(s) == #[trigger] s[i],
    decreases s.len(),
{
    if s.len() == 1 {
        assert(max_or_zero(s) == s[0]);
    } else {
        let t = s.drop_last();
        lemma_max_or_zero_bounds(t);
        assert forall|i: int| 0 <= i < s.len() implies #[trigger] s[i] <= max_or_zero(s) by {
            if i < t.len() {
                assert(t[i] == s[i]);
            }
        }
        let j = choose|j: int| 0 <= j < t.len() && max_or_zero(t) == #[trigger] t[j];
        if s.last() > max_or_zero(t) {
            assert(max_or_zero(s) == s[s.len() - 1]);
        } else {
            assert(max_or_zero(s) == s[j]);
        }
    }
}

fn wrap_to_i32(w: u32) -> (r: i32)
    ensures
        r == as_i32(w),
{
    let r = w as i32;
    assert(w <= 0x7fff_ffff ==> r == w) by (bit_vector)
        requires
            r == w as i32,
    ;
    assert(w > 0x7fff_ffff ==> r == w - 0x1_0000_0000) by (bit_vector)
        requires
            r == w as i32,
    ;
    r
}

fn extent_exec(lo: i32, hi: i32) -> (r: u32)
    ensures
        r == extent(lo as int, hi as int),
{
    let d: i64 = hi as i64 - lo as i64;
    let sat: i64 = if d > i32::MAX as i64 {
        i32::MAX as i64
    } else if d < i32::MIN as i64 {
        i32::MIN as i64
    } else {
        d
    };
    if sat < 1 {
        1
    } else {
        sat as u32
    }
}

/// The virtual-desktop bounding box of the monitors, as the overlay window is
/// placed: origin `(min x, min y)`, width `max(1, max right edge - min x)`,
/// height likewise (0 in place of each extreme when there is no monitor).
pub fn virtual_desktop_bounds(monitors: &Vec<MonitorDescription>) -> (b: VirtualBounds)
    requires
        edges_in_range(monitors@),
    ensures
        b == bounds_of(monitors@),
{
    let ghost ms = monitors@;
    let mut min_x: i32 = 0;
    let mut min_y: i32 = 0;
    let mut max_right: i32 = 0;
    let mut max_bottom: i32 = 0;
    let mut i: usize = 0;
    while i < monitors.len()
        invariant
            ms == monitors@,
            edges_in_range(ms),
            i <= ms.len(),
            min_x == min_or_zero(xs_of(ms.take(i as int))),
            min_y == min_or_zero(ys_of(ms.take(i as int))),
            max_right == max_or_zero(rights_of(ms.take(i as int))),
            max_bottom == max_or_zero(bottoms_of(ms.take(i as int))),
        decreases ms.len() - i,
    {
        let m = &monitors[i];
        let ghost pre = ms.take(i as int);
        let ghost post = ms.take(i + 1);
        proof {
            assert(post =~= pre.push(ms[i as int]));
            assert(xs_of(post) =~= xs_of(pre).push(m.x as int));
            assert(ys_of(post) =~= ys_of(pre).push(m.y as int));
            assert(rights_of(post) =~= rights_of(pre).push(right_edge(ms[i as int])));
            assert(bottoms_of(post) =~= bottoms_of(pre).push(bottom_edge(ms[i as int])));
            lemma_min_step(xs_of(pre), m.x as int);
            lemma_min_step(ys_of(pre), m.y as int);
            lemma_max_step(rights_of(pre), right_edge(ms[i as int]));
            lemma_max_step(bottoms_of(pre), bottom_edge(ms[i as int]));
            assert(i32::MIN <= right_edge(ms[i as int]) <= i32::MAX);
        }
        let w: i32 = wrap_to_i32(m.width);
        let h: i32 = wrap_to_i32(m.height);
        let right: i32 = m.x + w;
        let bottom: i32 = m.y + h;
        if i == 0 || m.x < min_x {
            min_x = m.x;
        }
        if i == 0 || m.y < min_y {
            min_y = m.y;
        }
        if i == 0 || right > max_right {
            max_right = right;
        }
        if i == 0 || bottom > max_bottom {
            max_bottom = bottom;
        }
        i = i + 1;
    }
    proof {
        assert(ms.take(ms.len() as int) =~= ms);
    }
    VirtualBounds {
        origin_x: min_x,
        origin_y: min_y,
        width: extent_exec(min_x, max_right),
        height: extent_exec(min_y, max_bottom),
    }
}

/// Every monitor lies inside the virtual-desktop bounds, provided the span
/// from the least `x` (`y`) to the greatest right (bottom) edge fits in an
/// `i32` (beyond that the width is saturated).
pub proof fn lemma_bounds_contain_every_monitor(ms: Seq<MonitorDescription>)
    requires
        edges_in_range(ms),
        max_or_zero(rights_of(ms)) - min_or_zero(xs_of(ms)) <= i32::MAX,
        max_or_zero(bottoms_of(ms)) - min_or_zero(ys_of(ms)) <= i32::MAX,
    ensures
        forall|i: int|
            0 <= i < ms.len() ==> {
                let b = bounds_of(ms);
                &&& b.origin_x <= #[trigger] ms[i].x
                &&& b.origin_y <= ms[i].y
                &&& right_edge(ms[i]) <= b.origin_x + b.width
                &&& bottom_edge(ms[i]) <= b.origin_y + b.height
            },
{
    if ms.len() > 0 {
        lemma_min_or_zero_bounds(xs_of(ms));
        lemma_min_or_zero_bounds(ys_of(ms));
        lemma_max_or_zero_bounds(rights_of(ms));
        lemma_max_or_zero_bounds(bottoms_of(ms));
        assert forall|i: int| 0 <= i < ms.len() implies {
            let b = bounds_of(ms);
            &&& b.origin_x <= #[trigger] ms[i].x
            &&& b.origin_y <= ms[i].y
            &&& right_edge(ms[i]) <= b.origin_x + b.width
            &&& bottom_edge(ms[i]) <= b.origin_y + b.height
        } by {
            assert(xs_of(ms)[i] == ms[i].x);
            assert(ys_of(ms)[i] == ms[i].y);
            assert(rights_of(ms)[i] == right_edge(ms[i]));
            assert(bottoms_of(ms)[i] == bottom_edge(ms[i]));
            let jx = choose|j: int| 0 <= j < xs_of(ms).len() && min_or_zero(xs_of(ms)) == #[trigger] xs_of(ms)[j];
            let jy = choose|j: int| 0 <= j < ys_of(ms).len() && min_or_zero(ys_of(ms)) == #[trigger] ys_of(ms)[j];
            assert(xs_of(ms)[jx] == ms[jx].x);
            assert(ys_of(ms)[jy] == ms[jy].y);
        }
    }
}

} // verus!
