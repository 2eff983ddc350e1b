use vstd::prelude::*;

verus! {

/// The order of strings, as -1, 0 or 1: lexicographic by character (for
/// UTF-8 text the same order as by bytes).
pub open spec fn text_order(a: Seq<char>, b: Seq<char>) -> int
    decreases a.len(),
{
    if a.len() == 0 {
        if b.len() == 0 {
            0
        } else {
            -1
        }
    } else if b.len() == 0 {
        1
    } else if (a[0] as u32) < (b[0] as u32) {
        -1
    } else if (a[0] as u32) > (b[0] as u32) {
        1
    } else {
        text_order(a.drop_first(), b.drop_first())
    }
}

pub proof fn lemma_text_order_antisym(a: Seq<char>, b: Seq<char>)
    ensures
        text_order(a, b) == -text_order(b, a),
        text_order(a, b) == 0 <==> a == b,
        -1 <= text_order(a, b) <= 1,
    decreases a.len(),
{
    if a.len() > 0 && b.len() > 0 && (a[0] as u32) == (b[0] as u32) {
        vstd::utf8::char_u32_cast(a[0], a[0] as u32);
        vstd::utf8::char_u32_cast(b[0], b[0] as u32);
        assert(a[0] == b[0]);
        lemma_text_order_antisym(a.drop_first(), b.drop_first());
        if a.drop_first() == b.drop_first() {
            assert(a =~= seq![a[0]] + a.drop_first());
            assert(b =~= seq![b[0]] + b.drop_first());
        }
    }
    if a.len() == 0 && b.len() == 0 {
        assert(a =~= b);
    }
}

pub proof fn lemma_text_order_trans(a: Seq<char>, b: Seq<char>, c: Seq<char>)
    requires
        text_order(a, b) >= 0,
        text_order(b, c) >= 0,
    ensures
        text_order(a, c) >= 0,
        text_order(a, b) > 0 || text_order(b, c) > 0 ==> text_order(a, c) > 0,
    decreases a.len(),
{
    if a.len() > 0 && b.len() > 0 && c.len() > 0 && (a[0] as u32) == (b[0] as u32) && (b[0]
        as u32) == (c[0] as u32) {
        lemma_text_order_trans(a.drop_first(), b.drop_first(), c.drop_first());
    }
}

/// What orders items newest first: a parsed instant where there is one
/// (items with one come before items without), else the text.
pub struct SortKey {
    pub instant: Option<(i64, u32)>,
    pub text: Vec<char>,
}

pub struct KeyView {
    pub instant: Option<(i64, u32)>,
    pub text: Seq<char>,
}

impl View for SortKey {
    type V = KeyView;

    open spec fn view(&self) -> KeyView {
        KeyView { instant: self.instant, text: self.text@ }
    }
}

pub open spec fn instant_order(a: (i64, u32), b: (i64, u32)) -> int {
    if a.0 < b.0 {
        -1
    } else if a.0 > b.0 {
        1
    } else if a.1 < b.1 {
        -1
    } else if a.1 > b.1 {
        1
    } else {
        0
    }
}

/// The order of keys, as -1, 0 or 1: two instants compare as instants; an
/// instant is above no instant; without instants the texts compare.
pub open spec fn key_order(a: KeyView, b: KeyView) -> int {
    match (a.instant, b.instant) {
        (Some(x), Some(y)) => instant_order(x, y),
        (Some(_), None) => 1,
        (None, Some(_)) => -1,
        (None, None) => text_order(a.text, b.text),
    }
}

pub proof fn lemma_key_order_antisym(a: KeyView, b: KeyView)
    ensures
        key_order(a, b) == -key_order(b, a),
        -1 <= key_order(a, b) <= 1,
{
    lemma_text_order_antisym(a.text, b.text);
}

pub proof fn lemma_key_order_trans(a: KeyView, b: KeyView, c: KeyView)
    requires
        key_order(a, b) >= 0,
        key_order(b, c) >= 0,
    ensures
        key_order(a, c) >= 0,
        key_order(a, b) > 0 || key_order(b, c) > 0 ==> key_order(a, c) > 0,
{
    if a.instant is None && b.instant is None && c.instant is None {
        lemma_text_order_trans(a.text, b.text, c.text);
    }
}

/// In the newest-first order of `keys`, item `x` comes before item `y`: its
/// key is greater, or the keys are equal and it came first.
pub open spec fn before(keys: Seq<KeyView>, x: int, y: int) -> bool {
    key_order(keys[x], keys[y]) > 0 || (key_order(keys[x], keys[y]) == 0 && x < y)
}

pub proof fn lemma_before_trans(keys: Seq<KeyView>, x: int, y: int, z: int)
    requires
        before(keys, x, y),
        before(keys, y, z),
    ensures
        before(keys, x, z),
{
    lemma_key_order_trans(keys[x], keys[y], keys[z]);
}

pub proof fn lemma_before_total(keys: Seq<KeyView>, x: int, y: int)
    requires
        x != y,
    ensures
        before(keys, x, y) != before(keys, y, x),
{
    lemma_key_order_antisym(keys[x], keys[y]);
}

pub open spec fn keys_view(keys: Seq<SortKey>) -> Seq<KeyView> {
    keys.map_values(|k: SortKey| k@)
}

/// Every position in `idx` is below `n`.
pub open spec fn positions_below(idx: Seq<usize>, n: int) -> bool {
    forall|a: int| 0 <= a < idx.len() ==> 0 <= #[trigger] idx[a] < n
}

/// The positions in `idx` come in newest-first order.
pub open spec fn in_order(keys: Seq<KeyView>, idx: Seq<usize>) -> bool {
    forall|a: int, b: int|
        0 <= a < b < idx.len() ==> before(keys, #[trigger] idx[a] as int, #[trigger] idx[b] as int)
}

/// Each listed position comes before each of the first `n` positions left out.
pub open spec fn ahead_of_rest(keys: Seq<KeyView>, n: int, idx: Seq<usize>) -> bool {
    forall|a: int, x: int|
        0 <= a < idx.len() && 0 <= x < n && !idx.contains(x as usize) ==> #[trigger] before(
            keys,
            idx[a] as int,
            x,
        )
}

/// `idx` lists, in newest-first order, the first `min(k, n)` of the `n` items
/// in that order.
pub open spec fn is_top(keys: Seq<KeyView>, n: int, k: int, idx: Seq<usize>) -> bool {
    &&& idx.len() == if n < k {
        n
    } else {
        k
    }
    &&& positions_below(idx, n)
    &&& in_order(keys, idx)
    &&& ahead_of_rest(keys, n, idx)
}

pub fn compare_keys(a: &SortKey, b: &SortKey) -> (r: i8)
    ensures
        r as int == key_order(a@, b@),
{
    match (a.instant, b.instant) {
        (Some(x), Some(y)) => {
            if x.0 < y.0 {
                -1
            } else if x.0 > y.0 {
                1
            } else if x.1 < y.1 {
                -1
            } else if x.1 > y.1 {
                1
            } else {
                0
            }
        },
        (Some(_), None) => 1,
        (None, Some(_)) => -1,
        (None, None) => compare_texts(&a.text, &b.text),
    }
}

fn compare_texts(ta: &Vec<char>, tb: &Vec<char>) -> (r: i8)
    ensures
        r as int == text_order(ta@, tb@),
{
    let mut i: usize = 0;
    assert(ta@.skip(0) =~= ta@);
    assert(tb@.skip(0) =~= tb@);
    while i < ta.len() && i < tb.len() && ta[i] == tb[i]
        invariant
            i <= ta.len(),
            i <= tb.len(),
            text_order(ta@, tb@) == text_order(ta@.skip(i as int), tb@.skip(i as int)),
        decreases ta.len() - i,
    {
        assert(ta@.skip(i as int).drop_first() =~= ta@.skip(i + 1));
        assert(tb@.skip(i as int).drop_first() =~= tb@.skip(i + 1));
        i = i + 1;
    }
    if i == ta.len() {
        if i == tb.len() {
            0
        } else {
            -1
        }
    } else if i == tb.len() {
        1
    } else {
        let ca: char = ta[i];
        let cb: char = tb[i];
        let ua: u32 = ca as u32;
        let ub: u32 = cb as u32;
        assert(ta@.skip(i as int)[0] == ca);
        assert(tb@.skip(i as int)[0] == cb);
        proof {
            vstd::utf8::char_u32_cast(ca, ua);
            vstd::utf8::char_u32_cast(cb, ub);
        }
        if ua < ub {
            -1
        } else {
            1
        }
    }
}

proof fn lemma_insert_in_order(keys: Seq<KeyView>, idx: Seq<usize>, p: int, i: usize)
    requires
        in_order(keys, idx),
        0 <= p <= idx.len(),
        forall|a: int| 0 <= a < p ==> before(keys, #[trigger] idx[a] as int, i as int),
        forall|a: int| p <= a < idx.len() ==> before(keys, i as int, #[trigger] idx[a] as int),
    ensures
        in_order(keys, idx.take(p).push(i) + idx.skip(p)),
{
    let new = idx.take(p).push(i) + idx.skip(p);
    assert forall|a: int, b: int| 0 <= a < b < new.len() implies before(
        keys,
        #[trigger] new[a] as int,
        #[trigger] new[b] as int,
    ) by {
        if a < p {
            assert(new[a] == idx[a]);
            if b < p {
                assert(new[b] == idx[b]);
            } else if b == p {
                assert(new[b] == i);
            } else {
                assert(new[b] == idx[b - 1]);
                lemma_before_trans(keys, idx[a] as int, i as int, idx[b - 1] as int);
            }
        } else if a == p {
            assert(new[a] == i);
            assert(new[b] == idx[b - 1]);
        } else {
            assert(new[a] == idx[a - 1]);
            assert(new[b] == idx[b - 1]);
        }
    }
}

/// Positions are told apart by the order: no item comes before itself.
pub proof fn lemma_in_order_distinct(keys: Seq<KeyView>, idx: Seq<usize>, a: int, b: int)
    requires
        in_order(keys, idx),
        0 <= a < idx.len(),
        0 <= b < idx.len(),
        a != b,
    ensures
        idx[a] != idx[b],
{
    lemma_key_order_antisym(keys[idx[a] as int], keys[idx[a] as int]);
    if a < b {
        assert(before(keys, idx[a] as int, idx[b] as int));
    } else {
        assert(before(keys, idx[b] as int, idx[a] as int));
    }
}

/// The positions, newest first, of the first `k` of the items with these keys
/// (all of them where `k` is at least their number); equal keys keep their order.
pub fn top_indices(keys: &Vec<SortKey>, k: usize) -> (r: Vec<usize>)
    ensures
        is_top(keys_view(keys@), keys@.len() as int, k as int, r@),
{
    let ghost kv = keys_view(keys@);
    let mut buf: Vec<usize> = Vec::new();
    let mut i: usize = 0;
    while i < keys.len()
        invariant
            i <= keys.len(),
            kv == keys_view(keys@),
            kv.len() == keys@.len(),
            is_top(kv, i as int, k as int, buf@),
            i < k ==> forall|x: int| 0 <= x < i ==> #[trigger] buf@.contains(x as usize),
        decreases keys.len() - i,
    {
        // the place of item i: after every listed item that comes before it
        let mut p: usize = 0;
        while p < buf.len() && compare_keys(&keys[buf[p]], &keys[i]) >= 0
            invariant
                p <= buf.len(),
                i < keys.len(),
                kv == keys_view(keys@),
                kv.len() == keys@.len(),
                is_top(kv, i as int, k as int, buf@),
                forall|a: int| 0 <= a < p ==> before(kv, #[trigger] buf@[a] as int, i as int),
            decreases buf.len() - p,
        {
            assert(kv[buf@[p as int] as int] == keys@[buf@[p as int] as int]@);
            assert(kv[i as int] == keys@[i as int]@);
            p = p + 1;
        }
        proof {
            if p < buf.len() {
                assert(kv[buf@[p as int] as int] == keys@[buf@[p as int] as int]@);
                assert(kv[i as int] == keys@[i as int]@);
                lemma_key_order_antisym(kv[i as int], kv[buf@[p as int] as int]);
                assert(before(kv, i as int, buf@[p as int] as int));
                assert forall|a: int| p <= a < buf.len() implies before(
                    kv,
                    i as int,
                    #[trigger] buf@[a] as int,
                ) by {
                    if a > p {
                        lemma_before_trans(kv, i as int, buf@[p as int] as int, buf@[a] as int);
                    }
                }
            }
        }
        let ghost old_buf = buf@;
        if p < k {
            buf.insert(p, i);
            proof {
                assert(buf@ =~= old_buf.take(p as int).push(i) + old_buf.skip(p as int));
                lemma_insert_in_order(kv, old_buf, p as int, i);
            }
            let ghost full = buf@;
            if buf.len() > k {
                let dropped = buf.pop().unwrap();
                proof {
                    assert(buf@ =~= full.take(k as int));
                    assert(dropped == old_buf[k - 1]);
                    assert forall|a: int, x: int|
                        0 <= a < buf@.len() && 0 <= x < i + 1 && !buf@.contains(
                            x as usize,
                        ) implies #[trigger] before(kv, buf@[a] as int, x) by {
                        assert(buf@[a] == full[a]);
                        assert(before(kv, full[a] as int, full[k as int] as int));
                        if x != dropped as int {
                            if old_buf.contains(x as usize) {
                                let q = choose|q: int|
                                    0 <= q < old_buf.len() && old_buf[q] == x as usize;
                                if q < p {
                                    assert(buf@[q] == x as usize);
                                } else {
                                    assert(full[q + 1] == x as usize);
                                    assert(q + 1 < k);
                                    assert(buf@[q + 1] == x as usize);
                                }
                            }
                            if x == i {
                                assert(buf@[p as int] == i);
                            }
                            assert(before(kv, old_buf[k - 1] as int, x));
                            lemma_before_trans(kv, full[a] as int, dropped as int, x);
                        }
                    }
                }
            } else {
                proof {
                    assert forall|x: int| 0 <= x < i + 1 implies #[trigger] buf@.contains(x as usize) by {
                        if x == i {
                            assert(buf@[p as int] == i);
                        } else {
                            assert(old_buf.contains(x as usize));
                            let q = choose|q: int|
                                0 <= q < old_buf.len() && old_buf[q] == x as usize;
                            if q < p {
                                assert(buf@[q] == x as usize);
                            } else {
                                assert(buf@[q + 1] == x as usize);
                            }
                        }
                    }
                }
            }
        } else {
            proof {
                assert forall|a: int, x: int|
                    0 <= a < buf@.len() && 0 <= x < i + 1 && !buf@.contains(x as usize) implies #[trigger] before(
                    kv,
                    buf@[a] as int,
                    x,
                ) by {
                    if x < i {
                    }
                }
            }
        }
        i = i + 1;
    }
    buf
}

/// The items at the positions of `order`, in that order: each item moves
/// once, so the positions are distinct.
pub fn pick_in_order<T>(items: Vec<T>, order: &Vec<usize>) -> (r: Vec<T>)
    requires
        forall|a: int| 0 <= a < order.len() ==> #[trigger] order@[a] < items.len(),
        forall|a: int, b: int|
            0 <= a < b < order.len() ==> #[trigger] order@[a] != #[trigger] order@[b],
    ensures
        r.len() == order.len(),
        forall|j: int| 0 <= j < order.len() ==> #[trigger] r@[j] == items@[order@[j] as int],
{
    let ghost orig = items@;
    let n = items.len();
    let mut rest = items;
    // slots[s] holds item n - 1 - s until it is picked
    let mut slots: Vec<Option<T>> = Vec::new();
    while rest.len() > 0
        invariant
            rest@ == orig.take(rest.len() as int),
            orig.len() == n,
            slots.len() + rest.len() == n,
            forall|s: int| 0 <= s < slots.len() ==> #[trigger] slots@[s] == Some(orig[n - 1 - s]),
        decreases rest.len(),
    {
        let x = rest.pop().unwrap();
        slots.push(Some(x));
    }
    let mut out: Vec<T> = Vec::new();
    let mut j: usize = 0;
    while j < order.len()
        invariant
            orig.len() == n,
            slots.len() == n,
            j <= order.len(),
            out.len() == j,
            forall|a: int| 0 <= a < order.len() ==> #[trigger] order@[a] < n,
            forall|a: int, b: int|
                0 <= a < b < order.len() ==> #[trigger] order@[a] != #[trigger] order@[b],
            forall|a: int| 0 <= a < j ==> #[trigger] out@[a] == orig[order@[a] as int],
            forall|a: int|
                j <= a < order.len() ==> #[trigger] slots@[n - 1 - order@[a]] == Some(
                    orig[order@[a] as int],
                ),
        decreases order.len() - j,
    {
        assert(order@[j as int] < n);
        let pos = n - 1 - order[j];
        let mut taken: Option<T> = None;
        std::mem::swap(&mut taken, &mut slots[pos]);
        proof {
            assert forall|a: int| j < a < order.len() implies #[trigger] slots@[n - 1
                - order@[a]] == Some(orig[order@[a] as int]) by {
                assert(order@[a] != order@[j as int]);
            }
        }
        let x = taken.unwrap();
        out.push(x);
        j = j + 1;
    }
    out
}

/// Two lists that each give the first `min(k, n)` items in newest-first order
/// are the same list: the order of `is_top` leaves no choice.
pub proof fn lemma_top_unique(keys: Seq<KeyView>, n: int, k: int, o1: Seq<usize>, o2: Seq<usize>)
    requires
        is_top(keys, n, k, o1),
        is_top(keys, n, k, o2),
    ensures
        o1 == o2,
{
    lemma_top_prefix(keys, n, k, o1, o2, o1.len() as int);
    assert(o1 =~= o2);
}

proof fn lemma_top_prefix(
    keys: Seq<KeyView>,
    n: int,
    k: int,
    o1: Seq<usize>,
    o2: Seq<usize>,
    a: int,
)
    requires
        is_top(keys, n, k, o1),
        is_top(keys, n, k, o2),
        0 <= a <= o1.len(),
    ensures
        forall|j: int| 0 <= j < a ==> o1[j] == o2[j],
    decreases a,
{
    if a > 0 {
        lemma_top_prefix(keys, n, k, o1, o2, a - 1);
        let x = o1[a - 1];
        let y = o2[a - 1];
        if x != y {
            lemma_first_before(keys, n, k, o1, o2, a - 1);
            lemma_first_before(keys, n, k, o2, o1, a - 1);
            lemma_before_total(keys, x as int, y as int);
        }
    }
}

/// Where two such lists agree before position `a` and differ at it, the item
/// of the first comes before the item of the second.
proof fn lemma_first_before(
    keys: Seq<KeyView>,
    n: int,
    k: int,
    o1: Seq<usize>,
    o2: Seq<usize>,
    a: int,
)
    requires
        is_top(keys, n, k, o1),
        is_top(keys, n, k, o2),
        0 <= a < o1.len(),
        forall|j: int| 0 <= j < a ==> o1[j] == o2[j],
        o1[a] != o2[a],
    ensures
        before(keys, o1[a] as int, o2[a] as int),
{
    let y = o2[a];
    assert(0 <= y < n);
    if o1.contains(y) {
        let b = choose|b: int| 0 <= b < o1.len() && o1[b] == y;
        if b < a {
            assert(o2[b] == y);
            lemma_in_order_distinct(keys, o2, b, a);
        }
        assert(b != a);
        assert(before(keys, o1[a] as int, o1[b] as int));
    } else {
        assert(before(keys, o1[a] as int, y as int));
    }
}

/// The positions of all items in newest-first order (equal keys keep their
/// order).
pub open spec fn newest_first(keys: Seq<KeyView>) -> Seq<usize> {
    choose|o: Seq<usize>| is_top(keys, keys.len() as int, keys.len() as int, o)
}

/// The positions of the first `k` items in newest-first order.
pub open spec fn newest_first_k(keys: Seq<KeyView>, k: int) -> Seq<usize> {
    choose|o: Seq<usize>| is_top(keys, keys.len() as int, k, o)
}

/// The items at the positions of `order`, in that order.
pub open spec fn reorder<T>(items: Seq<T>, order: Seq<usize>) -> Seq<T> {
    order.map_values(|j: usize| items[j as int])
}

/// The positions of the first `k` items in newest-first order.
pub fn first_k_positions(keys: &Vec<SortKey>, k: usize) -> (r: Vec<usize>)
    ensures
        r@ == newest_first_k(keys_view(keys@), k as int),
        is_top(keys_view(keys@), keys@.len() as int, k as int, r@),
{
    let r = top_indices(keys, k);
    proof {
        let kv = keys_view(keys@);
        assert(kv.len() == keys@.len());
        let c = newest_first_k(kv, k as int);
        assert(is_top(kv, kv.len() as int, k as int, c));
        lemma_top_unique(kv, kv.len() as int, k as int, r@, c);
    }
    r
}

/// The positions of all items in newest-first order.
pub fn sorted_positions(keys: &Vec<SortKey>) -> (r: Vec<usize>)
    ensures
        r@ == newest_first(keys_view(keys@)),
        is_top(keys_view(keys@), keys@.len() as int, keys@.len() as int, r@),
{
    let r = first_k_positions(keys, keys.len());
    r
}

/// Items reordered by positions that list each of them once.
pub proof fn lemma_top_all_distinct(keys: Seq<KeyView>, n: int, o: Seq<usize>)
    requires
        is_top(keys, n, n, o),
    ensures
        forall|a: int| 0 <= a < o.len() ==> #[trigger] o[a] < n,
        forall|a: int, b: int| 0 <= a < b < o.len() ==> #[trigger] o[a] != #[trigger] o[b],
{
    assert forall|a: int, b: int| 0 <= a < b < o.len() implies #[trigger] o[a] != #[trigger] o[b] by {
        lemma_in_order_distinct(keys, o, a, b);
    }
}

/// Items put in newest-first order come out with non-increasing keys.
pub proof fn lemma_reorder_sorted(keys: Seq<KeyView>, n: int, k: int, order: Seq<usize>)
    requires
        is_top(keys, n, k, order),
    ensures
        forall|a: int, b: int|
            0 <= a < b < order.len() ==> key_order(
                #[trigger] keys[order[a] as int],
                #[trigger] keys[order[b] as int],
            ) >= 0,
{
    assert forall|a: int, b: int| 0 <= a < b < order.len() implies key_order(
        #[trigger] keys[order[a] as int],
        #[trigger] keys[order[b] as int],
    ) >= 0 by {
        assert(before(keys, order[a] as int, order[b] as int));
    }
}

/// The place of item `i` among the listed positions: after the last one
/// that comes before it.
pub open spec fn insert_point(keys: Seq<KeyView>, o: Seq<usize>, i: int) -> int
    decreases o.len(),
{
    if o.len() == 0 {
        0
    } else if before(keys, o.last() as int, i) {
        o.len() as int
    } else {
        insert_point(keys, o.drop_last(), i)
    }
}

proof fn lemma_insert_point(keys: Seq<KeyView>, o: Seq<usize>, i: int)
    requires
        in_order(keys, o),
        forall|a: int| 0 <= a < o.len() ==> #[trigger] o[a] != i,
    ensures
        0 <= insert_point(keys, o, i) <= o.len(),
        forall|a: int| 0 <= a < insert_point(keys, o, i) ==> before(keys, #[trigger] o[a] as int, i),
        forall|a: int| insert_point(keys, o, i) <= a < o.len() ==> before(keys, i, #[trigger] o[a] as int),
    decreases o.len(),
{
    if o.len() > 0 {
        let d = o.drop_last();
        assert forall|a: int, b: int| 0 <= a < b < d.len() implies before(
            keys,
            #[trigger] d[a] as int,
            #[trigger] d[b] as int,
        ) by {
            assert(d[a] == o[a] && d[b] == o[b]);
        }
        assert forall|a: int| 0 <= a < d.len() implies #[trigger] d[a] != i by {
            assert(d[a] == o[a]);
        }
        lemma_insert_point(keys, d, i);
        let last = o.len() - 1;
        if before(keys, o[last] as int, i) {
            assert forall|a: int| 0 <= a < o.len() implies before(keys, #[trigger] o[a] as int, i) by {
                if a < last {
                    lemma_before_trans(keys, o[a] as int, o[last] as int, i);
                }
            }
        } else {
            lemma_before_total(keys, o[last] as int, i);
            assert forall|a: int| 0 <= a < insert_point(keys, d, i) implies before(
                keys,
                #[trigger] o[a] as int,
                i,
            ) by {
                assert(o[a] == d[a]);
            }
            assert forall|a: int| insert_point(keys, d, i) <= a < o.len() implies before(
                keys,
                i,
                #[trigger] o[a] as int,
            ) by {
                if a < last {
                    assert(o[a] == d[a]);
                }
            }
        }
    }
}

/// For any items, the first `min(k, n)` in newest-first order can be listed.
pub proof fn lemma_top_exists(keys: Seq<KeyView>, n: int, k: int)
    requires
        0 <= n <= usize::MAX,
        0 <= k,
    ensures
        exists|o: Seq<usize>| is_top(keys, n, k, o),
{
    let o = lemma_top_witness(keys, n, k);
}

proof fn lemma_top_witness(keys: Seq<KeyView>, n: int, k: int) -> (o: Seq<usize>)
    requires
        0 <= n <= usize::MAX,
        0 <= k,
    ensures
        is_top(keys, n, k, o),
        n <= k ==> forall|x: int| 0 <= x < n ==> #[trigger] o.contains(x as usize),
    decreases n,
{
    if n == 0 {
        Seq::<usize>::empty()
    } else {
        let o = lemma_top_witness(keys, n - 1, k);
        lemma_top_step(keys, n - 1, k, o)
    }
}

proof fn lemma_top_step(keys: Seq<KeyView>, i: int, k: int, o: Seq<usize>) -> (o2: Seq<usize>)
    requires
        0 <= i,
        0 <= k,
        is_top(keys, i, k, o),
        i < usize::MAX,
        i < k ==> forall|x: int| 0 <= x < i ==> #[trigger] o.contains(x as usize),
    ensures
        is_top(keys, i + 1, k, o2),
        i + 1 <= k ==> forall|x: int| 0 <= x < i + 1 ==> #[trigger] o2.contains(x as usize),
{
    assert forall|a: int| 0 <= a < o.len() implies #[trigger] o[a] != i as usize by {
        assert(o[a] < i);
    }
    assert forall|a: int| 0 <= a < o.len() implies #[trigger] o[a] != i by {
        assert(o[a] < i);
    }
    lemma_insert_point(keys, o, i);
    let p = insert_point(keys, o, i);
    let iu = i as usize;
    if p < k {
        let full = o.take(p).push(iu) + o.skip(p);
        lemma_insert_in_order(keys, o, p, iu);
        assert forall|a: int| 0 <= a < full.len() implies 0 <= #[trigger] full[a] < i + 1 by {
            if a < p {
                assert(full[a] == o[a]);
            } else if a > p {
                assert(full[a] == o[a - 1]);
            }
        }
        if full.len() > k {
            // the list was full: the last one leaves
            let r = full.take(k);
            assert(o.len() == k);
            let dropped = full[k];
            assert(dropped == o[k - 1]);
            assert forall|a: int| 0 <= a < r.len() implies 0 <= #[trigger] r[a] < i + 1 by {
                assert(r[a] == full[a]);
            }
            assert forall|a: int, b: int| 0 <= a < b < r.len() implies before(
                keys,
                #[trigger] r[a] as int,
                #[trigger] r[b] as int,
            ) by {
                assert(r[a] == full[a] && r[b] == full[b]);
            }
            assert forall|a: int, x: int|
                0 <= a < r.len() && 0 <= x < i + 1 && !r.contains(x as usize) implies #[trigger] before(
                keys,
                r[a] as int,
                x,
            ) by {
                assert(r[a] == full[a]);
                assert(before(keys, full[a] as int, full[k] as int));
                if x != dropped as int {
                    if x == i {
                        assert(r[p] == iu);
                    }
                    if o.contains(x as usize) {
                        let q = choose|q: int| 0 <= q < o.len() && o[q] == x as usize;
                        if q < p {
                            assert(r[q] == full[q]);
                            assert(full[q] == o[q]);
                        } else {
                            assert(full[q + 1] == o[q]);
                            assert(q + 1 < k);
                            assert(r[q + 1] == full[q + 1]);
                        }
                    }
                    assert(before(keys, o[k - 1] as int, x));
                    lemma_before_trans(keys, full[a] as int, dropped as int, x);
                }
            }
            r
        } else {
            // the list was not full: it held every item so far
            assert(o.len() == i);
            assert forall|x: int| 0 <= x < i + 1 implies #[trigger] full.contains(x as usize) by {
                if x == i {
                    assert(full[p] == iu);
                } else {
                    assert(o.contains(x as usize));
                    let q = choose|q: int| 0 <= q < o.len() && o[q] == x as usize;
                    if q < p {
                        assert(full[q] == o[q]);
                    } else {
                        assert(full[q + 1] == o[q]);
                    }
                }
            }
            full
        }
    } else {
        // the list is full and every listed item comes before item i
        assert(o.len() == k);
        assert forall|a: int, x: int|
            0 <= a < o.len() && 0 <= x < i + 1 && !o.contains(x as usize) implies #[trigger] before(
            keys,
            o[a] as int,
            x,
        ) by {
            if x == i {
                assert(before(keys, o[a] as int, i));
            }
        }
        o
    }
}

/// The newest-first order lists every item once, the keys do not increase
/// along it, and items with equal keys keep their order.
pub proof fn law_newest_first(keys: Seq<KeyView>)
    requires
        keys.len() <= usize::MAX,
    ensures
        newest_first(keys).len() == keys.len(),
        forall|a: int| 0 <= a < keys.len() ==> #[trigger] newest_first(keys)[a] < keys.len(),
        forall|a: int, b: int|
            0 <= a < b < keys.len() ==> #[trigger] newest_first(keys)[a] != #[trigger] newest_first(
                keys,
            )[b],
        forall|a: int, b: int|
            0 <= a < b < keys.len() ==> #[trigger] key_order(
                keys[newest_first(keys)[a] as int],
                keys[newest_first(keys)[b] as int],
            ) >= 0,
        forall|a: int, b: int|
            0 <= a < b < keys.len() && #[trigger] key_order(
                keys[newest_first(keys)[a] as int],
                keys[newest_first(keys)[b] as int],
            ) == 0 ==> newest_first(keys)[a] < newest_first(keys)[b],
{
    let n = keys.len() as int;
    lemma_top_exists(keys, n, n);
    let o = newest_first(keys);
    assert(is_top(keys, n, n, o));
    lemma_top_all_distinct(keys, n, o);
    assert forall|a: int, b: int| 0 <= a < b < keys.len() implies #[trigger] key_order(
        keys[o[a] as int],
        keys[o[b] as int],
    ) >= 0 by {
        assert(before(keys, o[a] as int, o[b] as int));
    }
}

} // verus!
