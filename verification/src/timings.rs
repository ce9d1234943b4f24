//! How long tasks took, and in what order they started.
use vstd::prelude::*;

verus! {

/// A place in the source code.
#[derive(Debug)]
pub struct SerializedLocation {
    pub file: String,
    pub line: u32,
    pub column: u32,
}

impl Clone for SerializedLocation {
    fn clone(&self) -> (r: Self)
        ensures
            r == *self,
    {
        SerializedLocation { file: self.file.clone(), line: self.line, column: self.column }
    }
}

/// When a task ran, in nanoseconds since startup, and for how long.
#[derive(Debug)]
pub struct SerializedTaskTiming {
    pub location: SerializedLocation,
    pub start: u128,
    pub duration: u128,
}

impl Clone for SerializedTaskTiming {
    fn clone(&self) -> (r: Self)
        ensures
            r == *self,
    {
        SerializedTaskTiming {
            location: self.location.clone(),
            start: self.start,
            duration: self.duration,
        }
    }
}

/// When the tasks of one thread ran.
#[derive(Debug)]
pub struct SerializedThreadTaskTimings {
    pub thread_name: Option<String>,
    pub thread_id: u64,
    pub timings: Vec<SerializedTaskTiming>,
}

/// Whether no timing starts before one that stands in front of it.
pub open spec fn is_sorted(s: Seq<SerializedTaskTiming>) -> bool {
    forall|i: int, j: int| 0 <= i <= j < s.len() ==> s[i].start <= s[j].start
}

/// The timings that start at `start`, in their order.
pub open spec fn starting_at(s: Seq<SerializedTaskTiming>, start: u128) -> Seq<
    SerializedTaskTiming,
>
    decreases s.len(),
{
    if s.len() == 0 {
        Seq::empty()
    } else if s.last().start == start {
        starting_at(s.drop_last(), start).push(s.last())
    } else {
        starting_at(s.drop_last(), start)
    }
}

/// Whether `sorted` is `s` by start, with equal starts in the order of `s`.
pub open spec fn is_stable_sort(
    s: Seq<SerializedTaskTiming>,
    sorted: Seq<SerializedTaskTiming>,
) -> bool {
    &&& is_sorted(sorted)
    &&& forall|start: u128| #[trigger] starting_at(sorted, start) == starting_at(s, start)
}

/// `s` with `timing` behind all that do not start after it.
pub open spec fn inserted(
    s: Seq<SerializedTaskTiming>,
    timing: SerializedTaskTiming,
) -> Seq<SerializedTaskTiming>
    decreases s.len(),
{
    if s.len() == 0 || s.last().start <= timing.start {
        s.push(timing)
    } else {
        inserted(s.drop_last(), timing).push(s.last())
    }
}

/// `s` by start, with equal starts in the order of `s`.
pub open spec fn by_start(s: Seq<SerializedTaskTiming>) -> Seq<SerializedTaskTiming>
    decreases s.len(),
{
    if s.len() == 0 {
        s
    } else {
        inserted(by_start(s.drop_last()), s.last())
    }
}

proof fn lemma_starting_at_push(
    s: Seq<SerializedTaskTiming>,
    timing: SerializedTaskTiming,
    start: u128,
)
    ensures
        starting_at(s.push(timing), start) == if timing.start == start {
            starting_at(s, start).push(timing)
        } else {
            starting_at(s, start)
        },
{
    assert(s.push(timing).drop_last() =~= s);
}

proof fn lemma_starting_at_add(
    a: Seq<SerializedTaskTiming>,
    b: Seq<SerializedTaskTiming>,
    start: u128,
)
    ensures
        starting_at(a + b, start) == starting_at(a, start) + starting_at(b, start),
    decreases b.len(),
{
    if b.len() == 0 {
        assert(a + b =~= a);
        assert(starting_at(a, start) + starting_at(b, start) =~= starting_at(a, start));
    } else {
        assert((a + b).drop_last() =~= a + b.drop_last());
        lemma_starting_at_add(a, b.drop_last(), start);
        assert(starting_at(a + b, start) =~= starting_at(a, start) + starting_at(b, start));
    }
}

proof fn lemma_starting_at_none(s: Seq<SerializedTaskTiming>, start: u128)
    requires
        forall|i: int| 0 <= i < s.len() ==> s[i].start != start,
    ensures
        starting_at(s, start) == Seq::<SerializedTaskTiming>::empty(),
    decreases s.len(),
{
    if s.len() > 0 {
        lemma_starting_at_none(s.drop_last(), start);
    }
}

proof fn lemma_starting_at_last(s: Seq<SerializedTaskTiming>)
    requires
        s.len() > 0,
    ensures
        starting_at(s, s.last().start).len() > 0,
        starting_at(s, s.last().start).last() == s.last(),
        starting_at(s, s.last().start).drop_last() == starting_at(s.drop_last(), s.last().start),
{
    let before = starting_at(s.drop_last(), s.last().start);
    assert(starting_at(s, s.last().start) == before.push(s.last()));
    assert(before.push(s.last()).drop_last() =~= before);
}

proof fn lemma_inserted(s: Seq<SerializedTaskTiming>, timing: SerializedTaskTiming)
    requires
        is_sorted(s),
    ensures
        is_sorted(inserted(s, timing)),
        inserted(s, timing).len() == s.len() + 1,
        forall|i: int|
            0 <= i < s.len() + 1 ==> {
                ||| (#[trigger] inserted(s, timing)[i]).start <= timing.start
                ||| s.len() > 0 && inserted(s, timing)[i].start <= s.last().start
            },
        forall|start: u128| #[trigger]
            starting_at(inserted(s, timing), start) == starting_at(s.push(timing), start),
    decreases s.len(),
{
    if s.len() > 0 && s.last().start > timing.start {
        let rest = s.drop_last();
        lemma_inserted(rest, timing);
        assert forall|start: u128| #[trigger]
            starting_at(inserted(s, timing), start) == starting_at(s.push(timing), start) by {
            lemma_starting_at_push(inserted(rest, timing), s.last(), start);
            lemma_starting_at_push(rest, timing, start);
            lemma_starting_at_push(s, timing, start);
        }
    }
}

/// Sorting by start gives timings by start, with equal starts in their order.
pub proof fn law_by_start_is_stable_sort(s: Seq<SerializedTaskTiming>)
    ensures
        is_stable_sort(s, by_start(s)),
    decreases s.len(),
{
    if s.len() > 0 {
        let rest = s.drop_last();
        law_by_start_is_stable_sort(rest);
        lemma_inserted(by_start(rest), s.last());
        assert forall|start: u128| #[trigger]
            starting_at(by_start(s), start) == starting_at(s, start) by {
            lemma_starting_at_push(by_start(rest), s.last(), start);
            assert(starting_at(by_start(rest), start) == starting_at(rest, start));
        }
    }
}

/// There is one way to sort timings by start and keep the order of equal starts.
pub proof fn law_stable_sort_is_unique(
    s: Seq<SerializedTaskTiming>,
    sorted: Seq<SerializedTaskTiming>,
)
    requires
        is_stable_sort(s, sorted),
    ensures
        sorted == by_start(s),
{
    law_by_start_is_stable_sort(s);
    assert forall|start: u128| #[trigger]
        starting_at(sorted, start) == starting_at(by_start(s), start) by {
        assert(starting_at(sorted, start) == starting_at(s, start));
    }
    lemma_same_starts(sorted, by_start(s));
}

proof fn lemma_same_starts(a: Seq<SerializedTaskTiming>, b: Seq<SerializedTaskTiming>)
    requires
        is_sorted(a),
        is_sorted(b),
        forall|start: u128| #[trigger] starting_at(a, start) == starting_at(b, start),
    ensures
        a == b,
    decreases a.len(),
{
    if a.len() == 0 {
        if b.len() > 0 {
            let start = b.last().start;
            lemma_starting_at_none(a, start);
            lemma_starting_at_last(b);
            assert(starting_at(a, start) == starting_at(b, start));
            assert(false);
        }
        assert(a =~= b);
    } else {
        let last = a.last();
        lemma_starting_at_last(a);
        assert(starting_at(a, last.start) == starting_at(b, last.start));
        if b.len() == 0 {
            lemma_starting_at_none(b, last.start);
            assert(false);
        }
        lemma_starting_at_last(b);
        if b.last().start < last.start {
            lemma_starting_at_none(b, last.start);
            assert(false);
        }
        assert(starting_at(a, b.last().start) == starting_at(b, b.last().start));
        if last.start < b.last().start {
            lemma_starting_at_none(a, b.last().start);
            assert(false);
        }
        assert(b.last().start == last.start);
        assert(last == starting_at(a, last.start).last());
        assert(b.last() == starting_at(b, last.start).last());
        assert(last == b.last());
        assert forall|start: u128| #[trigger]
            starting_at(a.drop_last(), start) == starting_at(b.drop_last(), start) by {
            assert(starting_at(a, start) == starting_at(b, start));
            if start == last.start {
                assert(starting_at(a.drop_last(), start) == starting_at(a, start).drop_last());
                assert(starting_at(b.drop_last(), start) == starting_at(b, start).drop_last());
            } else {
                assert(starting_at(a.drop_last(), start) == starting_at(a, start));
                assert(starting_at(b.drop_last(), start) == starting_at(b, start));
            }
        }
        lemma_same_starts(a.drop_last(), b.drop_last());
        assert(a =~= a.drop_last().push(last));
        assert(b =~= b.drop_last().push(last));
    }
}

/// Sorting by start neither loses a timing nor adds one.
pub proof fn law_by_start_keeps_timings(s: Seq<SerializedTaskTiming>)
    ensures
        by_start(s).to_multiset() == s.to_multiset(),
        by_start(s).len() == s.len(),
    decreases s.len(),
{
    if s.len() > 0 {
        let rest = s.drop_last();
        law_by_start_keeps_timings(rest);
        lemma_inserted_multiset(by_start(rest), s.last());
        assert(s =~= rest.push(s.last()));
        vstd::seq_lib::to_multiset_build(rest, s.last());
    }
    vstd::seq_lib::to_multiset_len(s);
    vstd::seq_lib::to_multiset_len(by_start(s));
}

proof fn lemma_inserted_multiset(s: Seq<SerializedTaskTiming>, timing: SerializedTaskTiming)
    ensures
        inserted(s, timing).to_multiset() == s.to_multiset().insert(timing),
    decreases s.len(),
{
    if s.len() == 0 || s.last().start <= timing.start {
        vstd::seq_lib::to_multiset_build(s, timing);
    } else {
        let rest = s.drop_last();
        lemma_inserted_multiset(rest, timing);
        vstd::seq_lib::to_multiset_build(inserted(rest, timing), s.last());
        vstd::seq_lib::to_multiset_build(rest, s.last());
        assert(s =~= rest.push(s.last()));
        assert(inserted(s, timing).to_multiset() =~= s.to_multiset().insert(timing));
    }
}

/// The timings that references lead to.
pub open spec fn targets(refs: Seq<&SerializedTaskTiming>) -> Seq<SerializedTaskTiming> {
    Seq::new(refs.len(), |i: int| *refs[i])
}

/// Whether nothing in `s` starts after what stands in `t` from position `from` on.
spec fn starts_before(
    s: Seq<SerializedTaskTiming>,
    t: Seq<SerializedTaskTiming>,
    from: int,
) -> bool {
    forall|p: int, q: int|
        0 <= p < s.len() && from <= q < t.len() ==> #[trigger] s[p].start <= #[trigger] t[q].start
}

proof fn lemma_starts_before_push(
    s: Seq<SerializedTaskTiming>,
    x: SerializedTaskTiming,
    t: Seq<SerializedTaskTiming>,
    from: int,
    next: int,
)
    requires
        starts_before(s, t, from),
        from <= next,
        forall|q: int| next <= q < t.len() ==> x.start <= #[trigger] t[q].start,
    ensures
        starts_before(s.push(x), t, next),
{
    assert forall|p: int, q: int| 0 <= p < s.push(x).len() && next <= q < t.len() implies
        #[trigger] s.push(x)[p].start <= #[trigger] t[q].start by {
        if p < s.len() {
            assert(s.push(x)[p] == s[p]);
        } else {
            assert(s.push(x)[p] == x);
        }
    }
}

proof fn lemma_sorted_push(
    s: Seq<SerializedTaskTiming>,
    t: Seq<SerializedTaskTiming>,
    from: int,
)
    requires
        is_sorted(s),
        starts_before(s, t, from),
        0 <= from < t.len(),
    ensures
        is_sorted(s.push(t[from])),
{
    let pushed = s.push(t[from]);
    assert forall|p: int, q: int| 0 <= p <= q < pushed.len() implies pushed[p].start
        <= pushed[q].start by {
        if q < s.len() {
            assert(s[p].start <= s[q].start);
        } else if p < s.len() {
            assert(pushed[p] == s[p]);
            assert(s[p].start <= t[from].start);
        }
    }
}

fn merge<'a>(
    a: &Vec<&'a SerializedTaskTiming>,
    b: &Vec<&'a SerializedTaskTiming>,
) -> (r: Vec<&'a SerializedTaskTiming>)
    requires
        is_sorted(targets(a@)),
        is_sorted(targets(b@)),
    ensures
        is_stable_sort(targets(a@) + targets(b@), targets(r@)),
{
    let ghost ta = targets(a@);
    let ghost tb = targets(b@);
    let mut r: Vec<&'a SerializedTaskTiming> = Vec::new();
    let mut i: usize = 0;
    let mut j: usize = 0;
    proof {
        assert(ta.take(0) =~= Seq::<SerializedTaskTiming>::empty());
        assert(tb.take(0) =~= Seq::<SerializedTaskTiming>::empty());
        assert(targets(r@) =~= Seq::<SerializedTaskTiming>::empty());
        assert(Seq::<SerializedTaskTiming>::empty() + Seq::<SerializedTaskTiming>::empty()
            =~= Seq::<SerializedTaskTiming>::empty());
    }
    while i < a.len() || j < b.len()
        invariant
            ta == targets(a@),
            tb == targets(b@),
            is_sorted(ta),
            is_sorted(tb),
            i <= a.len(),
            j <= b.len(),
            is_sorted(targets(r@)),
            starts_before(targets(r@), ta, i as int),
            starts_before(targets(r@), tb, j as int),
            forall|p: int, q: int|
                0 <= p < j && i <= q < ta.len() ==> #[trigger] tb[p].start
                    < #[trigger] ta[q].start,
            forall|start: u128| #[trigger]
                starting_at(targets(r@), start) == starting_at(ta.take(i as int), start)
                    + starting_at(tb.take(j as int), start),
        decreases a.len() - i + b.len() - j,
    {
        let ghost before = targets(r@);
        let from_a = if i < a.len() {
            if j < b.len() {
                a[i].start <= b[j].start
            } else {
                true
            }
        } else {
            false
        };
        if from_a {
            proof {
                let x = ta[i as int];
                assert forall|q: int| i + 1 <= q < ta.len() implies x.start
                    <= #[trigger] ta[q].start by {
                    assert(ta[i as int].start <= ta[q].start);
                }
                assert forall|q: int| j <= q < tb.len() implies x.start
                    <= #[trigger] tb[q].start by {
                    assert(x.start <= tb[j as int].start);
                    assert(tb[j as int].start <= tb[q].start);
                }
                lemma_sorted_push(before, ta, i as int);
                lemma_starts_before_push(before, x, ta, i as int, i + 1);
                lemma_starts_before_push(before, x, tb, j as int, j as int);
            }
            r.push(a[i]);
            proof {
                let x = ta[i as int];
                assert(targets(r@) =~= before.push(x));
                assert(ta.take(i + 1) =~= ta.take(i as int).push(x));
                assert forall|start: u128| #[trigger]
                    starting_at(targets(r@), start) == starting_at(ta.take(i + 1), start)
                        + starting_at(tb.take(j as int), start) by {
                    lemma_starting_at_push(before, x, start);
                    lemma_starting_at_push(ta.take(i as int), x, start);
                    assert(starting_at(before, start) == starting_at(ta.take(i as int), start)
                        + starting_at(tb.take(j as int), start));
                    if start == x.start {
                        assert forall|p: int| 0 <= p < tb.take(j as int).len() implies tb.take(
                            j as int,
                        )[p].start != start by {
                            assert(tb[p].start < ta[i as int].start);
                        }
                        lemma_starting_at_none(tb.take(j as int), start);
                        assert(starting_at(targets(r@), start) =~= starting_at(
                            ta.take(i + 1),
                            start,
                        ) + starting_at(tb.take(j as int), start));
                    }
                }
            }
            i = i + 1;
        } else {
            proof {
                let x = tb[j as int];
                assert forall|q: int| i <= q < ta.len() implies x.start
                    < #[trigger] ta[q].start by {
                    assert(x.start < ta[i as int].start);
                    assert(ta[i as int].start <= ta[q].start);
                }
                assert forall|q: int| j + 1 <= q < tb.len() implies x.start
                    <= #[trigger] tb[q].start by {
                    assert(tb[j as int].start <= tb[q].start);
                }
                lemma_sorted_push(before, tb, j as int);
                lemma_starts_before_push(before, x, ta, i as int, i as int);
                lemma_starts_before_push(before, x, tb, j as int, j + 1);
            }
            r.push(b[j]);
            proof {
                let x = tb[j as int];
                assert(targets(r@) =~= before.push(x));
                assert(tb.take(j + 1) =~= tb.take(j as int).push(x));
                assert forall|start: u128| #[trigger]
                    starting_at(targets(r@), start) == starting_at(ta.take(i as int), start)
                        + starting_at(tb.take(j + 1), start) by {
                    lemma_starting_at_push(before, x, start);
                    lemma_starting_at_push(tb.take(j as int), x, start);
                    assert(starting_at(before, start) == starting_at(ta.take(i as int), start)
                        + starting_at(tb.take(j as int), start));
                    if start == x.start {
                        assert(starting_at(targets(r@), start) =~= starting_at(
                            ta.take(i as int),
                            start,
                        ) + starting_at(tb.take(j + 1), start));
                    }
                }
            }
            j = j + 1;
        }
    }
    proof {
        assert(ta.take(ta.len() as int) =~= ta);
        assert(tb.take(tb.len() as int) =~= tb);
        assert forall|start: u128| #[trigger]
            starting_at(targets(r@), start) == starting_at(ta + tb, start) by {
            lemma_starting_at_add(ta, tb, start);
        }
    }
    r
}

/// Sorts the references from `low` to `high` by the start of what they lead to.
fn sort_range<'a>(v: &Vec<&'a SerializedTaskTiming>, low: usize, high: usize) -> (r: Vec<
    &'a SerializedTaskTiming,
>)
    requires
        low <= high <= v@.len(),
    ensures
        is_stable_sort(targets(v@).subrange(low as int, high as int), targets(r@)),
    decreases high - low,
{
    if high - low <= 1 {
        let mut r: Vec<&'a SerializedTaskTiming> = Vec::new();
        if low < high {
            r.push(v[low]);
        }
        assert(targets(r@) =~= targets(v@).subrange(low as int, high as int));
        r
    } else {
        let middle: usize = low + (high - low) / 2;
        let a = sort_range(v, low, middle);
        let b = sort_range(v, middle, high);
        let r = merge(&a, &b);
        proof {
            let s = targets(v@).subrange(low as int, high as int);
            let sa = targets(v@).subrange(low as int, middle as int);
            let sb = targets(v@).subrange(middle as int, high as int);
            assert(s =~= sa + sb);
            assert forall|start: u128| #[trigger]
                starting_at(targets(r@), start) == starting_at(s, start) by {
                lemma_starting_at_add(targets(a@), targets(b@), start);
                lemma_starting_at_add(sa, sb, start);
                assert(starting_at(targets(a@), start) == starting_at(sa, start));
                assert(starting_at(targets(b@), start) == starting_at(sb, start));
            }
        }
        r
    }
}

/// Sorts timings by start and keeps the order of equal starts.
pub fn sort_by_start(v: &Vec<&SerializedTaskTiming>) -> (r: Vec<SerializedTaskTiming>)
    ensures
        r@ == by_start(targets(v@)),
{
    let sorted = sort_range(v, 0, v.len());
    let mut r: Vec<SerializedTaskTiming> = Vec::new();
    let mut i: usize = 0;
    while i < sorted.len()
        invariant
            i <= sorted.len(),
            r@ == targets(sorted@).take(i as int),
        decreases sorted.len() - i,
    {
        r.push(sorted[i].clone());
        assert(targets(sorted@).take(i + 1) =~= targets(sorted@).take(i as int).push(
            *sorted@[i as int],
        ));
        i = i + 1;
    }
    proof {
        assert(targets(sorted@).take(i as int) =~= targets(sorted@));
        assert(targets(v@).subrange(0, v@.len() as int) =~= targets(v@));
        law_stable_sort_is_unique(targets(v@), targets(sorted@));
    }
    r
}

} // verus!
