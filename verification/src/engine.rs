//! The diff engine: a greedy, single-pass, order-preserving classification
//! of the lines of two snapshots.

use vstd::prelude::*;
use crate::event::{DiffEvent, EventView, events_view, lines_view, new_side, old_side};
use crate::matcher::find_forward;

verus! {

/// Every line as an unchanged one.
pub open spec fn all_same(lines: Seq<Seq<char>>) -> Seq<EventView> {
    lines.map_values(|l: Seq<char>| EventView::Same(l))
}

/// Every line as an added one.
pub open spec fn all_added(lines: Seq<Seq<char>>) -> Seq<EventView> {
    lines.map_values(|l: Seq<char>| EventView::Add(l))
}

/// Every line as a removed one.
pub open spec fn all_removed(lines: Seq<Seq<char>>) -> Seq<EventView> {
    lines.map_values(|l: Seq<char>| EventView::Del(l))
}

/// The event list that explains how `old` became `new`.
///
/// When one side is used up, the rest of the other is added or removed as
/// a whole. Equal heads are unchanged. Otherwise, a head of `old` that
/// recurs later in `new` means the head of `new` was inserted; failing that,
/// a head of `new` that recurs later in `old` means the head of `old` was
/// removed; failing both, the two heads replace one another. Each step
/// consumes one line, so a run of insertions is found one line at a time.
pub open spec fn spec_diff(old: Seq<Seq<char>>, new: Seq<Seq<char>>) -> Seq<EventView>
    decreases old.len() + new.len(),
{
    if old.len() == 0 {
        all_added(new)
    } else if new.len() == 0 {
        all_removed(old)
    } else if old[0] == new[0] {
        seq![EventView::Same(old[0])] + spec_diff(old.drop_first(), new.drop_first())
    } else if new.contains(old[0]) {
        seq![EventView::Add(new[0])] + spec_diff(old, new.drop_first())
    } else if old.contains(new[0]) {
        seq![EventView::Del(old[0])] + spec_diff(old.drop_first(), new)
    } else {
        seq![EventView::Del(old[0]), EventView::Add(new[0])] + spec_diff(
            old.drop_first(),
            new.drop_first(),
        )
    }
}

/// Added lines belong to the newer side only.
pub proof fn lemma_sides_of_added(lines: Seq<Seq<char>>)
    ensures
        old_side(all_added(lines)) == Seq::<Seq<char>>::empty(),
        new_side(all_added(lines)) == lines,
    decreases lines.len(),
{
    if lines.len() > 0 {
        lemma_sides_of_added(lines.drop_first());
        assert(all_added(lines).drop_first() =~= all_added(lines.drop_first()));
        assert(seq![lines[0]] + lines.drop_first() =~= lines);
    } else {
        assert(lines =~= Seq::<Seq<char>>::empty());
    }
}

/// Removed lines belong to the older side only.
pub proof fn lemma_sides_of_removed(lines: Seq<Seq<char>>)
    ensures
        old_side(all_removed(lines)) == lines,
        new_side(all_removed(lines)) == Seq::<Seq<char>>::empty(),
    decreases lines.len(),
{
    if lines.len() > 0 {
        lemma_sides_of_removed(lines.drop_first());
        assert(all_removed(lines).drop_first() =~= all_removed(lines.drop_first()));
        assert(seq![lines[0]] + lines.drop_first() =~= lines);
    } else {
        assert(lines =~= Seq::<Seq<char>>::empty());
    }
}

/// Order preservation: the `Same` and `Del` lines of a diff are exactly the
/// older snapshot, and its `Same` and `Add` lines are exactly the newer one,
/// each in the order it had there.
pub proof fn lemma_diff_preserves_order(old: Seq<Seq<char>>, new: Seq<Seq<char>>)
    ensures
        old_side(spec_diff(old, new)) == old,
        new_side(spec_diff(old, new)) == new,
    decreases old.len() + new.len(),
{
    let d = spec_diff(old, new);
    if old.len() == 0 {
        lemma_sides_of_added(new);
        assert(old =~= Seq::<Seq<char>>::empty());
    } else if new.len() == 0 {
        lemma_sides_of_removed(old);
        assert(new =~= Seq::<Seq<char>>::empty());
    } else {
        assert(seq![old[0]] + old.drop_first() =~= old);
        assert(seq![new[0]] + new.drop_first() =~= new);
        if old[0] == new[0] {
            let rest = spec_diff(old.drop_first(), new.drop_first());
            lemma_diff_preserves_order(old.drop_first(), new.drop_first());
            assert(d.drop_first() =~= rest);
        } else if new.contains(old[0]) {
            let rest = spec_diff(old, new.drop_first());
            lemma_diff_preserves_order(old, new.drop_first());
            assert(d.drop_first() =~= rest);
        } else if old.contains(new[0]) {
            let rest = spec_diff(old.drop_first(), new);
            lemma_diff_preserves_order(old.drop_first(), new);
            assert(d.drop_first() =~= rest);
        } else {
            let rest = spec_diff(old.drop_first(), new.drop_first());
            lemma_diff_preserves_order(old.drop_first(), new.drop_first());
            let mid = seq![EventView::Add(new[0])] + rest;
            assert(d.drop_first() =~= mid);
            assert(mid.drop_first() =~= rest);
            assert(old_side(mid) == old_side(rest));
            assert(new_side(mid) == seq![new[0]] + new_side(rest));
            assert(old_side(d) == seq![old[0]] + old_side(mid));
            assert(new_side(d) == new_side(mid));
        }
    }
}

/// Identity: a snapshot compared with itself yields one `Same` event per
/// line, in order, and nothing else.
pub proof fn lemma_diff_identity(lines: Seq<Seq<char>>)
    ensures
        spec_diff(lines, lines) == all_same(lines),
    decreases lines.len(),
{
    if lines.len() > 0 {
        lemma_diff_identity(lines.drop_first());
        assert(seq![EventView::Same(lines[0])] + all_same(lines.drop_first()) =~= all_same(lines));
    } else {
        assert(all_added(lines) =~= all_same(lines));
    }
}

/// Pure append: when the newer snapshot is the older one with lines after
/// it, the older lines are unchanged and the others added.
pub proof fn lemma_diff_append(kept: Seq<Seq<char>>, more: Seq<Seq<char>>)
    ensures
        spec_diff(kept, kept + more) == all_same(kept) + all_added(more),
    decreases kept.len(),
{
    if kept.len() > 0 {
        lemma_diff_append(kept.drop_first(), more);
        assert((kept + more).drop_first() =~= kept.drop_first() + more);
        assert(seq![EventView::Same(kept[0])] + (all_same(kept.drop_first()) + all_added(more))
            =~= all_same(kept) + all_added(more));
    } else {
        assert(kept + more =~= more);
        assert(all_same(kept) + all_added(more) =~= all_added(more));
    }
}

/// Pure truncation: when the newer snapshot is the older one cut short, the
/// lines that stay are unchanged and the others removed.
pub proof fn lemma_diff_truncate(kept: Seq<Seq<char>>, gone: Seq<Seq<char>>)
    ensures
        spec_diff(kept + gone, kept) == all_same(kept) + all_removed(gone),
    decreases kept.len(),
{
    if kept.len() > 0 {
        lemma_diff_truncate(kept.drop_first(), gone);
        assert((kept + gone).drop_first() =~= kept.drop_first() + gone);
        assert(seq![EventView::Same(kept[0])] + (all_same(kept.drop_first()) + all_removed(gone))
            =~= all_same(kept) + all_removed(gone));
    } else {
        assert(kept + gone =~= gone);
        assert(all_same(kept) + all_removed(gone) =~= all_removed(gone));
        if gone.len() == 0 {
            assert(all_added(kept) =~= all_removed(gone));
        }
    }
}

/// Compares two snapshots and classifies every line of both.
///
/// The result is the event list [`spec_diff`] defines; it accounts for every
/// line of `old` and of `new` exactly once and in order, and equal snapshots
/// give unchanged lines only. Empty snapshots are ordinary inputs. A
/// trailing empty line is a line like any other: callers that do not want
/// it reported strip it before the call.
pub fn diff(old: &Vec<String>, new: &Vec<String>) -> (events: Vec<DiffEvent>)
    ensures
        events_view(events@) == spec_diff(lines_view(old@), lines_view(new@)),
        old_side(events_view(events@)) == lines_view(old@),
        new_side(events_view(events@)) == lines_view(new@),
        lines_view(old@) == lines_view(new@) ==> events_view(events@) == all_same(lines_view(old@)),
{
    let ghost ov = lines_view(old@);
    let ghost nv = lines_view(new@);
    let n: usize = old.len();
    let m: usize = new.len();
    let mut events: Vec<DiffEvent> = Vec::new();
    let mut i: usize = 0;
    let mut j: usize = 0;
    proof {
        assert(ov.subrange(0, n as int) =~= ov);
        assert(nv.subrange(0, m as int) =~= nv);
        assert(events_view(events@) =~= Seq::<EventView>::empty());
        assert(Seq::<EventView>::empty() + spec_diff(ov, nv) =~= spec_diff(ov, nv));
    }
    while i < n || j < m
        invariant
            n == old.len(),
            m == new.len(),
            ov == lines_view(old@),
            nv == lines_view(new@),
            i <= n,
            j <= m,
            events_view(events@) + spec_diff(ov.subrange(i as int, n as int), nv.subrange(j as int, m as int))
                == spec_diff(ov, nv),
        decreases (n - i) + (m - j),
    {
        let ghost pre = events_view(events@);
        let ghost a = ov.subrange(i as int, n as int);
        let ghost b = nv.subrange(j as int, m as int);
        let ghost a1 = ov.subrange(i as int + 1, n as int);
        let ghost b1 = nv.subrange(j as int + 1, m as int);
        if i >= n {
            proof {
                assert(b.drop_first() =~= b1);
                assert(all_added(b) =~= seq![EventView::Add(nv[j as int])] + all_added(b1));
                assert(pre.push(EventView::Add(nv[j as int])) + spec_diff(a, b1) =~= pre + spec_diff(a, b));
            }
            events.push(DiffEvent::Add(new[j].clone()));
            j += 1;
        } else if j >= m {
            proof {
                assert(a.drop_first() =~= a1);
                assert(all_removed(a) =~= seq![EventView::Del(ov[i as int])] + all_removed(a1));
                assert(all_added(b) =~= Seq::<EventView>::empty());
                assert(all_removed(a1) + all_added(b) =~= all_removed(a1));
                assert(spec_diff(a1, b) =~= all_removed(a1));
                assert(pre.push(EventView::Del(ov[i as int])) + spec_diff(a1, b) =~= pre + spec_diff(a, b));
            }
            events.push(DiffEvent::Del(old[i].clone()));
            i += 1;
        } else {
            proof {
                assert(a.drop_first() =~= a1);
                assert(b.drop_first() =~= b1);
                assert(a[0] == ov[i as int]);
                assert(b[0] == nv[j as int]);
            }
            if old[i] == new[j] {
                proof {
                    assert(pre.push(EventView::Same(ov[i as int])) + spec_diff(a1, b1) =~= pre + spec_diff(a, b));
                }
                events.push(DiffEvent::Same(old[i].clone()));
                i += 1;
                j += 1;
            } else {
                let in_new = find_forward(new, j, &old[i]);
                proof {
                    match in_new {
                        Some(k) => {
                            assert(b[k as int - j as int] == ov[i as int]);
                        },
                        None => {
                            assert forall|t: int| 0 <= t < b.len() implies b[t] != ov[i as int] by {
                                assert(b[t] == nv[t + j as int]);
                            }
                        },
                    }
                    assert(in_new.is_some() == b.contains(a[0]));
                }
                if in_new.is_some() {
                    proof {
                        assert(pre.push(EventView::Add(nv[j as int])) + spec_diff(a, b1) =~= pre + spec_diff(a, b));
                    }
                    events.push(DiffEvent::Add(new[j].clone()));
                    j += 1;
                } else {
                    let in_old = find_forward(old, i, &new[j]);
                    proof {
                        match in_old {
                            Some(k) => {
                                assert(a[k as int - i as int] == nv[j as int]);
                            },
                            None => {
                                assert forall|t: int| 0 <= t < a.len() implies a[t] != nv[j as int] by {
                                    assert(a[t] == ov[t + i as int]);
                                }
                            },
                        }
                        assert(in_old.is_some() == a.contains(b[0]));
                    }
                    if in_old.is_some() {
                        proof {
                            assert(pre.push(EventView::Del(ov[i as int])) + spec_diff(a1, b) =~= pre + spec_diff(a, b));
                        }
                        events.push(DiffEvent::Del(old[i].clone()));
                        i += 1;
                    } else {
                        proof {
                            assert(pre.push(EventView::Del(ov[i as int])).push(EventView::Add(nv[j as int]))
                                + spec_diff(a1, b1) =~= pre + spec_diff(a, b));
                        }
                        events.push(DiffEvent::Del(old[i].clone()));
                        events.push(DiffEvent::Add(new[j].clone()));
                        i += 1;
                        j += 1;
                    }
                }
            }
        }
    }
    proof {
        assert(ov.subrange(n as int, n as int) =~= Seq::<Seq<char>>::empty());
        assert(nv.subrange(m as int, m as int) =~= Seq::<Seq<char>>::empty());
        assert(all_added(Seq::<Seq<char>>::empty()) =~= Seq::<EventView>::empty());
        assert(events_view(events@) + Seq::<EventView>::empty() =~= events_view(events@));
        lemma_diff_preserves_order(ov, nv);
        if ov == nv {
            lemma_diff_identity(ov);
        }
    }
    events
}

} // verus!
