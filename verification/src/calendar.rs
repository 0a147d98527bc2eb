//! The calendar expander: turns a strictly descending list of sessions into
//! a gap-filled sequence with one entry per calendar date, from the newest
//! session's date down to the oldest's, tagging each date as `Registered`
//! (a session happened) or `Unregistered` (no activity).

use vstd::prelude::*;

use crate::date::Date;
use crate::day::Day;

verus! {

/// One entry of the gap-filled calendar sequence.
#[derive(Clone, Copy, Debug, PartialEq, Eq, Structural)]
pub enum DayOrDate {
    Registered(Day),
    Unregistered(Date),
}

impl DayOrDate {
    /// The calendar date this entry stands for, as a day number.
    pub open spec fn spec_date_num(self) -> int {
        match self {
            DayOrDate::Registered(day) => day.date.num as int,
            DayOrDate::Unregistered(date) => date.num as int,
        }
    }

    /// The calendar date this entry stands for.
    pub fn date(&self) -> (r: Date)
        ensures
            r.num == self.spec_date_num(),
    {
        match self {
            DayOrDate::Registered(day) => day.date,
            DayOrDate::Unregistered(date) => *date,
        }
    }

    pub fn is_registered(&self) -> (r: bool)
        ensures
            r == (self is Registered),
    {
        match self {
            DayOrDate::Registered(_) => true,
            DayOrDate::Unregistered(_) => false,
        }
    }
}

/// Session dates strictly decrease along the list: newest first, one session
/// per calendar date.
pub open spec fn strictly_descending(days: Seq<Day>) -> bool {
    forall|i: int, j: int|
        0 <= i < j < days.len() ==> days[i].date.num > days[j].date.num
}

pub open spec fn all_wf(days: Seq<Day>) -> bool {
    forall|i: int| 0 <= i < days.len() ==> (#[trigger] days[i]).wf()
}

/// The session in `days` whose date is day number `num`, if any.
pub open spec fn find_day(days: Seq<Day>, num: int) -> Option<Day>
    decreases days.len(),
{
    if days.len() == 0 {
        None
    } else if days[0].date.num == num {
        Some(days[0])
    } else {
        find_day(days.drop_first(), num)
    }
}

/// The gap-filled entry for day number `num`.
pub open spec fn expansion_entry(days: Seq<Day>, num: int) -> DayOrDate
    recommends
        num >= 0,
{
    match find_day(days, num) {
        Some(day) => DayOrDate::Registered(day),
        None => DayOrDate::Unregistered(Date { num: num as u64 }),
    }
}

/// The gap-filled calendar sequence of a session list: one entry per date,
/// from the newest session's date down to the oldest's, inclusive.
pub open spec fn expansion(days: Seq<Day>) -> Seq<DayOrDate>
    recommends
        days.len() > 0,
        strictly_descending(days),
{
    Seq::new(
        (days[0].date.num - days[days.len() - 1].date.num + 1) as nat,
        |i: int| expansion_entry(days, days[0].date.num - i),
    )
}

/// The sessions of the `Registered` entries of a sequence, in order.
pub open spec fn registered_days(s: Seq<DayOrDate>) -> Seq<Day>
    decreases s.len(),
{
    if s.len() == 0 {
        Seq::empty()
    } else {
        match s[0] {
            DayOrDate::Registered(day) => seq![day] + registered_days(s.drop_first()),
            DayOrDate::Unregistered(_) => registered_days(s.drop_first()),
        }
    }
}

proof fn lemma_find_day_some(days: Seq<Day>, num: int)
    requires
        find_day(days, num) is Some,
    ensures
        find_day(days, num)->Some_0.date.num == num,
        days.contains(find_day(days, num)->Some_0),
    decreases days.len(),
{
    if days.len() > 0 && days[0].date.num != num {
        lemma_find_day_some(days.drop_first(), num);
        assert(days.drop_first().contains(find_day(days, num)->Some_0));
        let i = choose|i: int|
            0 <= i < days.drop_first().len() && days.drop_first()[i] == find_day(days, num)->Some_0;
        assert(days[i + 1] == find_day(days, num)->Some_0);
    }
}

proof fn lemma_find_day_none(days: Seq<Day>, num: int)
    requires
        forall|k: int| 0 <= k < days.len() ==> days[k].date.num != num,
    ensures
        find_day(days, num) is None,
    decreases days.len(),
{
    if days.len() > 0 {
        assert(forall|k: int|
            0 <= k < days.drop_first().len() ==> days.drop_first()[k] == days[k + 1]);
        lemma_find_day_none(days.drop_first(), num);
    }
}

proof fn lemma_find_day_hit(days: Seq<Day>, k: int)
    requires
        strictly_descending(days),
        0 <= k < days.len(),
    ensures
        find_day(days, days[k].date.num as int) == Some(days[k]),
    decreases days.len(),
{
    if k > 0 {
        assert(days[0].date.num > days[k].date.num);
        assert(strictly_descending(days.drop_first())) by {
            assert(forall|i: int, j: int|
                0 <= i < j < days.drop_first().len() ==> days.drop_first()[i].date.num
                    > days.drop_first()[j].date.num) by {
                assert(forall|i: int|
                    0 <= i < days.drop_first().len() ==> days.drop_first()[i] == days[i + 1]);
            }
        }
        assert(days.drop_first()[k - 1] == days[k]);
        lemma_find_day_hit(days.drop_first(), k - 1);
    }
}

/// Expand a non-empty, strictly descending session list into the gap-filled
/// calendar sequence, newest date first.
#[verifier::loop_isolation(false)]
pub fn expand(days: &Vec<Day>) -> (r: Vec<DayOrDate>)
    requires
        days@.len() > 0,
        strictly_descending(days@),
    ensures
        r@ == expansion(days@),
{
    let ghost exp = expansion(days@);
    let newest: u64 = days[0].date.num;
    let mut out: Vec<DayOrDate> = Vec::new();
    let mut idx: usize = 0;
    while idx < days.len()
        invariant
            idx <= days@.len(),
            idx < days@.len() ==> out@.len() == newest - days@[idx as int].date.num,
            idx == days@.len() ==> out@.len() == exp.len(),
            out@ =~= exp.take(out@.len() as int),
        decreases days@.len() - idx,
    {
        proof {
            lemma_find_day_hit(days@, idx as int);
            assert(days@[idx as int].date.num >= days@[days@.len() - 1].date.num);
        }
        out.push(DayOrDate::Registered(days[idx]));
        proof {
            assert(out@ =~= exp.take(out@.len() as int));
        }
        if idx + 1 < days.len() {
            let next_num = days[idx + 1].date.num;
            let mut g: u64 = days[idx].date.num - 1;
            while g > next_num
                invariant
                    next_num <= g < days@[idx as int].date.num,
                    out@.len() == newest - g,
                    out@ =~= exp.take(out@.len() as int),
                decreases g,
            {
                proof {
                    assert forall|k: int| 0 <= k < days@.len() implies days@[k].date.num != g by {
                        if k < idx as int {
                            assert(days@[k].date.num > days@[idx as int].date.num);
                        } else if k > idx as int {
                            assert(k >= idx as int + 1);
                            if k > idx as int + 1 {
                                assert(days@[idx as int + 1].date.num > days@[k].date.num);
                            }
                        }
                    }
                    lemma_find_day_none(days@, g as int);
                    assert(days@[idx as int + 1].date.num >= days@[days@.len() - 1].date.num);
                }
                out.push(DayOrDate::Unregistered(Date { num: g }));
                proof {
                    assert(out@ =~= exp.take(out@.len() as int));
                }
                g = g - 1;
            }
        }
        idx = idx + 1;
    }
    proof {
        assert(out@ =~= exp);
    }
    out
}

/// Law: the expansion of a non-empty, strictly descending session list has
/// one entry per calendar date of the inclusive range from the newest down
/// to the oldest session date. Its length is the number of days in that
/// range, and the entry at index `i` carries the `i`-th date counting down
/// from the newest, so every date of the range appears exactly once.
pub proof fn lemma_expansion_covers_range(days: Seq<Day>)
    requires
        days.len() > 0,
        strictly_descending(days),
    ensures
        expansion(days).len() == days[0].date.num - days[days.len() - 1].date.num + 1,
        forall|i: int|
            0 <= i < expansion(days).len() ==> (#[trigger] expansion(days)[i]).spec_date_num()
                == days[0].date.num - i,
{
    let exp = expansion(days);
    assert forall|i: int| 0 <= i < exp.len() implies (#[trigger] exp[i]).spec_date_num() == days[0].date.num
        - i by {
        let num = days[0].date.num - i;
        if find_day(days, num) is Some {
            lemma_find_day_some(days, num);
        }
    }
}

/// Law: every input session appears in the expansion as `Registered` at its
/// own date, every `Registered` entry of the expansion is an input session,
/// and every date carrying an `Unregistered` entry belongs to no input
/// session.
pub proof fn lemma_expansion_registers_input(days: Seq<Day>)
    requires
        days.len() > 0,
        strictly_descending(days),
    ensures
        forall|k: int|
            0 <= k < days.len() ==> expansion(days)[days[0].date.num - days[k].date.num]
                == DayOrDate::Registered(days[k]),
        forall|i: int|
            0 <= i < expansion(days).len() && (#[trigger] expansion(days)[i]) is Registered
                ==> days.contains(expansion(days)[i]->Registered_0),
        forall|i: int|
            0 <= i < expansion(days).len() && (#[trigger] expansion(days)[i]) is Unregistered
                ==> forall|k: int|
                0 <= k < days.len() ==> days[k].date.num != expansion(days)[i].spec_date_num(),
{
    let exp = expansion(days);
    assert forall|i: int|
        0 <= i < exp.len() && (#[trigger] exp[i]) is Registered implies days.contains(
        exp[i]->Registered_0,
    ) by {
        let num = days[0].date.num - i;
        lemma_find_day_some(days, num);
    }
    assert forall|k: int| 0 <= k < days.len() implies exp[days[0].date.num - days[k].date.num]
        == DayOrDate::Registered(days[k]) by {
        assert(days[k].date.num >= days[days.len() - 1].date.num);
        lemma_find_day_hit(days, k);
    }
    assert forall|i: int|
        0 <= i < exp.len() && (#[trigger] exp[i]) is Unregistered implies forall|k: int|
        0 <= k < days.len() ==> days[k].date.num != exp[i].spec_date_num() by {
        let num = days[0].date.num - i;
        assert forall|k: int| 0 <= k < days.len() implies days[k].date.num != num by {
            if days[k].date.num == num {
                lemma_find_day_hit(days, k);
            }
        }
    }
}

proof fn lemma_registered_days_all_unregistered(s: Seq<DayOrDate>)
    requires
        forall|i: int| 0 <= i < s.len() ==> !((#[trigger] s[i]) is Registered),
    ensures
        registered_days(s) == Seq::<Day>::empty(),
    decreases s.len(),
{
    if s.len() > 0 {
        assert(forall|i: int| 0 <= i < s.drop_first().len() ==> s.drop_first()[i] == s[i + 1]);
        lemma_registered_days_all_unregistered(s.drop_first());
    }
}

proof fn lemma_registered_days_add(a: Seq<DayOrDate>, b: Seq<DayOrDate>)
    ensures
        registered_days(a + b) == registered_days(a) + registered_days(b),
    decreases a.len(),
{
    if a.len() == 0 {
        assert(a + b =~= b);
        assert(registered_days(a) + registered_days(b) =~= registered_days(b));
    } else {
        assert((a + b).drop_first() =~= a.drop_first() + b);
        lemma_registered_days_add(a.drop_first(), b);
        match a[0] {
            DayOrDate::Registered(day) => {
                assert(seq![day] + (registered_days(a.drop_first()) + registered_days(b)) =~= (
                seq![day] + registered_days(a.drop_first())) + registered_days(b));
            },
            DayOrDate::Unregistered(_) => {},
        }
    }
}

/// The expansion of a list splits into the head's entry, the gap entries
/// down to the second session's date, and the expansion of the tail.
proof fn lemma_expansion_decompose(days: Seq<Day>)
    requires
        days.len() > 1,
        strictly_descending(days),
    ensures
        expansion(days) == seq![DayOrDate::Registered(days[0])] + Seq::new(
            (days[0].date.num - days[1].date.num - 1) as nat,
            |i: int| DayOrDate::Unregistered(Date { num: (days[0].date.num - 1 - i) as u64 }),
        ) + expansion(days.drop_first()),
{
    let rest = days.drop_first();
    assert(forall|i: int| 0 <= i < rest.len() ==> rest[i] == days[i + 1]);
    assert(strictly_descending(rest));
    let gap = (days[0].date.num - days[1].date.num - 1) as nat;
    let gaps = Seq::new(
        gap,
        |i: int| DayOrDate::Unregistered(Date { num: (days[0].date.num - 1 - i) as u64 }),
    );
    let lhs = expansion(days);
    let rhs = seq![DayOrDate::Registered(days[0])] + gaps + expansion(rest);
    assert(days[days.len() - 1].date.num == rest[rest.len() - 1].date.num);
    assert(lhs.len() == rhs.len());
    assert forall|i: int| 0 <= i < lhs.len() implies lhs[i] == rhs[i] by {
        let num = days[0].date.num - i;
        if i == 0 {
            lemma_find_day_hit(days, 0);
        } else if i <= gap {
            assert forall|k: int| 0 <= k < days.len() implies days[k].date.num != num by {
                if k == 0 {
                } else {
                    assert(days[k].date.num <= days[1].date.num);
                }
            }
            lemma_find_day_none(days, num);
            assert(rhs[i] == gaps[i - 1]);
        } else {
            // The head cannot match, so the lookup proceeds in the tail.
            assert(num <= days[1].date.num < days[0].date.num);
            assert(find_day(days, num) == find_day(rest, num));
            assert(rhs[i] == expansion(rest)[i - 1 - gap]);
            assert(expansion(rest)[i - 1 - gap] == expansion_entry(rest, num));
        }
    }
    assert(lhs =~= rhs);
}

/// Law: the `Registered` entries of an expansion, read in order, are exactly
/// the input sessions. Re-expanding that registered-only subsequence
/// therefore reproduces the expansion unchanged (the expander is idempotent).
pub proof fn lemma_expansion_idempotent(days: Seq<Day>)
    requires
        days.len() > 0,
        strictly_descending(days),
    ensures
        registered_days(expansion(days)) == days,
        expansion(registered_days(expansion(days))) == expansion(days),
    decreases days.len(),
{
    if days.len() == 1 {
        lemma_find_day_hit(days, 0);
        let s = seq![DayOrDate::Registered(days[0])];
        assert(expansion(days) =~= s);
        assert(s.drop_first() =~= Seq::<DayOrDate>::empty());
        assert(registered_days(Seq::<DayOrDate>::empty()) =~= Seq::<Day>::empty());
        assert(registered_days(s) =~= days);
    } else {
        let rest = days.drop_first();
        assert(forall|i: int| 0 <= i < rest.len() ==> rest[i] == days[i + 1]);
        assert(strictly_descending(rest));
        lemma_expansion_decompose(days);
        let gaps = Seq::new(
            (days[0].date.num - days[1].date.num - 1) as nat,
            |i: int| DayOrDate::Unregistered(Date { num: (days[0].date.num - 1 - i) as u64 }),
        );
        let head = seq![DayOrDate::Registered(days[0])];
        lemma_registered_days_add(head + gaps, expansion(rest));
        lemma_registered_days_add(head, gaps);
        lemma_registered_days_all_unregistered(gaps);
        assert(head.drop_first() =~= Seq::<DayOrDate>::empty());
        assert(registered_days(Seq::<DayOrDate>::empty()) =~= Seq::<Day>::empty());
        assert(registered_days(head) =~= seq![days[0]]);
        lemma_expansion_idempotent(rest);
        assert(days =~= seq![days[0]] + rest);
        assert(registered_days(expansion(days)) =~= days);
    }
}

} // verus!
