//! The holiday calendar: a read-only snapshot mapping calendar dates to
//! human-readable labels, consumed by the resolver to classify days.
//!
//! The calendar is viewed as a `Map` from day numbers to labels; a later
//! entry for the same date replaces the earlier label, as an insert into a
//! map does.

use vstd::prelude::*;
use crate::date::Date;
use crate::date::lemma_day_number_injective;

verus! {

pub struct HolidayEntry {
    pub date: Date,
    pub label: String,
}

/// A snapshot of the holiday calendar.
pub struct HolidayCalendar {
    entries: Vec<HolidayEntry>,
}

pub open spec fn holiday_map(entries: Seq<HolidayEntry>) -> Map<int, Seq<char>>
    decreases entries.len(),
{
    if entries.len() == 0 {
        Map::empty()
    } else {
        holiday_map(entries.drop_last()).insert(
            entries.last().date@,
            entries.last().label@,
        )
    }
}

impl View for HolidayCalendar {
    type V = Map<int, Seq<char>>;

    closed spec fn view(&self) -> Map<int, Seq<char>> {
        holiday_map(self.entries@)
    }
}

/// A day number is a key of the map exactly when some entry carries it.
proof fn lemma_holiday_map_dom(entries: Seq<HolidayEntry>, key: int)
    ensures
        holiday_map(entries).dom().contains(key) <==> exists|i: int|
            0 <= i < entries.len() && entries[i].date@ == key,
    decreases entries.len(),
{
    if entries.len() > 0 {
        lemma_holiday_map_dom(entries.drop_last(), key);
        if entries.last().date@ != key {
            if holiday_map(entries).dom().contains(key) {
                let i = choose|i: int|
                    0 <= i < entries.len() - 1 && entries.drop_last()[i].date@ == key;
                assert(entries[i].date@ == key);
            }
            if exists|i: int| 0 <= i < entries.len() && entries[i].date@ == key {
                let i = choose|i: int| 0 <= i < entries.len() && entries[i].date@ == key;
                assert(entries.drop_last()[i].date@ == key);
            }
        } else {
            assert(entries[entries.len() - 1].date@ == key);
        }
    }
}

impl HolidayCalendar {
    /// Every stored date is a well-formed calendar date.
    pub closed spec fn wf(self) -> bool {
        forall|i: int| 0 <= i < self.entries@.len() ==> (#[trigger] self.entries@[i].date).wf()
    }

    /// An empty calendar: only weekends will count as non-working days.
    pub fn new() -> (r: HolidayCalendar)
        ensures
            r@ == Map::<int, Seq<char>>::empty(),
            r.wf(),
    {
        HolidayCalendar { entries: Vec::new() }
    }

    /// Records `date` as a holiday under `label`, replacing the label of an
    /// entry already present for that date.
    pub fn add(&mut self, date: Date, label: String)
        requires
            old(self).wf(),
            date.wf(),
        ensures
            final(self)@ == old(self)@.insert(date@, label@),
            final(self).wf(),
    {
        let ghost before = self.entries@;
        self.entries.push(HolidayEntry { date, label });
        proof {
            assert(self.entries@.drop_last() =~= before);
        }
    }

    /// Whether `date` is listed in the calendar.
    pub fn contains_date(&self, date: &Date) -> (r: bool)
        requires
            self.wf(),
            date.wf(),
        ensures
            r == self@.dom().contains(date@),
    {
        let n = self.entries.len();
        let mut i: usize = 0;
        while i < n
            invariant
                0 <= i <= n == self.entries@.len(),
                self.wf(),
                date.wf(),
                forall|j: int| 0 <= j < i ==> (#[trigger] self.entries@[j].date)@ != date@,
            decreases n - i,
        {
            let e = &self.entries[i];
            if e.date.year == date.year && e.date.month == date.month && e.date.day == date.day {
                proof {
                    lemma_holiday_map_dom(self.entries@, date@);
                }
                return true;
            }
            proof {
                if e.date@ == date@ {
                    lemma_day_number_injective(
                        e.date.year as int,
                        e.date.month as int,
                        e.date.day as int,
                        date.year as int,
                        date.month as int,
                        date.day as int,
                    );
                }
            }
            i = i + 1;
        }
        proof {
            lemma_holiday_map_dom(self.entries@, date@);
        }
        false
    }
}

} // verus!
