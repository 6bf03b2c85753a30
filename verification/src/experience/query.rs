//! Queries that select, among the experiences of an entity, those closest to
//! an event.

use super::{ExperienceBuilder, ExperiencedEvent};
use crate::event::Event;
use crate::interval::Interval;
use vstd::prelude::*;

verus! {

/// Events are ordered by their interval: by lowest bound, then by highest.
pub open spec fn earlier<Intv: Interval + Copy>(a: Event<Intv>, b: Event<Intv>) -> bool {
    a.spec_lo() < b.spec_lo() || (a.spec_lo() == b.spec_lo() && a.spec_hi() < b.spec_hi())
}

/// Returns true if, and only if, the event `a` comes earlier than `b`.
pub fn is_earlier<Intv: Interval + Copy>(a: &Event<Intv>, b: &Event<Intv>) -> (r: bool)
    ensures
        r == earlier(*a, *b),
{
    let a_lo = a.lo();
    let b_lo = b.lo();
    a_lo < b_lo || (a_lo == b_lo && a.hi() < b.hi())
}

/// The previous experience so far, after considering `e`: `e` replaces it
/// when `e`'s event ends before `event` starts and does not come earlier.
pub open spec fn step_previous<'b, Intv: Interval + Copy>(
    cur: Option<ExperiencedEvent<'b, Intv>>,
    event: Event<Intv>,
    e: ExperiencedEvent<'b, Intv>,
) -> Option<ExperiencedEvent<'b, Intv>> {
    if e.event.spec_hi() < event.spec_lo() {
        match cur {
            Some(c) => if earlier(*e.event, *c.event) {
                Some(c)
            } else {
                Some(e)
            },
            None => Some(e),
        }
    } else {
        cur
    }
}

/// The latest of the experiences whose event ends before `event` starts; the
/// last of them in `s` among equals.
pub open spec fn select_previous<'b, Intv: Interval + Copy>(
    event: Event<Intv>,
    s: Seq<ExperiencedEvent<'b, Intv>>,
) -> Option<ExperiencedEvent<'b, Intv>>
    decreases s.len(),
{
    if s.len() == 0 {
        None
    } else {
        step_previous(select_previous(event, s.drop_last()), event, s.last())
    }
}

/// The next experience so far, after considering `e`: `e` replaces it when
/// `e`'s event ends after `event` starts and comes earlier.
pub open spec fn step_next<'b, Intv: Interval + Copy>(
    cur: Option<ExperiencedEvent<'b, Intv>>,
    event: Event<Intv>,
    e: ExperiencedEvent<'b, Intv>,
) -> Option<ExperiencedEvent<'b, Intv>> {
    if e.event.spec_hi() > event.spec_lo() {
        match cur {
            Some(c) => if earlier(*e.event, *c.event) {
                Some(e)
            } else {
                Some(c)
            },
            None => Some(e),
        }
    } else {
        cur
    }
}

/// The earliest of the experiences whose event ends after `event` starts;
/// the first of them in `s` among equals.
pub open spec fn select_next<'b, Intv: Interval + Copy>(
    event: Event<Intv>,
    s: Seq<ExperiencedEvent<'b, Intv>>,
) -> Option<ExperiencedEvent<'b, Intv>>
    decreases s.len(),
{
    if s.len() == 0 {
        None
    } else {
        step_next(select_next(event, s.drop_last()), event, s.last())
    }
}

/// The experience selected as previous, if any, is one of `s` whose event
/// ends before `event` starts, and no such experience comes later; there is
/// none exactly when no experience of `s` ends before `event` starts.
pub proof fn lemma_select_previous<'b, Intv: Interval + Copy>(
    event: Event<Intv>,
    s: Seq<ExperiencedEvent<'b, Intv>>,
)
    ensures
        select_previous(event, s) matches Some(p) ==> {
            &&& s.contains(p)
            &&& p.event.spec_hi() < event.spec_lo()
            &&& forall|i: int|
                0 <= i < s.len() && (#[trigger] s[i]).event.spec_hi() < event.spec_lo()
                    ==> !earlier(*p.event, *s[i].event)
        },
        select_previous(event, s) is None <==> forall|i: int|
            0 <= i < s.len() ==> (#[trigger] s[i]).event.spec_hi() >= event.spec_lo(),
    decreases s.len(),
{
    if s.len() > 0 {
        let init = s.drop_last();
        lemma_select_previous(event, init);
        if let Some(p) = select_previous(event, s) {
            if p == s.last() {
                assert(s[s.len() - 1] == p);
            } else {
                let j = choose|j: int| 0 <= j < init.len() && init[j] == p;
                assert(s[j] == p);
            }
            assert forall|i: int|
                0 <= i < s.len() && (#[trigger] s[i]).event.spec_hi() < event.spec_lo()
                    implies !earlier(*p.event, *s[i].event) by {
                if i < init.len() {
                    assert(init[i] == s[i]);
                }
            }
        }
        if select_previous(event, s) is None {
            assert forall|i: int| 0 <= i < s.len() implies (#[trigger] s[i]).event.spec_hi()
                >= event.spec_lo() by {
                if i < init.len() {
                    assert(init[i] == s[i]);
                }
            }
        } else {
            if forall|i: int| 0 <= i < s.len() ==> (#[trigger] s[i]).event.spec_hi() >= event.spec_lo() {
                assert forall|i: int| 0 <= i < init.len() implies (#[trigger] init[i]).event.spec_hi()
                    >= event.spec_lo() by {
                    assert(init[i] == s[i]);
                }
                assert(s[s.len() - 1] == s.last());
            }
        }
    }
}

/// The experience selected as next, if any, is one of `s` whose event ends
/// after `event` starts, and no such experience comes earlier; there is none
/// exactly when no experience of `s` ends after `event` starts.
pub proof fn lemma_select_next<'b, Intv: Interval + Copy>(
    event: Event<Intv>,
    s: Seq<ExperiencedEvent<'b, Intv>>,
)
    ensures
        select_next(event, s) matches Some(p) ==> {
            &&& s.contains(p)
            &&& p.event.spec_hi() > event.spec_lo()
            &&& forall|i: int|
                0 <= i < s.len() && (#[trigger] s[i]).event.spec_hi() > event.spec_lo()
                    ==> !earlier(*s[i].event, *p.event)
        },
        select_next(event, s) is None <==> forall|i: int|
            0 <= i < s.len() ==> (#[trigger] s[i]).event.spec_hi() <= event.spec_lo(),
    decreases s.len(),
{
    if s.len() > 0 {
        let init = s.drop_last();
        lemma_select_next(event, init);
        if let Some(p) = select_next(event, s) {
            if p == s.last() {
                assert(s[s.len() - 1] == p);
            } else {
                let j = choose|j: int| 0 <= j < init.len() && init[j] == p;
                assert(s[j] == p);
            }
            assert forall|i: int|
                0 <= i < s.len() && (#[trigger] s[i]).event.spec_hi() > event.spec_lo()
                    implies !earlier(*s[i].event, *p.event) by {
                if i < init.len() {
                    assert(init[i] == s[i]);
                }
            }
        }
        if select_next(event, s) is None {
            assert forall|i: int| 0 <= i < s.len() implies (#[trigger] s[i]).event.spec_hi()
                <= event.spec_lo() by {
                if i < init.len() {
                    assert(init[i] == s[i]);
                }
            }
        } else {
            if forall|i: int| 0 <= i < s.len() ==> (#[trigger] s[i]).event.spec_hi() <= event.spec_lo() {
                assert forall|i: int| 0 <= i < init.len() implies (#[trigger] init[i]).event.spec_hi()
                    <= event.spec_lo() by {
                    assert(init[i] == s[i]);
                }
                assert(s[s.len() - 1] == s.last());
            }
        }
    }
}

/// SelectPreviousExperience selects, among the experienced events it is
/// given, the closest one happening before the given [Event].
pub struct SelectPreviousExperience<'a, 'b, Intv> {
    pub event: &'a Event<Intv>,
    pub previous: Option<&'b ExperiencedEvent<'b, Intv>>,
}

impl<'a, 'b, Intv: Interval + Copy> SelectPreviousExperience<'a, 'b, Intv> {
    /// The experienced event selected so far.
    pub open spec fn spec_value(self) -> Option<ExperiencedEvent<'b, Intv>> {
        match self.previous {
            Some(p) => Some(*p),
            None => None,
        }
    }

    /// Starts the selection for the given event.
    pub fn new(event: &'a Event<Intv>) -> (query: Self)
        ensures
            *query.event == *event,
            query.spec_value() is None,
    {
        SelectPreviousExperience { event, previous: None }
    }

    /// Starts the selection for the event of the given builder.
    pub fn from_builder(builder: &'a ExperienceBuilder<'a, Intv>) -> (query: Self)
        ensures
            *query.event == *builder.event,
            query.spec_value() is None,
    {
        SelectPreviousExperience { event: builder.event, previous: None }
    }

    /// The selection after taking into account the given experienced event.
    pub open spec fn spec_add(self, e: &'b ExperiencedEvent<'b, Intv>) -> Self {
        SelectPreviousExperience {
            event: self.event,
            previous: if e.event.spec_hi() < self.event.spec_lo() && (match self.previous {
                Some(c) => !earlier(*e.event, *c.event),
                None => true,
            }) {
                Some(e)
            } else {
                self.previous
            },
        }
    }

    /// The selection after taking into account, one after the other, each of
    /// the given experienced events.
    pub open spec fn spec_add_all(self, es: Seq<&'b ExperiencedEvent<'b, Intv>>) -> Self
        decreases es.len(),
    {
        if es.len() == 0 {
            self
        } else {
            self.spec_add_all(es.drop_last()).spec_add(es.last())
        }
    }

    /// Takes into account the given experienced event.
    pub fn add(&mut self, experienced_event: &'b ExperiencedEvent<'b, Intv>)
        ensures
            *final(self) == old(self).spec_add(experienced_event),
            final(self).event == old(self).event,
            final(self).spec_value() == step_previous(
                old(self).spec_value(),
                *old(self).event,
                *experienced_event,
            ),
    {
        if experienced_event.event.hi() < self.event.lo() {
            let replace = match self.previous {
                Some(current) => !is_earlier(experienced_event.event, current.event),
                None => true,
            };
            if replace {
                self.previous = Some(experienced_event);
            }
        }
    }

    /// Takes into account the given experienced event.
    pub fn with(self, experienced_event: &'b ExperiencedEvent<'b, Intv>) -> (query: Self)
        ensures
            query.event == self.event,
            query.spec_value() == step_previous(self.spec_value(), *self.event, *experienced_event),
    {
        let mut query = self;
        query.add(experienced_event);
        query
    }

    /// Returns the experienced event selected.
    pub fn value(self) -> (value: Option<&'b ExperiencedEvent<'b, Intv>>)
        ensures
            value == self.previous,
    {
        self.previous
    }
}

impl<'a, 'b, Intv> core::ops::Deref for SelectPreviousExperience<'a, 'b, Intv> {
    type Target = Option<&'b ExperiencedEvent<'b, Intv>>;

    /// The experienced event selected so far.
    fn deref(&self) -> (previous: &Self::Target)
        ensures
            *previous == self.previous,
    {
        &self.previous
    }
}

/// SelectNextExperience selects, among the experienced events it is given,
/// the closest one happening after the given [Event].
pub struct SelectNextExperience<'a, 'b, Intv> {
    pub event: &'a Event<Intv>,
    pub next: Option<&'b ExperiencedEvent<'b, Intv>>,
}

impl<'a, 'b, Intv: Interval + Copy> SelectNextExperience<'a, 'b, Intv> {
    /// The experienced event selected so far.
    pub open spec fn spec_value(self) -> Option<ExperiencedEvent<'b, Intv>> {
        match self.next {
            Some(p) => Some(*p),
            None => None,
        }
    }

    /// Starts the selection for the given event.
    pub fn new(event: &'a Event<Intv>) -> (query: Self)
        ensures
            *query.event == *event,
            query.spec_value() is None,
    {
        SelectNextExperience { event, next: None }
    }

    /// Starts the selection for the event of the given builder.
    pub fn from_builder(builder: &'a ExperienceBuilder<'a, Intv>) -> (query: Self)
        ensures
            *query.event == *builder.event,
            query.spec_value() is None,
    {
        SelectNextExperience { event: builder.event, next: None }
    }

    /// The selection after taking into account the given experienced event.
    pub open spec fn spec_add(self, e: &'b ExperiencedEvent<'b, Intv>) -> Self {
        SelectNextExperience {
            event: self.event,
            next: if e.event.spec_hi() > self.event.spec_lo() && (match self.next {
                Some(c) => earlier(*e.event, *c.event),
                None => true,
            }) {
                Some(e)
            } else {
                self.next
            },
        }
    }

    /// Takes into account the given experienced event.
    pub fn add(&mut self, experienced_event: &'b ExperiencedEvent<'b, Intv>)
        ensures
            *final(self) == old(self).spec_add(experienced_event),
            final(self).event == old(self).event,
            final(self).spec_value() == step_next(
                old(self).spec_value(),
                *old(self).event,
                *experienced_event,
            ),
    {
        if experienced_event.event.hi() > self.event.lo() {
            let replace = match self.next {
                Some(current) => is_earlier(experienced_event.event, current.event),
                None => true,
            };
            if replace {
                self.next = Some(experienced_event);
            }
        }
    }

    /// Takes into account the given experienced event.
    pub fn with(self, experienced_event: &'b ExperiencedEvent<'b, Intv>) -> (query: Self)
        ensures
            query.event == self.event,
            query.spec_value() == step_next(self.spec_value(), *self.event, *experienced_event),
    {
        let mut query = self;
        query.add(experienced_event);
        query
    }

    /// Returns the experienced event selected.
    pub fn value(self) -> (value: Option<&'b ExperiencedEvent<'b, Intv>>)
        ensures
            value == self.next,
    {
        self.next
    }
}

impl<'a, 'b, Intv> core::ops::Deref for SelectNextExperience<'a, 'b, Intv> {
    type Target = Option<&'b ExperiencedEvent<'b, Intv>>;

    /// The experienced event selected so far.
    fn deref(&self) -> (next: &Self::Target)
        ensures
            *next == self.next,
    {
        &self.next
    }
}

/// The experience closest after `event` so far, after considering `e`: `e`
/// replaces it when `e`'s event starts after `event` ends and comes earlier.
pub open spec fn step_after<'b, Intv: Interval + Copy>(
    cur: Option<ExperiencedEvent<'b, Intv>>,
    event: Event<Intv>,
    e: ExperiencedEvent<'b, Intv>,
) -> Option<ExperiencedEvent<'b, Intv>> {
    if e.event.spec_hi() < event.spec_lo() {
        cur
    } else if e.event.spec_lo() > event.spec_hi() {
        match cur {
            Some(c) => if earlier(*e.event, *c.event) {
                Some(e)
            } else {
                Some(c)
            },
            None => Some(e),
        }
    } else {
        cur
    }
}

/// The earliest of the experiences whose event starts after `event` ends.
pub open spec fn select_after<'b, Intv: Interval + Copy>(
    event: Event<Intv>,
    s: Seq<ExperiencedEvent<'b, Intv>>,
) -> Option<ExperiencedEvent<'b, Intv>>
    decreases s.len(),
{
    if s.len() == 0 {
        None
    } else {
        step_after(select_after(event, s.drop_last()), event, s.last())
    }
}

/// SelectCloserExperiences implements the filter that selects from a slice
/// of [ExperiencedEvent]s those two happening immediately before and after the
/// given [Event].
pub struct SelectCloserExperiences<'a, 'b, Intv> {
    pub event: &'a Event<Intv>,
    pub before: Option<&'b ExperiencedEvent<'b, Intv>>,
    pub after: Option<&'b ExperiencedEvent<'b, Intv>>,
}

impl<'a, 'b, Intv: Interval + Copy> SelectCloserExperiences<'a, 'b, Intv> {
    /// The experienced event selected as before so far.
    pub open spec fn spec_before(self) -> Option<ExperiencedEvent<'b, Intv>> {
        match self.before {
            Some(p) => Some(*p),
            None => None,
        }
    }

    /// The experienced event selected as after so far.
    pub open spec fn spec_after(self) -> Option<ExperiencedEvent<'b, Intv>> {
        match self.after {
            Some(p) => Some(*p),
            None => None,
        }
    }

    /// Starts the selection for the event of the given builder.
    pub fn from_builder(builder: &'a ExperienceBuilder<'a, Intv>) -> (query: Self)
        ensures
            *query.event == *builder.event,
            query.spec_before() is None,
            query.spec_after() is None,
    {
        SelectCloserExperiences { event: builder.event, before: None, after: None }
    }

    /// Consumes the slice selecting from it those [ExperiencedEvent]s
    /// happening immediately before and after of the given [Event].
    ///
    /// Calling to `with_iter` multiple times will end up with the closest
    /// before and after among all the consumed slices: two calls select as
    /// one call on both slices ([lemma_with_iter_concatenates]), and what is
    /// selected is the latest before and the earliest after among all of
    /// them ([lemma_fold_previous], [lemma_fold_after]).
    pub fn with_iter(self, experienced_events: &'b [ExperiencedEvent<'b, Intv>]) -> (query: Self)
        ensures
            query.event == self.event,
            query.spec_before() == fold_previous(
                self.spec_before(),
                *self.event,
                experienced_events@,
            ),
            query.spec_after() == fold_after(self.spec_after(), *self.event, experienced_events@),
    {
        let mut query = self;
        let mut i: usize = 0;
        while i < experienced_events.len()
            invariant
                i <= experienced_events@.len(),
                query.event == self.event,
                query.spec_before() == fold_previous(
                    self.spec_before(),
                    *self.event,
                    experienced_events@.take(i as int),
                ),
                query.spec_after() == fold_after(
                    self.spec_after(),
                    *self.event,
                    experienced_events@.take(i as int),
                ),
            decreases experienced_events@.len() - i,
        {
            proof {
                assert(experienced_events@.take(i + 1).drop_last() =~= experienced_events@.take(
                    i as int,
                ));
            }
            let experienced_event = &experienced_events[i];
            if experienced_event.event.hi() < query.event.lo() {
                let replace = match query.before {
                    Some(current) => !is_earlier(experienced_event.event, current.event),
                    None => true,
                };
                if replace {
                    query.before = Some(experienced_event);
                }
            } else if experienced_event.event.lo() > query.event.hi() {
                let replace = match query.after {
                    Some(current) => is_earlier(experienced_event.event, current.event),
                    None => true,
                };
                if replace {
                    query.after = Some(experienced_event);
                }
            }
            i = i + 1;
        }
        proof {
            assert(experienced_events@.take(i as int) =~= experienced_events@);
        }
        query
    }

    /// Returns the tuple containing the selected before and after.
    pub fn result(self) -> (selected: (
        Option<&'b ExperiencedEvent<'b, Intv>>,
        Option<&'b ExperiencedEvent<'b, Intv>>,
    ))
        ensures
            selected == (self.before, self.after),
    {
        (self.before, self.after)
    }
}

/// The previous experience after considering, from `start`, each of `s`.
pub open spec fn fold_previous<'b, Intv: Interval + Copy>(
    start: Option<ExperiencedEvent<'b, Intv>>,
    event: Event<Intv>,
    s: Seq<ExperiencedEvent<'b, Intv>>,
) -> Option<ExperiencedEvent<'b, Intv>>
    decreases s.len(),
{
    if s.len() == 0 {
        start
    } else {
        step_previous(fold_previous(start, event, s.drop_last()), event, s.last())
    }
}

/// The closest experience after `event`, after considering, from `start`,
/// each of `s`.
pub open spec fn fold_after<'b, Intv: Interval + Copy>(
    start: Option<ExperiencedEvent<'b, Intv>>,
    event: Event<Intv>,
    s: Seq<ExperiencedEvent<'b, Intv>>,
) -> Option<ExperiencedEvent<'b, Intv>>
    decreases s.len(),
{
    if s.len() == 0 {
        start
    } else {
        step_after(fold_after(start, event, s.drop_last()), event, s.last())
    }
}

/// Consuming two slices one after the other selects as consuming both at
/// once: the closest before and after among all of them.
pub proof fn lemma_with_iter_concatenates<'b, Intv: Interval + Copy>(
    start_before: Option<ExperiencedEvent<'b, Intv>>,
    start_after: Option<ExperiencedEvent<'b, Intv>>,
    event: Event<Intv>,
    a: Seq<ExperiencedEvent<'b, Intv>>,
    b: Seq<ExperiencedEvent<'b, Intv>>,
)
    ensures
        fold_previous(fold_previous(start_before, event, a), event, b) == fold_previous(
            start_before,
            event,
            a + b,
        ),
        fold_after(fold_after(start_after, event, a), event, b) == fold_after(
            start_after,
            event,
            a + b,
        ),
    decreases b.len(),
{
    if b.len() == 0 {
        assert(a + b =~= a);
    } else {
        lemma_with_iter_concatenates(start_before, start_after, event, a, b.drop_last());
        assert((a + b).drop_last() =~= a + b.drop_last());
        assert((a + b).last() == b.last());
    }
}

/// Taking into account, from a given selection, the experienced events of
/// `s` one after the other selects the latest among that selection and those
/// of `s` that end before `event` starts: there is none only when there was
/// none and no such experienced event; what is selected is the given one or
/// one of those; and none of them comes later.
pub proof fn lemma_fold_previous<'b, Intv: Interval + Copy>(
    start: Option<ExperiencedEvent<'b, Intv>>,
    event: Event<Intv>,
    s: Seq<ExperiencedEvent<'b, Intv>>,
)
    ensures
        fold_previous(start, event, s) is None <==> start is None && forall|i: int|
            0 <= i < s.len() ==> (#[trigger] s[i]).event.spec_hi() >= event.spec_lo(),
        fold_previous(start, event, s) matches Some(r) ==> {
            ||| start == Some(r)
            ||| s.contains(r) && r.event.spec_hi() < event.spec_lo()
        },
        start matches Some(p) ==> !earlier(*fold_previous(start, event, s)->0.event, *p.event),
        forall|i: int|
            0 <= i < s.len() && (#[trigger] s[i]).event.spec_hi() < event.spec_lo() ==> !earlier(
                *fold_previous(start, event, s)->0.event,
                *s[i].event,
            ),
    decreases s.len(),
{
    if s.len() > 0 {
        let t = s.drop_last();
        lemma_fold_previous(start, event, t);
        assert forall|i: int| 0 <= i < t.len() implies t[i] == s[i] by {}
        if let Some(r) = fold_previous(start, event, s) {
            if r != s.last() && start != Some(r) {
                let j = choose|j: int| 0 <= j < t.len() && t[j] == r;
                assert(s[j] == r);
            } else if r == s.last() {
                assert(s[s.len() - 1] == r);
            }
        }
        assert forall|i: int|
            0 <= i < s.len() && (#[trigger] s[i]).event.spec_hi() < event.spec_lo() implies !earlier(
                *fold_previous(start, event, s)->0.event,
                *s[i].event,
            ) by {
            if i < t.len() {
                assert(t[i] == s[i]);
            }
        }
        if fold_previous(start, event, s) is None {
            assert forall|i: int| 0 <= i < s.len() implies (#[trigger] s[i]).event.spec_hi()
                >= event.spec_lo() by {
                if i < t.len() {
                    assert(t[i] == s[i]);
                }
            }
        }
    }
}

/// Taking into account, from a given selection, the experienced events of
/// `s` one after the other selects the earliest among that selection and
/// those of `s` that start after `event` ends: there is none only when there
/// was none and no such experienced event; what is selected is the given one
/// or one of those; and none of them comes sooner.
pub proof fn lemma_fold_after<'b, Intv: Interval + Copy>(
    start: Option<ExperiencedEvent<'b, Intv>>,
    event: Event<Intv>,
    s: Seq<ExperiencedEvent<'b, Intv>>,
)
    ensures
        fold_after(start, event, s) is None <==> start is None && forall|i: int|
            0 <= i < s.len() ==> !((#[trigger] s[i]).event.spec_lo() > event.spec_hi()
                && s[i].event.spec_hi() >= event.spec_lo()),
        fold_after(start, event, s) matches Some(r) ==> {
            ||| start == Some(r)
            ||| s.contains(r) && r.event.spec_lo() > event.spec_hi() && r.event.spec_hi()
                >= event.spec_lo()
        },
        start matches Some(p) ==> !earlier(*p.event, *fold_after(start, event, s)->0.event),
        forall|i: int|
            0 <= i < s.len() && (#[trigger] s[i]).event.spec_lo() > event.spec_hi()
                && s[i].event.spec_hi() >= event.spec_lo() ==> !earlier(
                *s[i].event,
                *fold_after(start, event, s)->0.event,
            ),
    decreases s.len(),
{
    if s.len() > 0 {
        let t = s.drop_last();
        lemma_fold_after(start, event, t);
        assert forall|i: int| 0 <= i < t.len() implies t[i] == s[i] by {}
        if let Some(r) = fold_after(start, event, s) {
            if r != s.last() && start != Some(r) {
                let j = choose|j: int| 0 <= j < t.len() && t[j] == r;
                assert(s[j] == r);
            } else if r == s.last() {
                assert(s[s.len() - 1] == r);
            }
        }
        assert forall|i: int|
            0 <= i < s.len() && (#[trigger] s[i]).event.spec_lo() > event.spec_hi()
                && s[i].event.spec_hi() >= event.spec_lo() implies !earlier(
                *s[i].event,
                *fold_after(start, event, s)->0.event,
            ) by {
            if i < t.len() {
                assert(t[i] == s[i]);
            }
        }
        if fold_after(start, event, s) is None {
            assert forall|i: int| 0 <= i < s.len() implies !((#[trigger] s[i]).event.spec_lo()
                > event.spec_hi() && s[i].event.spec_hi() >= event.spec_lo()) by {
                if i < t.len() {
                    assert(t[i] == s[i]);
                }
            }
        }
    }
}

/// The experienced events that the references point to.
pub open spec fn pointed<'b, Intv>(es: Seq<&'b ExperiencedEvent<'b, Intv>>) -> Seq<
    ExperiencedEvent<'b, Intv>,
> {
    Seq::new(es.len(), |i: int| *es[i])
}

/// A series of adds selects the latest of what was selected and of the
/// experienced events added that end before the event starts: there is none
/// only when nothing was selected and no such experienced event was added;
/// what is selected is what was, or one of those; and neither comes later.
/// An experienced event that does not end before the event starts never
/// changes the selection.
pub proof fn lemma_add_series<'a, 'b, Intv: Interval + Copy>(
    query: SelectPreviousExperience<'a, 'b, Intv>,
    es: Seq<&'b ExperiencedEvent<'b, Intv>>,
)
    ensures
        query.spec_add_all(es).event == query.event,
        query.spec_add_all(es).spec_value() == fold_previous(
            query.spec_value(),
            *query.event,
            pointed(es),
        ),
        query.spec_add_all(es).spec_value() is None <==> query.spec_value() is None && forall|
            i: int,
        | 0 <= i < es.len() ==> (#[trigger] es[i]).event.spec_hi() >= query.event.spec_lo(),
        query.spec_add_all(es).spec_value() matches Some(r) ==> {
            ||| query.spec_value() == Some(r)
            ||| pointed(es).contains(r) && r.event.spec_hi() < query.event.spec_lo()
        },
        query.spec_value() matches Some(p) ==> !earlier(
            *query.spec_add_all(es).spec_value()->0.event,
            *p.event,
        ),
        forall|i: int|
            0 <= i < es.len() && (#[trigger] es[i]).event.spec_hi() < query.event.spec_lo()
                ==> !earlier(*query.spec_add_all(es).spec_value()->0.event, *es[i].event),
    decreases es.len(),
{
    let vals = pointed(es);
    if es.len() > 0 {
        lemma_add_series(query, es.drop_last());
        assert(pointed(es.drop_last()) =~= vals.drop_last());
    } else {
        assert(vals =~= Seq::<ExperiencedEvent<'b, Intv>>::empty());
    }
    lemma_fold_previous(query.spec_value(), *query.event, vals);
    assert forall|i: int| 0 <= i < es.len() implies vals[i] == *es[i] by {}
    assert forall|i: int|
        0 <= i < es.len() && (#[trigger] es[i]).event.spec_hi() < query.event.spec_lo()
            implies !earlier(*query.spec_add_all(es).spec_value()->0.event, *es[i].event) by {
        assert(vals[i] == *es[i]);
    }
    if query.spec_add_all(es).spec_value() is None {
        assert forall|i: int| 0 <= i < es.len() implies (#[trigger] es[i]).event.spec_hi()
            >= query.event.spec_lo() by {
            assert(vals[i] == *es[i]);
        }
    }
}

} // verus!
