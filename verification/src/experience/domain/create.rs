//! The creation of experiences.

use crate::experience::constraint::{
    default_chain, default_verdict, failure, fold_constraint, lemma_default_chain, Constraint,
    LiFoConstraintChain,
};
use crate::experience::{
    fallback_profile, kind_of, unique_entities, Error, Experience, ExperienceBuilder,
    ExperienceKind, ExperiencedEvent, Result,
};
use crate::interval::Interval;
use vstd::prelude::*;

verus! {

/// How many profiles follow the experience the builder creates: those given,
/// or else the entity's own profile after its closest experience, if any.
pub open spec fn creation_after_len<'a, Intv: Interval + Copy>(
    builder: ExperienceBuilder<'a, Intv>,
    s: Seq<ExperiencedEvent<'a, Intv>>,
) -> nat {
    match builder.after {
        Some(a) => a@.len(),
        None => if fallback_profile(*builder.entity, *builder.event, s) is Some {
            1
        } else {
            0
        },
    }
}

/// No entity is repeated among the profiles given to the builder.
pub open spec fn creation_unique<'a, Intv: Interval + Copy>(
    builder: ExperienceBuilder<'a, Intv>,
    s: Seq<ExperiencedEvent<'a, Intv>>,
) -> bool {
    builder.after matches Some(a) ==> unique_entities(a@)
}

/// What [create] gives for the builder and the experienced events `s`: the
/// error of a repeated entity, or else the first rule the experience breaks,
/// or else the experience of the builder's entity and event followed by the
/// given profiles, or by the fallback one.
pub open spec fn creation<'a, Intv: Interval + Copy>(
    builder: ExperienceBuilder<'a, Intv>,
    s: Seq<ExperiencedEvent<'a, Intv>>,
    experience: Result<Experience>,
) -> bool {
    &&& !creation_unique(builder, s) ==> experience == Err::<Experience, Error>(
        Error::RepeatedEntity,
    )
    &&& creation_unique(builder, s) ==> match default_verdict(
        builder.entity.id,
        creation_after_len(builder, s) == 0,
        *builder.event,
        s,
    ) {
        Some(e) => experience == Err::<Experience, Error>(Error::Constraint(e)),
        None => experience is Ok,
    }
    &&& experience matches Ok(x) ==> {
        &&& x.entity == builder.entity.id
        &&& x.event == builder.event.id
        &&& x.after@.len() == creation_after_len(builder, s)
        &&& builder.after matches Some(a) ==> x.after@ == a@
        &&& builder.after is None && x.after@.len() == 1 ==> {
            let p = fallback_profile(*builder.entity, *builder.event, s)->0;
            &&& x.after@[0].entity == p.entity
            &&& x.after@[0].values@ == p.values@
        }
    }
}

/// Creates a new experience caused by the given event as long as it fits in
/// the given ordered succession of experienced events.
pub fn create<'a, Intv: Interval + Copy>(
    builder: ExperienceBuilder<'a, Intv>,
    experienced_events: &'a [ExperiencedEvent<'a, Intv>],
) -> (experience: Result<Experience>)
    ensures
        creation(builder, experienced_events@, experience),
{
    let event = builder.event;
    let ghost s = experienced_events@;
    let fallen = builder.with_fallbacks(experienced_events);
    proof {
        if builder.after is None && fallen.after is Some {
            assert(unique_entities(fallen.after->0@));
        }
    }
    let experience = match fallen.build() {
        Ok(experience) => experience,
        Err(error) => return Err(error),
    };
    assert(experience.after@.len() == creation_after_len(builder, s));
    assert(kind_of(experience) == ExperienceKind::Terminal <==> creation_after_len(builder, s) == 0);
    let experienced_event = ExperiencedEvent { experience: &experience, event };
    let mut constraint = LiFoConstraintChain::with_defaults(&experienced_event);
    proof {
        lemma_default_chain(&experienced_event, s);
        assert(s.take(0) =~= Seq::<ExperiencedEvent<'a, Intv>>::empty());
    }
    let mut i: usize = 0;
    while i < experienced_events.len()
        invariant
            i <= s.len(),
            s == experienced_events@,
            constraint == fold_constraint(default_chain(&experienced_event), s.take(i as int)),
            forall|j: int|
                0 <= j < s.len() ==> (#[trigger] fold_constraint(
                    default_chain(&experienced_event),
                    s.take(j),
                )).spec_violation(s[j]) is None,
        decreases s.len() - i,
    {
        assert(fold_constraint(default_chain(&experienced_event), s.take(i as int)).spec_violation(
            s[i as int],
        ) is None);
        constraint = match constraint.with(&experienced_events[i]) {
            Ok(next) => next,
            Err(poison) => return Err(Error::Constraint(poison.cause)),
        };
        proof {
            assert(s.take(i + 1).drop_last() =~= s.take(i as int));
        }
        i = i + 1;
    }
    proof {
        assert(s.take(i as int) =~= s);
    }
    match constraint.result() {
        Ok(()) => Ok(experience),
        Err(error) => {
            proof {
                let e = default_verdict(
                    builder.entity.id,
                    creation_after_len(builder, s) == 0,
                    *builder.event,
                    s,
                )->0;
                assert(failure(error) == failure(e));
                assert(failure(e).1[0] == e);
                assert(failure(error).1[0] == error);
            }
            Err(Error::Constraint(error))
        },
    }
}

} // verus!
