//! The event-driven update function and the read-only projection that the
//! presentation layer consumes.
use vstd::prelude::*;
use crate::goal::PracticeGoal;
use crate::goal::add_exercise_to_goal;
use crate::goal::add_goal;
use crate::goal::goals_with_exercise_added;
use crate::model::Model;
use crate::model::ModelView;

verus! {

/// A discrete user intent dispatched to mutate the model.
pub enum Event {
    Increment,
    Decrement,
    Reset,
    AddGoal(PracticeGoal),
    AddExerciseToGoal(String, String),
}

/// A derived, read-only snapshot of the model for presentation.
#[derive(Clone, Debug, PartialEq, Eq, Structural)]
pub struct ViewModel {
    pub count: i32,
}

/// The model after one event: the counter events saturate at the `i32`
/// bounds, `Reset` clears the counter, and the goal events touch only the
/// goal collection.
pub open spec fn apply_spec(m: ModelView, event: Event) -> ModelView {
    match event {
        Event::Increment => ModelView {
            count: if m.count < i32::MAX { m.count + 1 } else { m.count },
            ..m
        },
        Event::Decrement => ModelView {
            count: if m.count > i32::MIN { m.count - 1 } else { m.count },
            ..m
        },
        Event::Reset => ModelView { count: 0, ..m },
        Event::AddGoal(g) => ModelView { goals: m.goals.push(g@), ..m },
        Event::AddExerciseToGoal(goal_id, exercise_id) => ModelView {
            goals: goals_with_exercise_added(m.goals, goal_id@, exercise_id@),
            ..m
        },
    }
}

/// Apply one event to the model. Runs to completion on the calling
/// thread; it cannot fail.
pub fn apply(event: Event, model: &mut Model)
    ensures
        final(model)@ == apply_spec(old(model)@, event),
{
    let ghost m0 = model@;
    match event {
        Event::Increment => {
            if model.count < i32::MAX {
                model.count = model.count + 1;
            }
        },
        Event::Decrement => {
            if model.count > i32::MIN {
                model.count = model.count - 1;
            }
        },
        Event::Reset => {
            model.count = 0;
        },
        Event::AddGoal(g) => {
            add_goal(g, model);
        },
        Event::AddExerciseToGoal(goal_id, exercise_id) => {
            add_exercise_to_goal(goal_id, exercise_id, model);
        },
    }
    proof {
        assert(model@ =~= apply_spec(m0, event));
    }
}

/// The read-only projection of the model for presentation.
pub fn view_of(model: &Model) -> (v: ViewModel)
    ensures
        v.count as int == model@.count,
{
    ViewModel { count: model.count }
}

} // verus!
