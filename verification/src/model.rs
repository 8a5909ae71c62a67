//! The owned application state: the goal collection and the transient
//! counter that the presentation layer displays.
use vstd::prelude::*;
use crate::goal::GoalView;
use crate::goal::PracticeGoal;

verus! {

/// The complete owned application state. The model exclusively owns its
/// goals; insertion order is display order.
#[derive(Clone, Debug, PartialEq)]
pub struct Model {
    pub goals: Vec<PracticeGoal>,
    pub count: i32,
}

/// The mathematical value of a `Model`.
#[verifier::ext_equal]
pub ghost struct ModelView {
    pub goals: Seq<GoalView>,
    pub count: int,
}

impl View for Model {
    type V = ModelView;

    open spec fn view(&self) -> ModelView {
        ModelView { goals: self.goals.deep_view(), count: self.count as int }
    }
}

impl Default for Model {
    /// The empty model: no goals, counter at zero.
    fn default() -> (m: Model)
        ensures
            m@.goals == Seq::<GoalView>::empty(),
            m@.count == 0,
    {
        let m = Model { goals: Vec::new(), count: 0 };
        proof {
            assert(m@.goals =~= Seq::<GoalView>::empty());
        }
        m
    }
}

impl Model {
    /// The empty model: no goals, counter at zero.
    pub fn new() -> (m: Model)
        ensures
            m@.goals == Seq::<GoalView>::empty(),
            m@.count == 0,
    {
        Model::default()
    }
}

} // verus!
