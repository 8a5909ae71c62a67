//! Practice goals: creation and association of exercises with goals.
use vstd::prelude::*;
use crate::model::Model;

verus! {

/// Progress state of a practice goal. A plain field with no transition
/// rules: any status may be replaced by any other.
#[derive(Clone, Debug, PartialEq, Eq, Structural)]
pub enum Status {
    NotStarted,
    InProgress,
    Completed,
}

impl Default for Status {
    /// The default status of a freshly created goal.
    fn default() -> (s: Status)
        ensures
            s == Status::NotStarted,
    {
        Status::NotStarted
    }
}

/// A user-defined practice objective. The `id` is assigned once at
/// creation and never changed; `exercise_ids` holds the associated
/// exercises in insertion order, without duplicates once inserted
/// through `add_exercise_to_goal`.
#[derive(Clone, Debug, PartialEq)]
pub struct PracticeGoal {
    pub id: String,
    pub name: String,
    pub description: Option<String>,
    pub status: Status,
    pub start_date: Option<String>,
    pub end_date: Option<String>,
    pub exercise_ids: Vec<String>,
}

/// The mathematical value of a `PracticeGoal`: every string as a
/// sequence of characters.
#[verifier::ext_equal]
pub ghost struct GoalView {
    pub id: Seq<char>,
    pub name: Seq<char>,
    pub description: Option<Seq<char>>,
    pub status: Status,
    pub start_date: Option<Seq<char>>,
    pub end_date: Option<Seq<char>>,
    pub exercise_ids: Seq<Seq<char>>,
}

impl View for PracticeGoal {
    type V = GoalView;

    open spec fn view(&self) -> GoalView {
        GoalView {
            id: self.id@,
            name: self.name@,
            description: self.description.deep_view(),
            status: self.status,
            start_date: self.start_date.deep_view(),
            end_date: self.end_date.deep_view(),
            exercise_ids: self.exercise_ids.deep_view(),
        }
    }
}

impl DeepView for PracticeGoal {
    type V = GoalView;

    open spec fn deep_view(&self) -> GoalView {
        self.view()
    }
}

/// Relies on `uuid::Uuid::new_v4` and the `Display` form of `uuid::Uuid`:
/// a random UUID rendered as a hyphenated string, which is always exactly
/// 36 characters long. The value itself is random, so nothing more is
/// stated of it.
#[verifier::external_body]
fn fresh_goal_id() -> (id: String)
    ensures
        id@.len() == 36,
{
    uuid::Uuid::new_v4().to_string()
}

impl Default for PracticeGoal {
    /// A goal with every field empty and the default status. The empty id
    /// marks a value that did not come from `new`.
    fn default() -> (g: PracticeGoal)
        ensures
            g@.id.len() == 0,
            g@.name.len() == 0,
            g@.description is None,
            g@.status == Status::NotStarted,
            g@.start_date is None,
            g@.end_date is None,
            g@.exercise_ids == Seq::<Seq<char>>::empty(),
    {
        let g = PracticeGoal {
            id: String::new(),
            name: String::new(),
            description: None,
            status: Status::NotStarted,
            start_date: None,
            end_date: None,
            exercise_ids: Vec::new(),
        };
        proof {
            assert(g@.exercise_ids =~= Seq::<Seq<char>>::empty());
        }
        g
    }
}

impl PracticeGoal {
    /// Construct a goal with a freshly generated identifier, the given
    /// name and description, the given status (defaulting to
    /// `NotStarted`), no dates, and no associated exercises.
    pub fn new(name: String, description: Option<String>, status: Option<Status>) -> (g:
        PracticeGoal)
        ensures
            g@.id.len() == 36,
            g@.name == name@,
            g@.description == description.deep_view(),
            g@.status == (match status {
                Some(s) => s,
                None => Status::NotStarted,
            }),
            g@.start_date is None,
            g@.end_date is None,
            g@.exercise_ids == Seq::<Seq<char>>::empty(),
    {
        let g = PracticeGoal {
            id: fresh_goal_id(),
            name,
            description,
            status: match status {
                Some(s) => s,
                None => Status::NotStarted,
            },
            start_date: None,
            end_date: None,
            exercise_ids: Vec::new(),
        };
        proof {
            assert(g@.exercise_ids =~= Seq::<Seq<char>>::empty());
        }
        g
    }
}

/// Index of the first goal whose id is `goal_id`, or -1 when no goal has
/// that id.
pub open spec fn first_index_with_id(goals: Seq<GoalView>, goal_id: Seq<char>) -> int
    decreases goals.len(),
{
    if goals.len() == 0 {
        -1
    } else if goals[0].id == goal_id {
        0
    } else {
        let rest = first_index_with_id(goals.skip(1), goal_id);
        if rest == -1 {
            -1
        } else {
            rest + 1
        }
    }
}

/// `goal_id` found at `i` after a scan that matched nowhere before `i`:
/// then `i` is the first index with that id; a scan that reached the end
/// without a match means no goal has it.
pub proof fn lemma_first_index_with_id(goals: Seq<GoalView>, goal_id: Seq<char>, i: int)
    requires
        0 <= i <= goals.len(),
        forall|j: int| 0 <= j < i ==> goals[j].id != goal_id,
    ensures
        i == goals.len() ==> first_index_with_id(goals, goal_id) == -1,
        i < goals.len() && goals[i].id == goal_id ==> first_index_with_id(goals, goal_id) == i,
    decreases goals.len(),
{
    if goals.len() > 0 && goals[0].id != goal_id {
        let rest = goals.skip(1);
        assert(forall|j: int| 0 <= j < rest.len() ==> rest[j] == goals[j + 1]);
        if i > 0 {
            lemma_first_index_with_id(rest, goal_id, i - 1);
        }
    }
}

/// Basic shape of `first_index_with_id`: its result is -1 or a valid
/// index whose goal carries the id, with no earlier match.
pub proof fn lemma_first_index_with_id_shape(goals: Seq<GoalView>, goal_id: Seq<char>)
    ensures
        ({
            let r = first_index_with_id(goals, goal_id);
            r == -1 || (0 <= r < goals.len() && goals[r].id == goal_id && (forall|j: int|
                0 <= j < r ==> goals[j].id != goal_id))
        }),
    decreases goals.len(),
{
    if goals.len() > 0 && goals[0].id != goal_id {
        let rest = goals.skip(1);
        assert(forall|j: int| 0 <= j < rest.len() ==> rest[j] == goals[j + 1]);
        assert(forall|j: int| 1 <= j < goals.len() ==> goals[j] == rest[j - 1]);
        lemma_first_index_with_id_shape(rest, goal_id);
    }
}

/// The goal with `exercise_id` associated: appended at the end unless it
/// is already present, in which case the goal is unchanged.
pub open spec fn goal_with_exercise(g: GoalView, exercise_id: Seq<char>) -> GoalView {
    if g.exercise_ids.contains(exercise_id) {
        g
    } else {
        GoalView { exercise_ids: g.exercise_ids.push(exercise_id), ..g }
    }
}

/// The goal collection after `add_exercise_to_goal`: the first goal with
/// id `goal_id` gains `exercise_id` (unless already present); when no
/// goal has that id, the collection is unchanged.
pub open spec fn goals_with_exercise_added(
    goals: Seq<GoalView>,
    goal_id: Seq<char>,
    exercise_id: Seq<char>,
) -> Seq<GoalView> {
    let i = first_index_with_id(goals, goal_id);
    if i == -1 {
        goals
    } else {
        goals.update(i, goal_with_exercise(goals[i], exercise_id))
    }
}

/// Associating an exercise with a goal twice leaves the goal collection
/// exactly as one association does: the operation is idempotent.
pub proof fn lemma_add_exercise_idempotent(
    goals: Seq<GoalView>,
    goal_id: Seq<char>,
    exercise_id: Seq<char>,
)
    ensures
        goals_with_exercise_added(
            goals_with_exercise_added(goals, goal_id, exercise_id),
            goal_id,
            exercise_id,
        ) == goals_with_exercise_added(goals, goal_id, exercise_id),
{
    let once = goals_with_exercise_added(goals, goal_id, exercise_id);
    let i = first_index_with_id(goals, goal_id);
    lemma_first_index_with_id_shape(goals, goal_id);
    if i != -1 {
        assert(once[i].id == goal_id);
        lemma_first_index_with_id(once, goal_id, i);
        assert(once[i].exercise_ids.contains(exercise_id)) by {
            if !goals[i].exercise_ids.contains(exercise_id) {
                assert(once[i].exercise_ids[goals[i].exercise_ids.len() as int] == exercise_id);
            }
        }
        assert(once.update(i, goal_with_exercise(once[i], exercise_id)) =~= once);
    }
}

/// Whether a goal's exercise list holds no entry twice.
pub open spec fn no_duplicate_exercises(g: GoalView) -> bool {
    forall|p: int, q: int|
        0 <= p < q < g.exercise_ids.len() ==> g.exercise_ids[p] != g.exercise_ids[q]
}

/// Associating an exercise preserves duplicate-freedom of every goal's
/// exercise list: the list only grows by an entry it did not hold.
pub proof fn lemma_add_exercise_keeps_no_duplicates(
    goals: Seq<GoalView>,
    goal_id: Seq<char>,
    exercise_id: Seq<char>,
)
    requires
        forall|k: int| 0 <= k < goals.len() ==> no_duplicate_exercises(#[trigger] goals[k]),
    ensures
        ({
            let after = goals_with_exercise_added(goals, goal_id, exercise_id);
            forall|k: int| 0 <= k < after.len() ==> no_duplicate_exercises(#[trigger] after[k])
        }),
{
    let after = goals_with_exercise_added(goals, goal_id, exercise_id);
    let i = first_index_with_id(goals, goal_id);
    lemma_first_index_with_id_shape(goals, goal_id);
    if i != -1 && !goals[i].exercise_ids.contains(exercise_id) {
        let ids = goals[i].exercise_ids;
        assert(no_duplicate_exercises(after[i])) by {
            assert(forall|p: int| 0 <= p < ids.len() ==> ids[p] != exercise_id);
        }
    }
}

/// Whether `x` occurs in `v`.
fn vec_contains_string(v: &Vec<String>, x: &String) -> (found: bool)
    ensures
        found == v.deep_view().contains(x@),
{
    let n = v.len();
    let mut k: usize = 0;
    while k < n
        invariant
            n == v.len(),
            0 <= k <= n,
            forall|j: int| 0 <= j < k ==> v.deep_view()[j] != x@,
        decreases n - k,
    {
        if v[k] == *x {
            assert(v.deep_view()[k as int] == x@);
            return true;
        }
        k += 1;
    }
    assert(!v.deep_view().contains(x@));
    false
}

/// Append `goal` to the model's goal collection. No duplicate-id check is
/// made; the rest of the model is untouched.
pub fn add_goal(goal: PracticeGoal, model: &mut Model)
    ensures
        final(model)@.goals == old(model)@.goals.push(goal@),
        final(model)@.count == old(model)@.count,
{
    let ghost before = model@.goals;
    model.goals.push(goal);
    proof {
        assert(model@.goals =~= before.push(goal@));
    }
}

/// Associate `exercise_id` with the first goal whose id is `goal_id`.
/// When no goal has that id, or the exercise is already associated, the
/// model is left entirely unchanged; no error is signalled either way.
pub fn add_exercise_to_goal(goal_id: String, exercise_id: String, model: &mut Model)
    ensures
        final(model)@.goals == goals_with_exercise_added(
            old(model)@.goals,
            goal_id@,
            exercise_id@,
        ),
        final(model)@.count == old(model)@.count,
{
    let n = model.goals.len();
    let mut i: usize = 0;
    while i < n
        invariant
            *model == *old(model),
            n == model.goals.len(),
            0 <= i <= n,
            forall|j: int| 0 <= j < i ==> model@.goals[j].id != goal_id@,
        decreases n - i,
    {
        if model.goals[i].id == goal_id {
            proof {
                lemma_first_index_with_id(old(model)@.goals, goal_id@, i as int);
            }
            let already = vec_contains_string(&model.goals[i].exercise_ids, &exercise_id);
            if !already {
                model.goals[i].exercise_ids.push(exercise_id);
            }
            proof {
                assert(model@.goals =~~= goals_with_exercise_added(
                    old(model)@.goals,
                    goal_id@,
                    exercise_id@,
                ));
            }
            return ;
        }
        i += 1;
    }
    proof {
        lemma_first_index_with_id(old(model)@.goals, goal_id@, n as int);
    }
}

} // verus!
