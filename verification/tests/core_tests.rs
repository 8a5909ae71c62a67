use practice_core::events::Event;
use practice_core::events::ViewModel;
use practice_core::events::apply;
use practice_core::events::view_of;
use practice_core::goal::PracticeGoal;
use practice_core::goal::Status;
use practice_core::goal::add_exercise_to_goal;
use practice_core::goal::add_goal;
use practice_core::model::Model;

fn goal_with(id: &str, exercise_ids: Vec<String>) -> PracticeGoal {
    PracticeGoal {
        id: id.to_string(),
        name: "practice".to_string(),
        description: None,
        status: Status::NotStarted,
        start_date: None,
        end_date: None,
        exercise_ids,
    }
}

#[test]
fn new_defaults() {
    let g = PracticeGoal::new("Scales".to_string(), None, None);
    assert_eq!(g.name, "Scales");
    assert_eq!(g.description, None);
    assert_eq!(g.status, Status::NotStarted);
    assert_eq!(g.start_date, None);
    assert_eq!(g.end_date, None);
    assert!(g.exercise_ids.is_empty());
}

#[test]
fn new_keeps_description_and_status() {
    let g = PracticeGoal::new(
        "Arpeggios".to_string(),
        Some("daily warm-up".to_string()),
        Some(Status::InProgress),
    );
    assert_eq!(g.name, "Arpeggios");
    assert_eq!(g.description, Some("daily warm-up".to_string()));
    assert_eq!(g.status, Status::InProgress);
    assert_eq!(g.start_date, None);
    assert_eq!(g.end_date, None);
    assert!(g.exercise_ids.is_empty());
}

#[test]
fn new_ids_are_nonempty_and_distinct() {
    let mut seen = std::collections::HashSet::new();
    for _ in 0..1000 {
        let g = PracticeGoal::new("n".to_string(), None, None);
        assert_eq!(g.id.chars().count(), 36);
        assert!(!g.id.is_empty());
        seen.insert(g.id);
    }
    assert_eq!(seen.len(), 1000);
}

#[test]
fn default_goal_is_empty() {
    let g = PracticeGoal::default();
    assert!(g.id.is_empty());
    assert!(g.name.is_empty());
    assert_eq!(g.description, None);
    assert_eq!(g.status, Status::NotStarted);
    assert!(g.exercise_ids.is_empty());
}

#[test]
fn default_status_is_not_started() {
    assert_eq!(Status::default(), Status::NotStarted);
}

#[test]
fn add_goal_to_empty_model() {
    let mut m = Model::new();
    let g = goal_with("g1", vec![]);
    add_goal(g.clone(), &mut m);
    assert_eq!(m.goals.len(), 1);
    assert_eq!(m.goals[0], g);
}

#[test]
fn add_goal_makes_no_duplicate_id_check() {
    let mut m = Model::new();
    let g = goal_with("g1", vec![]);
    add_goal(g.clone(), &mut m);
    add_goal(g.clone(), &mut m);
    assert_eq!(m.goals.len(), 2);
    assert_eq!(m.goals[0], g);
    assert_eq!(m.goals[1], g);
}

#[test]
fn add_exercise_is_idempotent() {
    let mut m = Model::new();
    add_goal(goal_with("g1", vec!["e1".to_string()]), &mut m);
    add_exercise_to_goal("g1".to_string(), "e1".to_string(), &mut m);
    assert_eq!(m.goals[0].exercise_ids, vec!["e1".to_string()]);
}

#[test]
fn add_exercise_appends_in_order() {
    let mut m = Model::new();
    add_goal(goal_with("g1", vec!["e1".to_string()]), &mut m);
    add_exercise_to_goal("g1".to_string(), "e2".to_string(), &mut m);
    assert_eq!(
        m.goals[0].exercise_ids,
        vec!["e1".to_string(), "e2".to_string()]
    );
}

#[test]
fn add_exercise_to_missing_goal_is_a_silent_no_op() {
    let mut m = Model::new();
    add_goal(goal_with("g1", vec!["e1".to_string()]), &mut m);
    let before = m.clone();
    add_exercise_to_goal("missing".to_string(), "e1".to_string(), &mut m);
    assert_eq!(m, before);
}

#[test]
fn add_exercise_touches_only_the_first_matching_goal() {
    let mut m = Model::new();
    add_goal(goal_with("g1", vec![]), &mut m);
    add_goal(goal_with("g1", vec![]), &mut m);
    add_exercise_to_goal("g1".to_string(), "e1".to_string(), &mut m);
    assert_eq!(m.goals[0].exercise_ids, vec!["e1".to_string()]);
    assert!(m.goals[1].exercise_ids.is_empty());
}

#[test]
fn counter_events_update_the_count() {
    let mut m = Model::new();
    apply(Event::Increment, &mut m);
    apply(Event::Increment, &mut m);
    assert_eq!(view_of(&m), ViewModel { count: 2 });
    apply(Event::Decrement, &mut m);
    assert_eq!(view_of(&m), ViewModel { count: 1 });
    apply(Event::Reset, &mut m);
    assert_eq!(view_of(&m), ViewModel { count: 0 });
}

#[test]
fn counter_saturates_at_the_bounds() {
    let mut m = Model::new();
    m.count = i32::MAX;
    apply(Event::Increment, &mut m);
    assert_eq!(m.count, i32::MAX);
    m.count = i32::MIN;
    apply(Event::Decrement, &mut m);
    assert_eq!(m.count, i32::MIN);
}

#[test]
fn goal_events_go_through_apply() {
    let mut m = Model::new();
    apply(Event::AddGoal(goal_with("g1", vec![])), &mut m);
    apply(
        Event::AddExerciseToGoal("g1".to_string(), "e1".to_string()),
        &mut m,
    );
    assert_eq!(m.goals.len(), 1);
    assert_eq!(m.goals[0].exercise_ids, vec!["e1".to_string()]);
    assert_eq!(m.count, 0);
}

#[test]
fn events_leave_unrelated_state_alone() {
    let mut m = Model::new();
    add_goal(goal_with("g1", vec![]), &mut m);
    apply(Event::Increment, &mut m);
    assert_eq!(m.goals.len(), 1);
    let goals_before = m.goals.clone();
    apply(
        Event::AddExerciseToGoal("g1".to_string(), "e1".to_string()),
        &mut m,
    );
    assert_eq!(m.count, 1);
    assert_ne!(m.goals, goals_before);
    assert_eq!(m.goals[0].exercise_ids, vec!["e1".to_string()]);
}
