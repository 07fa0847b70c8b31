use maplibre::schedule::{MultiStage, NopStage, Schedule, Stage};

struct Counter {
    id: u32,
}

impl Stage<Vec<u32>> for Counter {
    fn run(&mut self, context: &mut Vec<u32>) {
        context.push(self.id);
    }
}

fn labels<S>(s: &Schedule<S>) -> Vec<String> {
    s.iter_stages().iter().map(|(l, _)| l.clone()).collect()
}

#[test]
fn add_stage_appends_in_order() {
    let mut schedule: Schedule<Counter> = Schedule::default();
    schedule.add_stage("a", Counter { id: 1 }).add_stage("b", Counter { id: 2 });
    assert_eq!(labels(&schedule), vec!["a".to_string(), "b".to_string()]);
    assert_eq!(schedule.get_stage("b").map(|s| s.id), Some(2));
    assert!(schedule.get_stage("c").is_none());
}

#[test]
fn add_stage_after_and_before_target() {
    let mut schedule: Schedule<Counter> = Schedule::new();
    schedule.add_stage("target_stage", Counter { id: 0 });
    schedule.add_stage("last", Counter { id: 9 });
    schedule.add_stage_after("target_stage", "after", Counter { id: 1 });
    schedule.add_stage_before("target_stage", "before", Counter { id: 2 });
    assert_eq!(
        labels(&schedule),
        vec![
            "before".to_string(),
            "target_stage".to_string(),
            "after".to_string(),
            "last".to_string()
        ]
    );
}

#[test]
fn remove_stage_drops_only_that_stage() {
    let mut schedule: Schedule<Counter> = Schedule::new();
    schedule.add_stage("a", Counter { id: 1 });
    schedule.add_stage("b", Counter { id: 2 });
    schedule.add_stage("c", Counter { id: 3 });
    schedule.remove_stage("b");
    assert_eq!(labels(&schedule), vec!["a".to_string(), "c".to_string()]);
    assert!(schedule.get_stage("b").is_none());
}

#[test]
fn remove_after_add_restores_schedule() {
    let mut schedule: Schedule<Counter> = Schedule::new();
    schedule.add_stage("a", Counter { id: 1 });
    schedule.add_stage("x", Counter { id: 7 }).remove_stage("x");
    assert_eq!(labels(&schedule), vec!["a".to_string()]);
}

#[test]
fn get_stage_mut_changes_the_stored_stage() {
    let mut schedule: Schedule<Counter> = Schedule::new();
    schedule.add_stage("my_stage", Counter { id: 1 });
    schedule.get_stage_mut("my_stage").unwrap().id = 5;
    assert_eq!(schedule.get_stage("my_stage").unwrap().id, 5);
    assert!(schedule.get_stage_mut("other").is_none());
}

#[test]
fn run_once_runs_stages_in_order() {
    let mut schedule: Schedule<Counter> = Schedule::new();
    schedule.add_stage("a", Counter { id: 1 });
    schedule.add_stage("c", Counter { id: 3 });
    schedule.add_stage_before("c", "b", Counter { id: 2 });
    let mut trace = Vec::new();
    schedule.run_once(&mut trace);
    schedule.run_once(&mut trace);
    assert_eq!(trace, vec![1, 2, 3, 1, 2, 3]);
}

#[test]
fn nop_stage_does_nothing() {
    let mut schedule: Schedule<NopStage> = Schedule::new();
    schedule.add_stage("my_stage", NopStage);
    let mut ctx: Vec<u32> = vec![4];
    schedule.run_once(&mut ctx);
    assert_eq!(ctx, vec![4]);
    assert!(schedule.get_stage("my_stage").is_some());
}

#[test]
fn multi_stage_runs_all_stages() {
    let mut multi = MultiStage::new([Counter { id: 4 }, Counter { id: 5 }]);
    let mut trace = Vec::new();
    multi.run(&mut trace);
    assert_eq!(trace, vec![4, 5]);
}

#[test]
fn a_schedule_nests_as_a_stage() {
    let mut inner: Schedule<Counter> = Schedule::new();
    inner.add_stage("x", Counter { id: 7 });
    inner.add_stage("y", Counter { id: 8 });
    let mut outer: Schedule<Schedule<Counter>> = Schedule::new();
    outer.add_stage("inner", inner);
    let mut trace = Vec::new();
    outer.run_once(&mut trace);
    Stage::run(&mut outer, &mut trace);
    assert_eq!(trace, vec![7, 8, 7, 8]);
}
