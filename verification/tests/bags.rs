use emergent::cmd::Cmd;
use emergent::task::Deferred;
use emergent::task::Task;

struct Answer {
    text: &'static str,
}

impl Task<String> for Answer {
    fn yields(&self, _outcome: String) -> bool {
        unreachable!()
    }

    fn run(self: Box<Self>) -> String {
        self.text.to_string()
    }
}

fn answers(cmd: Cmd<String>) -> Vec<String> {
    let mut all = Vec::new();
    for task in cmd.unpack() {
        all.push(task.run());
    }
    all
}

#[test]
fn the_empty_bag_holds_nothing() {
    let cmd: Cmd<String> = Cmd::none();
    assert!(cmd.is_empty());
    assert_eq!(cmd.len(), 0);
    assert_eq!(answers(cmd), Vec::<String>::new());
}

#[test]
fn a_single_bag_holds_its_task() {
    let cmd = Cmd::single(Deferred::new(Answer { text: "one" }));
    assert!(!cmd.is_empty());
    assert_eq!(cmd.len(), 1);
    assert_eq!(answers(cmd), vec!["one".to_string()]);
}

#[test]
fn a_batch_releases_every_task_once() {
    let cmd = Cmd::batch(vec![
        Deferred::new(Answer { text: "a" }),
        Deferred::new(Answer { text: "b" }),
        Deferred::new(Answer { text: "a" }),
    ]);
    assert_eq!(cmd.len(), 3);
    assert!(!cmd.is_empty());
    let mut all = answers(cmd);
    all.sort();
    assert_eq!(all, vec!["a".to_string(), "a".to_string(), "b".to_string()]);
}

#[test]
fn a_batch_of_nothing_is_empty() {
    let cmd: Cmd<String> = Cmd::batch(Vec::new());
    assert!(cmd.is_empty());
    assert_eq!(cmd.len(), 0);
}

#[test]
fn a_closure_runs_as_a_task() {
    let base = 40;
    let task = Deferred::from_fn(move || base + 2);
    assert_eq!(task.run(), 42);
}

#[test]
fn a_task_yields_what_its_work_yields() {
    let task: Deferred<String> = Deferred::new(Answer { text: "done" });
    assert_eq!(task.run(), "done".to_string());
}

#[test]
fn a_closure_may_give_away_what_it_holds() {
    let text = String::from("moved");
    let task = Deferred::from_fn(move || text);
    assert_eq!(task.run(), "moved".to_string());
}

#[test]
fn a_bag_keeps_its_tasks_until_it_is_unpacked() {
    let first = Cmd::single(Deferred::new(Answer { text: "kept" }));
    let second = Cmd::batch(first.unpack());
    assert_eq!(second.len(), 1);
    assert_eq!(answers(second), vec!["kept".to_string()]);
}
