use std::sync::{Arc, Mutex};
use zenith_task::executor::TaskSchedular;
use zenith_task::naming::{decimal_string, pool_thread_names, thread_names};
use zenith_task::{config, initialize, BoxedTask, Task, TaskId};

struct SumTask {
    index: i64,
}

impl Task for SumTask {
    type Output = i64;

    fn execute(self) -> i64 {
        let mut sum = 0;
        for _ in 0..10 {
            sum += self.index;
        }
        sum
    }
}

struct LogTask {
    label: &'static str,
    log: Arc<Mutex<Vec<String>>>,
}

impl Task for LogTask {
    type Output = ();

    fn execute(self) {
        self.log.lock().unwrap().push(self.label.to_string());
    }
}

fn run_one<T: Task>(s: &mut TaskSchedular<T>, worker: usize) -> Option<(TaskId, T::Output)> {
    let task = s.next_task(worker)?;
    let id = task.id();
    let out = task.execute();
    s.complete(id);
    Some((id, out))
}

#[test]
fn identifiers_are_pairwise_distinct() {
    let mut s: TaskSchedular<SumTask> = TaskSchedular::new(&[("worker", 1)]);
    let mut ids = Vec::new();
    for i in 0..1000 {
        ids.push(s.submit(SumTask { index: i }));
    }
    for (k, id) in ids.iter().enumerate() {
        assert_eq!(id.0, k as u64);
        assert!(id.valid());
    }
    let mut sorted: Vec<u64> = ids.iter().map(|i| i.0).collect();
    sorted.dedup();
    assert_eq!(sorted.len(), 1000);
}

#[test]
fn invalid_identifier_is_not_valid() {
    assert!(!TaskId::invalid().valid());
    let mut counter: u64 = 41;
    let id = TaskId::new(&mut counter);
    assert_eq!(id, TaskId(41));
    assert_eq!(counter, 42);
}

#[test]
fn boxed_task_issues_a_fresh_identifier() {
    let mut counter: u64 = 7;
    let a = BoxedTask::new(&mut counter, SumTask { index: 2 });
    let b = BoxedTask::new(&mut counter, SumTask { index: 3 });
    assert_eq!(a.id(), TaskId(7));
    assert_eq!(b.id(), TaskId(8));
    assert!(a.id().valid());
    assert_eq!(counter, 9);
    assert_eq!(a.execute(), 20);
    assert_eq!(b.execute(), 30);
}

#[test]
fn concurrent_summation_of_many_tasks() {
    let mut s: TaskSchedular<SumTask> = TaskSchedular::new(&[("worker", 2)]);
    let num_tasks = 100000i64;
    for i in 0..num_tasks {
        s.submit(SumTask { index: i });
    }
    let mut result = 0i64;
    let mut count = 0;
    let mut worker = 0;
    while let Some((_, v)) = run_one(&mut s, worker) {
        result += v;
        count += 1;
        worker = 1 - worker;
    }
    assert_eq!(count, 100000);
    assert_eq!(result, 49999500000);
    assert_eq!(s.global_len(), 0);
}

#[test]
fn diamond_dependencies_run_in_order() {
    let log = Arc::new(Mutex::new(Vec::new()));
    let mk = |label| LogTask { label, log: Arc::clone(&log) };
    let mut s: TaskSchedular<LogTask> = TaskSchedular::new(&[("main", 1), ("worker", 1)]);
    let a = s.submit_to("main", mk("A")).ok().unwrap();
    let b = s.submit(mk("B"));
    let c = s.submit_after(mk("C"), &[a, b]);
    let _d = s.submit_after(mk("D"), &[c]);

    // the pool thread takes B, then finds C and D waiting
    assert_eq!(run_one(&mut s, 1).map(|r| r.0), Some(b));
    assert!(run_one(&mut s, 1).is_none());
    assert_eq!(s.global_len(), 2);
    // the dedicated thread runs A; C and D follow on the pool thread
    assert_eq!(run_one(&mut s, 0).map(|r| r.0), Some(a));
    assert_eq!(run_one(&mut s, 1).map(|r| r.0), Some(c));
    assert!(run_one(&mut s, 1).is_some());
    assert!(run_one(&mut s, 1).is_none());

    let log = log.lock().unwrap().clone();
    let pos = |l: &str| log.iter().position(|x| x == l).unwrap();
    assert_eq!(log.len(), 4);
    assert!(pos("C") > pos("A"));
    assert!(pos("C") > pos("B"));
    assert!(pos("D") > pos("C"));
}

#[test]
fn dependent_task_waits_for_its_dependency() {
    let mut s: TaskSchedular<SumTask> = TaskSchedular::new(&[("io", 1), ("worker", 1)]);
    let a = s.submit_to("io", SumTask { index: 1 }).ok().unwrap();
    let b = s.submit_after(SumTask { index: 2 }, &[a]);
    assert!(run_one(&mut s, 1).is_none());
    assert!(!s.is_completed(a));
    assert_eq!(run_one(&mut s, 0), Some((a, 10)));
    assert!(s.is_completed(a));
    assert_eq!(run_one(&mut s, 1), Some((b, 20)));
}

#[test]
fn reserved_dependency_counts_as_satisfied() {
    let mut s: TaskSchedular<SumTask> = TaskSchedular::new(&[("worker", 1)]);
    let b = s.submit_after(SumTask { index: 3 }, &[TaskId::invalid()]);
    assert!(s.is_completed(TaskId::invalid()));
    assert_eq!(run_one(&mut s, 0), Some((b, 30)));
}

#[test]
fn local_tasks_run_before_global_ones() {
    let mut s: TaskSchedular<SumTask> = TaskSchedular::new(&[("main", 1)]);
    let g = s.submit(SumTask { index: 1 });
    let l = s.submit_to("main", SumTask { index: 2 }).ok().unwrap();
    assert_eq!(run_one(&mut s, 0).map(|r| r.0), Some(l));
    assert_eq!(run_one(&mut s, 0).map(|r| r.0), Some(g));
}

#[test]
fn not_ready_local_record_goes_back_to_the_tail() {
    let mut s: TaskSchedular<SumTask> = TaskSchedular::new(&[("main", 1), ("other", 1)]);
    let blocker = s.submit_to("other", SumTask { index: 0 }).ok().unwrap();
    let waiting = s.submit_to_after("main", SumTask { index: 1 }, &[blocker]).ok().unwrap();
    let free = s.submit_to("main", SumTask { index: 2 }).ok().unwrap();
    // one local record per decision: the waiting one is moved behind the free one
    assert!(run_one(&mut s, 0).is_none());
    assert_eq!(s.local_len(0), 2);
    assert_eq!(run_one(&mut s, 0).map(|r| r.0), Some(free));
    assert_eq!(run_one(&mut s, 1).map(|r| r.0), Some(blocker));
    assert_eq!(run_one(&mut s, 0).map(|r| r.0), Some(waiting));
}

#[test]
fn submit_to_unknown_thread_is_reported() {
    let mut s: TaskSchedular<SumTask> = TaskSchedular::new(&[("main", 1), ("worker", 2)]);
    let r = s.submit_to("ghost", SumTask { index: 1 });
    let e = r.err().unwrap();
    assert_eq!(e.name, "ghost");
    assert_eq!(e.message(), "Thread 'ghost' not found");
    assert_eq!(s.global_len(), 0);
    for i in 0..s.num_worker_threads() {
        assert_eq!(s.local_len(i), 0);
    }
    // no identifier was used up
    assert_eq!(s.submit(SumTask { index: 1 }), TaskId(0));
    let r = s.submit_to_after("ghost", SumTask { index: 1 }, &[TaskId(0)]);
    assert!(r.is_err());
    assert!(!s.has_thread("ghost"));
    assert!(s.has_thread("worker_1"));
    assert!(!s.has_thread("worker"));
}

#[test]
fn pool_shape_follows_the_configuration() {
    let s: TaskSchedular<SumTask> = TaskSchedular::new(&[("worker", 3)]);
    assert_eq!(s.worker_names(), vec!["worker_0", "worker_1", "worker_2"]);
    let s: TaskSchedular<SumTask> = TaskSchedular::new(&[("main", 1)]);
    assert_eq!(s.worker_names(), vec!["main"]);
    let s: TaskSchedular<SumTask> = TaskSchedular::new(&[("main", 1), ("render", 1), ("worker", 2)]);
    assert_eq!(s.worker_names(), vec!["main", "render", "worker_0", "worker_1"]);
    assert_eq!(s.find_thread("render"), Some(1));
    assert_eq!(s.find_thread("worker_1"), Some(3));
    assert_eq!(s.find_thread("nope"), None);
    let s: TaskSchedular<SumTask> = TaskSchedular::new(&[("idle", 0)]);
    assert_eq!(s.num_worker_threads(), 0);
}

#[test]
fn pool_names_use_decimal_suffixes() {
    assert_eq!(decimal_string(0), "0");
    assert_eq!(decimal_string(7), "7");
    assert_eq!(decimal_string(10), "10");
    assert_eq!(decimal_string(1203), "1203");
    let names = pool_thread_names("w", 12);
    assert_eq!(names.len(), 12);
    assert_eq!(names[11], "w_11");
    assert_eq!(pool_thread_names("solo", 1), vec!["solo"]);
    assert_eq!(thread_names(&[("a", 2), ("b", 1)]), vec!["a_0", "a_1", "b"]);
}

#[test]
fn default_pool_has_eight_workers() {
    let s: TaskSchedular<SumTask> = initialize();
    assert_eq!(s.num_worker_threads(), 8);
    assert_eq!(s.worker_names()[7], "worker_7");
    let d: TaskSchedular<SumTask> = TaskSchedular::default();
    assert_eq!(d.worker_names(), s.worker_names());
}

#[test]
fn shutdown_twice_joins_each_thread_once() {
    let mut s: TaskSchedular<SumTask> = TaskSchedular::new(&[("worker", 2), ("main", 1)]);
    let first = s.join_all_workers();
    assert_eq!(first, vec!["worker_0", "worker_1", "main"]);
    let second = s.join_all_workers();
    assert!(second.is_empty());
    assert_eq!(s.num_worker_threads(), 0);
}

#[test]
fn config_then_teardown_joins_each_thread_once() {
    let mut s: TaskSchedular<SumTask> = TaskSchedular::new(&[("worker", 2)]);
    let g = s.submit(SumTask { index: 5 });
    s.submit_to("worker_0", SumTask { index: 6 }).ok().unwrap();
    let old = config(&mut s, &[("main", 1), ("render", 1)]);
    assert_eq!(old, vec!["worker_0", "worker_1"]);
    assert_eq!(s.worker_names(), vec!["main", "render"]);
    // the local task of a removed thread is gone, the global one stays
    assert_eq!(s.local_len(0), 0);
    assert_eq!(s.global_len(), 1);
    let last = s.join_all_workers();
    assert_eq!(last, vec!["main", "render"]);
    assert!(s.join_all_workers().is_empty());
    assert_eq!(s.global_len(), 1);
    let _ = g;
}

#[test]
fn fresh_scheduler_can_submit() {
    let s: TaskSchedular<SumTask> = TaskSchedular::new(&[("worker", 1)]);
    assert!(s.can_submit());
}
