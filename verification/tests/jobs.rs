use oursh::job::{JobTable, FIRST_JOB_ID};
use oursh::runtime::Runtime;

#[test]
fn new_table_is_empty() {
    let table = JobTable::new();
    assert_eq!(table.len(), 0);
    assert!(table.get(0).is_none());
    assert_eq!(table.pids(), Vec::<i32>::new());
    assert_eq!(table.listing(), "");
}

#[test]
fn ids_start_at_the_base_and_rise_by_one() {
    let mut table = JobTable::new();
    assert_eq!(FIRST_JOB_ID, 1);
    assert_eq!(table.register(100, String::from("a")), Some(1));
    assert_eq!(table.register(200, String::from("b")), Some(2));
    assert_eq!(table.register(300, String::from("c")), Some(3));
    assert_eq!(table.len(), 3);
    assert_eq!(table.pids(), vec![100, 200, 300]);
}

#[test]
fn ids_are_not_given_again_after_a_job_has_left() {
    let mut table = JobTable::new();
    table.register(100, String::from("a"));
    table.register(200, String::from("b"));
    let gone = table.remove(200).unwrap();
    assert_eq!((gone.id, gone.pid, gone.body.as_str()), (2, 200, "b"));
    assert_eq!(table.register(300, String::from("c")), Some(3));
    let ids: Vec<u64> = (0..table.len()).map(|i| table.get(i).unwrap().id).collect();
    assert_eq!(ids, vec![1, 3]);
}

#[test]
fn lookup_by_process_id_finds_the_first_match() {
    let mut table = JobTable::new();
    table.register(100, String::from("a"));
    table.register(200, String::from("b"));
    table.register(100, String::from("c"));
    assert_eq!(table.find(100), Some(0));
    assert_eq!(table.find(200), Some(1));
    assert_eq!(table.find(300), None);
    assert!(table.tracks(200));
    assert!(!table.tracks(0));
}

#[test]
fn remove_takes_out_only_the_first_match() {
    let mut table = JobTable::new();
    table.register(100, String::from("a"));
    table.register(200, String::from("b"));
    table.register(100, String::from("c"));
    assert!(table.remove(300).is_none());
    assert_eq!(table.len(), 3);
    assert_eq!(table.remove(100).unwrap().id, 1);
    assert_eq!(table.pids(), vec![200, 100]);
    assert_eq!(table.remove(100).unwrap().id, 3);
    assert_eq!(table.pids(), vec![200]);
}

#[test]
fn listing_has_one_line_per_job_in_the_stable_format() {
    let mut table = JobTable::new();
    table.register(4242, String::from("sleep 10"));
    assert_eq!(table.listing(), "[1]\t4242\t\tsleep 10\n");
    table.register(17, String::from("cat | wc"));
    assert_eq!(table.listing(), "[1]\t4242\t\tsleep 10\n[2]\t17\t\tcat | wc\n");
    assert_eq!(table.listing().lines().count(), 2);
}

#[test]
fn runtime_starts_without_jobs() {
    let rt = Runtime::with_pid(5, true, String::from("/h"));
    assert_eq!(rt.pid, 5);
    assert!(rt.interactive);
    assert_eq!(rt.history_path, "/h");
    assert_eq!(rt.jobs.len(), 0);
}

#[test]
fn first_job_of_a_new_runtime_gets_the_first_id() {
    let mut rt = Runtime::with_pid(5, false, String::new());
    assert_eq!(rt.jobs.register(100, String::from("a")), Some(FIRST_JOB_ID));
    assert_eq!(rt.jobs.register(101, String::from("b")), Some(FIRST_JOB_ID + 1));
    let mut rt = Runtime::new(false, String::new());
    assert_eq!(rt.jobs.register(100, String::from("a")), Some(FIRST_JOB_ID));
}

#[test]
fn runtime_of_the_running_process_carries_its_process_id() {
    let rt = Runtime::new(false, String::from("/h"));
    assert!(rt.pid > 0);
    assert_eq!(Runtime::new(true, String::new()).pid, rt.pid);
    assert!(!rt.interactive);
}
