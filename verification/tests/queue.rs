use jumong_server::context::Context;
use jumong_server::job::Job;
use jumong_server::schedule::Schedule;
use jumong_server::schedule_queue::ScheduleQueue;
use jumong_server::selector::select_job;

fn job(tag: usize) -> Job {
    Job::ReadableFromWaiting(tag)
}

fn tag_of(j: &Job) -> usize {
    match j {
        Job::ReadableFromWaiting(i) => *i,
        _ => panic!("unexpected job"),
    }
}

#[test]
fn pop_earliest_orders_by_deadline() {
    let mut q = ScheduleQueue::new();
    q.push(Schedule::new(job(30), 30));
    q.push(Schedule::new(job(10), 10));
    q.push(Schedule::new(job(20), 20));
    let s = q.pop_earliest().unwrap();
    assert_eq!((tag_of(&s.job), s.deadline), (10, 10));
    let s = q.pop_earliest().unwrap();
    assert_eq!((tag_of(&s.job), s.deadline), (20, 20));
    let s = q.pop_earliest().unwrap();
    assert_eq!((tag_of(&s.job), s.deadline), (30, 30));
    assert!(q.pop_earliest().is_none());
}

#[test]
fn equal_deadlines_come_out_in_insertion_order() {
    let mut q = ScheduleQueue::new();
    q.push(Schedule::instant(job(1), 5));
    q.push(Schedule::instant(job(2), 5));
    q.push(Schedule::instant(job(3), 5));
    assert_eq!(tag_of(&q.pop_earliest().unwrap().job), 1);
    assert_eq!(tag_of(&q.pop_earliest().unwrap().job), 2);
    assert_eq!(tag_of(&q.pop_earliest().unwrap().job), 3);
}

#[test]
fn is_first_urgent_checks_the_earliest_deadline() {
    let mut q = ScheduleQueue::new();
    assert!(!q.is_first_urgent(100));
    q.push(Schedule::new(job(1), 50));
    assert!(!q.is_first_urgent(49));
    assert!(q.is_first_urgent(50));
    assert!(q.is_first_urgent(51));
}

#[test]
fn earliest_deadline_reports_the_minimum() {
    let mut q = ScheduleQueue::new();
    assert_eq!(q.earliest_deadline(), None);
    q.push(Schedule::new(job(1), 40));
    q.push(Schedule::new(job(2), 25));
    q.push(Schedule::new(job(3), 60));
    assert_eq!(q.earliest_deadline(), Some(25));
}

#[test]
fn due_jobs_are_never_starved() {
    // whenever the queue holds an entry with deadline <= now, the
    // selector returns it before any new I/O event is considered
    let mut ctx = Context::new();
    ctx.schedule_queue.push(Schedule::new(job(7), 100));
    assert!(select_job(&mut ctx, 99).is_none());
    let j = select_job(&mut ctx, 100).expect("a due job must be returned");
    assert_eq!(tag_of(&j), 7);
    assert_eq!(ctx.schedule_queue.len(), 0);
    assert!(select_job(&mut ctx, 100).is_none());
}

#[test]
fn selector_returns_the_earliest_due_job_first() {
    let mut ctx = Context::new();
    ctx.schedule_queue.push(Schedule::new(job(2), 20));
    ctx.schedule_queue.push(Schedule::new(job(1), 10));
    let j = select_job(&mut ctx, 50).unwrap();
    assert_eq!(tag_of(&j), 1);
    let j = select_job(&mut ctx, 50).unwrap();
    assert_eq!(tag_of(&j), 2);
}
