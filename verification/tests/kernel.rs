use std::cell::RefCell;
use std::rc::Rc;

use actor_kernel::actor::{
    Actor, Behavior, Context, Outcome, Runtime, Timer, TimerHeap, Work,
};

type Log = Rc<RefCell<Vec<String>>>;

fn new_log() -> Log {
    Rc::new(RefCell::new(Vec::new()))
}

fn entries(log: &Log) -> Vec<String> {
    log.borrow().clone()
}

fn lines(expected: &[&str]) -> Vec<String> {
    expected.iter().map(|line| line.to_string()).collect()
}

struct Probe {
    name: &'static str,
    log: Log,
    hits: u32,
}

enum Seed {
    Now(&'static str, Log),
    Never(Log),
    Retry { name: &'static str, log: Log, attempts_left: u32, retry_at: u32 },
}

enum Msg {
    Note(&'static str),
    Chain(Vec<&'static str>),
    Hit,
    Forever,
    Later(u32, &'static str),
    Spawn(&'static str),
    Tell(Actor<Probe>, &'static str),
}

impl Behavior for Probe {
    type Message = Msg;
    type Seed = Seed;

    fn init(seed: Seed, mut context: Context<'_, Self, Work<Self>>) -> Option<Self> {
        match seed {
            Seed::Now(name, log) => {
                log.borrow_mut().push(format!("init {name}"));
                Some(Probe { name, log, hits: 0 })
            }
            Seed::Never(log) => {
                log.borrow_mut().push("not yet".to_string());
                None
            }
            Seed::Retry { name, log, attempts_left, retry_at } => {
                if attempts_left == 0 {
                    log.borrow_mut().push(format!("init {name}"));
                    Some(Probe { name, log, hits: 0 })
                } else {
                    log.borrow_mut().push(format!("{name} waits"));
                    let me = context.actor();
                    me.call_pre_at(
                        context.core,
                        retry_at,
                        Seed::Retry {
                            name,
                            log,
                            attempts_left: attempts_left - 1,
                            retry_at: retry_at + 1,
                        },
                    );
                    None
                }
            }
        }
    }

    fn receive(&mut self, message: Msg, mut context: Context<'_, Self, Work<Self>>) {
        match message {
            Msg::Note(text) => {
                self.log.borrow_mut().push(format!("{}: {text}", self.name));
            }
            Msg::Chain(mut rest) => {
                if !rest.is_empty() {
                    let first = rest.remove(0);
                    self.log.borrow_mut().push(format!("{}: {first}", self.name));
                    if !rest.is_empty() {
                        let me = context.actor();
                        context.defer(Work::Apply(me, Msg::Chain(rest)));
                    }
                }
            }
            Msg::Hit => {
                self.hits += 1;
            }
            Msg::Forever => {
                self.hits += 1;
                let me = context.actor();
                context.defer(Work::Apply(me, Msg::Forever));
            }
            Msg::Later(tick, text) => {
                let me = context.actor();
                context.timer(tick, Work::Apply(me, Msg::Note(text)));
            }
            Msg::Spawn(name) => {
                assert!(context.issued() < usize::MAX);
                let child = context.new_actor();
                child.call_pre(context.core, Seed::Now(name, self.log.clone()));
                child.call(context.core, Msg::Note("hello"));
            }
            Msg::Tell(other, text) => {
                other.call(context.core, Msg::Note(text));
            }
        }
    }
}

fn ready(runtime: &mut Runtime<Probe>, name: &'static str, log: &Log) -> Actor<Probe> {
    let actor = runtime.new_actor();
    actor.apply_pre(runtime, Seed::Now(name, log.clone()));
    assert!(!actor.is_pre(&runtime.owner));
    log.borrow_mut().clear();
    actor
}

fn hits(runtime: &Runtime<Probe>, actor: &Actor<Probe>) -> u32 {
    match runtime.owner.ro(actor) {
        Some(probe) => probe.hits,
        None => panic!("the actor is not ready"),
    }
}

#[test]
fn buffered_messages_run_in_order_once_the_actor_is_ready() {
    let log = new_log();
    let mut runtime: Runtime<Probe> = Runtime::default();
    let a = runtime.new_actor();
    a.apply(&mut runtime, Msg::Note("msg1"));
    a.apply(&mut runtime, Msg::Note("msg2"));
    assert!(a.is_pre(&runtime.owner));
    assert_eq!(runtime.core.queue_len(), 0);
    assert_eq!(runtime.owner.pending(&a), 2);
    assert!(runtime.owner.ro(&a).is_none());

    a.call_pre(&mut runtime.core, Seed::Now("A", log.clone()));
    assert_eq!(runtime.run(1), Outcome::Quiescent);
    assert_eq!(entries(&log), lines(&["init A", "A: msg1", "A: msg2"]));
    assert!(!a.is_pre(&runtime.owner));

    a.apply_pre(&mut runtime, Seed::Now("B", log.clone()));
    a.apply_pre(&mut runtime, Seed::Never(log.clone()));
    assert_eq!(entries(&log), lines(&["init A", "A: msg1", "A: msg2"]));
    a.apply(&mut runtime, Msg::Note("msg3"));
    assert_eq!(entries(&log), lines(&["init A", "A: msg1", "A: msg2", "A: msg3"]));
}

#[test]
fn timer_fires_once_when_its_tick_is_reached() {
    let log = new_log();
    let mut runtime: Runtime<Probe> = Runtime::default();
    let a = ready(&mut runtime, "A", &log);
    a.call_at(&mut runtime.core, 5, Msg::Note("f"));

    assert_eq!(runtime.run(3), Outcome::Quiescent);
    assert!(entries(&log).is_empty());
    assert_eq!(runtime.core.timer_count(), 1);

    assert_eq!(runtime.run(5), Outcome::Quiescent);
    assert_eq!(entries(&log), lines(&["A: f"]));
    assert_eq!(runtime.core.timer_count(), 0);

    assert_eq!(runtime.run(10), Outcome::Quiescent);
    assert_eq!(entries(&log), lines(&["A: f"]));
}

#[test]
fn timer_fires_on_the_first_tick_past_its_own() {
    let log = new_log();
    let mut runtime: Runtime<Probe> = Runtime::default();
    let a = ready(&mut runtime, "A", &log);
    a.call_at(&mut runtime.core, 5, Msg::Note("f"));
    assert_eq!(runtime.run(4), Outcome::Quiescent);
    assert!(entries(&log).is_empty());
    assert_eq!(runtime.run(9), Outcome::Quiescent);
    assert_eq!(entries(&log), lines(&["A: f"]));
    assert_eq!(runtime.run(9), Outcome::Quiescent);
    assert_eq!(entries(&log), lines(&["A: f"]));
}

#[test]
fn nested_defer_runs_within_one_tick() {
    let log = new_log();
    let mut runtime: Runtime<Probe> = Runtime::default();
    let a = ready(&mut runtime, "A", &log);
    a.call(&mut runtime.core, Msg::Chain(vec!["start", "g", "h"]));
    assert_eq!(runtime.run(0), Outcome::Quiescent);
    assert_eq!(entries(&log), lines(&["A: start", "A: g", "A: h"]));
    assert_eq!(runtime.core.queue_len(), 0);
}

#[test]
fn rounds_are_first_in_first_out() {
    let log = new_log();
    let mut runtime: Runtime<Probe> = Runtime::default();
    let a = ready(&mut runtime, "A", &log);
    let b = ready(&mut runtime, "B", &log);
    a.call(&mut runtime.core, Msg::Chain(vec!["a1", "a2", "a3"]));
    b.call(&mut runtime.core, Msg::Chain(vec!["b1", "b2"]));
    a.call(&mut runtime.core, Msg::Note("a-last"));
    assert_eq!(runtime.run(0), Outcome::Quiescent);
    assert_eq!(
        entries(&log),
        lines(&["A: a1", "B: b1", "A: a-last", "A: a2", "B: b2", "A: a3"])
    );
}

#[test]
fn work_deferred_in_a_round_waits_for_the_next_round() {
    let log = new_log();
    let mut runtime: Runtime<Probe> = Runtime::default();
    let a = ready(&mut runtime, "A", &log);
    a.call(&mut runtime.core, Msg::Chain(vec!["first", "second"]));
    a.call(&mut runtime.core, Msg::Note("third"));

    assert_eq!(runtime.core.queue_len(), 2);
    assert!(runtime.round());
    assert_eq!(entries(&log), lines(&["A: first", "A: third"]));
    assert_eq!(runtime.core.queue_len(), 1);

    assert!(runtime.round());
    assert_eq!(entries(&log), lines(&["A: first", "A: third", "A: second"]));
    assert_eq!(runtime.core.queue_len(), 0);

    assert!(runtime.round());
    assert_eq!(entries(&log).len(), 3);
}

#[test]
fn a_batch_runs_in_the_order_given() {
    let log = new_log();
    let mut runtime: Runtime<Probe> = Runtime::default();
    let a = ready(&mut runtime, "A", &log);
    let mut batch = std::collections::VecDeque::new();
    batch.push_back(Work::Apply(a, Msg::Note("one")));
    batch.push_back(Work::Apply(a, Msg::Chain(vec!["two", "later"])));
    batch.push_back(Work::Apply(a, Msg::Note("three")));
    assert!(runtime.run_round(batch));
    assert_eq!(entries(&log), lines(&["A: one", "A: two", "A: three"]));
    assert_eq!(runtime.core.queue_len(), 1);
    assert!(runtime.run_round(std::collections::VecDeque::new()));
}

#[test]
fn messages_to_an_actor_that_is_not_ready_do_not_run() {
    let log = new_log();
    let mut runtime: Runtime<Probe> = Runtime::default();
    let a = runtime.new_actor();
    a.call(&mut runtime.core, Msg::Note("early"));
    a.call_pre(&mut runtime.core, Seed::Never(log.clone()));
    assert_eq!(runtime.run(0), Outcome::Quiescent);
    assert_eq!(entries(&log), lines(&["not yet"]));
    assert!(a.is_pre(&runtime.owner));
    assert_eq!(runtime.run(1), Outcome::Quiescent);
    assert_eq!(entries(&log), lines(&["not yet"]));

    a.call_pre(&mut runtime.core, Seed::Now("A", log.clone()));
    a.call(&mut runtime.core, Msg::Note("late"));
    assert_eq!(runtime.run(2), Outcome::Quiescent);
    assert_eq!(entries(&log), lines(&["not yet", "init A", "A: late", "A: early"]));
}

#[test]
fn construction_flushes_behind_the_work_already_queued() {
    let log = new_log();
    let mut runtime: Runtime<Probe> = Runtime::default();
    let a = runtime.new_actor();
    let b = ready(&mut runtime, "B", &log);
    a.apply(&mut runtime, Msg::Note("one"));
    a.apply(&mut runtime, Msg::Note("two"));
    b.call(&mut runtime.core, Msg::Note("queued"));
    a.apply_pre(&mut runtime, Seed::Now("A", log.clone()));
    assert_eq!(runtime.core.queue_len(), 3);
    assert_eq!(entries(&log), lines(&["init A"]));
    assert_eq!(runtime.run(0), Outcome::Quiescent);
    assert_eq!(entries(&log), lines(&["init A", "B: queued", "A: one", "A: two"]));
}

#[test]
fn settle_without_a_value_changes_nothing() {
    let mut runtime: Runtime<Probe> = Runtime::default();
    let a = runtime.new_actor();
    a.apply(&mut runtime, Msg::Hit);
    a.settle(&mut runtime, None);
    assert!(a.is_pre(&runtime.owner));
    assert_eq!(runtime.core.queue_len(), 0);
    assert_eq!(runtime.owner.pending(&a), 1);
}

#[test]
fn settle_with_a_value_makes_the_actor_ready() {
    let log = new_log();
    let mut runtime: Runtime<Probe> = Runtime::default();
    let a = runtime.new_actor();
    a.apply(&mut runtime, Msg::Hit);
    a.apply(&mut runtime, Msg::Hit);
    a.settle(&mut runtime, Some(Probe { name: "A", log: log.clone(), hits: 40 }));
    assert!(!a.is_pre(&runtime.owner));
    assert_eq!(runtime.owner.pending(&a), 0);
    assert_eq!(runtime.core.queue_len(), 2);
    assert_eq!(hits(&runtime, &a), 40);
    assert_eq!(runtime.run(0), Outcome::Quiescent);
    assert_eq!(hits(&runtime, &a), 42);
}

#[test]
fn clones_of_a_handle_name_the_same_actor() {
    let log = new_log();
    let mut runtime: Runtime<Probe> = Runtime::default();
    let a = ready(&mut runtime, "A", &log);
    let b = a.clone();
    let c = a.actor();
    assert!(a == b);
    assert!(a == c);
    a.apply(&mut runtime, Msg::Hit);
    assert_eq!(hits(&runtime, &b), 1);
    b.apply(&mut runtime, Msg::Hit);
    c.apply(&mut runtime, Msg::Hit);
    assert_eq!(hits(&runtime, &a), 3);

    let other = runtime.new_actor();
    assert!(other != a);
    let pending = other.clone();
    pending.apply_pre(&mut runtime, Seed::Now("O", log.clone()));
    assert!(!other.is_pre(&runtime.owner));
}

#[test]
fn value_changed_through_a_borrow_is_seen_by_messages() {
    let log = new_log();
    let mut runtime: Runtime<Probe> = Runtime::default();
    let a = ready(&mut runtime, "A", &log);
    match a.borrow_ready(&mut runtime.owner) {
        Some(probe) => probe.hits = 10,
        None => panic!("the actor is not ready"),
    }
    a.apply(&mut runtime, Msg::Hit);
    assert_eq!(hits(&runtime, &a), 11);
}

#[test]
fn timers_fire_earliest_first() {
    let log = new_log();
    let mut runtime: Runtime<Probe> = Runtime::default();
    let a = ready(&mut runtime, "A", &log);
    a.call_at(&mut runtime.core, 3, Msg::Note("three"));
    a.call_at(&mut runtime.core, 1, Msg::Note("one"));
    a.call_at(&mut runtime.core, 7, Msg::Note("seven"));
    a.call_at(&mut runtime.core, 2, Msg::Note("two"));
    assert_eq!(runtime.run(3), Outcome::Quiescent);
    assert_eq!(entries(&log), lines(&["A: one", "A: two", "A: three"]));
    assert_eq!(runtime.core.timer_count(), 1);
    assert_eq!(runtime.core.next_timer(), Some(7));
}

#[test]
fn timers_of_one_tick_all_fire() {
    let log = new_log();
    let mut runtime: Runtime<Probe> = Runtime::default();
    let a = ready(&mut runtime, "A", &log);
    a.call_at(&mut runtime.core, 4, Msg::Hit);
    a.call_at(&mut runtime.core, 4, Msg::Hit);
    a.call_at(&mut runtime.core, 4, Msg::Hit);
    assert_eq!(runtime.run(4), Outcome::Quiescent);
    assert_eq!(hits(&runtime, &a), 3);
    assert_eq!(runtime.run(5), Outcome::Quiescent);
    assert_eq!(hits(&runtime, &a), 3);
}

#[test]
fn due_timers_run_before_nothing_else_is_polled() {
    let log = new_log();
    let mut runtime: Runtime<Probe> = Runtime::default();
    let a = ready(&mut runtime, "A", &log);
    a.call(&mut runtime.core, Msg::Later(2, "late"));
    assert_eq!(runtime.run(5), Outcome::Quiescent);
    assert!(entries(&log).is_empty());
    assert_eq!(runtime.core.timer_count(), 1);
    assert_eq!(runtime.run(6), Outcome::Quiescent);
    assert_eq!(entries(&log), lines(&["A: late"]));
}

#[test]
fn timers_join_the_queue_behind_deferred_work() {
    let log = new_log();
    let mut runtime: Runtime<Probe> = Runtime::default();
    let a = ready(&mut runtime, "A", &log);
    a.call_at(&mut runtime.core, 1, Msg::Note("timed"));
    a.call(&mut runtime.core, Msg::Note("deferred"));
    assert_eq!(runtime.run(1), Outcome::Quiescent);
    assert_eq!(entries(&log), lines(&["A: deferred", "A: timed"]));
}

#[test]
fn construction_retries_from_a_timer() {
    let log = new_log();
    let mut runtime: Runtime<Probe> = Runtime::default();
    let a = runtime.core.spawn(Seed::Retry {
        name: "A",
        log: log.clone(),
        attempts_left: 2,
        retry_at: 1,
    });
    a.call(&mut runtime.core, Msg::Note("hello"));
    assert_eq!(runtime.run(0), Outcome::Quiescent);
    assert_eq!(entries(&log), lines(&["A waits"]));
    assert!(a.is_pre(&runtime.owner));
    assert_eq!(runtime.run(1), Outcome::Quiescent);
    assert_eq!(entries(&log), lines(&["A waits", "A waits"]));
    assert_eq!(runtime.run(2), Outcome::Quiescent);
    assert_eq!(entries(&log), lines(&["A waits", "A waits", "init A", "A: hello"]));
    assert!(!a.is_pre(&runtime.owner));
}

#[test]
fn actors_can_be_made_while_work_runs() {
    let log = new_log();
    let mut runtime: Runtime<Probe> = Runtime::default();
    let a = ready(&mut runtime, "A", &log);
    a.call(&mut runtime.core, Msg::Spawn("child"));
    assert_eq!(runtime.run(0), Outcome::Quiescent);
    assert_eq!(entries(&log), lines(&["init child", "child: hello"]));
    assert_eq!(runtime.core.issued(), 2);
}

#[test]
fn actors_can_message_each_other() {
    let log = new_log();
    let mut runtime: Runtime<Probe> = Runtime::default();
    let a = ready(&mut runtime, "A", &log);
    let b = ready(&mut runtime, "B", &log);
    a.call(&mut runtime.core, Msg::Tell(b, "from a"));
    b.call(&mut runtime.core, Msg::Tell(a, "from b"));
    assert_eq!(runtime.run(0), Outcome::Quiescent);
    assert_eq!(entries(&log), lines(&["B: from a", "A: from b"]));
}

#[test]
fn run_stops_at_the_round_limit() {
    let log = new_log();
    let mut runtime: Runtime<Probe> = Runtime::default();
    assert_eq!(runtime.round_limit, u64::MAX);
    runtime.round_limit = 3;
    let a = ready(&mut runtime, "A", &log);
    a.call(&mut runtime.core, Msg::Forever);
    assert_eq!(runtime.run(0), Outcome::RoundLimit);
    assert_eq!(hits(&runtime, &a), 3);
    assert_eq!(runtime.core.queue_len(), 1);
    assert_eq!(runtime.run(1), Outcome::RoundLimit);
    assert_eq!(hits(&runtime, &a), 6);
}

#[test]
fn run_with_no_rounds_allowed_runs_nothing() {
    let log = new_log();
    let mut runtime: Runtime<Probe> = Runtime::default();
    runtime.round_limit = 0;
    let a = ready(&mut runtime, "A", &log);
    assert_eq!(runtime.run(0), Outcome::Quiescent);
    a.call(&mut runtime.core, Msg::Hit);
    assert_eq!(runtime.run(0), Outcome::RoundLimit);
    assert_eq!(hits(&runtime, &a), 0);
}

#[test]
fn work_for_another_arbitrator_abandons_the_tick() {
    let log = new_log();
    let mut first: Runtime<Probe> = Runtime::new();
    let mut second: Runtime<Probe> = Runtime::new();
    let a = ready(&mut first, "A", &log);
    let stranger = second.new_actor();
    assert!(a.maker() == first.owner.id());
    assert!(stranger.maker() == second.owner.id());
    assert!(a.maker() != stranger.maker());
    assert!(first.owner.owns(&a));
    assert!(!first.owner.owns(&stranger));
    assert!(second.owner.owns(&stranger));
    a.call(&mut first.core, Msg::Note("before"));
    stranger.call(&mut first.core, Msg::Note("lost"));
    a.call(&mut first.core, Msg::Note("after"));
    assert_eq!(first.run(0), Outcome::InvariantViolation);
    assert_eq!(entries(&log), lines(&["A: before"]));
}

#[test]
fn execute_refuses_a_foreign_handle() {
    let log = new_log();
    let mut first: Runtime<Probe> = Runtime::new();
    let mut second: Runtime<Probe> = Runtime::new();
    let a = ready(&mut first, "A", &log);
    let stranger = second.new_actor();
    assert!(!first.execute(Work::Apply(stranger, Msg::Hit)));
    assert!(!first.execute(Work::ApplyPre(stranger, Seed::Now("S", log.clone()))));
    assert!(entries(&log).is_empty());
    assert!(first.execute(Work::Apply(a, Msg::Hit)));
    assert_eq!(hits(&first, &a), 1);
}

#[test]
fn idle_run_is_quiescent() {
    let mut runtime: Runtime<Probe> = Runtime::default();
    assert_eq!(runtime.run(0), Outcome::Quiescent);
    assert_eq!(runtime.run(100), Outcome::Quiescent);
    assert_eq!(runtime.core.queue_len(), 0);
    assert_eq!(runtime.core.timer_count(), 0);
}

#[test]
fn a_new_runtime_is_empty() {
    let runtime: Runtime<Probe> = Runtime::default();
    assert!(runtime.owner.id() == runtime.core.maker());
    assert_eq!(runtime.core.issued(), 0);
    assert_eq!(runtime.core.queue_len(), 0);
    assert_eq!(runtime.core.timer_count(), 0);
    assert_eq!(runtime.round_limit, u64::MAX);
    let other: Runtime<Probe> = Runtime::new();
    assert!(other.owner.id() == other.core.maker());
    assert!(other.owner.id() != runtime.owner.id());
}

#[test]
fn new_actors_are_distinct_and_not_ready() {
    let mut runtime: Runtime<Probe> = Runtime::new();
    let a = runtime.new_actor();
    let b = runtime.core.new_actor();
    let c = Actor::new(&mut runtime.core);
    assert!(a != b);
    assert!(b != c);
    assert!(a != c);
    assert!(a.maker() == runtime.owner.id());
    assert!(c.maker() == runtime.owner.id());
    assert!(a.is_pre(&runtime.owner));
    assert!(c.is_pre(&runtime.owner));
    assert!(a.borrow_ready(&mut runtime.owner).is_none());
    assert_eq!(runtime.core.issued(), 3);
}

#[test]
fn a_late_actor_can_be_used_before_earlier_ones() {
    let log = new_log();
    let mut runtime: Runtime<Probe> = Runtime::default();
    let a = runtime.new_actor();
    let b = runtime.new_actor();
    let c = runtime.new_actor();
    c.apply_pre(&mut runtime, Seed::Now("C", log.clone()));
    assert!(a.is_pre(&runtime.owner));
    assert!(b.is_pre(&runtime.owner));
    assert!(!c.is_pre(&runtime.owner));
    a.apply(&mut runtime, Msg::Note("kept"));
    a.apply_pre(&mut runtime, Seed::Now("A", log.clone()));
    assert_eq!(runtime.run(0), Outcome::Quiescent);
    assert_eq!(entries(&log), lines(&["init C", "init A", "A: kept"]));
    assert!(b.is_pre(&runtime.owner));
}

#[test]
fn handle_defer_and_timer_reach_the_core() {
    let log = new_log();
    let mut runtime: Runtime<Probe> = Runtime::default();
    let a = ready(&mut runtime, "A", &log);
    a.defer(&mut runtime.core, Work::Apply(a, Msg::Note("now")));
    a.timer(&mut runtime.core, 2, Work::Apply(a, Msg::Note("then")));
    runtime.defer(Work::Apply(a, Msg::Note("also now")));
    runtime.timer(2, Work::Apply(a, Msg::Note("also then")));
    assert_eq!(runtime.core.queue_len(), 2);
    assert_eq!(runtime.core.timer_count(), 2);
    assert_eq!(runtime.run(1), Outcome::Quiescent);
    assert_eq!(entries(&log), lines(&["A: now", "A: also now"]));
    assert_eq!(runtime.run(2), Outcome::Quiescent);
    assert_eq!(entries(&log).len(), 4);
}

#[test]
fn only_due_timers_leave_the_heap() {
    let log = new_log();
    let mut runtime: Runtime<Probe> = Runtime::default();
    let a = ready(&mut runtime, "A", &log);
    runtime.timer(4, Work::Apply(a, Msg::Note("four")));
    runtime.timer(2, Work::Apply(a, Msg::Note("two")));
    runtime.timer(9, Work::Apply(a, Msg::Note("nine")));
    assert_eq!(runtime.run(1), Outcome::Quiescent);
    assert!(entries(&log).is_empty());
    assert_eq!(runtime.core.timer_count(), 3);
    assert_eq!(runtime.core.next_timer(), Some(2));
    assert_eq!(runtime.run(4), Outcome::Quiescent);
    assert_eq!(entries(&log), lines(&["A: two", "A: four"]));
    assert_eq!(runtime.core.timer_count(), 1);
    assert_eq!(runtime.core.next_timer(), Some(9));
    assert_eq!(runtime.run(u32::MAX), Outcome::Quiescent);
    assert_eq!(entries(&log), lines(&["A: two", "A: four", "A: nine"]));
    assert_eq!(runtime.core.timer_count(), 0);
    assert_eq!(runtime.core.next_timer(), None);
}

#[test]
fn heap_pops_in_tick_order() {
    let mut heap: TimerHeap<&'static str> = TimerHeap::new();
    assert!(heap.is_empty());
    assert_eq!(heap.peek(), None);
    assert!(heap.pop().is_none());
    let ticks = [5u32, 3, 8, 1, 9, 2, 7, 3, 0, 6, 4, 1];
    for tick in ticks {
        heap.push(Timer::new(tick, "w"));
    }
    assert_eq!(heap.len(), 12);
    assert_eq!(heap.peek(), Some(0));
    let mut popped = Vec::new();
    while let Some(timer) = heap.pop() {
        popped.push(timer.tick);
    }
    assert_eq!(popped, vec![0, 1, 1, 2, 3, 3, 4, 5, 6, 7, 8, 9]);
    assert!(heap.is_empty());
}

#[test]
fn heap_keeps_the_work_with_its_tick() {
    let mut heap: TimerHeap<String> = TimerHeap::new();
    heap.push(Timer::new(20, "twenty".to_string()));
    heap.push(Timer::new(10, "ten".to_string()));
    heap.push(Timer::new(30, "thirty".to_string()));
    let first = heap.pop().unwrap();
    assert_eq!((first.tick, first.work.as_str()), (10, "ten"));
    heap.push(Timer::new(5, "five".to_string()));
    let second = heap.pop().unwrap();
    assert_eq!((second.tick, second.work.as_str()), (5, "five"));
    let third = heap.pop().unwrap();
    assert_eq!((third.tick, third.work.as_str()), (20, "twenty"));
    let fourth = heap.pop().unwrap();
    assert_eq!((fourth.tick, fourth.work.as_str()), (30, "thirty"));
    assert!(heap.pop().is_none());
}

#[test]
fn timer_is_due_from_its_tick_on() {
    let timer = Timer::new(5, ());
    assert!(!timer.due(0));
    assert!(!timer.due(4));
    assert!(timer.due(5));
    assert!(timer.due(6));
    assert!(timer.due(u32::MAX));
    assert!(Timer::new(0, ()).due(0));
}

#[test]
fn runtime_reads_through_to_its_core() {
    let log = new_log();
    let mut runtime: Runtime<Probe> = Runtime::new();
    let a = ready(&mut runtime, "A", &log);
    a.call(&mut runtime.core, Msg::Hit);
    a.call_at(&mut runtime.core, 9, Msg::Hit);
    assert!(runtime.maker() == runtime.owner.id());
    assert_eq!(runtime.issued(), 1);
    assert_eq!(runtime.queue_len(), 1);
    assert_eq!(runtime.timer_count(), 1);
}

#[test]
fn every_runtime_has_an_arbitrator_of_its_own() {
    let log = new_log();
    let mut first: Runtime<Probe> = Runtime::default();
    let mut second: Runtime<Probe> = Runtime::default();
    let a = ready(&mut first, "A", &log);
    let b = ready(&mut second, "B", &log);
    assert!(a != b);
    assert!(a.maker() != b.maker());
    b.call(&mut first.core, Msg::Hit);
    assert_eq!(first.run(0), Outcome::InvariantViolation);
    a.call(&mut second.core, Msg::Hit);
    assert_eq!(second.run(0), Outcome::InvariantViolation);
    assert_eq!(hits(&first, &a), 0);
    assert_eq!(hits(&second, &b), 0);
}

#[test]
fn a_runtime_owns_the_handles_it_made() {
    let mut first: Runtime<Probe> = Runtime::default();
    let mut second: Runtime<Probe> = Runtime::default();
    let a = first.new_actor();
    let b = second.new_actor();
    assert!(first.owns(&a));
    assert!(second.owns(&b));
    assert!(!first.owns(&b));
    assert!(!second.owns(&a));
    assert!(first.owns(&a.clone()));
}

#[test]
fn a_new_actor_has_nothing_waiting() {
    let log = new_log();
    let mut runtime: Runtime<Probe> = Runtime::default();
    let a = runtime.new_actor();
    a.apply(&mut runtime, Msg::Note("kept"));
    let b = runtime.new_actor();
    assert!(b.is_pre(&runtime.owner));
    assert_eq!(runtime.owner.pending(&b), 0);
    assert_eq!(runtime.owner.pending(&a), 1);
    let c = runtime.spawn(Seed::Now("C", log.clone()));
    assert!(c.is_pre(&runtime.owner));
    assert_eq!(runtime.owner.pending(&c), 0);
    assert_eq!(runtime.core.queue_len(), 1);
    assert_eq!(runtime.core.issued(), 3);
}
