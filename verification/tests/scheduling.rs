//! Worker assignment, per-application ordering, and the loop controller.

use shredder::lifecycle::{
    nat_rules, Controller, LoopAction, LoopEvent, NatAction, NatRuleKind,
};
use shredder::table::{AddressTable, Application, Direction};
use shredder::threadpool::{Job, ThreadPool};

fn ip(a: u8, b: u8, c: u8, d: u8) -> u32 {
    ((a as u32) << 24) | ((b as u32) << 16) | ((c as u32) << 8) | (d as u32)
}

fn job(app_index: usize, tag: u8) -> Job {
    Job {
        app_index,
        direction: Direction::Outbound,
        packet: vec![tag],
    }
}

#[test]
fn assignment_is_index_modulo_pool_size() {
    let pool = ThreadPool::new(3, 8);
    for i in 0..8 {
        assert_eq!(pool.worker_of(i), i % 3);
    }
}

#[test]
fn same_class_jobs_come_out_in_submission_order() {
    // Applications 0 and 2 share worker 0 in a pool of two; their jobs are
    // dequeued in the order they were scheduled.
    let mut pool = ThreadPool::new(2, 4);
    assert_eq!(pool.schedule(job(0, 1)), 0);
    assert_eq!(pool.schedule(job(2, 2)), 0);
    assert_eq!(pool.schedule(job(0, 3)), 0);
    let first = pool.take_next(0).unwrap();
    let second = pool.take_next(0).unwrap();
    let third = pool.take_next(0).unwrap();
    assert_eq!(first.packet, vec![1]);
    assert_eq!(second.packet, vec![2]);
    assert_eq!(third.packet, vec![3]);
    assert!(pool.take_next(0).is_none());
}

#[test]
fn different_classes_use_different_workers() {
    let mut pool = ThreadPool::new(2, 4);
    assert_eq!(pool.schedule(job(0, 1)), 0);
    assert_eq!(pool.schedule(job(1, 2)), 1);
    assert_eq!(pool.schedule(job(3, 3)), 1);
    assert!(pool.take_next(0).is_some());
    assert!(pool.take_next(0).is_none());
    let a = pool.take_next(1).unwrap();
    let b = pool.take_next(1).unwrap();
    assert_eq!(a.packet, vec![2]);
    assert_eq!(b.packet, vec![3]);
}

fn two_app_table() -> AddressTable {
    let apps = vec![
        Application {
            name: "a".to_string(),
            dest: ip(93, 184, 216, 34),
            phony: None,
            origin: None,
            ports: None,
            state: 0,
        },
        Application {
            name: "b".to_string(),
            dest: ip(93, 184, 216, 35),
            phony: None,
            origin: None,
            ports: None,
            state: 0,
        },
    ];
    AddressTable::resolve(apps, ip(10, 0, 0, 5), ip(10, 0, 0, 1), 10).unwrap()
}

#[test]
fn firewall_plan_has_one_rule_pair_per_application() {
    let table = two_app_table();
    for action in [NatAction::Install, NatAction::Remove] {
        let rules = nat_rules(&table, action);
        assert_eq!(rules.len(), 4);
        for i in 0..2 {
            let dnat = rules[2 * i];
            assert_eq!(dnat.action, action);
            assert_eq!(dnat.kind, NatRuleKind::DestinationNat);
            assert_eq!(dnat.match_addr, table.entry(i).dest);
            assert_eq!(dnat.rewrite_addr, table.entry(i).phony);
            let snat = rules[2 * i + 1];
            assert_eq!(snat.action, action);
            assert_eq!(snat.kind, NatRuleKind::SourceNat);
            assert_eq!(snat.match_addr, table.entry(i).phony);
            assert_eq!(snat.rewrite_addr, table.entry(i).origin);
        }
    }
}

#[test]
fn controller_reads_only_while_running() {
    let mut c = Controller::new();
    assert_eq!(c.step(LoopEvent::ReadReady), LoopAction::IssueRead);
    assert_eq!(c.step(LoopEvent::ReadReady), LoopAction::IssueRead);
    assert_eq!(c.step(LoopEvent::ShutdownRequested), LoopAction::StopReads);
    // after the shutdown request, readiness never triggers a read again
    assert_eq!(c.step(LoopEvent::ReadReady), LoopAction::Idle);
    assert_eq!(c.step(LoopEvent::WorkersDrained), LoopAction::RemoveRules);
    // and the removal is ordered exactly once
    assert_eq!(c.step(LoopEvent::WorkersDrained), LoopAction::Idle);
    assert_eq!(c.step(LoopEvent::ReadReady), LoopAction::Idle);
}
