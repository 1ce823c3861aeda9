use std::sync::mpsc::channel;
use std::sync::{Arc, Mutex};
use std::time::Duration;

use mako::analyze_deps::analyze_deps;
use mako::module::{
    CallArg, CallExpr, Callee, Dependency, ModuleAst, ModuleDecl, ScriptNode, ScriptNodeKind,
};
use mako::thread_pool::{scope, spawn, worker_name, Scheduler, SchedulerError};

fn module(index: usize) -> ModuleAst {
    let mut children = vec![];
    for k in 0..(index % 7 + 1) {
        children.push(ScriptNode {
            kind: ScriptNodeKind::ModuleDecl(ModuleDecl::Import {
                src: format!("dep{}", (index + k) % 5),
                type_only: k % 3 == 2,
            }),
            children: vec![],
        });
        children.push(ScriptNode {
            kind: ScriptNodeKind::CallExpr(CallExpr {
                callee: Callee::Ident("require".to_string()),
                args: vec![CallArg::Str(format!("lib{}", (index * k) % 4))],
            }),
            children: vec![],
        });
    }
    ModuleAst::Script(ScriptNode { kind: ScriptNodeKind::Other, children })
}

#[test]
fn spawn_runs_the_task_on_a_worker() {
    let mut scheduler = Scheduler::new();
    let (sender, receiver) = channel();
    let result = spawn(&mut scheduler, move || {
        sender.send(41 + 1).unwrap();
    });
    assert_eq!(result, Ok(()));
    assert_eq!(receiver.recv_timeout(Duration::from_secs(10)), Ok(42));
}

#[test]
fn pool_is_built_on_first_use_and_kept() {
    let mut scheduler = Scheduler::new();
    assert!(scheduler.ensure_pool());
    assert!(scheduler.ensure_pool());
    let (sender, receiver) = channel();
    for i in 0..8usize {
        let sender = sender.clone();
        assert_eq!(spawn(&mut scheduler, move || sender.send(i).unwrap()), Ok(()));
    }
    let mut seen: Vec<usize> = (0..8).map(|_| receiver.recv_timeout(Duration::from_secs(10)).unwrap()).collect();
    seen.sort();
    assert_eq!(seen, vec![0, 1, 2, 3, 4, 5, 6, 7]);
}

#[test]
fn task_runs_on_a_worker_of_the_pool() {
    let mut scheduler = Scheduler::new();
    let (sender, receiver) = channel();
    let result = spawn(&mut scheduler, move || {
        sender.send(rayon::current_thread_index()).unwrap();
    });
    assert_eq!(result, Ok(()));
    let index = receiver.recv_timeout(Duration::from_secs(10)).unwrap();
    assert!(index.is_some());
    assert_eq!(rayon::current_thread_index(), None);
}

#[test]
fn scope_returns_what_the_operation_returned() {
    let mut scheduler = Scheduler::new();
    assert_eq!(scope(&mut scheduler, |_| 6 * 7), Ok(42));
    assert_eq!(scope(&mut scheduler, |_| "done".to_string()), Ok("done".to_string()));
}

#[test]
fn scope_waits_for_every_task() {
    let mut scheduler = Scheduler::new();
    let counter = Mutex::new(0usize);
    let result = scope(&mut scheduler, |handle| {
        for _ in 0..64 {
            handle.spawn(|inner| {
                inner.spawn(|_| {
                    *counter.lock().unwrap() += 1;
                });
                *counter.lock().unwrap() += 1;
            });
        }
    });
    assert_eq!(result, Ok(()));
    assert_eq!(*counter.lock().unwrap(), 128);
}

#[test]
fn concurrent_analysis_equals_sequential_analysis() {
    let n = 200;
    let modules: Vec<ModuleAst> = (0..n).map(module).collect();
    let sequential: Vec<Vec<Dependency>> = modules.iter().map(analyze_deps).collect();
    let slots: Vec<Mutex<Option<Vec<Dependency>>>> = (0..n).map(|_| Mutex::new(None)).collect();
    let mut scheduler = Scheduler::new();
    let result = scope(&mut scheduler, |handle| {
        for (ast, slot) in modules.iter().zip(slots.iter()) {
            handle.spawn(move |_| {
                *slot.lock().unwrap() = Some(analyze_deps(ast));
            });
        }
    });
    assert_eq!(result, Ok(()));
    let concurrent: Vec<Vec<Dependency>> =
        slots.into_iter().map(|slot| slot.into_inner().unwrap().unwrap()).collect();
    assert_eq!(concurrent, sequential);
}

#[test]
fn spawned_analyses_equal_sequential_analysis() {
    let n = 50;
    let mut scheduler = Scheduler::new();
    let results = Arc::new(Mutex::new(vec![None; n]));
    let (sender, receiver) = channel();
    for index in 0..n {
        let results = Arc::clone(&results);
        let sender = sender.clone();
        let taken = spawn(&mut scheduler, move || {
            let deps = analyze_deps(&module(index));
            results.lock().unwrap()[index] = Some(deps);
            sender.send(()).unwrap();
        });
        assert_eq!(taken, Ok(()));
    }
    for _ in 0..n {
        receiver.recv_timeout(Duration::from_secs(10)).unwrap();
    }
    let results = results.lock().unwrap();
    for index in 0..n {
        assert_eq!(results[index], Some(analyze_deps(&module(index))));
    }
}

#[test]
fn shared_scheduler_needs_a_built_pool() {
    let mut scheduler = Scheduler::new();
    assert!(!scheduler.has_pool());
    assert_eq!(scheduler.spawn(|| {}), Err(SchedulerError::PoolNotBuilt));
    assert_eq!(scheduler.scope(|_| 1), Err(SchedulerError::PoolNotBuilt));
    assert!(scheduler.ensure_pool());
    assert!(scheduler.has_pool());
    let shared = &scheduler;
    let (sender, receiver) = channel();
    let total = shared.scope(|handle| {
        for i in 1..=10usize {
            let sender = sender.clone();
            handle.spawn(move |_| {
                assert_eq!(shared.spawn(move || sender.send(i).unwrap()), Ok(()));
            });
        }
        10usize
    });
    assert_eq!(total, Ok(10));
    let sum: usize = (0..10).map(|_| receiver.recv_timeout(Duration::from_secs(10)).unwrap()).sum();
    assert_eq!(sum, 55);
}

#[test]
fn workers_are_named_by_index() {
    assert_eq!(worker_name(0), "rayon thread 0");
    assert_eq!(worker_name(7), "rayon thread 7");
    assert_eq!(worker_name(128), "rayon thread 128");
}
