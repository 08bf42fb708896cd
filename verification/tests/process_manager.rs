use tokio::sync::oneshot;
use turbo_desktop::process_manager::{ProcessManager, ProcessStatus};

fn register(manager: &mut ProcessManager, id: &str) -> oneshot::Receiver<()> {
    let (tx, rx) = oneshot::channel();
    manager.register(
        id.to_string(),
        "bin/dev".to_string(),
        vec!["--port".to_string(), "3000".to_string()],
        tx,
    );
    rx
}

#[test]
fn a_registered_process_is_running() {
    let mut manager = ProcessManager::new();
    let _rx = register(&mut manager, "web");

    let info = manager.status("web").expect("registered process is tracked");
    assert_eq!(info.id, "web");
    assert_eq!(info.command, "bin/dev");
    assert_eq!(info.args, vec!["--port", "3000"]);
    assert_eq!(info.status, ProcessStatus::Running);
    assert!(manager.status("worker").is_none());
}

#[test]
fn killing_signals_the_process_once() {
    let mut manager = ProcessManager::new();
    let mut rx = register(&mut manager, "web");

    assert_eq!(manager.kill("web"), Ok(()));
    assert!(rx.try_recv().is_ok(), "the streaming task receives the kill");
    assert_eq!(manager.status("web").unwrap().status, ProcessStatus::Killed);

    assert_eq!(
        manager.kill("web"),
        Err("Process 'web' is not running".to_string())
    );
}

#[test]
fn killing_an_unknown_process_is_refused() {
    let mut manager = ProcessManager::new();
    assert_eq!(
        manager.kill("ghost"),
        Err("Process 'ghost' not found".to_string())
    );
}

#[test]
fn a_process_whose_task_is_gone_has_already_exited() {
    let mut manager = ProcessManager::new();
    let rx = register(&mut manager, "web");
    drop(rx);

    assert_eq!(
        manager.kill("web"),
        Err("Process 'web' already exited".to_string())
    );
    assert_eq!(manager.status("web").unwrap().status, ProcessStatus::Running);
}

#[test]
fn finished_processes_cannot_be_killed() {
    let mut manager = ProcessManager::new();
    let _a = register(&mut manager, "a");
    let _b = register(&mut manager, "b");

    manager.mark_exited("a", Some(0));
    manager.mark_failed("b", "spawn failed".to_string());

    assert_eq!(
        manager.status("a").unwrap().status,
        ProcessStatus::Exited { code: Some(0) }
    );
    assert_eq!(
        manager.status("b").unwrap().status,
        ProcessStatus::Failed { error: "spawn failed".to_string() }
    );
    assert_eq!(manager.kill("a"), Err("Process 'a' is not running".to_string()));
    assert_eq!(manager.kill("b"), Err("Process 'b' is not running".to_string()));
}

#[test]
fn registering_an_id_again_replaces_the_entry() {
    let mut manager = ProcessManager::new();
    let _first = register(&mut manager, "web");
    manager.mark_exited("web", Some(1));
    let _second = register(&mut manager, "web");

    let list = manager.list();
    assert_eq!(list.len(), 1);
    assert_eq!(list[0].status, ProcessStatus::Running);
}

#[test]
fn list_keeps_registration_order_and_remove_forgets() {
    let mut manager = ProcessManager::new();
    let _a = register(&mut manager, "a");
    let _b = register(&mut manager, "b");
    let _c = register(&mut manager, "c");

    let ids: Vec<String> = manager.list().into_iter().map(|i| i.id).collect();
    assert_eq!(ids, vec!["a", "b", "c"]);

    manager.remove("b");
    manager.remove("missing");
    let ids: Vec<String> = manager.list().into_iter().map(|i| i.id).collect();
    assert_eq!(ids, vec!["a", "c"]);
    assert!(manager.status("b").is_none());
}

#[test]
fn kill_all_leaves_nothing_running() {
    let mut manager = ProcessManager::new();
    let mut a = register(&mut manager, "a");
    let _b = register(&mut manager, "b");
    manager.mark_exited("b", Some(0));

    manager.kill_all();

    assert!(a.try_recv().is_ok());
    assert_eq!(manager.status("a").unwrap().status, ProcessStatus::Killed);
    assert_eq!(
        manager.status("b").unwrap().status,
        ProcessStatus::Exited { code: Some(0) }
    );
}

#[test]
fn an_id_in_use_is_refused_for_a_new_process() {
    let mut manager = ProcessManager::new();
    assert_eq!(manager.ensure_unused("web"), Ok(()));
    let _rx = register(&mut manager, "web");
    assert_eq!(
        manager.ensure_unused("web"),
        Err("Process ID 'web' is already in use".to_string())
    );
    manager.remove("web");
    assert_eq!(manager.ensure_unused("web"), Ok(()));
}
