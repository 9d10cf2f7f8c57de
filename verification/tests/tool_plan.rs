use motif::error::tool_not_found_message;
use motif::tool::{
    merge_results, missing_tool_message, plan_execution, ConcurrencySafety, Executor, ParallelExecutor,
    SequentialExecutor, ToolMetadata, ToolRegistry,
};
use motif::types::{ToolMessage, ToolResult};
use std::time::{Duration, SystemTime};
use ConcurrencySafety::{ConcurrentSafe, ConcurrentUnsafe};

fn result(id: &str) -> ToolResult {
    ToolResult {
        tool_message: ToolMessage { content: format!("r-{}", id), tool_call_id: id.to_string() },
        timestamp: SystemTime::UNIX_EPOCH,
        elapsed: Duration::ZERO,
    }
}

#[test]
fn metadata_defaults() {
    let m = ToolMetadata::default();
    assert!(!m.read_only);
    assert!(!m.idempotent);
    assert!(m.category.is_none());
}

#[test]
fn plan_splits_by_safety_in_order() {
    let safety = vec![Some(ConcurrentSafe), Some(ConcurrentUnsafe), None, Some(ConcurrentUnsafe), Some(ConcurrentSafe)];
    let p = plan_execution(&safety, true);
    assert_eq!(p.concurrent, vec![0, 2, 4]);
    assert_eq!(p.sequential, vec![1, 3]);
    let s = plan_execution(&safety, false);
    assert!(s.concurrent.is_empty());
    assert_eq!(s.sequential, vec![0, 1, 2, 3, 4]);
}

#[test]
fn merge_puts_results_back_in_call_order() {
    let safety = vec![Some(ConcurrentUnsafe), Some(ConcurrentSafe), Some(ConcurrentUnsafe), None];
    let concurrent = vec![result("b"), result("d")];
    let sequential = vec![result("a"), result("c")];
    let merged = merge_results(&safety, true, &concurrent, &sequential);
    let ids: Vec<&str> = merged.iter().map(|r| r.tool_message.tool_call_id.as_str()).collect();
    assert_eq!(ids, vec!["a", "b", "c", "d"]);
}

#[test]
fn registry_registers_and_replaces() {
    let mut r = ToolRegistry::new();
    assert!(!r.has("read"));
    r.register("read".into(), ConcurrencySafety::ConcurrentSafe);
    r.register("write".into(), ConcurrencySafety::ConcurrentUnsafe);
    assert!(r.has("read"));
    assert_eq!(r.safety_of("write"), Some(ConcurrencySafety::ConcurrentUnsafe));
    r.register("read".into(), ConcurrencySafety::ConcurrentUnsafe);
    assert_eq!(r.safety_of("read"), Some(ConcurrencySafety::ConcurrentUnsafe));
    assert_eq!(r.names_list(), vec!["read".to_string(), "write".to_string()]);
    assert_eq!(r.safety_of("other"), None);
}

#[test]
fn executor_plans_by_registered_safety() {
    let mut e = Executor::parallel();
    e.register("read".into(), ConcurrencySafety::ConcurrentSafe);
    e.register("write".into(), ConcurrencySafety::ConcurrentUnsafe);
    let calls = vec!["write".to_string(), "read".to_string(), "ghost".to_string()];
    let p = e.plan(&calls);
    assert_eq!(p.concurrent, vec![1, 2]);
    assert_eq!(p.sequential, vec![0]);
    assert!(e.has("read"));
    assert!(!e.has("ghost"));
    let seq = Executor::sequential();
    assert!(!seq.parallel);
    assert!(Executor::default().parallel);
}

#[test]
fn missing_tool_reports() {
    let mut e = Executor::parallel();
    e.register("a".into(), ConcurrencySafety::ConcurrentSafe);
    e.register("b".into(), ConcurrencySafety::ConcurrentSafe);
    assert_eq!(e.missing_tool_report("x"), "Tool 'x' not found. Available: [\"a\", \"b\"]");
    assert_eq!(missing_tool_message("x"), "Tool 'x' not found");
    assert_eq!(tool_not_found_message("q\"", &vec![]), "Tool 'q\"' not found. Available: []");
}

#[test]
fn plain_executors_start_empty() {
    let p = ParallelExecutor::new();
    assert!(!p.registry.has("a"));
    let mut s = SequentialExecutor::default();
    s.registry.register("a".into(), ConcurrencySafety::ConcurrentSafe);
    assert!(s.registry.has("a"));
}
