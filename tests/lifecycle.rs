use std::collections::HashMap;

use tesseract_rs::{EngineCall, LifecycleManager, Step, TesseractError};

/// An engine stand-in that records the calls it receives.
struct Engine {
    calls: Vec<String>,
    variables: HashMap<String, String>,
    init_status: i32,
    rejected: Option<String>,
}

impl Engine {
    fn new() -> Engine {
        Engine { calls: Vec::new(), variables: HashMap::new(), init_status: 0, rejected: None }
    }

    fn run(&mut self, manager: &mut LifecycleManager, mut step: Step) -> Result<(), TesseractError> {
        loop {
            let status = match step {
                Step::Done(result) => return result,
                Step::Call(EngineCall::End) => {
                    self.calls.push("end".to_string());
                    self.variables.clear();
                    0
                }
                Step::Call(EngineCall::Init(datapath, language)) => {
                    self.calls.push(format!("init {} {}", datapath, language));
                    self.variables.clear();
                    self.init_status
                }
                Step::Call(EngineCall::SetVariable(name, value)) => {
                    self.calls.push(format!("set {}={}", name, value));
                    if self.rejected.as_deref() == Some(name.as_str()) {
                        0
                    } else {
                        self.variables.insert(name, value);
                        1
                    }
                }
            };
            step = manager.resume(status);
        }
    }

    fn init(&mut self, manager: &mut LifecycleManager, datapath: &str, language: &str) -> Result<(), TesseractError> {
        let step = manager.begin_init(datapath.to_string(), language.to_string());
        self.run(manager, step)
    }

    fn set(&mut self, manager: &mut LifecycleManager, name: &str, value: &str) -> Result<(), TesseractError> {
        let step = manager.begin_set_variable(name.to_string(), value.to_string());
        self.run(manager, step)
    }

    fn ends(&self) -> usize {
        self.calls.iter().filter(|c| c.as_str() == "end").count()
    }
}

#[test]
fn first_init_initialises_without_end() {
    let mut engine = Engine::new();
    let mut manager = LifecycleManager::new();
    assert!(!manager.is_initialized());
    assert_eq!(engine.init(&mut manager, "/data", "eng"), Ok(()));
    assert_eq!(engine.calls, vec!["init /data eng".to_string()]);
    assert!(manager.is_initialized());
    assert_eq!(manager.config().datapath(), "/data");
    assert_eq!(manager.config().language(), "eng");
}

#[test]
fn redundant_init_does_not_end_again() {
    let mut engine = Engine::new();
    let mut manager = LifecycleManager::new();
    assert_eq!(engine.init(&mut manager, "/data", "eng"), Ok(()));
    assert_eq!(engine.init(&mut manager, "/data", "eng"), Ok(()));
    assert_eq!(engine.ends(), 0);
    assert_eq!(engine.calls.len(), 1);
    assert!(manager.is_idle());
}

#[test]
fn changed_init_ends_before_reinitialising() {
    let mut engine = Engine::new();
    let mut manager = LifecycleManager::new();
    assert_eq!(engine.init(&mut manager, "/data", "eng"), Ok(()));
    assert_eq!(engine.init(&mut manager, "/data", "tur"), Ok(()));
    assert_eq!(
        engine.calls,
        vec!["init /data eng".to_string(), "end".to_string(), "init /data tur".to_string()]
    );
    assert_eq!(manager.config().datapath(), "/data");
    assert_eq!(manager.config().language(), "tur");
    assert_eq!(engine.init(&mut manager, "/other", "tur"), Ok(()));
    assert_eq!(engine.ends(), 2);
    assert_eq!(manager.config().datapath(), "/other");
}

#[test]
fn variable_is_replayed_after_init() {
    let mut engine = Engine::new();
    let mut manager = LifecycleManager::new();
    assert_eq!(engine.set(&mut manager, "k", "v"), Ok(()));
    assert_eq!(engine.init(&mut manager, "/data", "eng"), Ok(()));
    assert_eq!(engine.variables.get("k").map(String::as_str), Some("v"));
    assert_eq!(engine.init(&mut manager, "/data", "deu"), Ok(()));
    assert_eq!(engine.variables.get("k").map(String::as_str), Some("v"));
}

#[test]
fn variables_replay_in_recorded_order_with_last_value() {
    let mut engine = Engine::new();
    let mut manager = LifecycleManager::new();
    assert_eq!(engine.set(&mut manager, "a", "1"), Ok(()));
    assert_eq!(engine.set(&mut manager, "b", "2"), Ok(()));
    assert_eq!(engine.set(&mut manager, "a", "3"), Ok(()));
    engine.calls.clear();
    assert_eq!(engine.init(&mut manager, "/data", "eng"), Ok(()));
    assert_eq!(
        engine.calls,
        vec!["init /data eng".to_string(), "set a=3".to_string(), "set b=2".to_string()]
    );
    assert_eq!(manager.config().variable_count(), 2);
}

#[test]
fn set_variable_after_init_is_applied_once() {
    let mut engine = Engine::new();
    let mut manager = LifecycleManager::new();
    assert_eq!(engine.init(&mut manager, "/data", "eng"), Ok(()));
    assert_eq!(engine.set(&mut manager, "k", "v"), Ok(()));
    assert_eq!(engine.calls, vec!["init /data eng".to_string(), "set k=v".to_string()]);
    assert_eq!(manager.config().variable("k"), Some("v"));
    assert_eq!(engine.init(&mut manager, "/data", "eng"), Ok(()));
    assert_eq!(engine.calls.len(), 2);
}

#[test]
fn failed_init_clears_configuration() {
    let mut engine = Engine::new();
    let mut manager = LifecycleManager::new();
    assert_eq!(engine.init(&mut manager, "/data", "eng"), Ok(()));
    engine.init_status = -1;
    assert_eq!(engine.init(&mut manager, "/missing", "xyz"), Err(TesseractError::InitError));
    assert!(!manager.is_initialized());
    assert_eq!(manager.config().datapath(), "");
    assert_eq!(manager.config().language(), "");
    engine.init_status = 0;
    assert_eq!(engine.init(&mut manager, "/data", "eng"), Ok(()));
    assert_eq!(engine.calls.last().map(String::as_str), Some("init /data eng"));
}

#[test]
fn failed_init_keeps_variables() {
    let mut engine = Engine::new();
    let mut manager = LifecycleManager::new();
    assert_eq!(engine.set(&mut manager, "k", "v"), Ok(()));
    engine.init_status = 1;
    assert_eq!(engine.init(&mut manager, "/data", "eng"), Err(TesseractError::InitError));
    assert_eq!(manager.config().variable("k"), Some("v"));
}

#[test]
fn rejected_replay_reports_set_variable_error() {
    let mut engine = Engine::new();
    let mut manager = LifecycleManager::new();
    assert_eq!(engine.set(&mut manager, "a", "1"), Ok(()));
    assert_eq!(engine.set(&mut manager, "b", "2"), Ok(()));
    engine.rejected = Some("a".to_string());
    assert_eq!(engine.init(&mut manager, "/data", "eng"), Err(TesseractError::SetVariableError));
    assert!(manager.is_initialized());
    engine.rejected = None;
    engine.calls.clear();
    assert_eq!(engine.init(&mut manager, "/data", "eng"), Ok(()));
    assert_eq!(
        engine.calls,
        vec!["init /data eng".to_string(), "set a=1".to_string(), "set b=2".to_string()]
    );
}

#[test]
fn rejected_variable_is_kept_and_forces_reinit() {
    let mut engine = Engine::new();
    let mut manager = LifecycleManager::new();
    assert_eq!(engine.init(&mut manager, "/data", "eng"), Ok(()));
    engine.rejected = Some("k".to_string());
    assert_eq!(engine.set(&mut manager, "k", "v"), Err(TesseractError::SetVariableError));
    assert_eq!(manager.config().variable("k"), Some("v"));
    assert_eq!(engine.init(&mut manager, "/data", "eng"), Err(TesseractError::SetVariableError));
    assert_eq!(engine.ends(), 0);
}

#[test]
fn init_after_detach_initialises_again() {
    let mut engine = Engine::new();
    let mut manager = LifecycleManager::new();
    assert_eq!(engine.set(&mut manager, "k", "v"), Ok(()));
    assert_eq!(engine.init(&mut manager, "/data", "eng"), Ok(()));
    manager.detach();
    engine.variables.clear();
    assert!(manager.is_initialized());
    assert_eq!(engine.init(&mut manager, "/data", "eng"), Ok(()));
    assert_eq!(engine.ends(), 0);
    assert_eq!(engine.variables.get("k").map(String::as_str), Some("v"));
}

#[test]
fn copy_is_independent_of_source() {
    let mut source_engine = Engine::new();
    let mut source = LifecycleManager::new();
    assert_eq!(source_engine.set(&mut source, "k", "v"), Ok(()));
    assert_eq!(source_engine.init(&mut source, "/data", "eng"), Ok(()));

    let mut copy = source.fresh_copy();
    assert!(!copy.is_initialized());
    let mut copy_engine = Engine::new();
    let datapath = source.config().datapath().to_string();
    let language = source.config().language().to_string();
    assert_eq!(copy_engine.init(&mut copy, &datapath, &language), Ok(()));
    assert_eq!(copy_engine.calls, vec!["init /data eng".to_string(), "set k=v".to_string()]);

    assert_eq!(copy_engine.set(&mut copy, "k", "other"), Ok(()));
    assert_eq!(copy_engine.set(&mut copy, "extra", "1"), Ok(()));
    assert_eq!(source.config().variable("k"), Some("v"));
    assert_eq!(source.config().variable("extra"), None);
    assert_eq!(source_engine.variables.get("k").map(String::as_str), Some("v"));

    assert_eq!(source_engine.set(&mut source, "only_source", "1"), Ok(()));
    assert_eq!(copy.config().variable("only_source"), None);
    assert_eq!(copy.config().variable("k"), Some("other"));
}

#[test]
fn copy_of_uninitialised_manager_has_variables_only() {
    let mut engine = Engine::new();
    let mut source = LifecycleManager::new();
    assert_eq!(engine.set(&mut source, "k", "v"), Ok(()));
    let copy = source.fresh_copy();
    assert!(!copy.is_initialized());
    assert_eq!(copy.config().variable("k"), Some("v"));
    assert_eq!(copy.config().variable_count(), 1);
}

#[test]
fn init_target_follows_snapshot() {
    let mut engine = Engine::new();
    let mut manager = LifecycleManager::new();
    assert_eq!(manager.init_target(), None);
    assert_eq!(engine.init(&mut manager, "/data", "eng"), Ok(()));
    assert_eq!(manager.init_target(), Some(("/data".to_string(), "eng".to_string())));
    engine.init_status = -1;
    assert_eq!(engine.init(&mut manager, "/data", "tur"), Err(TesseractError::InitError));
    assert_eq!(manager.init_target(), None);
}

#[test]
fn end_status_is_ignored_and_init_follows() {
    let mut manager = LifecycleManager::new();
    let first = manager.begin_init("/data".to_string(), "eng".to_string());
    assert!(matches!(first, Step::Call(EngineCall::Init(ref d, ref l)) if d == "/data" && l == "eng"));
    assert!(matches!(manager.resume(0), Step::Done(Ok(()))));
    let second = manager.begin_init("/data".to_string(), "tur".to_string());
    assert!(matches!(second, Step::Call(EngineCall::End)));
    assert!(!manager.is_idle());
    let third = manager.resume(-5);
    assert!(matches!(third, Step::Call(EngineCall::Init(ref d, ref l)) if d == "/data" && l == "tur"));
    assert!(matches!(manager.resume(0), Step::Done(Ok(()))));
    assert!(manager.is_idle());
}
