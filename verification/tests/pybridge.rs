use monotools::pybridge::bridge::{PyBridge, StartStep};
use monotools::pybridge::config::PyBridgeConfig;
use monotools::pybridge::process::{
    closed_channel_error, health_outcome, send_failed_error, start_outcome, stopped_error, timeout_error, RpcTable,
};
use monotools::pybridge::registry::ServiceRegistry;
use monotools::pybridge::types::{decimal_string, PyBridgeError, ServiceHandle};

#[test]
fn test_default_config() {
    let config = PyBridgeConfig::default();
    assert_eq!(config.enabled, false);
    assert_eq!(config.python_path, "python");
    assert_eq!(config.startup_timeout_ms, 5000);
    assert_eq!(config.request_timeout_ms, 500);
    assert_eq!(config.max_restarts, 3);
    assert_eq!(config.health_check_interval_secs, 30);
}

#[test]
fn test_enabled_config() {
    let config = PyBridgeConfig::enabled("/usr/bin/python3", "/path/to/server.py");
    assert_eq!(config.enabled, true);
    assert_eq!(config.python_path, "/usr/bin/python3");
    assert_eq!(config.script_path, "/path/to/server.py");
}

#[test]
fn enabled_config_keeps_default_limits() {
    let config = PyBridgeConfig::enabled("py", "s.py");
    assert_eq!(config.request_timeout_ms, 500);
    assert_eq!(config.max_restarts, 3);
    assert_eq!(PyBridgeConfig::default().script_path, "python/pybridge/server.py");
}

#[test]
fn test_register_and_get() {
    let mut registry = ServiceRegistry::new();
    assert!(!registry.has_service("test"));

    registry.register(ServiceHandle {
        name: "test".to_string(),
        version: "1.0.0".to_string(),
        description: "Test service".to_string(),
    });

    assert!(registry.has_service("test"));
    let svc = registry.get_service("test").unwrap();
    assert_eq!(svc.name, "test");
    assert_eq!(svc.version, "1.0.0");
}

#[test]
fn test_unregister() {
    let mut registry = ServiceRegistry::new();
    registry.register(ServiceHandle {
        name: "test".to_string(),
        version: "1.0.0".to_string(),
        description: "".to_string(),
    });
    assert!(registry.has_service("test"));

    registry.unregister("test");
    assert!(!registry.has_service("test"));
}

#[test]
fn test_list_services() {
    let mut registry = ServiceRegistry::new();
    registry.register(ServiceHandle {
        name: "a".to_string(),
        version: "1.0".to_string(),
        description: "".to_string(),
    });
    registry.register(ServiceHandle {
        name: "b".to_string(),
        version: "2.0".to_string(),
        description: "".to_string(),
    });

    let list = registry.list_services();
    assert_eq!(list.len(), 2);
}

#[test]
fn registry_register_replaces_same_name() {
    let mut registry = ServiceRegistry::default();
    registry.register(ServiceHandle { name: "a".into(), version: "1".into(), description: "x".into() });
    registry.register(ServiceHandle { name: "a".into(), version: "2".into(), description: "y".into() });
    assert_eq!(registry.list_services().len(), 1);
    assert_eq!(registry.get_service("a").unwrap().version, "2");
    registry.unregister("missing");
    assert!(registry.get_service("missing").is_none());
    assert!(registry.has_service("a"));
}

#[test]
fn test_service_handle() {
    let handle = ServiceHandle {
        name: "test".to_string(),
        version: "1.0.0".to_string(),
        description: "Test service".to_string(),
    };
    assert_eq!(handle.name, "test");
    assert_eq!(handle.version, "1.0.0");
}

#[test]
fn test_error_display() {
    let err = PyBridgeError::NotEnabled;
    assert_eq!(err.message(), "PyBridge 未启用");

    let err = PyBridgeError::Timeout;
    assert_eq!(err.message(), "请求超时");

    let err = PyBridgeError::ServiceNotFound("test".to_string());
    assert!(err.message().contains("test"));
}

#[test]
fn error_messages_of_every_variant() {
    assert_eq!(PyBridgeError::NotStarted.message(), "PyBridge 未启动");
    assert_eq!(PyBridgeError::StartFailed("x".into()).message(), "Python 进程启动失败: x");
    assert_eq!(
        PyBridgeError::RpcError { code: -32601, message: "no".into() }.message(),
        "JSON-RPC 错误: code=-32601, message=no"
    );
    assert_eq!(PyBridgeError::Serialization("s".into()).message(), "序列化错误: s");
    assert_eq!(PyBridgeError::Io("i".into()).message(), "IO 错误: i");
    assert_eq!(PyBridgeError::Other("o".into()).message(), "未知错误: o");
    assert_eq!(decimal_string(0), "0");
    assert_eq!(decimal_string(i64::MIN), "-9223372036854775808");
    assert_eq!(decimal_string(1234567), "1234567");
}

#[test]
fn test_io_error_conversion() {
    let io_err = std::io::Error::new(std::io::ErrorKind::NotFound, "file not found");
    let py_err: PyBridgeError = io_err.into();
    match py_err {
        PyBridgeError::Io(_) => {}
        _ => panic!("Expected Io variant"),
    }
}

#[test]
fn test_serde_error_conversion() {
    let serde_err = serde_json::from_str::<i32>("not a number").unwrap_err();
    let py_err: PyBridgeError = serde_err.into();
    match py_err {
        PyBridgeError::Serialization(_) => {}
        _ => panic!("Expected Serialization variant"),
    }
}

#[test]
fn test_new_bridge() {
    let config = PyBridgeConfig::default();
    let bridge = monotools::pybridge::bridge::PyBridge::new(config);
    assert_eq!(bridge.is_started(), false);
    assert_eq!(bridge.config().enabled, false);
}

#[test]
fn test_bridge_registry() {
    let config = PyBridgeConfig::default();
    let mut bridge = monotools::pybridge::bridge::PyBridge::new(config);

    assert!(!bridge.registry().has_service("test"));

    bridge.register_service(ServiceHandle {
        name: "test".to_string(),
        version: "1.0".to_string(),
        description: "Test service".to_string(),
    });

    assert!(bridge.registry().has_service("test"));
    let svc = bridge.registry().get_service("test").unwrap();
    assert_eq!(svc.name, "test");
    assert_eq!(svc.version, "1.0");
}

#[test]
fn bridge_start_skips_when_disabled() {
    let bridge = PyBridge::new(PyBridgeConfig::default());
    assert_eq!(bridge.start_step(), StartStep::Skip);
    assert_eq!(bridge.is_started(), false);
}

#[test]
fn bridge_start_and_stop_when_enabled() {
    let mut bridge = PyBridge::new(PyBridgeConfig::enabled("python3", "s.py"));
    assert_eq!(bridge.start_step(), StartStep::Spawn);
    bridge.mark_started();
    assert!(bridge.is_started());
    assert_eq!(bridge.start_step(), StartStep::Skip);
    assert!(bridge.stop());
    assert!(!bridge.stop());
    assert!(!bridge.is_started());
}

#[test]
fn bridge_call_refused_when_not_enabled_or_not_started() {
    let off = PyBridge::new(PyBridgeConfig::default());
    assert!(matches!(off.call_check(true), Err(PyBridgeError::NotEnabled)));
    let on = PyBridge::new(PyBridgeConfig::enabled("python3", "s.py"));
    assert!(matches!(on.call_check(false), Err(PyBridgeError::NotStarted)));
    assert!(on.call_check(true).is_ok());
}

#[test]
fn rpc_ids_increase_and_waits_end() {
    let mut t = RpcTable::new();
    let a = t.issue();
    let b = t.issue();
    let c = t.issue();
    assert_eq!((a, b, c), (1, 2, 3));
    assert!(t.resolve(b));
    assert!(!t.resolve(b));
    assert!(!t.resolve(99));
    let mut rest = t.drain();
    rest.sort();
    assert_eq!(rest, vec![1, 3]);
    assert!(t.drain().is_empty());
    assert_eq!(t.issue(), 4);
}

#[test]
fn rpc_errors_and_health() {
    assert!(matches!(timeout_error(), PyBridgeError::Timeout));
    assert!(matches!(closed_channel_error(), PyBridgeError::Other(m) if m == "响应通道已关闭"));
    assert!(matches!(send_failed_error("x"), PyBridgeError::Other(m) if m == "发送请求失败: x"));
    assert!(matches!(stopped_error(), PyBridgeError::Other(m) if m == "进程已停止"));
    assert!(health_outcome(Some("ok")).is_ok());
    assert!(matches!(health_outcome(Some("bad")), Err(PyBridgeError::Other(m)) if m == "健康检查返回异常"));
    assert!(health_outcome(None).is_err());
}

#[test]
fn test_bridge_not_enabled_start() {
    let config = PyBridgeConfig::default();
    let bridge = PyBridge::new(config);
    // A disabled bridge's start does nothing and succeeds.
    assert_eq!(bridge.start_step(), StartStep::Skip);
    assert_eq!(bridge.is_started(), false);
}

#[test]
fn test_bridge_call_not_enabled() {
    let config = PyBridgeConfig::default();
    let bridge = PyBridge::new(config);
    let result = bridge.call_check(false);
    assert!(result.is_err());
    match result.unwrap_err() {
        PyBridgeError::NotEnabled => {}
        _ => panic!("Expected NotEnabled error"),
    }
}

#[test]
fn start_outcome_reports_spawn_and_pipe_failures() {
    assert!(matches!(start_outcome(Some("not found"), true, true, true), Err(PyBridgeError::StartFailed(ref m)) if m == "not found"));
    assert!(matches!(start_outcome(None, false, false, true), Err(PyBridgeError::StartFailed(ref m)) if m == "无法获取 stdin"));
    assert!(matches!(start_outcome(None, true, false, false), Err(PyBridgeError::StartFailed(ref m)) if m == "无法获取 stdout"));
    assert!(matches!(start_outcome(None, true, true, false), Err(PyBridgeError::StartFailed(ref m)) if m == "无法获取 stderr"));
    assert!(start_outcome(None, true, true, true).is_ok());
}
