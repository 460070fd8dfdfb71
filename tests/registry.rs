use apollo_router::error::PipelineError;
use apollo_router::registry::BackendRegistry;

#[test]
fn resolve_returns_registered_unit() {
    let mut reg: BackendRegistry<u32> = BackendRegistry::new();
    assert_eq!(reg.register("books".to_string(), 7), Ok(()));
    assert_eq!(reg.register("reviews".to_string(), 9), Ok(()));
    assert_eq!(reg.resolve(&"books".to_string()), Ok(&7));
    assert_eq!(reg.resolve(&"reviews".to_string()), Ok(&9));
    assert_eq!(reg.count(), 2);
}

#[test]
fn register_twice_is_duplicate() {
    let mut reg: BackendRegistry<u32> = BackendRegistry::new();
    assert_eq!(reg.register("books".to_string(), 1), Ok(()));
    assert_eq!(
        reg.register("books".to_string(), 2),
        Err(PipelineError::DuplicateBackend)
    );
    assert_eq!(reg.resolve(&"books".to_string()), Ok(&1));
    assert_eq!(reg.count(), 1);
}

#[test]
fn resolve_unknown_name() {
    let mut reg: BackendRegistry<u32> = BackendRegistry::new();
    assert_eq!(
        reg.resolve(&"inventory".to_string()),
        Err(PipelineError::UnknownBackend)
    );
    assert_eq!(reg.register("books".to_string(), 1), Ok(()));
    assert_eq!(
        reg.resolve(&"book".to_string()),
        Err(PipelineError::UnknownBackend)
    );
    assert!(reg.contains(&"books".to_string()));
    assert!(!reg.contains(&"".to_string()));
}

#[test]
fn empty_name_is_a_name() {
    let mut reg: BackendRegistry<u32> = BackendRegistry::new();
    assert_eq!(reg.register(String::new(), 3), Ok(()));
    assert_eq!(reg.resolve(&String::new()), Ok(&3));
}
