use apollo_router::context::RequestContext;

#[test]
fn fresh_context_is_empty() {
    let ctx = RequestContext::new();
    assert_eq!(ctx.get(&"auth.user".to_string()), None);
}

#[test]
fn insert_then_get_and_replace() {
    let mut ctx = RequestContext::new();
    ctx.insert("auth.user".to_string(), "alice".to_string());
    ctx.insert("trace".to_string(), "1".to_string());
    assert_eq!(ctx.get(&"auth.user".to_string()), Some(&"alice".to_string()));
    ctx.insert("auth.user".to_string(), "bob".to_string());
    assert_eq!(ctx.get(&"auth.user".to_string()), Some(&"bob".to_string()));
    assert_eq!(ctx.get(&"trace".to_string()), Some(&"1".to_string()));
}
