use apollo_router::context::RequestContext;
use apollo_router::error::PipelineError;
use apollo_router::factory::{
    assemble_backends, ApolloRouterFactory, BackendSource, Configuration, SubgraphConfig,
    QUEUE_CAPACITY,
};
use apollo_router::mailbox::{Admission, Mailbox, WorkerStep};
use apollo_router::plugin_chain::Direction;

fn config(entries: &[(&str, &str)]) -> Configuration {
    Configuration {
        subgraphs: entries
            .iter()
            .map(|(n, u)| SubgraphConfig {
                name: n.to_string(),
                routing_url: u.to_string(),
            })
            .collect(),
    }
}

fn built(entries: &[(&str, Option<u32>)]) -> Vec<(String, Option<u32>)> {
    entries.iter().map(|(n, u)| (n.to_string(), *u)).collect()
}

#[test]
fn plan_from_configuration_without_overrides() {
    let factory: ApolloRouterFactory<&str, u32> = ApolloRouterFactory::empty();
    let cfg = config(&[("books", "http://a"), ("reviews", "http://b")]);
    let plan = factory.backend_plan(&cfg);
    assert_eq!(plan.len(), 2);
    assert_eq!(plan[0].name, "books");
    assert!(matches!(&plan[0].source, BackendSource::Address(u) if u == "http://a"));
    assert_eq!(plan[1].name, "reviews");
    assert!(matches!(&plan[1].source, BackendSource::Address(u) if u == "http://b"));
}

#[test]
fn overrides_replace_configuration_entirely() {
    let factory: ApolloRouterFactory<&str, u32> =
        ApolloRouterFactory::new(vec![], vec![("inventory".to_string(), 5)]);
    let cfg = config(&[("books", "http://a"), ("reviews", "http://b")]);
    let plan = factory.backend_plan(&cfg);
    assert_eq!(plan.len(), 1);
    assert_eq!(plan[0].name, "inventory");
    assert!(matches!(plan[0].source, BackendSource::Override(0)));
    assert_eq!(*factory.override_unit(0), 5);
}

#[test]
fn empty_configuration_plans_nothing() {
    let factory: ApolloRouterFactory<&str, u32> = ApolloRouterFactory::empty();
    assert!(factory.backend_plan(&config(&[])).is_empty());
}

#[test]
fn assemble_all_or_nothing() {
    let ok = assemble_backends(built(&[("books", Some(1)), ("reviews", Some(2))])).unwrap();
    assert_eq!(ok.count(), 2);
    assert_eq!(ok.resolve(&"reviews".to_string()), Ok(&2));
    assert_eq!(
        assemble_backends(built(&[("books", Some(1)), ("inventory", None)])).err(),
        Some(PipelineError::BackendInitFailure)
    );
    assert_eq!(
        assemble_backends(built(&[("books", Some(1)), ("books", Some(2))])).err(),
        Some(PipelineError::DuplicateBackend)
    );
    // the first failing entry decides the error
    assert_eq!(
        assemble_backends(built(&[("a", Some(1)), ("a", Some(2)), ("b", None)])).err(),
        Some(PipelineError::DuplicateBackend)
    );
    assert_eq!(
        assemble_backends(built(&[("b", None), ("a", Some(1)), ("a", Some(2))])).err(),
        Some(PipelineError::BackendInitFailure)
    );
}

#[test]
fn generations_count_up_and_old_one_keeps_serving() {
    let factory: ApolloRouterFactory<&str, u32> = ApolloRouterFactory::new(vec!["auth"], vec![]);
    let mut first = factory
        .create(None, built(&[("books", Some(1))]), true)
        .unwrap();
    assert_eq!(first.generation(), 0);
    assert_eq!(first.offer(100), Ok(Admission::Queued));
    let second = factory
        .create(Some(&first), built(&[("books", Some(2))]), true)
        .unwrap();
    assert_eq!(second.generation(), 1);
    assert_eq!(second.backends().resolve(&"books".to_string()), Ok(&2));
    // the request admitted to the first generation is still there, served
    // by the first generation's backend
    assert_eq!(first.mailbox().pending(), 1);
    assert_eq!(first.backends().resolve(&"books".to_string()), Ok(&1));
    assert_eq!(second.mailbox().pending(), 0);
}

#[test]
fn failed_build_leaves_previous_generation() {
    let factory: ApolloRouterFactory<&str, u32> = ApolloRouterFactory::empty();
    let mut active = factory
        .create(None, built(&[("books", Some(1))]), true)
        .unwrap();
    let failed = factory.create(
        Some(&active),
        built(&[("books", Some(1)), ("inventory", None)]),
        true,
    );
    assert_eq!(failed.err(), Some(PipelineError::BackendInitFailure));
    assert_eq!(active.generation(), 0);
    assert_eq!(active.backends().resolve(&"books".to_string()), Ok(&1));
    assert_eq!(active.offer(1), Ok(Admission::Queued));
}

#[test]
fn plugin_start_failure_fails_build() {
    let factory: ApolloRouterFactory<&str, u32> = ApolloRouterFactory::new(vec!["auth"], vec![]);
    let r = factory.create(None, built(&[("books", Some(1))]), false);
    assert_eq!(r.err(), Some(PipelineError::PluginInitFailure));
}

#[test]
fn books_and_reviews_with_auth() {
    let factory: ApolloRouterFactory<&str, u32> = ApolloRouterFactory::new(vec!["auth"], vec![]);
    let cfg = config(&[("books", "addrA"), ("reviews", "addrB")]);
    let plan = factory.backend_plan(&cfg);
    assert_eq!(plan.len(), 2);
    // each backend gets a mailbox of its own
    let mut entries = Vec::new();
    let mut mailboxes = Vec::new();
    for (i, p) in plan.iter().enumerate() {
        assert!(matches!(p.source, BackendSource::Address(_)));
        entries.push((p.name.clone(), Some(i as u32)));
        mailboxes.push(Mailbox::new(QUEUE_CAPACITY));
    }
    let pipeline = factory.create(None, entries, true).unwrap();
    assert_eq!(pipeline.generation(), 0);
    assert_eq!(pipeline.plugins().len(), 1);
    assert_eq!(*pipeline.plugins().get(0), "auth");
    assert_eq!(pipeline.mailbox().pending(), 0);
    // a request that needs both backends issues two independent calls
    for name in ["books", "reviews"] {
        let i = *pipeline.backends().resolve(&name.to_string()).unwrap() as usize;
        assert_eq!(mailboxes[i].offer(1), Ok(Admission::Queued));
    }
    for mb in mailboxes.iter_mut() {
        assert_eq!(mb.pending(), 1);
        assert_eq!(mb.next(), WorkerStep::Process(1));
    }
    // the auth plugin adds its field to the request's context on the way in,
    // and the outbound pass sees it
    let mut ctx = RequestContext::new();
    let mut seen_outbound = None;
    for stage in pipeline.plugins().stages() {
        assert_eq!(*pipeline.plugins().get(stage.plugin), "auth");
        match stage.direction {
            Direction::Inbound => ctx.insert("auth.user".to_string(), "alice".to_string()),
            Direction::Outbound => seen_outbound = ctx.get(&"auth.user".to_string()).cloned(),
        }
    }
    assert_eq!(seen_outbound, Some("alice".to_string()));
}
