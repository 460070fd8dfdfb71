use apollo_router::plugin_chain::{Direction, PluginChain, Stage};

#[test]
fn two_plugins_nest() {
    let chain = PluginChain::new(vec!["A", "B"]);
    let stages = chain.stages();
    let names: Vec<(&str, Direction)> = stages
        .iter()
        .map(|s| (*chain.get(s.plugin), s.direction))
        .collect();
    assert_eq!(
        names,
        vec![
            ("A", Direction::Inbound),
            ("B", Direction::Inbound),
            ("B", Direction::Outbound),
            ("A", Direction::Outbound),
        ]
    );
}

#[test]
fn empty_chain_has_no_stages() {
    let chain: PluginChain<u8> = PluginChain::new(Vec::new());
    assert_eq!(chain.len(), 0);
    assert!(chain.stages().is_empty());
}

#[test]
fn single_plugin_sees_both_ways() {
    let chain = PluginChain::new(vec!["auth"]);
    assert_eq!(
        chain.stages(),
        vec![
            Stage { plugin: 0, direction: Direction::Inbound },
            Stage { plugin: 0, direction: Direction::Outbound },
        ]
    );
}
