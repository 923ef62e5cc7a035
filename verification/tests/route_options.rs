use context_ledger::provider::ModelRoute;
use context_ledger::route_options::curator_route_options;

fn route(provider: &str, api_method: &str, model: &str, available: bool) -> ModelRoute {
    ModelRoute {
        provider: provider.to_string(),
        model: model.to_string(),
        api_method: api_method.to_string(),
        available,
        detail: format!("{provider} {model}"),
        stable_id: format!("{provider}:{api_method}:{model}"),
    }
}

fn efforts(list: &[&str]) -> Vec<String> {
    list.iter().map(|e| e.to_string()).collect()
}

#[test]
fn route_options_are_deduplicated_ignoring_case_and_sorted_by_model_then_provider() {
    let routes = vec![
        (route("OpenAI", "responses", "gpt-5", true), efforts(&["low", "high", "swarm"])),
        (route("anthropic", "messages", "alpha-model", true), efforts(&["medium"])),
        (route("openai", "Responses", "GPT-5", true), efforts(&["low"])),
        (route("openrouter", "chat", "gpt-5", false), efforts(&[])),
        (route("azure", "chat", "gpt-5", true), efforts(&["swarm-deep", "max"])),
    ];
    let options = curator_route_options(&routes);
    assert_eq!(options.len(), 3);
    assert_eq!(options[0].model, "alpha-model");
    assert_eq!(options[1].provider, "azure");
    assert_eq!(options[1].efforts, efforts(&["max"]));
    assert_eq!(options[2].provider, "OpenAI");
    assert_eq!(options[2].route, "responses");
    assert_eq!(options[2].detail, "OpenAI gpt-5");
    assert_eq!(options[2].efforts, efforts(&["low", "high"]));
}

#[test]
fn routes_differing_only_by_route_case_sensitively_are_ordered_by_route() {
    let routes = vec![
        (route("p", "b-route", "m", true), Vec::new()),
        (route("p", "a-route", "m", true), Vec::new()),
    ];
    let options = curator_route_options(&routes);
    assert_eq!(options.len(), 2);
    assert_eq!(options[0].route, "a-route");
    assert_eq!(options[1].route, "b-route");
}

#[test]
fn no_available_routes_give_no_options() {
    let routes = vec![(route("p", "r", "m", false), Vec::new())];
    assert!(curator_route_options(&routes).is_empty());
}
