use graviton_extensions::{
    AnyExtension, Extension, ExtensionManager, ExtensionRequest, ExtensionResponse, MockExtension,
};

struct Fixed {
    id: String,
    name: String,
    answer: String,
    success: bool,
}

impl Fixed {
    fn new(id: &str, name: &str, answer: &str, success: bool) -> Fixed {
        Fixed {
            id: id.to_string(),
            name: name.to_string(),
            answer: answer.to_string(),
            success,
        }
    }
}

impl Extension for Fixed {
    fn get_id(&self) -> &str {
        &self.id
    }

    fn get_name(&self) -> &str {
        &self.name
    }

    fn invoke(&self, _request: &ExtensionRequest) -> ExtensionResponse {
        ExtensionResponse {
            success: self.success,
            content: self.answer.clone(),
            extension_name: self.name.clone(),
        }
    }
}

fn request(prompt: &str, id: &str) -> ExtensionRequest {
    ExtensionRequest { prompt: prompt.to_string(), extension_id: id.to_string() }
}

#[test]
fn test_mcp_client_loads_correctly() {
    let mut manager: ExtensionManager<MockExtension> = ExtensionManager::new();
    manager.load_defaults();

    let extensions = manager.list_extensions();
    assert!(!extensions.is_empty(), "Extension manager should have loaded default extensions");

    let request = ExtensionRequest {
        prompt: "Hello from test".to_string(),
        extension_id: "mock_echo".to_string(),
    };

    let result = manager.invoke_extension(&request);
    assert!(result.is_ok(), "Mock extension should respond successfully");

    let response = result.unwrap();
    assert!(response.success, "Response should indicate success");
    assert!(
        response.content.contains("Hello from test"),
        "Response should contain the original prompt"
    );
}

#[test]
fn test_extension_manager_load() {
    let mut manager: ExtensionManager<MockExtension> = ExtensionManager::new();
    manager.load_defaults();

    let extensions = manager.list_extensions();
    assert_eq!(extensions.len(), 1);
    assert_eq!(extensions[0].0, "mock_echo");
}

#[test]
fn test_extension_manager_invoke() {
    let mut manager: ExtensionManager<MockExtension> = ExtensionManager::new();
    manager.load_defaults();

    let request = ExtensionRequest {
        prompt: "Test prompt".to_string(),
        extension_id: "mock_echo".to_string(),
    };

    let result = manager.invoke_extension(&request);
    assert!(result.is_ok());

    let response = result.unwrap();
    assert!(response.success);
    assert!(response.content.contains("Test prompt"));
}

#[test]
fn test_extension_not_found() {
    let manager: ExtensionManager<MockExtension> = ExtensionManager::new();

    let request = ExtensionRequest {
        prompt: "Test".to_string(),
        extension_id: "nonexistent".to_string(),
    };

    let result = manager.invoke_extension(&request);
    assert!(result.is_err());
    assert!(result.unwrap_err().contains("not found"));
}

#[test]
fn echo_through_the_registry_names_itself() {
    let mut manager: ExtensionManager<MockExtension> = ExtensionManager::new();
    manager.load_defaults();
    let response = manager.invoke_extension(&request("Hello from test", "mock_echo")).unwrap();
    assert!(response.success);
    assert_eq!(response.content, "[Echo] Hello from test");
    assert_eq!(response.extension_name, "Mock Echo Extension");
}

#[test]
fn exact_content_through_the_registry() {
    let mut manager: ExtensionManager<MockExtension> = ExtensionManager::new();
    manager.load_defaults();
    let response = manager.invoke_extension(&request("Hello, Graviton!", "mock_echo")).unwrap();
    assert_eq!(response.content, "[Echo] Hello, Graviton!");
}

#[test]
fn empty_registry_fails_for_any_id() {
    let manager: ExtensionManager<Fixed> = ExtensionManager::new();
    for id in ["mock_echo", "", "anything", "ä"] {
        let result = manager.invoke_extension(&request("p", id));
        assert_eq!(
            result.unwrap_err(),
            format!(
                "Extension '{}' not found. Available extensions: []. Try using 'mock_echo' for testing.",
                id
            )
        );
    }
    assert!(manager.list_extensions().is_empty());
}

#[test]
fn default_registry_is_empty() {
    let manager: ExtensionManager<MockExtension> = ExtensionManager::default();
    assert!(manager.list_extensions().is_empty());
    assert!(manager.roster_pairs().is_empty());
}

#[test]
fn not_found_message_shows_id_and_roster() {
    let mut manager: ExtensionManager<MockExtension> = ExtensionManager::new();
    manager.load_defaults();
    let message = manager.invoke_extension(&request("Test", "nonexistent")).unwrap_err();
    assert_eq!(
        message,
        "Extension 'nonexistent' not found. Available extensions: [(\"mock_echo\", \"Mock Echo Extension\")]. Try using 'mock_echo' for testing."
    );
}

#[test]
fn not_found_message_lists_every_entry_in_order() {
    let mut manager = ExtensionManager::new();
    manager.register(Fixed::new("a", "First", "1", true));
    manager.register(Fixed::new("b", "Second \"quoted\"", "2", true));
    manager.register(Fixed::new("c", "Third\n", "3", true));
    let message = manager.invoke_extension(&request("Test", "zz")).unwrap_err();
    assert_eq!(
        message,
        "Extension 'zz' not found. Available extensions: [(\"a\", \"First\"), (\"b\", \"Second \\\"quoted\\\"\"), (\"c\", \"Third\\n\")]. Try using 'mock_echo' for testing."
    );
    let listed: Vec<(String, String)> = manager
        .list_extensions()
        .into_iter()
        .map(|(id, name)| (id.to_string(), name.to_string()))
        .collect();
    assert_eq!(message, format!(
        "Extension 'zz' not found. Available extensions: {:?}. Try using 'mock_echo' for testing.",
        listed
    ));
}

#[test]
fn structured_failure_carries_id_and_roster() {
    let mut manager = ExtensionManager::new();
    manager.register(Fixed::new("a", "First", "1", true));
    manager.register(Fixed::new("b", "Second", "2", true));
    let failure = manager.dispatch(&request("Test", "missing")).unwrap_err();
    assert_eq!(failure.requested_id, "missing");
    assert_eq!(
        failure.available,
        vec![("a".to_string(), "First".to_string()), ("b".to_string(), "Second".to_string())]
    );
    assert_eq!(
        failure.message(),
        manager.invoke_extension(&request("Test", "missing")).unwrap_err()
    );
}

#[test]
fn a_failed_lookup_leaves_the_registry_as_it_was() {
    let mut manager: ExtensionManager<MockExtension> = ExtensionManager::new();
    manager.load_defaults();
    assert!(manager.invoke_extension(&request("x", "nope")).is_err());
    assert_eq!(manager.list_extensions(), vec![("mock_echo", "Mock Echo Extension")]);
    assert!(manager.invoke_extension(&request("x", "mock_echo")).is_ok());
}

#[test]
fn list_grows_by_one_with_each_register_in_order() {
    let mut manager = ExtensionManager::new();
    assert_eq!(manager.list_extensions().len(), 0);
    manager.register(Fixed::new("one", "One", "1", true));
    assert_eq!(manager.list_extensions(), vec![("one", "One")]);
    manager.register(Fixed::new("two", "Two", "2", true));
    assert_eq!(manager.list_extensions(), vec![("one", "One"), ("two", "Two")]);
    manager.register(Fixed::new("one", "One again", "3", true));
    assert_eq!(
        manager.list_extensions(),
        vec![("one", "One"), ("two", "Two"), ("one", "One again")]
    );
    assert_eq!(
        manager.roster_pairs(),
        vec![
            ("one".to_string(), "One".to_string()),
            ("two".to_string(), "Two".to_string()),
            ("one".to_string(), "One again".to_string())
        ]
    );
}

#[test]
fn register_shows_as_last_entry_at_once() {
    let mut manager: ExtensionManager<MockExtension> = ExtensionManager::new();
    manager.load_defaults();
    manager.register(MockExtension::new());
    let listed = manager.list_extensions();
    assert_eq!(listed.len(), 2);
    assert_eq!(listed[listed.len() - 1], ("mock_echo", "Mock Echo Extension"));
    let mut other = ExtensionManager::new();
    other.register(Fixed::new("x", "X", "1", true));
    other.register(Fixed::new("y", "Y", "2", true));
    assert_eq!(*other.list_extensions().last().unwrap(), ("y", "Y"));
}

#[test]
fn first_registered_wins_on_a_shared_id() {
    let mut manager = ExtensionManager::new();
    manager.register(Fixed::new("other", "Other", "other", true));
    manager.register(Fixed::new("dup", "First", "from the first", true));
    manager.register(Fixed::new("dup", "Second", "from the second", true));
    let response = manager.invoke_extension(&request("p", "dup")).unwrap();
    assert_eq!(response.content, "from the first");
    assert_eq!(response.extension_name, "First");
    assert_eq!(manager.find("dup"), Some(1));
    assert_eq!(manager.find("other"), Some(0));
    assert_eq!(manager.find("none"), None);
}

#[test]
fn an_extension_that_reports_failure_is_still_dispatched() {
    let mut manager = ExtensionManager::new();
    manager.register(Fixed::new("sad", "Sad", "cannot do that", false));
    let response = manager.invoke_extension(&request("p", "sad")).unwrap();
    assert!(!response.success);
    assert_eq!(response.content, "cannot do that");
    assert_eq!(response.extension_name, "Sad");
}

#[test]
fn ids_match_exactly() {
    let mut manager: ExtensionManager<MockExtension> = ExtensionManager::new();
    manager.load_defaults();
    for id in ["mock_ech", "mock_echo ", "Mock_echo", "mock_echoo", "mock_ecão", ""] {
        assert!(manager.invoke_extension(&request("p", id)).is_err());
    }
    assert!(manager.invoke_extension(&request("p", "mock_echo")).is_ok());
}

#[test]
fn echo_loaded_first_answers_for_a_shared_id() {
    let mut manager: ExtensionManager<AnyExtension<Fixed>> = ExtensionManager::new();
    manager.load_defaults();
    manager.register(AnyExtension::Other(Fixed::new("mock_echo", "X", "x", false)));
    let response = manager.invoke_extension(&request("p", "mock_echo")).unwrap();
    assert!(response.success);
    assert_eq!(response.content, "[Echo] p");
    assert_eq!(response.extension_name, "Mock Echo Extension");
    assert_eq!(
        manager.list_extensions(),
        vec![("mock_echo", "Mock Echo Extension"), ("mock_echo", "X")]
    );
    assert_eq!(manager.find("mock_echo"), Some(0));
}

#[test]
fn scan_goes_past_another_kind_to_the_echo() {
    let mut manager: ExtensionManager<AnyExtension<Fixed>> = ExtensionManager::new();
    manager.register(AnyExtension::Other(Fixed::new("x", "X", "x", false)));
    manager.load_defaults();
    let response = manager.invoke_extension(&request("p", "mock_echo")).unwrap();
    assert!(response.success);
    assert_eq!(response.content, "[Echo] p");
    assert_eq!(response.extension_name, "Mock Echo Extension");
    assert_eq!(manager.find("mock_echo"), Some(1));
    let other = manager.invoke_extension(&request("p", "x")).unwrap();
    assert!(!other.success);
    assert_eq!(other.content, "x");
    assert_eq!(other.extension_name, "X");
}

#[test]
fn another_kind_registered_first_wins_over_the_echo() {
    let mut manager: ExtensionManager<AnyExtension<Fixed>> = ExtensionManager::new();
    manager.register(AnyExtension::Other(Fixed::new("mock_echo", "X", "x", false)));
    manager.load_defaults();
    let response = manager.invoke_extension(&request("p", "mock_echo")).unwrap();
    assert!(!response.success);
    assert_eq!(response.content, "x");
    assert_eq!(response.extension_name, "X");
    let message = manager.invoke_extension(&request("p", "y")).unwrap_err();
    assert_eq!(
        message,
        "Extension 'y' not found. Available extensions: [(\"mock_echo\", \"X\"), (\"mock_echo\", \"Mock Echo Extension\")]. Try using 'mock_echo' for testing."
    );
}

#[test]
fn any_extension_answers_as_the_one_inside() {
    let echo: AnyExtension<Fixed> = AnyExtension::Echo(MockExtension::new());
    assert_eq!(echo.get_id(), "mock_echo");
    assert_eq!(echo.get_name(), "Mock Echo Extension");
    assert_eq!(echo.invoke(&request("q", "ignored")).content, "[Echo] q");
    let other = AnyExtension::Other(Fixed::new("f", "Fixed", "reply", true));
    assert_eq!(other.get_id(), "f");
    assert_eq!(other.get_name(), "Fixed");
    let response = other.invoke(&request("q", "f"));
    assert!(response.success);
    assert_eq!(response.content, "reply");
    assert_eq!(response.extension_name, "Fixed");
}
