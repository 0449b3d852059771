use curl_builder::{
    CommandBuilder, CurlCommand, CurlOption, Environment, FormField, Header, HttpMethod,
    QueryParam, RequestBody,
};

fn option(flag: &str, value: Option<&str>, enabled: bool) -> CurlOption {
    CurlOption {
        id: "1".to_string(),
        flag: flag.to_string(),
        value: value.map(|v| v.to_string()),
        enabled,
    }
}

fn header(key: &str, value: &str, enabled: bool) -> Header {
    Header {
        id: "1".to_string(),
        key: key.to_string(),
        value: value.to_string(),
        enabled,
    }
}

fn param(key: &str, value: &str, enabled: bool) -> QueryParam {
    QueryParam {
        id: "1".to_string(),
        key: key.to_string(),
        value: value.to_string(),
        enabled,
    }
}

fn field(key: &str, value: &str, enabled: bool) -> FormField {
    FormField {
        id: "1".to_string(),
        key: key.to_string(),
        value: value.to_string(),
        enabled,
    }
}

fn command_for(url: &str) -> CurlCommand {
    let mut command = CurlCommand::default();
    command.url = url.to_string();
    command
}

#[test]
fn test_build_simple_command() {
    let mut command = CurlCommand::default();
    command.url = "https://example.com".to_string();

    let environment = Environment::new("test".to_string());

    let result = CommandBuilder::build(&command, &environment);
    assert_eq!(result, "curl https://example.com");
}

#[test]
fn test_build_command_with_options() {
    let mut command = CurlCommand::default();
    command.url = "https://example.com".to_string();
    command.options.push(CurlOption {
        id: "1".to_string(),
        flag: "-v".to_string(),
        value: None,
        enabled: true,
    });

    let environment = Environment::new("test".to_string());

    let result = CommandBuilder::build(&command, &environment);
    assert_eq!(result, "curl -v https://example.com");
}

#[test]
fn test_build_command_with_headers() {
    let mut command = CurlCommand::default();
    command.url = "https://example.com".to_string();
    command.headers.push(Header {
        id: "1".to_string(),
        key: "Content-Type".to_string(),
        value: "application/json".to_string(),
        enabled: true,
    });

    let environment = Environment::new("test".to_string());

    let result = CommandBuilder::build(&command, &environment);
    assert_eq!(result, "curl -H 'Content-Type: application/json' https://example.com");
}

#[test]
fn test_build_command_with_method() {
    let mut command = CurlCommand::default();
    command.url = "https://example.com".to_string();
    command.method = Some(HttpMethod::POST);

    let environment = Environment::new("test".to_string());

    let result = CommandBuilder::build(&command, &environment);
    assert_eq!(result, "curl -X POST https://example.com");
}

#[test]
fn test_build_command_with_query_params() {
    let mut command = CurlCommand::default();
    command.url = "https://example.com".to_string();
    command.query_params.push(QueryParam {
        id: "1".to_string(),
        key: "q".to_string(),
        value: "test query".to_string(),
        enabled: true,
    });

    let environment = Environment::new("test".to_string());

    let result = CommandBuilder::build(&command, &environment);
    assert_eq!(result, "curl https://example.com?q=test%20query");
}

#[test]
fn test_substitute_env_vars() {
    let mut environment = Environment::new("test".to_string());
    environment.add_variable("api_url".to_string(), "https://api.example.com".to_string(), false);
    environment.add_variable("api_key".to_string(), "secret-key".to_string(), true);

    let input = "{{api_url}}/users?key={{api_key}}";
    let result = CommandBuilder::substitute_env_vars(input, &environment);

    assert_eq!(result, "https://api.example.com/users?key=secret-key");
}

#[test]
fn test_substitute_env_vars_with_default() {
    let environment = Environment::new("test".to_string());

    let input = "{{api_url:https://default.example.com}}/users";
    let result = CommandBuilder::substitute_env_vars(input, &environment);

    assert_eq!(result, "https://default.example.com/users");
}

#[test]
fn test_build_command_with_json_body() {
    let mut command = CurlCommand::default();
    command.url = "https://example.com".to_string();
    command.method = Some(HttpMethod::POST);
    command.headers.push(Header {
        id: "1".to_string(),
        key: "Content-Type".to_string(),
        value: "application/json".to_string(),
        enabled: true,
    });
    command.body = Some(RequestBody::Raw(r#"{"key": "value", "number": 42}"#.to_string()));

    let environment = Environment::new("test".to_string());

    let result = CommandBuilder::build(&command, &environment);
    assert!(result.contains(r#"'{"key": "value", "number": 42}'"#));
}

#[test]
fn test_needs_quoting() {
    assert!(CommandBuilder::needs_quoting(r#"{"key": "value"}"#));
    assert!(CommandBuilder::needs_quoting("hello world"));
    assert!(CommandBuilder::needs_quoting("test&more"));
    assert!(CommandBuilder::needs_quoting("test|more"));
    assert!(CommandBuilder::needs_quoting("test$var"));
    assert!(CommandBuilder::needs_quoting(""));

    assert!(!CommandBuilder::needs_quoting("simple"));
    assert!(!CommandBuilder::needs_quoting("test123"));
    assert!(!CommandBuilder::needs_quoting("test-value"));
    assert!(!CommandBuilder::needs_quoting("test_value"));
    assert!(!CommandBuilder::needs_quoting("test.value"));

    assert!(!CommandBuilder::needs_quoting("https://example.com?param={\"key\":\"value\"}"));
    assert!(!CommandBuilder::needs_quoting("http://example.com/path?q=test&other=value"));
    assert!(!CommandBuilder::needs_quoting("https://api.example.com/users?filter={\"active\":true}"));
}

#[test]
fn bare_request_is_program_and_url() {
    let mut command = command_for("https://example.com/a");
    command.options.push(option("-v", None, false));
    command.headers.push(header("Accept", "x", false));
    command.query_params.push(param("q", "1", false));
    command.method = Some(HttpMethod::GET);
    command.body = Some(RequestBody::Empty);
    let environment = Environment::new("test".to_string());
    assert_eq!(CommandBuilder::build(&command, &environment), "curl https://example.com/a");
}

#[test]
fn disabled_items_are_left_out() {
    let mut command = command_for("https://example.com");
    command.options.push(option("-k", None, false));
    command.options.push(option("-v", None, true));
    command.options.push(option("-o", Some("out.txt"), false));
    command.headers.push(header("A", "1", true));
    command.headers.push(header("B", "2", false));
    command.query_params.push(param("x", "1", false));
    command.query_params.push(param("y", "2", true));
    command.body = Some(RequestBody::FormData(vec![field("f", "1", false), field("g", "2", true)]));
    let environment = Environment::new("test".to_string());
    assert_eq!(
        CommandBuilder::build(&command, &environment),
        "curl -v -H 'A: 1' -F g=2 https://example.com?y=2"
    );
}

#[test]
fn method_flag_only_for_verbs_other_than_get() {
    let environment = Environment::new("test".to_string());
    let mut command = command_for("https://example.com");
    command.method = Some(HttpMethod::GET);
    assert_eq!(CommandBuilder::build(&command, &environment), "curl https://example.com");
    command.method = Some(HttpMethod::DELETE);
    assert_eq!(CommandBuilder::build(&command, &environment), "curl -X DELETE https://example.com");
    command.method = None;
    assert_eq!(CommandBuilder::build(&command, &environment), "curl https://example.com");
}

#[test]
fn query_is_added_to_an_existing_query() {
    let mut command = command_for("https://example.com/p?a=1");
    command.query_params.push(param("b", "2", true));
    let environment = Environment::new("test".to_string());
    assert_eq!(
        CommandBuilder::build_url_with_query(&command, &environment),
        "https://example.com/p?a=1&b=2"
    );
    assert_eq!(
        CommandBuilder::build(&command, &environment),
        "curl https://example.com/p?a=1&b=2"
    );
}

#[test]
fn query_values_are_percent_encoded() {
    let mut command = command_for("https://example.com");
    command.query_params.push(param("q", "a/b&c=d", true));
    command.query_params.push(param("u", "-._~Az9", true));
    command.query_params.push(param("e", "é€😀", true));
    let environment = Environment::new("test".to_string());
    assert_eq!(
        CommandBuilder::build_url_with_query(&command, &environment),
        "https://example.com?q=a%2Fb%26c%3Dd&u=-._~Az9&e=%C3%A9%E2%82%AC%F0%9F%98%80"
    );
}

#[test]
fn query_values_are_substituted_and_keys_are_not() {
    let mut environment = Environment::new("test".to_string());
    environment.add_variable("v".to_string(), "x y".to_string(), false);
    let mut command = command_for("{{host:http://localhost}}/s");
    command.query_params.push(param("{{v}}", "{{v}}", true));
    assert_eq!(
        CommandBuilder::build_url_with_query(&command, &environment),
        "http://localhost/s?{{v}}=x%20y"
    );
}

#[test]
fn substitution_prefers_variables_then_defaults_then_literal() {
    let mut environment = Environment::new("test".to_string());
    environment.add_variable("x".to_string(), "secret-key".to_string(), true);
    assert_eq!(CommandBuilder::substitute_env_vars("{{x}}", &environment), "secret-key");
    assert_eq!(CommandBuilder::substitute_env_vars("{{x:fallback}}", &environment), "secret-key");
    let empty = Environment::new("test".to_string());
    assert_eq!(CommandBuilder::substitute_env_vars("{{x:fallback}}", &empty), "fallback");
    assert_eq!(CommandBuilder::substitute_env_vars("{{x}}", &empty), "{{x}}");
    assert_eq!(CommandBuilder::substitute_env_vars("a{{x}}b{{x}}c", &empty), "a{{x}}b{{x}}c");
}

#[test]
fn substituted_values_are_not_expanded_again() {
    let mut environment = Environment::new("test".to_string());
    environment.add_variable("a".to_string(), "{{b}}".to_string(), false);
    environment.add_variable("b".to_string(), "z".to_string(), false);
    assert_eq!(CommandBuilder::substitute_env_vars("[{{a}}]{{b}}", &environment), "[{{b}}]z");
}

#[test]
fn malformed_placeholders_are_left_alone() {
    let empty = Environment::new("test".to_string());
    for text in ["{{", "{{}}", "{{x:}}", "{{x", "{x}", "{{x}", "{{a:b:c}"] {
        assert_eq!(CommandBuilder::substitute_env_vars(text, &empty), text);
    }
    let mut environment = Environment::new("test".to_string());
    environment.add_variable("{a".to_string(), "v".to_string(), false);
    assert_eq!(CommandBuilder::substitute_env_vars("{{{a}}", &environment), "v");
    assert_eq!(CommandBuilder::substitute_env_vars("{{a:b:c}}", &empty), "b:c");
}

#[test]
fn substitution_agrees_with_the_placeholder_pattern() {
    let pattern = regex::Regex::new(r"\{\{([^:}]+)(?::([^}]+))?\}\}").unwrap();
    let mut environment = Environment::new("test".to_string());
    environment.add_variable("host".to_string(), "example.org".to_string(), false);
    environment.add_variable("id".to_string(), "{{host}}".to_string(), false);
    let inputs = [
        "https://{{host}}/users/{{id}}",
        "{{missing:fallback}}-{{missing}}-{{host:unused}}",
        "{{{host}}}} {{x:}} {{:y}} {{a}b}} {{ spaced name }}",
        "",
        "no placeholders at all",
        "{{host}}{{host}}{{ho\nst}}",
    ];
    for input in inputs {
        let expected = pattern.replace_all(input, |caps: &regex::Captures| {
            let name = caps.get(1).unwrap().as_str();
            match environment.variables.iter().find(|v| v.key == name) {
                Some(v) => v.value.clone(),
                None => match caps.get(2) {
                    Some(d) => d.as_str().to_string(),
                    None => caps.get(0).unwrap().as_str().to_string(),
                },
            }
        });
        assert_eq!(CommandBuilder::substitute_env_vars(input, &environment), expected);
    }
}

#[test]
fn blank_raw_body_is_omitted() {
    let environment = Environment::new("test".to_string());
    let mut command = command_for("https://example.com");
    command.body = Some(RequestBody::Raw(" \t\r\n\u{a0}\u{3000} ".to_string()));
    assert_eq!(CommandBuilder::build(&command, &environment), "curl https://example.com");
    command.body = Some(RequestBody::Raw(String::new()));
    assert_eq!(CommandBuilder::build(&command, &environment), "curl https://example.com");
    command.body = Some(RequestBody::Raw("{{pad: }}".to_string()));
    assert_eq!(CommandBuilder::build(&command, &environment), "curl https://example.com");
}

#[test]
fn raw_body_with_single_quote_is_escaped() {
    let environment = Environment::new("test".to_string());
    let mut command = command_for("https://example.com");
    command.body = Some(RequestBody::Raw("it's".to_string()));
    assert_eq!(
        CommandBuilder::build(&command, &environment),
        "curl -d 'it'\"'\"'s' https://example.com"
    );
}

#[test]
fn json_body_is_one_quoted_token() {
    let environment = Environment::new("test".to_string());
    let mut command = command_for("https://example.com");
    command.method = Some(HttpMethod::PUT);
    command.body = Some(RequestBody::Raw(r#"{"key": "value", "number": 42}"#.to_string()));
    assert_eq!(
        CommandBuilder::build(&command, &environment),
        r#"curl -X PUT -d '{"key": "value", "number": 42}' https://example.com"#
    );
}

#[test]
fn url_tokens_are_never_quoted() {
    for token in ["http://a b", "https://x/{y}", "ftp://h/a'b", "https://"] {
        assert!(!CommandBuilder::needs_quoting(token));
    }
    assert!(CommandBuilder::needs_quoting("file:///a b"));
    assert!(CommandBuilder::needs_quoting("HTTP://a b"));
    let environment = Environment::new("test".to_string());
    let mut command = command_for("https://example.com/{a} b");
    command.options.push(option("--proxy", Some("http://proxy:8080/{x}"), true));
    assert_eq!(
        CommandBuilder::build(&command, &environment),
        "curl --proxy http://proxy:8080/{x} https://example.com/{a} b"
    );
}

#[test]
fn tokens_that_start_with_a_quote_are_kept() {
    let args = vec![
        "curl".to_string(),
        "\"a b\"".to_string(),
        "'c d".to_string(),
        String::new(),
        "x;y".to_string(),
    ];
    assert_eq!(CommandBuilder::format_curl_command(&args), "curl \"a b\" 'c d '' 'x;y'");
}

#[test]
fn substitution_twice_of_resolved_text_changes_nothing() {
    let mut environment = Environment::new("test".to_string());
    environment.add_variable("x".to_string(), "1".to_string(), false);
    let once = CommandBuilder::substitute_env_vars("a={{x}}&b={{y:2}}", &environment);
    assert_eq!(once, "a=1&b=2");
    let twice = CommandBuilder::substitute_env_vars(&once, &environment);
    assert_eq!(twice, once);
}

#[test]
fn items_keep_their_list_order() {
    let environment = Environment::new("test".to_string());
    let mut command = command_for("https://example.com");
    command.options.push(option("-s", None, true));
    command.options.push(option("-m", Some("5"), true));
    command.options.push(option("-L", None, true));
    command.headers.push(header("Z", "1", true));
    command.headers.push(header("A", "2", true));
    command.query_params.push(param("z", "1", true));
    command.query_params.push(param("a", "2", true));
    command.method = Some(HttpMethod::PATCH);
    command.body = Some(RequestBody::FormData(vec![field("b", "1", true), field("a", "x y", true)]));
    assert_eq!(
        CommandBuilder::build(&command, &environment),
        "curl -s -m 5 -L -X PATCH -H 'Z: 1' -H 'A: 2' -F b=1 -F 'a=x y' https://example.com?z=1&a=2"
    );
}

#[test]
fn binary_body_refers_to_the_file() {
    let environment = Environment::new("test".to_string());
    let mut command = command_for("https://example.com");
    command.body = Some(RequestBody::Binary("/tmp/{{data}}.bin".to_string()));
    assert_eq!(
        CommandBuilder::build(&command, &environment),
        "curl --data-binary '@/tmp/{{data}}.bin' https://example.com"
    );
}

#[test]
fn option_values_and_headers_are_substituted() {
    let mut environment = Environment::new("test".to_string());
    environment.add_variable("token".to_string(), "abc".to_string(), true);
    let mut command = command_for("https://example.com");
    command.options.push(option("-u", Some("user:{{token}}"), true));
    command.headers.push(header("Authorization", "Bearer {{token}}", true));
    assert_eq!(
        CommandBuilder::build(&command, &environment),
        "curl -u user:abc -H 'Authorization: Bearer abc' https://example.com"
    );
}

#[test]
fn adding_a_variable_twice_replaces_its_value() {
    let mut environment = Environment::new("dev".to_string());
    environment.add_variable("k".to_string(), "1".to_string(), false);
    environment.add_variable("k".to_string(), "2".to_string(), false);
    assert_eq!(environment.variables.len(), 1);
    assert_eq!(CommandBuilder::substitute_env_vars("{{k}}", &environment), "2");
    assert_eq!(environment.name, "dev");
}

#[test]
fn method_names() {
    assert_eq!(HttpMethod::OPTIONS.to_string(), "OPTIONS");
    assert_eq!(HttpMethod::HEAD.as_str(), "HEAD");
}
