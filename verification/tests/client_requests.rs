use ollama_client::client::{
    connection_status, deletion_status, keep_alive_status, list_models, list_running_models,
    OllamaClient,
};
use ollama_client::error::ClientError;
use ollama_client::model::{Model, RunningModel};
use ollama_client::transport::{status_is_success, Exchange, HttpRequest, Method};

fn client() -> OllamaClient {
    OllamaClient::new("http://localhost:11434".to_string())
}

fn answer(status: u16, body: &str) -> Exchange {
    Exchange::Completed { status, body: body.as_bytes().to_vec() }
}

fn failed(reason: &str) -> Exchange {
    Exchange::Failed { reason: reason.to_string() }
}

fn body_of(request: &HttpRequest) -> serde_json::Value {
    serde_json::from_str(request.body.as_ref().expect("a body")).expect("a JSON body")
}

#[test]
fn catalog_request() {
    let request = client().get_tags();
    assert_eq!(
        request,
        HttpRequest {
            method: Method::Get,
            url: "http://localhost:11434/api/tags".to_string(),
            body: None
        }
    );
}

#[test]
fn process_status_request() {
    let request = client().get_running_models();
    assert_eq!(
        request,
        HttpRequest {
            method: Method::Get,
            url: "http://localhost:11434/api/ps".to_string(),
            body: None
        }
    );
}

#[test]
fn connection_probe_is_the_catalog_request() {
    assert_eq!(client().check_connection(), client().get_tags());
}

#[test]
fn delete_request() {
    let request = client().delete_model("llama3:8b".to_string());
    assert_eq!(request.method, Method::Delete);
    assert_eq!(request.url, "http://localhost:11434/api/delete");
    assert_eq!(request.body, Some("{\"name\":\"llama3:8b\"}".to_string()));
}

#[test]
fn start_then_unload_each_post_to_generate() {
    let c = client();
    let start = c.start_model("llama3:8b".to_string());
    let unload = c.unload_model("llama3:8b".to_string());
    assert_eq!(start.method, Method::Post);
    assert_eq!(unload.method, Method::Post);
    assert_eq!(start.url, "http://localhost:11434/api/generate");
    assert_eq!(unload.url, "http://localhost:11434/api/generate");
    assert_eq!(start.body, Some("{\"model\":\"llama3:8b\",\"keep_alive\":-1}".to_string()));
    assert_eq!(unload.body, Some("{\"model\":\"llama3:8b\",\"keep_alive\":0}".to_string()));
    assert_eq!(body_of(&start)["keep_alive"].as_i64(), Some(-1));
    assert_eq!(body_of(&unload)["keep_alive"].as_i64(), Some(0));
    assert_eq!(body_of(&start)["model"].as_str(), Some("llama3:8b"));
    assert_eq!(body_of(&unload)["model"].as_str(), Some("llama3:8b"));
}

#[test]
fn unload_then_start_each_post_to_generate() {
    let c = client();
    let unload = c.unload_model("m".to_string());
    let start = c.start_model("m".to_string());
    assert_eq!(body_of(&unload)["keep_alive"].as_i64(), Some(0));
    assert_eq!(body_of(&start)["keep_alive"].as_i64(), Some(-1));
    assert_eq!(keep_alive_status(&answer(200, "{\"done\":true}")), Ok(()));
    assert_eq!(keep_alive_status(&answer(200, "{\"done\":true}")), Ok(()));
}

#[test]
fn start_and_unload_succeed_whatever_the_answer_holds() {
    assert_eq!(keep_alive_status(&answer(200, "")), Ok(()));
    assert_eq!(keep_alive_status(&answer(200, "not json at all")), Ok(()));
    assert_eq!(keep_alive_status(&answer(200, "{\"response\":\"\",\"done\":true}")), Ok(()));
    assert_eq!(keep_alive_status(&answer(404, "{\"error\":\"model not found\"}")), Ok(()));
    assert_eq!(keep_alive_status(&answer(500, "")), Ok(()));
}

#[test]
fn start_and_unload_fail_when_the_transport_fails() {
    assert_eq!(
        keep_alive_status(&failed("connection refused")),
        Err(ClientError::Transport("connection refused".to_string()))
    );
}

#[test]
fn pull_request() {
    let request = client().pull_model("llama3:8b".to_string());
    assert_eq!(request.method, Method::Post);
    assert_eq!(request.url, "http://localhost:11434/api/pull");
    assert_eq!(request.body, Some("{\"name\":\"llama3:8b\",\"stream\":true}".to_string()));
    assert_eq!(body_of(&request)["stream"].as_bool(), Some(true));
}

#[test]
fn names_are_written_as_json_strings() {
    let name = "we\"ird\\na\nme\t\u{1}\u{e9}\u{1f980}/";
    let c = client();
    assert_eq!(body_of(&c.delete_model(name.to_string()))["name"].as_str(), Some(name));
    assert_eq!(body_of(&c.start_model(name.to_string()))["model"].as_str(), Some(name));
    assert_eq!(body_of(&c.unload_model(name.to_string()))["model"].as_str(), Some(name));
    assert_eq!(body_of(&c.pull_model(name.to_string()))["name"].as_str(), Some(name));
    assert_eq!(
        c.delete_model("a\"b".to_string()).body,
        Some("{\"name\":\"a\\\"b\"}".to_string())
    );
    assert_eq!(c.delete_model("".to_string()).body, Some("{\"name\":\"\"}".to_string()));
}

#[test]
fn operations_after_set_endpoint_target_the_new_base() {
    let mut c = client();
    let before = c.get_tags();
    c.set_endpoint("http://host:8080".to_string());
    assert_eq!(c.base_url(), "http://host:8080");
    assert_eq!(c.get_tags().url, "http://host:8080/api/tags");
    assert_eq!(c.check_connection().url, "http://host:8080/api/tags");
    assert_eq!(c.get_running_models().url, "http://host:8080/api/ps");
    assert_eq!(c.delete_model("m".to_string()).url, "http://host:8080/api/delete");
    assert_eq!(c.start_model("m".to_string()).url, "http://host:8080/api/generate");
    assert_eq!(c.unload_model("m".to_string()).url, "http://host:8080/api/generate");
    assert_eq!(c.pull_model("m".to_string()).url, "http://host:8080/api/pull");
    assert_eq!(before.url, "http://localhost:11434/api/tags");
}

#[test]
fn set_endpoint_takes_any_text() {
    let mut c = client();
    c.set_endpoint("".to_string());
    assert_eq!(c.get_tags().url, "/api/tags");
    c.set_endpoint("http://host/".to_string());
    assert_eq!(c.get_tags().url, "http://host//api/tags");
}

#[test]
fn new_keeps_the_base_url() {
    assert_eq!(client().base_url(), "http://localhost:11434");
}

#[test]
fn success_range() {
    assert!(!status_is_success(199));
    assert!(status_is_success(200));
    assert!(status_is_success(204));
    assert!(status_is_success(299));
    assert!(!status_is_success(300));
    assert!(!status_is_success(404));
    assert!(!status_is_success(0));
}

#[test]
fn catalog_comes_in_the_order_of_the_array() {
    let body = "{\"models\":[{\"name\":\"llama3:8b\",\"size\":4661224676,\"modified_at\":\"2024-05-01T10:00:00Z\",\"digest\":\"x\"},{\"name\":\"a-first\",\"size\":1,\"modified_at\":\"t\"},{\"name\":\"llama3:8b\",\"size\":-2,\"modified_at\":\"\"}]}";
    assert_eq!(
        list_models(&answer(200, body)),
        Ok(vec![
            Model {
                name: "llama3:8b".to_string(),
                size: 4661224676,
                modified_at: "2024-05-01T10:00:00Z".to_string()
            },
            Model { name: "a-first".to_string(), size: 1, modified_at: "t".to_string() },
            Model { name: "llama3:8b".to_string(), size: -2, modified_at: "".to_string() },
        ])
    );
}

#[test]
fn empty_catalog_is_a_success() {
    assert_eq!(list_models(&answer(200, "{\"models\":[]}")), Ok(vec![]));
    assert_eq!(list_models(&answer(200, " { \"models\" : [ ] } \n")), Ok(vec![]));
    assert_eq!(list_running_models(&answer(200, "{\"models\":[]}")), Ok(vec![]));
}

#[test]
fn catalog_of_another_shape_is_a_protocol_error() {
    for body in [
        "",
        "not json",
        "{\"models\":[",
        "[]",
        "{}",
        "{\"models\":null}",
        "{\"models\":{}}",
        "{\"models\":[{\"name\":\"a\",\"size\":1}]}",
        "{\"models\":[{\"name\":\"a\",\"size\":1.5,\"modified_at\":\"t\"}]}",
        "{\"models\":[{\"name\":\"a\",\"size\":9223372036854775808,\"modified_at\":\"t\"}]}",
        "{\"models\":[{\"name\":1,\"size\":1,\"modified_at\":\"t\"}]}",
        "{\"models\":[{\"name\":\"a\",\"size\":1,\"modified_at\":\"t\"},7]}",
        "{\"models\":[]} {\"models\":[]}",
    ] {
        assert_eq!(list_models(&answer(200, body)), Err(ClientError::Protocol), "{}", body);
    }
}

#[test]
fn catalog_from_a_failing_server_is_a_server_error() {
    assert_eq!(
        list_models(&answer(500, "{\"models\":[]}")),
        Err(ClientError::Server { status: 500, body: "{\"models\":[]}".to_string() })
    );
    assert_eq!(
        list_models(&answer(301, "")),
        Err(ClientError::Server { status: 301, body: "".to_string() })
    );
}

#[test]
fn catalog_without_an_answer_is_a_transport_error() {
    assert_eq!(
        list_models(&failed("dns error")),
        Err(ClientError::Transport("dns error".to_string()))
    );
    assert_eq!(
        list_running_models(&failed("dns error")),
        Err(ClientError::Transport("dns error".to_string()))
    );
}

#[test]
fn running_models_come_in_the_order_of_the_array() {
    let body = "{\"models\":[{\"name\":\"b\",\"size\":10,\"size_vram\":7},{\"name\":\"a\",\"size\":3,\"size_vram\":0,\"expires_at\":\"never\"}]}";
    assert_eq!(
        list_running_models(&answer(200, body)),
        Ok(vec![
            RunningModel { name: "b".to_string(), size: 10, size_vram: 7 },
            RunningModel { name: "a".to_string(), size: 3, size_vram: 0 },
        ])
    );
}

#[test]
fn running_models_of_another_shape_are_a_protocol_error() {
    assert_eq!(
        list_running_models(&answer(200, "{\"models\":[{\"name\":\"b\",\"size\":10}]}")),
        Err(ClientError::Protocol)
    );
    assert_eq!(
        list_running_models(&answer(404, "gone")),
        Err(ClientError::Server { status: 404, body: "gone".to_string() })
    );
}

#[test]
fn connection_probe_reports_only_success_or_failure() {
    assert_eq!(
        connection_status(&answer(200, "{\"models\":[{\"name\":\"a\",\"size\":1,\"modified_at\":\"t\"}]}")),
        Ok(())
    );
    assert_eq!(connection_status(&answer(200, "{\"models\":[]}")), Ok(()));
    assert_eq!(connection_status(&answer(200, "<html>")), Err(ClientError::Protocol));
    assert_eq!(
        connection_status(&answer(502, "bad gateway")),
        Err(ClientError::Server { status: 502, body: "bad gateway".to_string() })
    );
    assert_eq!(
        connection_status(&failed("connection refused")),
        Err(ClientError::Transport("connection refused".to_string()))
    );
}

#[test]
fn deletion_succeeds_on_a_success_status() {
    assert_eq!(deletion_status(&answer(200, "")), Ok(()));
    assert_eq!(deletion_status(&answer(200, "anything")), Ok(()));
}

#[test]
fn deletion_of_an_unknown_model_is_the_servers_error() {
    assert_eq!(
        deletion_status(&answer(404, "{\"error\":\"model 'x' not found\"}")),
        Err(ClientError::Server {
            status: 404,
            body: "{\"error\":\"model 'x' not found\"}".to_string()
        })
    );
    assert_eq!(
        deletion_status(&failed("timeout")),
        Err(ClientError::Transport("timeout".to_string()))
    );
}

#[test]
fn messages() {
    assert_eq!(
        ClientError::Transport("connection refused".to_string()).message(),
        "transport error: connection refused"
    );
    assert_eq!(
        ClientError::Server { status: 404, body: "not found".to_string() }.message(),
        "server error 404: not found"
    );
    assert_eq!(
        ClientError::Server { status: 0, body: "".to_string() }.message(),
        "server error 0: "
    );
    assert_eq!(
        ClientError::Server { status: 65535, body: "x".to_string() }.message(),
        "server error 65535: x"
    );
    assert_eq!(
        ClientError::Server { status: 500, body: "x".to_string() }.message(),
        "server error 500: x"
    );
    assert_eq!(
        ClientError::Protocol.message(),
        "protocol error: the response is not the expected JSON"
    );
}

#[test]
fn body_of_a_server_error_is_read_as_text() {
    assert_eq!(
        list_models(&Exchange::Completed { status: 500, body: b"caf\xc3\xa9".to_vec() }),
        Err(ClientError::Server { status: 500, body: "caf\u{e9}".to_string() })
    );
    assert_eq!(
        deletion_status(&Exchange::Completed { status: 400, body: b"a\xffb".to_vec() }),
        Err(ClientError::Server { status: 400, body: "a\u{fffd}b".to_string() })
    );
}

#[test]
fn catalog_that_is_no_utf8_is_a_protocol_error() {
    assert_eq!(
        list_models(&Exchange::Completed {
            status: 200,
            body: b"{\"models\":[{\"name\":\"\xff\",\"size\":1,\"modified_at\":\"t\"}]}".to_vec()
        }),
        Err(ClientError::Protocol)
    );
}
