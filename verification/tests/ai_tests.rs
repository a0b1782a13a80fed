use asbar::ai::relay_url;
use asbar::ai::{ai_models, allowed_models, chat_url, check_model, relay_error, relay_error_message, ChatMessage};

#[test]
fn allowed_model_list() {
    assert_eq!(allowed_models(), vec!["gemini-2.5-flash", "gemini-2.5-flash-lite", "qwen/qwen3-32b"]);
    assert_eq!(
        ai_models(),
        vec!["gemini-2.5-flash".to_string(), "gemini-2.5-flash-lite".to_string(), "qwen/qwen3-32b".to_string()]
    );
}

#[test]
fn allowed_models_pass_the_check() {
    for m in allowed_models() {
        assert_eq!(check_model(m), Ok(()));
    }
}

#[test]
fn other_models_are_refused_by_name() {
    assert_eq!(check_model("gpt-4"), Err("model \"gpt-4\" is not allowed".to_string()));
    assert_eq!(check_model("gemini-2.5"), Err("model \"gemini-2.5\" is not allowed".to_string()));
    assert_eq!(check_model(""), Err("model \"\" is not allowed".to_string()));
}

#[test]
fn chat_endpoint() {
    assert_eq!(chat_url("http://de1.wildex.xyz:25573"), "http://de1.wildex.xyz:25573/v1/chat");
    assert_eq!(chat_url("http://localhost:8080/"), "http://localhost:8080/v1/chat");
    assert_eq!(chat_url("http://localhost:8080///"), "http://localhost:8080/v1/chat");
    assert_eq!(chat_url(""), "/v1/chat");
}

#[test]
fn relay_error_prefers_the_json_error_field() {
    assert_eq!(
        relay_error("429 Too Many Requests", "{\"error\":\"quota exceeded\"}"),
        "AI server error (429 Too Many Requests): quota exceeded"
    );
}

#[test]
fn relay_error_falls_back_to_the_body() {
    assert_eq!(
        relay_error("502 Bad Gateway", "upstream down"),
        "AI server error (502 Bad Gateway): upstream down"
    );
    assert_eq!(
        relay_error("500 Internal Server Error", "{\"error\":42}"),
        "AI server error (500 Internal Server Error): {\"error\":42}"
    );
    assert_eq!(
        relay_error("500 Internal Server Error", "{\"message\":\"x\"}"),
        "AI server error (500 Internal Server Error): {\"message\":\"x\"}"
    );
}

#[test]
fn relay_error_message_with_given_field() {
    assert_eq!(relay_error_message("400 Bad Request", "body", Some("bad".to_string())), "AI server error (400 Bad Request): bad");
    assert_eq!(relay_error_message("400 Bad Request", "body", None), "AI server error (400 Bad Request): body");
}

#[test]
fn chat_message_holds_role_and_content() {
    let m = ChatMessage { role: "user".to_string(), content: "hi".to_string() };
    let c = m.clone();
    assert_eq!(c.role, "user");
    assert_eq!(c.content, "hi");
}

#[test]
fn relay_url_default_and_override() {
    assert_eq!(relay_url(None), "http://de1.wildex.xyz:25573");
    assert_eq!(relay_url(Some("http://127.0.0.1:9000/".to_string())), "http://127.0.0.1:9000/");
    assert_eq!(chat_url(&relay_url(Some("http://127.0.0.1:9000/".to_string()))), "http://127.0.0.1:9000/v1/chat");
}
