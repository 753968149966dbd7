use ollama_bridge::status_is_success;
use ollama_bridge::stream_init_outcome;
use ollama_bridge::delete_outcome;
use ollama_bridge::events::BridgeError;
use ollama_bridge::events::ChatMessage;
use ollama_bridge::events::StorageInfo;
use ollama_bridge::records::parse_models_response;
use ollama_bridge::files::add_entry_size;
use ollama_bridge::files::check_readable_size;
use ollama_bridge::files::choose_storage;
use ollama_bridge::files::folder_file_wanted;
use ollama_bridge::files::is_skipped_entry;
use ollama_bridge::files::may_descend;
use ollama_bridge::files::store_file_name;
use ollama_bridge::encode::chat_request_body;
use ollama_bridge::encode::delete_request_body;
use ollama_bridge::encode::pull_request_body;

#[test]
fn success_statuses_are_the_two_hundreds() {
    assert!(status_is_success(200));
    assert!(status_is_success(204));
    assert!(status_is_success(299));
    assert!(!status_is_success(199));
    assert!(!status_is_success(300));
    assert!(!status_is_success(404));
    assert!(!status_is_success(500));
}

#[test]
fn stream_init_carries_status_and_body() {
    assert!(stream_init_outcome(200, String::new()).is_ok());
    match stream_init_outcome(503, String::from("engine busy")) {
        Err(BridgeError::EngineStatus { status, body }) => {
            assert_eq!(status, 503);
            assert_eq!(body, "engine busy");
        }
        other => panic!("expected an engine status error, got {:?}", other),
    }
}

#[test]
fn delete_failure_carries_the_response() {
    assert!(delete_outcome(200, String::new()).is_ok());
    match delete_outcome(404, String::from("no such model")) {
        Err(BridgeError::DeleteFailed { detail }) => assert_eq!(detail, "no such model"),
        other => panic!("expected a delete failure, got {:?}", other),
    }
}

#[test]
fn models_list_parses_names_and_sizes() {
    let body = "{\"models\":[{\"name\":\"llama\",\"size\":42},{\"name\":\"phi\",\"size\":7}]}";
    let models = parse_models_response(body).unwrap();
    assert_eq!(models.len(), 2);
    assert_eq!(models[0].name, "llama");
    assert_eq!(models[0].size, 42);
    assert_eq!(models[1].name, "phi");
    assert_eq!(models[1].size, 7);
}

#[test]
fn missing_models_list_means_none_installed() {
    assert!(parse_models_response("{}").unwrap().is_empty());
    assert!(parse_models_response("{\"models\":null}").unwrap().is_empty());
}

#[test]
fn unreadable_tags_body_is_an_error() {
    match parse_models_response("not json at all") {
        Err(BridgeError::BadResponse { .. }) => {}
        other => panic!("expected a bad response error, got {:?}", other),
    }
    match parse_models_response("{\"models\":[{\"name\":\"x\"}]}") {
        Err(BridgeError::BadResponse { .. }) => {}
        other => panic!("expected a bad response error, got {:?}", other),
    }
}

#[test]
fn single_file_read_cap_is_ten_mebibytes() {
    assert!(check_readable_size(0).is_ok());
    assert!(check_readable_size(10 * 1024 * 1024).is_ok());
    match check_readable_size(10 * 1024 * 1024 + 1) {
        Err(BridgeError::FileTooLarge) => {}
        other => panic!("expected the size cap error, got {:?}", other),
    }
}

#[test]
fn folder_scan_skips_hidden_and_build_directories() {
    assert!(is_skipped_entry(&String::from(".git")));
    assert!(is_skipped_entry(&String::from(".env.local")));
    assert!(is_skipped_entry(&String::from("node_modules")));
    assert!(is_skipped_entry(&String::from("target")));
    assert!(is_skipped_entry(&String::from("dist")));
    assert!(!is_skipped_entry(&String::from("src")));
    assert!(!is_skipped_entry(&String::from("")));
}

#[test]
fn folder_scan_depth_is_capped() {
    assert!(may_descend(0));
    assert!(may_descend(5));
    assert!(!may_descend(6));
}

#[test]
fn folder_files_chosen_by_extension_case_blind() {
    assert!(folder_file_wanted(&String::from("notes.TXT"), &String::from("TXT"), 10));
    assert!(folder_file_wanted(&String::from("main.rs"), &String::from("rs"), 10));
    assert!(folder_file_wanted(&String::from("Makefile"), &String::from(""), 10));
    assert!(folder_file_wanted(&String::from("Dockerfile"), &String::from(""), 10));
    assert!(!folder_file_wanted(&String::from("photo.png"), &String::from("png"), 10));
    // The size cap is one mebibyte, inclusive.
    assert!(folder_file_wanted(&String::from("big.txt"), &String::from("txt"), 1024 * 1024));
    assert!(!folder_file_wanted(&String::from("big.txt"), &String::from("txt"), 1024 * 1024 + 1));
}

#[test]
fn storage_prefers_the_bundled_models_directory() {
    let chosen = choose_storage(String::from("/app/models"), 9, None);
    assert_eq!(chosen.path, "/app/models");
    assert_eq!(chosen.size_bytes, 9);
}

#[test]
fn storage_falls_back_to_the_default_directory() {
    let fallback = StorageInfo { path: String::from("/home/u/.ollama/models"), size_bytes: 3 };
    let chosen = choose_storage(String::from("/app/models"), 0, Some(fallback));
    assert_eq!(chosen.path, "/home/u/.ollama/models");
    assert_eq!(chosen.size_bytes, 3);
    let bare = choose_storage(String::from("/app/models"), 0, None);
    assert_eq!(bare.path, "/app/models");
    assert_eq!(bare.size_bytes, 0);
}

#[test]
fn directory_sizes_add_without_wrapping() {
    assert_eq!(add_entry_size(10, 32), 42);
    assert_eq!(add_entry_size(u64::MAX - 1, 1), u64::MAX);
    assert_eq!(add_entry_size(u64::MAX, 5), u64::MAX);
}

#[test]
fn stored_keys_live_in_json_files() {
    assert_eq!(store_file_name("settings"), "settings.json");
    assert_eq!(store_file_name(""), ".json");
}

#[test]
fn chat_body_is_exact_json_in_conversation_order() {
    let messages = vec![
        ChatMessage { role: String::from("system"), content: String::from("be terse") },
        ChatMessage { role: String::from("user"), content: String::from("hi") },
    ];
    let body = chat_request_body("llama3", &messages);
    assert_eq!(
        String::from_utf8(body).unwrap(),
        "{\"model\":\"llama3\",\"messages\":[\
{\"role\":\"system\",\"content\":\"be terse\"},\
{\"role\":\"user\",\"content\":\"hi\"}],\"stream\":true}"
    );
}

#[test]
fn chat_body_escapes_quotes_backslashes_and_controls() {
    let messages = vec![ChatMessage {
        role: String::from("user"),
        content: String::from("say \"hi\\\"\nplease"),
    }];
    let body = chat_request_body("m", &messages);
    let text = String::from_utf8(body).unwrap();
    assert_eq!(
        text,
        "{\"model\":\"m\",\"messages\":[{\"role\":\"user\",\
\"content\":\"say \\\"hi\\\\\\\"\\u000aplease\"}],\"stream\":true}"
    );
    // What was built is JSON that parses back to the same content.
    let v: serde_json::Value = serde_json::from_str(&text).unwrap();
    assert_eq!(
        v["messages"][0]["content"].as_str().unwrap(),
        "say \"hi\\\"\nplease"
    );
}

#[test]
fn chat_body_keeps_non_ascii_text_verbatim() {
    let messages = vec![ChatMessage {
        role: String::from("user"),
        content: String::from("caf\u{00e9} \u{4e2d}\u{6587}"),
    }];
    let body = chat_request_body("m", &messages);
    let v: serde_json::Value = serde_json::from_slice(&body).unwrap();
    assert_eq!(v["messages"][0]["content"].as_str().unwrap(), "caf\u{00e9} \u{4e2d}\u{6587}");
}

#[test]
fn pull_and_delete_bodies_are_exact() {
    assert_eq!(
        String::from_utf8(pull_request_body("phi3:mini")).unwrap(),
        "{\"name\":\"phi3:mini\",\"stream\":true}"
    );
    assert_eq!(
        String::from_utf8(delete_request_body("phi3:mini")).unwrap(),
        "{\"name\":\"phi3:mini\"}"
    );
}

#[test]
fn empty_conversation_still_forms_a_body() {
    let body = chat_request_body("m", &Vec::new());
    assert_eq!(
        String::from_utf8(body).unwrap(),
        "{\"model\":\"m\",\"messages\":[],\"stream\":true}"
    );
}
