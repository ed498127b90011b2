use arandu_core::hf::parse_model_id;

#[test]
fn test_parse_model_id_full_url() {
    let url = "https://huggingface.co/THUDM/glm-4-9b-chat";
    assert_eq!(parse_model_id(url).unwrap(), "THUDM/glm-4-9b-chat");
}

#[test]
fn test_parse_model_id_no_protocol() {
    let url = "huggingface.co/THUDM/glm-4-9b-chat";
    assert_eq!(parse_model_id(url).unwrap(), "THUDM/glm-4-9b-chat");
}

#[test]
fn test_parse_model_id_direct_id() {
    let id = "THUDM/glm-4-9b-chat";
    assert_eq!(parse_model_id(id).unwrap(), "THUDM/glm-4-9b-chat");
}

#[test]
fn test_parse_model_id_blob_url() {
    let url = "https://huggingface.co/THUDM/glm-4-9b-chat/blob/main/model.gguf";
    assert_eq!(parse_model_id(url).unwrap(), "THUDM/glm-4-9b-chat");
}

#[test]
fn test_parse_model_id_resolve_url() {
    let url = "https://huggingface.co/THUDM/glm-4-9b-chat/resolve/main/model.gguf";
    assert_eq!(parse_model_id(url).unwrap(), "THUDM/glm-4-9b-chat");
}

#[test]
fn test_parse_model_id_with_subfolder() {
    let url = "https://huggingface.co/black-forest-labs/FLUX.1-schnell-GGUF";
    assert_eq!(parse_model_id(url).unwrap(), "black-forest-labs/FLUX.1-schnell-GGUF");
}

#[test]
fn test_parse_model_id_invalid() {
    assert!(parse_model_id("not-a-url").is_err());
    assert!(parse_model_id("https://huggingface.co/invalid").is_err());
    assert!(parse_model_id("").is_err());
}
