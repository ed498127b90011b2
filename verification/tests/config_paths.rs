use arandu_core::paths::make_path_absolute;
use arandu_core::paths::make_path_relative;
use arandu_core::paths::extract_hf_model_id_from_path;
use arandu_core::paths::file_name_of_path;
use arandu_core::paths::split_path_segments;

#[test]
fn test_make_path_relative() {
    // Test with Windows-style paths
    let absolute = "C:\\Users\\test\\models\\llama-3.gguf";
    let base = "C:\\Users\\test\\models";
    let result = make_path_relative(absolute, base);
    assert_eq!(result, "llama-3.gguf");

    // Test with nested paths
    let absolute = "C:\\Users\\test\\models\\subfolder\\model.gguf";
    let base = "C:\\Users\\test\\models";
    let result = make_path_relative(absolute, base);
    assert_eq!(result, "subfolder\\model.gguf");

    // Test with path outside base directory
    let absolute = "C:\\Users\\other\\model.gguf";
    let base = "C:\\Users\\test\\models";
    let result = make_path_relative(absolute, base);
    assert_eq!(result, absolute);

    // Test with empty base directory
    let absolute = "C:\\Users\\test\\models\\model.gguf";
    let base = "";
    let result = make_path_relative(absolute, base);
    assert_eq!(result, absolute);
}

#[test]
fn test_make_path_absolute() {
    // Test with relative path
    let relative = "llama-3.gguf";
    let base = "C:\\Users\\test\\models";
    let result = make_path_absolute(relative, base);
    assert_eq!(result, "C:\\Users\\test\\models\\llama-3.gguf");

    // Test with nested relative path
    let relative = "subfolder\\model.gguf";
    let base = "C:\\Users\\test\\models";
    let result = make_path_absolute(relative, base);
    assert_eq!(result, "C:\\Users\\test\\models\\subfolder\\model.gguf");

    // Test with already absolute path
    let absolute = "C:\\Users\\test\\models\\model.gguf";
    let base = "C:\\Users\\test\\models";
    let result = make_path_absolute(absolute, base);
    assert_eq!(result, absolute);

    // Test with empty base directory
    let relative = "model.gguf";
    let base = "";
    let result = make_path_absolute(relative, base);
    assert_eq!(result, relative);
}

#[test]
fn path_round_trip_keeps_relative_paths() {
    let base = "/home/user/models";
    let rel = "sub/model.gguf";
    let abs = make_path_absolute(rel, base);
    assert_eq!(abs, "/home/user/models/sub/model.gguf");
    assert_eq!(make_path_relative(&abs, base), rel);
}

#[test]
fn test_extract_hf_model_id_from_path() {
    // Test GLM model path
    let path = "C:/Users/Gordprime/.Arandu/models/THUDM/glm-4-9b-chat/glm-4-9b-chat-Q4_K_M.gguf";
    let result = extract_hf_model_id_from_path(path);
    assert_eq!(result, Some("THUDM/glm-4-9b-chat".to_string()));

    // Test non-HF path (no author/model structure)
    let path2 = "C:/Users/Gordprime/.Arandu/models/model.gguf";
    let result2 = extract_hf_model_id_from_path(path2);
    assert_eq!(result2, None);
}

#[test]
fn extract_hf_model_id_accepts_known_families() {
    let path = "/models/someone/llama-fork/weights.bin";
    assert_eq!(
        extract_hf_model_id_from_path(path),
        Some("someone/llama-fork".to_string())
    );
}

#[test]
fn file_name_takes_last_segment() {
    assert_eq!(file_name_of_path("a/b/c.gguf"), Some("c.gguf".to_string()));
    assert_eq!(file_name_of_path("c.gguf"), Some("c.gguf".to_string()));
    assert_eq!(file_name_of_path("///"), None);
    assert_eq!(file_name_of_path("a\\b\\d.bin"), Some("d.bin".to_string()));
}

#[test]
fn path_segments_drop_empty_parts() {
    let segs = split_path_segments("//a//b/");
    assert_eq!(segs, vec!["a".to_string(), "b".to_string()]);
}
