use arandu_core::hf::build_destination_path;
use arandu_core::hf::format_bytes;
use arandu_core::quant::extract_quantization_type;
use arandu_core::quant::get_quantization_from_filename;
use arandu_core::llamacpp::detect_backend_type;
use arandu_core::update::classify_update_by_date;
use arandu_core::update::classify_update_by_size;
use arandu_core::update::link_model_to_hf;
use arandu_core::update::not_linked_result;
use arandu_core::update::select_latest_version;
use arandu_core::models::UpdateStatus;
use arandu_core::llamacpp::format_release_body;
use arandu_core::llamacpp::LlamaCppAsset;
use arandu_core::llamacpp::LlamaCppRelease;
use arandu_core::llamacpp::LlamaCppReleaseFrontend;
use arandu_core::llamacpp::ReleaseCache;

#[test]
fn test_format_bytes() {
    assert_eq!(format_bytes(0), "0 B");
    assert_eq!(format_bytes(1024), "1.0 KB");
    assert_eq!(format_bytes(1024 * 1024), "1.0 MB");
    assert_eq!(format_bytes(1024 * 1024 * 1024), "1.0 GB");
}

#[test]
fn format_bytes_rounds_to_one_decimal() {
    assert_eq!(format_bytes(1536), "1.5 KB");
    assert_eq!(format_bytes(1023), "1023 B");
    assert_eq!(format_bytes(1024u64 * 1024 * 1024 * 1024), "1.0 TB");
}

#[test]
fn test_build_destination_path() {
    let base = "C:\\Users\\Test";
    let model_id = "author/model";
    let path = build_destination_path(base, model_id);
    assert!(path.contains("models"));
    assert!(path.contains("author"));
    assert!(path.contains("model"));
}

#[test]
fn destination_path_without_author_uses_whole_id() {
    assert_eq!(build_destination_path("/base", "solo"), "/base/models/solo");
    assert_eq!(
        build_destination_path("/base", "author/model"),
        "/base/models/author/model"
    );
}

#[test]
fn quantization_from_filename_reads_suffix() {
    assert_eq!(get_quantization_from_filename("model-Q4_K_M.gguf"), "Q4_K_M");
    assert_eq!(get_quantization_from_filename("model.q5_0.gguf"), "Q5_0");
    assert_eq!(get_quantization_from_filename("plain-name-without-ext"), "Unknown");
    assert_eq!(get_quantization_from_filename("something_Q6_K_here"), "Q6_K");
}

#[test]
fn test_extract_quantization() {
    assert_eq!(
        extract_quantization_type("model-Q4_K_M.gguf"),
        Some("Q4_K_M".to_string())
    );
    assert_eq!(
        extract_quantization_type("model-Q5_0.gguf"),
        Some("Q5_0".to_string())
    );
    assert_eq!(
        extract_quantization_type("model-F16.gguf"),
        Some("F16".to_string())
    );
    assert_eq!(
        extract_quantization_type("flux1-schnell-Q4_K_M.gguf"),
        Some("Q4_K_M".to_string())
    );
}

#[test]
fn backend_detection_prefers_gpu_markers() {
    assert_eq!(detect_backend_type("llama-b1-bin-win-CUDA-x64.zip"), "cuda");
    assert_eq!(detect_backend_type("llama-hip-radeon.zip"), "rocm");
    assert_eq!(detect_backend_type("llama-vulkan.zip"), "vulkan");
    assert_eq!(detect_backend_type("llama-plain.zip"), "cpu");
}

#[test]
fn update_check_compares_dates_with_slack() {
    let r = classify_update_by_date(1000, 2000, None, None);
    assert!(matches!(r.status, UpdateStatus::UpToDate));
    assert_eq!(r.message, "Model is up to date");
    let r = classify_update_by_date(1000, 5000, None, None);
    assert!(matches!(r.status, UpdateStatus::UpdateAvailable));
    assert_eq!(r.message, "Update available on HuggingFace");
}

#[test]
fn update_check_falls_back_to_sizes() {
    let r = classify_update_by_size(Some(10), Some(10), None, None);
    assert!(matches!(r.status, UpdateStatus::UpToDate));
    let r = classify_update_by_size(Some(10), Some(11), None, None);
    assert!(matches!(r.status, UpdateStatus::UpdateAvailable));
    let r = not_linked_result();
    assert!(matches!(r.status, UpdateStatus::NotLinked));
}

#[test]
fn test_link_model_to_hf() {
    let result = link_model_to_hf(
        "/path/to/model.gguf",
        "THUDM/glm-4-9b-chat",
        "model-Q4_K_M.gguf",
        "2024-01-01T00:00:00Z".to_string(),
    );

    assert!(result.is_ok());
    let metadata = result.unwrap();
    assert_eq!(metadata.model_id, "THUDM/glm-4-9b-chat");
    assert_eq!(metadata.filename, "model-Q4_K_M.gguf");
    assert!(metadata.linked_at.len() > 0);
}

#[test]
fn latest_version_prefers_newest_creation_time() {
    let cands = vec![
        ("b100".to_string(), Some(5i64)),
        ("b200".to_string(), Some(9i64)),
        ("b300".to_string(), None),
    ];
    assert_eq!(select_latest_version(&cands), Some(1));
    let unnamed = vec![("b1".to_string(), None), ("b9".to_string(), None)];
    assert_eq!(select_latest_version(&unnamed), Some(1));
    let empty: Vec<(String, Option<i64>)> = Vec::new();
    assert_eq!(select_latest_version(&empty), None);
}

#[test]
fn release_bodies_render_as_simple_html() {
    let body = Some("# Title\n- item one\nplain text\n\n`code`".to_string());
    assert_eq!(
        format_release_body(&body).unwrap(),
        "<h1>Title</h1>\n<li>item one</li>\n<p>plain text</p>\n<br>\n<code>code</code>"
    );
    assert_eq!(format_release_body(&Some("   \n  ".to_string())), None);
    assert_eq!(format_release_body(&None), None);
}

#[test]
fn release_display_form_keeps_assets_and_renders_body() {
    let release = LlamaCppRelease {
        id: 7,
        name: Some("b100".to_string()),
        tag_name: "b100".to_string(),
        published_at: "2024-01-01".to_string(),
        body: Some("## Notes".to_string()),
        assets: vec![LlamaCppAsset {
            id: 1,
            name: "llama-cuda.zip".to_string(),
            download_url: "https://example.com/a.zip".to_string(),
            size: 10,
            content_type: None,
            download_count: None,
            created_at: None,
            updated_at: None,
        }],
        draft: false,
        prerelease: false,
        html_url: "https://example.com".to_string(),
        tarball_url: "https://example.com/t".to_string(),
        zipball_url: "https://example.com/z".to_string(),
    };
    let front = LlamaCppReleaseFrontend::from_release(release);
    assert_eq!(front.formatted_body.as_deref(), Some("<h2>Notes</h2>"));
    assert!(front.commit_info.is_none());
    assert_eq!(front.assets.len(), 1);
    assert_eq!(front.assets[0].name, "llama-cuda.zip");
}

#[test]
fn release_cache_expires_after_ten_minutes() {
    let mut cache = ReleaseCache::new();
    assert!(cache.get_cached_releases(1000).is_none());
    cache.cache_releases(Vec::new(), 1000);
    assert!(cache.get_cached_releases(1599).is_some());
    assert!(cache.get_cached_releases(1600).is_none());
    assert!(cache.get_cached_releases(999).is_none());
}
