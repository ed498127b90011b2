use arandu_core::recovery::is_gguf_download_file;
use arandu_core::recovery::select_leftover_downloads;

#[test]
fn sweep_deletes_only_the_reserved_suffix() {
    let listing = vec![
        "model.gguf.download".to_string(),
        "model.gguf".to_string(),
        "model.guf.download.txt".to_string(),
    ];
    let doomed = select_leftover_downloads(&listing);
    assert_eq!(doomed, vec!["model.gguf.download".to_string()]);
    assert!(is_gguf_download_file("model.gguf.download"));
    assert!(!is_gguf_download_file("model.gguf"));
    assert!(!is_gguf_download_file("model.guf.download.txt"));
}

#[test]
fn sweep_is_case_insensitive_about_the_suffix() {
    assert!(is_gguf_download_file("Big-Model.GGUF.DOWNLOAD"));
    assert!(!is_gguf_download_file("archive.zip"));
    assert!(!is_gguf_download_file("model.download"));
}

#[test]
fn sweep_keeps_listing_order() {
    let listing = vec![
        "a.gguf.download".to_string(),
        "keep.bin".to_string(),
        "b.gguf.download".to_string(),
    ];
    let doomed = select_leftover_downloads(&listing);
    assert_eq!(
        doomed,
        vec!["a.gguf.download".to_string(), "b.gguf.download".to_string()]
    );
}
