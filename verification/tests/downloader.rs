use voca::downloader::{
    catalogue, digest_hex, Download, find_entry, hash_file_name, list_models, model_file_name, same_text,
    ModelStatus,
};

#[test]
fn catalogue_has_eight_models() {
    let c = catalogue();
    let ids: Vec<&str> = c.iter().map(|e| e.id).collect();
    assert_eq!(
        ids,
        vec!["tiny.en", "tiny", "base.en", "base", "small.en", "small", "medium.en", "medium"]
    );
    assert_eq!(c[6].size_mb, 1_500);
    assert_eq!(c[0].name, "Tiny · English");
    assert_eq!(
        c[3].url,
        "https://huggingface.co/ggerganov/whisper.cpp/resolve/main/ggml-base.bin"
    );
}

#[test]
fn finds_known_model() {
    let e = find_entry("small.en").unwrap();
    assert_eq!(e.id, "small.en");
    assert_eq!(e.size_mb, 466);
    assert_eq!(e.description, "Better accuracy, ~4× real-time. English only.");
}

#[test]
fn unknown_model_is_an_error() {
    let e = find_entry("large").err().unwrap();
    assert_eq!(e, "Unknown model id: 'large'");
}

#[test]
fn file_names() {
    assert_eq!(model_file_name("base.en"), "ggml-base.en.bin");
    assert_eq!(hash_file_name("tiny"), "ggml-tiny.sha256");
}

#[test]
fn digest_is_lower_hex() {
    assert_eq!(digest_hex(&[0xde, 0xad, 0x01, 0xf0]), "dead01f0");
    assert_eq!(digest_hex(&[]), "");
}

#[test]
fn list_models_annotates_catalogue() {
    let mut statuses = Vec::new();
    for (i, e) in catalogue().iter().enumerate() {
        statuses.push(ModelStatus {
            downloaded: i == 2,
            path: format!("/models/ggml-{}.bin", e.id),
            stored_hash: if i == 2 { Some("  abc123\n".to_string()) } else { None },
        });
    }
    let v = list_models(&statuses);
    assert_eq!(v.len(), 8);
    assert_eq!(v[2].id, "base.en");
    assert!(v[2].downloaded);
    assert_eq!(v[2].path.as_deref(), Some("/models/ggml-base.en.bin"));
    assert_eq!(v[2].sha256.as_deref(), Some("abc123"));
    assert!(!v[0].downloaded);
    assert_eq!(v[0].path, None);
    assert_eq!(v[0].sha256, None);
}

#[test]
fn same_text_compares_characters() {
    assert!(same_text("tiny", "tiny"));
    assert!(!same_text("tiny", "tiny.en"));
    assert!(!same_text("base", "bASE"));
}

#[test]
fn download_digest_covers_every_chunk() {
    let mut d = Download::start("tiny", 3);
    assert_eq!(d.bytes_total(), 3);
    d.on_chunk(b"a");
    d.on_chunk(b"");
    d.on_chunk(b"bc");
    assert_eq!(d.bytes_done(), 3);
    assert_eq!(d.model_id(), "tiny");
    let p = d.finish("/m/ggml-tiny.bin".to_string());
    assert_eq!(p.model_id, "tiny");
    assert_eq!(p.path, "/m/ggml-tiny.bin");
    assert_eq!(p.sha256, "ba7816bf8f01cfea414140de5dae2223b00361a396177a9cb410ff61f20015ad");
}

#[test]
fn empty_download_digest() {
    let d = Download::start("base", 0);
    assert_eq!(d.bytes_done(), 0);
    assert_eq!(
        d.finish(String::new()).sha256,
        "e3b0c44298fc1c149afbf4c8996fb92427ae41e4649b934ca495991b7852b855"
    );
}

#[test]
fn stream_items_cancel_fail_or_continue() {
    let mut d = Download::start("tiny", 4);
    assert!(matches!(d.on_stream_item(false, Ok(&[1, 2][..])), voca::downloader::ChunkStep::Continue));
    assert_eq!(d.bytes_done(), 2);
    match d.on_stream_item(false, Err("reset".to_string())) {
        voca::downloader::ChunkStep::Failed(m) => assert_eq!(m, "Stream error: reset"),
        other => panic!("unexpected {other:?}"),
    }
    match d.on_stream_item(true, Ok(&[3][..])) {
        voca::downloader::ChunkStep::Cancelled(m) => assert_eq!(m, "Download cancelled"),
        other => panic!("unexpected {other:?}"),
    }
    assert_eq!(d.bytes_done(), 2);
}
