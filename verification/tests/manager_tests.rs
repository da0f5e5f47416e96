use modeldl::manager::{
    download_needed, stamped_dir_name, HuggingfaceModel, Model, ModelManager, ModelSource,
};

fn model(version: &str) -> Model {
    Model {
        directory: String::from("dir"),
        version: String::from(version),
        source: ModelSource::Zip(String::from("http://origin/archive.zip")),
    }
}

#[test]
fn new_custom_is_empty() {
    let m = ModelManager::new_custom(String::from("models"));
    assert_eq!(m.model_path, "models");
    assert!(m.models.is_empty());
    assert!(m.find_model(&String::from("anything")).is_none());
}

#[test]
fn register_and_find() {
    let mut m = ModelManager::new_custom(String::from("models"));
    m.register_models(vec![
        (String::from("alpha"), model("1")),
        (String::from("beta"), model("2")),
    ]);
    let found = m.find_model(&String::from("beta")).unwrap();
    assert_eq!(found.version, "2");
    assert!(m.find_model(&String::from("gamma")).is_none());
}

#[test]
fn later_registration_shadows_earlier() {
    let mut m = ModelManager::new_custom(String::from("models"));
    m.register_models(vec![(String::from("alpha"), model("1"))]);
    m.register_models(vec![(String::from("alpha"), model("9"))]);
    let found = m.find_model(&String::from("alpha")).unwrap();
    assert_eq!(found.version, "9");
}

#[test]
fn download_needed_cases() {
    let wanted = String::from("3");
    assert!(download_needed(None, &wanted));
    assert!(download_needed(Some(&String::from("2")), &wanted));
    assert!(!download_needed(Some(&String::from("3")), &wanted));
}

#[test]
fn select_downloads_picks_stale_and_missing() {
    let mut m = ModelManager::new_custom(String::from("models"));
    m.register_models(vec![
        (String::from("a"), model("1")),
        (String::from("b"), model("2")),
        (String::from("c"), model("3")),
    ]);
    let stored = vec![Some(String::from("1")), None, Some(String::from("0"))];
    let picks = m.select_downloads(&stored);
    assert_eq!(picks, vec![1, 2]);
}

#[test]
fn select_downloads_all_current() {
    let mut m = ModelManager::new_custom(String::from("models"));
    m.register_models(vec![(String::from("a"), model("1"))]);
    let picks = m.select_downloads(&vec![Some(String::from("1"))]);
    assert!(picks.is_empty());
}

#[test]
fn url_resolves_against_commit_or_main() {
    let pinned = HuggingfaceModel {
        repo: String::from("acme/llm"),
        files: vec![String::from("weights.bin"), String::from("tokenizer.json")],
        commit: Some(String::from("abc123")),
    };
    let urls = pinned.url();
    assert_eq!(urls.len(), 2);
    assert_eq!(urls[0].0, "weights.bin");
    assert_eq!(
        urls[0].1,
        "https://huggingface.co/acme/llm/resolve/abc123/weights.bin"
    );
    assert_eq!(
        urls[1].1,
        "https://huggingface.co/acme/llm/resolve/abc123/tokenizer.json"
    );

    let unpinned = HuggingfaceModel {
        repo: String::from("acme/llm"),
        files: vec![String::from("weights.bin")],
        commit: None,
    };
    let urls = unpinned.url();
    assert_eq!(
        urls[0].1,
        "https://huggingface.co/acme/llm/resolve/main/weights.bin"
    );
}

#[test]
fn stamped_name_appends_dash_and_stamp() {
    let s = stamped_dir_name(&String::from("models"), &String::from("1700000000"));
    assert_eq!(s, "models-1700000000");
}
