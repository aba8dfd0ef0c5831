use stenograph::model::{available_models, get_model_by_lang};

#[test]
fn catalog_lists_three_models_in_order() {
    let models = available_models();
    assert_eq!(models.len(), 3);
    assert_eq!(models[0].lang, "en");
    assert_eq!(
        models[0].download_url,
        "https://alphacephei.com/vosk/models/vosk-model-small-en-us-0.15.zip"
    );
    assert_eq!(models[1].lang, "es");
    assert_eq!(
        models[1].download_url,
        "https://alphacephei.com/vosk/models/vosk-model-small-es-0.42.zip"
    );
    assert_eq!(models[2].lang, "fr");
    assert_eq!(
        models[2].download_url,
        "https://alphacephei.com/vosk/models/vosk-model-small-fr-0.22.zip"
    );
}

#[test]
fn lookup_of_each_registered_code_returns_that_code() {
    for code in ["en", "es", "fr"] {
        let m = get_model_by_lang(code).expect("registered code");
        assert_eq!(m.lang, code);
    }
    let fr = get_model_by_lang("fr").unwrap();
    assert_eq!(
        fr.download_url,
        "https://alphacephei.com/vosk/models/vosk-model-small-fr-0.22.zip"
    );
}

#[test]
fn lookup_of_unknown_code_is_absent() {
    assert!(get_model_by_lang("de").is_none());
    assert!(get_model_by_lang("").is_none());
    assert!(get_model_by_lang("en-us").is_none());
}

#[test]
fn lookup_is_case_sensitive() {
    assert!(get_model_by_lang("EN").is_none());
    assert!(get_model_by_lang("Fr").is_none());
}
