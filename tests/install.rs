use stenograph::dirs::BaseDirs;
use stenograph::install::{
    archive_folder_name, next_action, InstallAction, InstallError, InstallEvent,
};
use stenograph::model::{get_model_by_lang, Model};

fn dirs() -> BaseDirs {
    BaseDirs {
        data_home: "/d/".to_string(),
        cache_home: "/c/".to_string(),
    }
}

fn foreign() -> Model {
    Model {
        lang: "en".to_string(),
        download_url: "https://example.org/models/my-model.zip".to_string(),
    }
}

#[test]
fn folder_name_strips_prefix_and_extension() {
    let r = archive_folder_name(
        "https://alphacephei.com/vosk/models/vosk-model-small-en-us-0.15.zip",
    );
    assert_eq!(r, Ok(Some("vosk-model-small-en-us-0.15".to_string())));
}

#[test]
fn folder_name_absent_for_foreign_url() {
    assert_eq!(archive_folder_name("https://example.org/models/my-model.zip"), Ok(None));
    assert_eq!(archive_folder_name(""), Ok(None));
}

#[test]
fn folder_name_error_without_extension() {
    assert_eq!(
        archive_folder_name("https://alphacephei.com/vosk/models/vosk-model-small-en-us-0.15.tar"),
        Err(InstallError::ArchiveName)
    );
}

#[test]
fn installed_model_is_left_alone() {
    let m = get_model_by_lang("en").unwrap();
    let a = next_action(&m, &dirs(), InstallEvent::Started { installed: true });
    assert_eq!(a, InstallAction::Finish { fresh: false });
}

#[test]
fn fresh_run_walks_download_extract_rename() {
    let m = get_model_by_lang("en").unwrap();
    let d = dirs();
    assert_eq!(
        next_action(&m, &d, InstallEvent::Started { installed: false }),
        InstallAction::CreateCacheDir { path: "/c/downloads".to_string() }
    );
    assert_eq!(
        next_action(&m, &d, InstallEvent::CacheDirReady),
        InstallAction::ProbeArchive { path: "/c/downloads/model_en.zip".to_string() }
    );
    assert_eq!(
        next_action(&m, &d, InstallEvent::ArchiveProbed { cached: false }),
        InstallAction::Download {
            url: "https://alphacephei.com/vosk/models/vosk-model-small-en-us-0.15.zip".to_string(),
            dest: "/c/downloads/model_en.zip".to_string(),
        }
    );
    assert_eq!(
        next_action(&m, &d, InstallEvent::Downloaded),
        InstallAction::Extract {
            archive: "/c/downloads/model_en.zip".to_string(),
            dest: "/d/models".to_string(),
        }
    );
    assert_eq!(
        next_action(&m, &d, InstallEvent::Renamed),
        InstallAction::Finish { fresh: true }
    );
}

#[test]
fn extracted_known_archive_is_renamed_to_lang() {
    let m = get_model_by_lang("en").unwrap();
    let d = dirs();
    let a = next_action(&m, &d, InstallEvent::Extracted);
    assert_eq!(
        a,
        InstallAction::Rename {
            from: "/d/models/vosk-model-small-en-us-0.15".to_string(),
            to: "/d/models/en".to_string(),
        }
    );
    assert_eq!(m.get_local_path(&d), "/d/models/en");
}

#[test]
fn extracted_foreign_archive_keeps_its_name() {
    let a = next_action(&foreign(), &dirs(), InstallEvent::Extracted);
    assert_eq!(a, InstallAction::Finish { fresh: true });
}

#[test]
fn extracted_archive_with_bad_name_aborts() {
    let m = Model {
        lang: "en".to_string(),
        download_url: "https://alphacephei.com/vosk/models/model-en".to_string(),
    };
    let a = next_action(&m, &dirs(), InstallEvent::Extracted);
    assert_eq!(a, InstallAction::Abort(InstallError::ArchiveName));
}

#[test]
fn failed_download_aborts() {
    let m = get_model_by_lang("es").unwrap();
    let a = next_action(&m, &dirs(), InstallEvent::Failed(InstallError::Network));
    assert_eq!(a, InstallAction::Abort(InstallError::Network));
}

#[test]
fn each_failure_aborts_with_its_error() {
    let m = get_model_by_lang("fr").unwrap();
    for e in [
        InstallError::CreateDir,
        InstallError::Network,
        InstallError::Io,
        InstallError::Archive,
        InstallError::Rename,
        InstallError::ArchiveName,
    ] {
        assert_eq!(next_action(&m, &dirs(), InstallEvent::Failed(e)), InstallAction::Abort(e));
    }
}

#[test]
fn cached_archive_is_reused_without_fetch() {
    let m = get_model_by_lang("es").unwrap();
    let a = next_action(&m, &dirs(), InstallEvent::ArchiveProbed { cached: true });
    assert_eq!(
        a,
        InstallAction::Extract {
            archive: "/c/downloads/model_es.zip".to_string(),
            dest: "/d/models".to_string(),
        }
    );
}
