use vstd::prelude::*;

use crate::dirs::{downloads_dir, models_dir, BaseDirs, BaseDirsView};

verus! {

/// One installable speech-recognition model: a language code and the URL of its zip archive.
#[derive(Debug)]
pub struct Model {
    pub lang: String,
    pub download_url: String,
}

/// The mathematical value of a `Model`: its two strings as character sequences.
pub struct ModelView {
    pub lang: Seq<char>,
    pub download_url: Seq<char>,
}

impl View for Model {
    type V = ModelView;

    open spec fn view(&self) -> ModelView {
        ModelView { lang: self.lang@, download_url: self.download_url@ }
    }
}

/// The fixed catalog of known models, in order.
pub open spec fn registry() -> Seq<ModelView> {
    seq![
        ModelView {
            lang: "en"@,
            download_url: "https://alphacephei.com/vosk/models/vosk-model-small-en-us-0.15.zip"@,
        },
        ModelView {
            lang: "es"@,
            download_url: "https://alphacephei.com/vosk/models/vosk-model-small-es-0.42.zip"@,
        },
        ModelView {
            lang: "fr"@,
            download_url: "https://alphacephei.com/vosk/models/vosk-model-small-fr-0.22.zip"@,
        },
    ]
}

/// The first model of `models` whose language code is `lang`, if any.
pub open spec fn first_with_lang(models: Seq<ModelView>, lang: Seq<char>) -> Option<ModelView>
    decreases models.len(),
{
    if models.len() == 0 {
        None
    } else if models[0].lang == lang {
        Some(models[0])
    } else {
        first_with_lang(models.drop_first(), lang)
    }
}

/// The models of the catalog as executable values, in catalog order.
pub fn available_models() -> (r: Vec<Model>)
    ensures
        r@.len() == registry().len(),
        forall|i: int| 0 <= i < r@.len() ==> #[trigger] r@[i]@ == registry()[i],
{
    let mut r: Vec<Model> = Vec::new();
    r.push(
        Model {
            lang: String::from_str("en"),
            download_url: String::from_str(
                "https://alphacephei.com/vosk/models/vosk-model-small-en-us-0.15.zip",
            ),
        },
    );
    r.push(
        Model {
            lang: String::from_str("es"),
            download_url: String::from_str(
                "https://alphacephei.com/vosk/models/vosk-model-small-es-0.42.zip",
            ),
        },
    );
    r.push(
        Model {
            lang: String::from_str("fr"),
            download_url: String::from_str(
                "https://alphacephei.com/vosk/models/vosk-model-small-fr-0.22.zip",
            ),
        },
    );
    r
}

/// Skipping a prefix in which no model has language `lang` does not change the first match.
proof fn lemma_first_with_lang_skip(models: Seq<ModelView>, lang: Seq<char>, i: int)
    requires
        0 <= i <= models.len(),
        forall|j: int| 0 <= j < i ==> #[trigger] models[j].lang != lang,
    ensures
        first_with_lang(models, lang) == first_with_lang(models.subrange(i, models.len() as int), lang),
    decreases i,
{
    if i > 0 {
        assert(models[0].lang != lang);
        let rest = models.drop_first();
        assert forall|j: int| 0 <= j < i - 1 implies #[trigger] rest[j].lang != lang by {
            assert(rest[j] == models[j + 1]);
        }
        lemma_first_with_lang_skip(rest, lang, i - 1);
        assert(rest.subrange(i - 1, rest.len() as int) =~= models.subrange(i, models.len() as int));
    } else {
        assert(models.subrange(0, models.len() as int) =~= models);
    }
}

/// Looks up the catalog for the first model whose language code is exactly `lang`.
pub fn get_model_by_lang(lang: &str) -> (r: Option<Model>)
    ensures
        match r {
            Some(m) => first_with_lang(registry(), lang@) == Some(m@) && m.lang@ == lang@,
            None => first_with_lang(registry(), lang@) is None,
        },
{
    let models = available_models();
    let key = String::from_str(lang);
    let ghost reg = registry();
    let mut i: usize = 0;
    while i < models.len()
        invariant
            0 <= i <= models@.len(),
            models@.len() == reg.len(),
            reg == registry(),
            key@ == lang@,
            forall|k: int| 0 <= k < models@.len() ==> #[trigger] models@[k]@ == reg[k],
            forall|j: int| 0 <= j < i ==> #[trigger] reg[j].lang != lang@,
        decreases models@.len() - i,
    {
        if models[i].lang == key {
            proof {
                lemma_first_with_lang_skip(reg, lang@, i as int);
                let rest = reg.subrange(i as int, reg.len() as int);
                assert(rest[0] == reg[i as int]);
            }
            return Some(
                Model { lang: models[i].lang.clone(), download_url: models[i].download_url.clone() },
            );
        }
        assert(models@[i as int]@ == reg[i as int]);
        i = i + 1;
    }
    proof {
        lemma_first_with_lang_skip(reg, lang@, i as int);
        assert(reg.subrange(i as int, reg.len() as int).len() == 0);
    }
    None
}

/// No two models of the catalog share a language code.
pub proof fn lemma_registry_langs_unique()
    ensures
        forall|i: int, j: int|
            0 <= i < registry().len() && 0 <= j < registry().len() && i != j
                ==> #[trigger] registry()[i].lang != #[trigger] registry()[j].lang,
{
    reveal_strlit("en");
    reveal_strlit("es");
    reveal_strlit("fr");
    assert("en"@[1] != "es"@[1]);
    assert("en"@[0] != "fr"@[0]);
    assert("es"@[0] != "fr"@[0]);
}

/// A lookup of a language code that the catalog holds finds the model with exactly that
/// code; a lookup of any other code finds nothing.
pub proof fn lemma_lookup_finds_exactly_registered(lang: Seq<char>)
    ensures
        forall|i: int|
            0 <= i < registry().len() && #[trigger] registry()[i].lang == lang
                ==> first_with_lang(registry(), lang) == Some(registry()[i]),
        (forall|i: int| 0 <= i < registry().len() ==> #[trigger] registry()[i].lang != lang)
            ==> first_with_lang(registry(), lang) is None,
        match first_with_lang(registry(), lang) {
            Some(m) => m.lang == lang,
            None => true,
        },
{
    lemma_registry_langs_unique();
    let reg = registry();
    reveal_with_fuel(first_with_lang, 4);
    assert(reg.drop_first()[0] == reg[1]);
    assert(reg.drop_first().drop_first()[0] == reg[2]);
    assert(reg.drop_first().drop_first().drop_first().len() == 0);
}

/// The install path of the model for `lang`: `<data-home>/models/<lang>`.
pub open spec fn local_path(d: BaseDirsView, lang: Seq<char>) -> Seq<char> {
    models_dir(d) + "/"@ + lang
}

/// The cached archive of the model for `lang`: `<cache-home>/downloads/model_<lang>.zip`.
pub open spec fn download_path(d: BaseDirsView, lang: Seq<char>) -> Seq<char> {
    downloads_dir(d) + "/model_"@ + lang + ".zip"@
}

/// Relies on std::path::Path::exists: whether any filesystem entry is found at `p`.
#[verifier::external_body]
fn path_exists(p: &str) -> (r: bool) {
    std::path::Path::new(p).exists()
}

impl Model {
    /// The directory into which this model is installed.
    pub fn get_local_path(&self, dirs: &BaseDirs) -> (r: String)
        requires
            dirs.wf(),
        ensures
            r@ == local_path(dirs@, self.lang@),
    {
        dirs.models_dir().concat("/").concat(self.lang.as_str())
    }

    /// The file in which this model's archive is cached.
    pub fn get_download_path(&self, dirs: &BaseDirs) -> (r: String)
        requires
            dirs.wf(),
        ensures
            r@ == download_path(dirs@, self.lang@),
    {
        dirs.downloads_dir().concat("/model_").concat(self.lang.as_str()).concat(".zip")
    }

    /// Whether anything exists at this model's install path; the content is not inspected.
    pub fn is_installed(&self, dirs: &BaseDirs) -> bool
        requires
            dirs.wf(),
    {
        let p = self.get_local_path(dirs);
        path_exists(p.as_str())
    }
}

/// Derived paths depend on the language code and the base directories alone: two models
/// with the same code get the same install path and the same archive path, whatever their
/// URLs.
pub proof fn lemma_paths_depend_on_lang_only(d: BaseDirsView, m1: ModelView, m2: ModelView)
    requires
        m1.lang == m2.lang,
    ensures
        local_path(d, m1.lang) == local_path(d, m2.lang),
        download_path(d, m1.lang) == download_path(d, m2.lang),
{
}

} // verus!
