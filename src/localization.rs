//! Which languages a project is translated into, and what to do about each
//! translation table: load it, generate it, or refuse.
use vstd::prelude::*;
use vstd::string::*;
use crate::text::strings_view;

verus! {

/// Whether missing translation tables may be written.
#[derive(PartialEq, Eq, Structural, Clone, Copy, Debug)]
pub enum FileGenerationMode {
    Development,
    Production,
}

/// A language and the path of its translation table.
pub struct Localization {
    pub language: String,
    pub strings_file: String,
}

/// The base language, the translations, and the file generation mode.
pub struct Localizations {
    pub base_language: Localization,
    pub translations: Vec<Localization>,
    pub file_generation_mode: FileGenerationMode,
}

/// What to do about one translation table.
#[derive(PartialEq, Eq, Structural, Clone, Copy, Debug)]
pub enum StringsFileAction {
    /// The file is on disk: register it as it is.
    Load,
    /// The file is missing: write it from the string tables, then register it.
    Generate,
}

/// Why a translation table could not be set up.
#[derive(PartialEq, Eq, Debug)]
pub enum StringsFileError {
    /// A table registered for `expected` declares that it holds `found`.
    LanguageMismatch { expected: String, found: String },
    /// The table at `path` is missing, and the mode forbids writing it.
    MissingInProduction { path: String },
}

pub open spec fn languages(ls: Seq<Localization>) -> Seq<Seq<char>> {
    ls.map_values(|l: Localization| l.language@)
}

impl Localization {
    /// The localization of `language`, whose table is `<language>.strings.csv`.
    pub fn from_language(language: &str) -> (r: Self)
        ensures
            r.language@ == language@,
            r.strings_file@ == language@ + ".strings.csv"@,
    {
        let mut path = language.to_owned();
        path.append(".strings.csv");
        Localization { language: language.to_owned(), strings_file: path }
    }
}

impl Localizations {
    pub open spec fn translation_languages(&self) -> Seq<Seq<char>> {
        languages(self.translations@)
    }

    /// Whether `language` is one of the translations.
    pub fn supports_translation(&self, language: &String) -> (r: bool)
        ensures
            r == self.translation_languages().contains(language@),
    {
        let mut i: usize = 0;
        while i < self.translations.len()
            invariant
                i <= self.translations@.len(),
                forall|j: int| 0 <= j < i ==> self.translations@[j].language@ != language@,
            decreases self.translations@.len() - i,
        {
            if self.translations[i].language == *language {
                assert(self.translation_languages()[i as int] == language@);
                return true;
            }
            i += 1;
        }
        false
    }

    /// Whether `language` is the base language or one of the translations.
    pub fn supports_language(&self, language: &String) -> (r: bool)
        ensures
            r == (self.base_language.language@ == language@
                || self.translation_languages().contains(language@)),
    {
        self.base_language.language == *language || self.supports_translation(language)
    }
}

/// The languages of `registered` that are translations, in order.
pub open spec fn kept_translations(registered: Seq<Seq<char>>, translations: Seq<Seq<char>>) -> Seq<
    Seq<char>,
>
    decreases registered.len(),
{
    if registered.len() == 0 {
        seq![]
    } else {
        let rest = kept_translations(registered.drop_last(), translations);
        if translations.contains(registered.last()) {
            rest.push(registered.last())
        } else {
            rest
        }
    }
}

/// Drops the registered languages that are no longer translations.
pub fn retain_translations(registered: &Vec<String>, localizations: &Localizations) -> (r: Vec<
    String,
>)
    ensures
        strings_view(r@) == kept_translations(
            strings_view(registered@),
            localizations.translation_languages(),
        ),
{
    let ghost reg = strings_view(registered@);
    let mut r: Vec<String> = Vec::new();
    let mut i: usize = 0;
    while i < registered.len()
        invariant
            i <= registered@.len(),
            reg == strings_view(registered@),
            strings_view(r@) == kept_translations(
                reg.subrange(0, i as int),
                localizations.translation_languages(),
            ),
        decreases registered@.len() - i,
    {
        proof {
            assert(reg.subrange(0, i as int + 1).drop_last() =~= reg.subrange(0, i as int));
        }
        if localizations.supports_translation(&registered[i]) {
            r.push(registered[i].clone());
        }
        i += 1;
        proof {
            assert(strings_view(r@) =~= kept_translations(
                reg.subrange(0, i as int),
                localizations.translation_languages(),
            ));
        }
    }
    assert(reg.subrange(0, i as int) =~= reg);
    r
}

/// The actions for the first `n` translations, or the path of the first table
/// that is missing where it may not be written. A language already registered,
/// or planned earlier, is skipped.
pub open spec fn plan_prefix(
    translations: Seq<Localization>,
    on_disk: Seq<bool>,
    development: bool,
    registered: Seq<Seq<char>>,
    n: nat,
) -> Result<Seq<(Seq<char>, StringsFileAction)>, Seq<char>>
    decreases n,
{
    if n == 0 {
        Ok(seq![])
    } else {
        match plan_prefix(translations, on_disk, development, registered, (n - 1) as nat) {
            Err(p) => Err(p),
            Ok(acts) => {
                let l = translations[n - 1];
                if registered.contains(l.language@) || acts.map_values(
                    |a: (Seq<char>, StringsFileAction)| a.0,
                ).contains(l.language@) {
                    Ok(acts)
                } else if on_disk[n - 1] {
                    Ok(acts.push((l.language@, StringsFileAction::Load)))
                } else if development {
                    Ok(acts.push((l.language@, StringsFileAction::Generate)))
                } else {
                    Err(l.strings_file@)
                }
            },
        }
    }
}

pub open spec fn actions_view(v: Seq<(String, StringsFileAction)>) -> Seq<(Seq<char>, StringsFileAction)> {
    v.map_values(|a: (String, StringsFileAction)| (a.0@, a.1))
}

fn contains_string(v: &Vec<String>, s: &String) -> (r: bool)
    ensures
        r == strings_view(v@).contains(s@),
{
    let mut i: usize = 0;
    while i < v.len()
        invariant
            i <= v@.len(),
            forall|j: int| 0 <= j < i ==> v@[j]@ != s@,
        decreases v@.len() - i,
    {
        if v[i] == *s {
            assert(strings_view(v@)[i as int] == s@);
            return true;
        }
        i += 1;
    }
    false
}

/// Decides, for each translation not yet registered, whether its table is
/// loaded from disk or generated; in production a missing table is an error.
/// `on_disk[i]` tells whether the table of translation `i` exists.
pub fn plan_strings_files(
    localizations: &Localizations,
    registered: &Vec<String>,
    on_disk: &Vec<bool>,
) -> (r: Result<Vec<(String, StringsFileAction)>, StringsFileError>)
    requires
        on_disk@.len() == localizations.translations@.len(),
    ensures
        ({
            let expected = plan_prefix(
                localizations.translations@,
                on_disk@,
                localizations.file_generation_mode == FileGenerationMode::Development,
                strings_view(registered@),
                localizations.translations@.len() as nat,
            );
            match r {
                Ok(acts) => expected == Ok::<_, Seq<char>>(actions_view(acts@)),
                Err(StringsFileError::MissingInProduction { path }) => expected == Err::<
                    Seq<(Seq<char>, StringsFileAction)>,
                    _,
                >(path@),
                Err(_) => false,
            }
        }),
{
    let ghost ts = localizations.translations@;
    let ghost dev = localizations.file_generation_mode == FileGenerationMode::Development;
    let ghost reg = strings_view(registered@);
    let mut acts: Vec<(String, StringsFileAction)> = Vec::new();
    let mut planned: Vec<String> = Vec::new();
    assert(actions_view(acts@) =~= Seq::<(Seq<char>, StringsFileAction)>::empty());
    assert(strings_view(planned@) =~= actions_view(acts@).map_values(
        |a: (Seq<char>, StringsFileAction)| a.0,
    ));
    let mut i: usize = 0;
    while i < localizations.translations.len()
        invariant
            i <= ts.len(),
            ts == localizations.translations@,
            on_disk@.len() == ts.len(),
            dev == (localizations.file_generation_mode == FileGenerationMode::Development),
            reg == strings_view(registered@),
            plan_prefix(ts, on_disk@, dev, reg, i as nat) == Ok::<_, Seq<char>>(actions_view(acts@)),
            strings_view(planned@) == actions_view(acts@).map_values(
                |a: (Seq<char>, StringsFileAction)| a.0,
            ),
        decreases ts.len() - i,
    {
        let l = &localizations.translations[i];
        let ghost prev = actions_view(acts@);
        let ghost prev_planned = strings_view(planned@);
        let in_registered = contains_string(registered, &l.language);
        let in_planned = contains_string(&planned, &l.language);
        if in_registered || in_planned {
        } else if on_disk[i] {
            acts.push((l.language.clone(), StringsFileAction::Load));
            planned.push(l.language.clone());
            proof {
                assert(actions_view(acts@) =~= prev.push((l.language@, StringsFileAction::Load)));
                assert(strings_view(planned@) =~= prev_planned.push(l.language@));
                assert(actions_view(acts@).map_values(|a: (Seq<char>, StringsFileAction)| a.0)
                    =~= prev.map_values(|a: (Seq<char>, StringsFileAction)| a.0).push(
                    l.language@,
                ));
            }
        } else if localizations.file_generation_mode == FileGenerationMode::Development {
            acts.push((l.language.clone(), StringsFileAction::Generate));
            planned.push(l.language.clone());
            proof {
                assert(actions_view(acts@) =~= prev.push((l.language@, StringsFileAction::Generate)));
                assert(strings_view(planned@) =~= prev_planned.push(l.language@));
                assert(actions_view(acts@).map_values(|a: (Seq<char>, StringsFileAction)| a.0)
                    =~= prev.map_values(|a: (Seq<char>, StringsFileAction)| a.0).push(
                    l.language@,
                ));
            }
        } else {
            proof {
                lemma_plan_error_stays(ts, on_disk@, dev, reg, (i + 1) as nat, ts.len() as nat);
            }
            return Err(StringsFileError::MissingInProduction { path: l.strings_file.clone() });
        }
        proof {
            assert(strings_view(planned@) =~= actions_view(acts@).map_values(
                |a: (Seq<char>, StringsFileAction)| a.0,
            ));
        }
        i += 1;
    }
    Ok(acts)
}

/// Once planning has failed, it fails with the same path for every longer prefix.
proof fn lemma_plan_error_stays(
    translations: Seq<Localization>,
    on_disk: Seq<bool>,
    development: bool,
    registered: Seq<Seq<char>>,
    i: nat,
    n: nat,
)
    requires
        i <= n,
        plan_prefix(translations, on_disk, development, registered, i) is Err,
    ensures
        plan_prefix(translations, on_disk, development, registered, n) == plan_prefix(
            translations,
            on_disk,
            development,
            registered,
            i,
        ),
    decreases n - i,
{
    if i < n {
        lemma_plan_error_stays(translations, on_disk, development, registered, i, (n - 1) as nat);
    }
}

/// Checks a loaded translation table against the language it was registered
/// for: it fails only when both are known and differ.
pub fn ensure_right_language(expected: Option<&String>, declared: Option<&String>) -> (r: Result<
    (),
    StringsFileError,
>)
    ensures
        match (expected, declared) {
            (Some(e), Some(d)) => if e@ == d@ {
                r is Ok
            } else {
                r matches Err(StringsFileError::LanguageMismatch { expected: x, found: y }) && x@
                    == e@ && y@ == d@
            },
            _ => r is Ok,
        },
{
    match (expected, declared) {
        (Some(e), Some(d)) => {
            if *e == *d {
                Ok(())
            } else {
                Err(StringsFileError::LanguageMismatch { expected: e.clone(), found: d.clone() })
            }
        },
        _ => Ok(()),
    }
}

} // verus!
