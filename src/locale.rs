//! Validation of the layout of a localization directory: one directory per
//! component, holding one Fluent file per locale, named after the locale.

use unic_langid::LanguageIdentifier;
use vstd::prelude::*;

use crate::strings::chars_of;

verus! {

/// What is wrong with one entry of a localization directory.
#[derive(Clone, Copy, Debug, PartialEq, Eq, Structural)]
pub enum LocaleProblem {
    /// A component entry that is not a directory.
    NotADirectory,
    /// A locale entry that is not a file.
    NotAFile,
    /// A locale file whose extension is not `ftl`.
    NotFluent,
    /// A locale file with no extension.
    NoExtension,
    /// A locale file whose name is not a language identifier.
    InvalidLocale,
}

/// Name for whether unic-langid parses a text as a language identifier.
pub uninterp spec fn is_language_identifier(s: Seq<char>) -> bool;

/// Relies on `LanguageIdentifier::from_str` of unic-langid: whether the text
/// parses as a language identifier, which depends on the text alone.
#[verifier::external_body]
fn parses_as_language_identifier(s: &str) -> (r: bool)
    ensures
        r == is_language_identifier(s@),
{
    s.parse::<LanguageIdentifier>().is_ok()
}

/// `ext` is `ftl`, ignoring ASCII case.
pub open spec fn is_fluent_extension(ext: Seq<char>) -> bool {
    &&& ext.len() == 3
    &&& (ext[0] == 'f' || ext[0] == 'F')
    &&& (ext[1] == 't' || ext[1] == 'T')
    &&& (ext[2] == 'l' || ext[2] == 'L')
}

/// The problems of a locale entry: whether it is a file, its extension if
/// it has one, and whether its name without the extension is a language
/// identifier.
pub open spec fn entry_problems(is_file: bool, extension: Option<Seq<char>>, valid_locale: bool) -> Seq<
    LocaleProblem,
> {
    if !is_file {
        seq![LocaleProblem::NotAFile]
    } else {
        match extension {
            None => seq![LocaleProblem::NoExtension],
            Some(ext) => {
                let first = if is_fluent_extension(ext) {
                    Seq::<LocaleProblem>::empty()
                } else {
                    seq![LocaleProblem::NotFluent]
                };
                if valid_locale {
                    first
                } else {
                    first.push(LocaleProblem::InvalidLocale)
                }
            },
        }
    }
}

/// The view of an optional string.
pub open spec fn opt_view(extension: Option<&str>) -> Option<Seq<char>> {
    match extension {
        Some(e) => Some(e@),
        None => None,
    }
}

/// `ext` is `ftl`, ignoring ASCII case.
pub fn fluent_extension(ext: &str) -> (r: bool)
    ensures
        r == is_fluent_extension(ext@),
{
    let cs = chars_of(ext);
    cs.len() == 3 && (cs[0] == 'f' || cs[0] == 'F') && (cs[1] == 't' || cs[1] == 'T') && (cs[2] == 'l'
        || cs[2] == 'L')
}

/// The problem of a component entry, if it has one.
pub fn check_component(is_dir: bool) -> (r: Option<LocaleProblem>)
    ensures
        r == (if is_dir {
            None
        } else {
            Some(LocaleProblem::NotADirectory)
        }),
{
    if is_dir {
        None
    } else {
        Some(LocaleProblem::NotADirectory)
    }
}

/// The problems of a locale entry, in the order they are reported, given
/// whether its name parses as a language identifier.
pub fn locale_entry_problems(is_file: bool, extension: Option<&str>, valid_locale: bool) -> (r: Vec<
    LocaleProblem,
>)
    ensures
        r@ == entry_problems(is_file, opt_view(extension), valid_locale),
{
    let mut r: Vec<LocaleProblem> = Vec::new();
    if !is_file {
        r.push(LocaleProblem::NotAFile);
        assert(r@ =~= seq![LocaleProblem::NotAFile]);
        return r;
    }
    match extension {
        None => {
            r.push(LocaleProblem::NoExtension);
            assert(r@ =~= seq![LocaleProblem::NoExtension]);
            return r;
        },
        Some(ext) => {
            if !fluent_extension(ext) {
                r.push(LocaleProblem::NotFluent);
                assert(r@ =~= seq![LocaleProblem::NotFluent]);
            } else {
                assert(r@ =~= Seq::<LocaleProblem>::empty());
            }
        },
    }
    if !valid_locale {
        r.push(LocaleProblem::InvalidLocale);
    }
    r
}

/// The problems of a locale entry, in the order they are reported. The name
/// is parsed only for a file with an extension.
pub fn check_locale_file(is_file: bool, extension: Option<&str>, stem: &str) -> (r: Vec<LocaleProblem>)
    ensures
        r@ == entry_problems(is_file, opt_view(extension), is_language_identifier(stem@)),
{
    let valid_locale = if is_file && extension.is_some() {
        parses_as_language_identifier(stem)
    } else {
        true
    };
    locale_entry_problems(is_file, extension, valid_locale)
}

} // verus!
