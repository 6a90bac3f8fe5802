use deepwell::locale::{check_component, check_locale_file, fluent_extension, locale_entry_problems, LocaleProblem};
use deepwell::models::alias::{AliasType, Model as AliasModel};
use deepwell::models::site::Model as SiteModel;
use deepwell::models::site_domain::Model as SiteDomainModel;
use deepwell::site::build_site_response;

#[test]
fn site_response_carries_its_parts() {
    let site = SiteModel {
        site_id: 4,
        created_at: 1,
        updated_at: None,
        deleted_at: None,
        slug: "test".to_string(),
        name: "Test".to_string(),
        tagline: String::new(),
        description: String::new(),
        locale: "en".to_string(),
    };
    let alias = AliasModel { alias_id: 1, alias_type: AliasType::Site, created_at: 1, created_by: 2, target_id: 4, slug: "t".to_string() };
    let domain = SiteDomainModel { domain: "test.example".to_string(), created_at: 1, site_id: 4 };
    let r = build_site_response(site, vec![alias], vec![domain], 200);
    assert_eq!(r.status, 200);
    assert_eq!(r.body.site.site_id, 4);
    assert_eq!(r.body.aliases.len(), 1);
    assert_eq!(r.body.aliases[0].slug, "t");
    assert_eq!(r.body.domains[0].domain, "test.example");
}

#[test]
fn locale_file_checks() {
    assert_eq!(check_locale_file(false, Some("ftl"), "en"), vec![LocaleProblem::NotAFile]);
    assert_eq!(check_locale_file(true, None, "en"), vec![LocaleProblem::NoExtension]);
    assert!(check_locale_file(true, Some("ftl"), "en").is_empty());
    assert!(check_locale_file(true, Some("FTL"), "en-US").is_empty());
    assert_eq!(check_locale_file(true, Some("txt"), "en"), vec![LocaleProblem::NotFluent]);
    assert_eq!(check_locale_file(true, Some("ftl"), "not a locale!"), vec![LocaleProblem::InvalidLocale]);
    assert_eq!(
        check_locale_file(true, Some("json"), "???"),
        vec![LocaleProblem::NotFluent, LocaleProblem::InvalidLocale]
    );
}

#[test]
fn component_and_extension_checks() {
    assert_eq!(check_component(true), None);
    assert_eq!(check_component(false), Some(LocaleProblem::NotADirectory));
    assert!(fluent_extension("fTl"));
    assert!(!fluent_extension("ftll"));
    assert!(!fluent_extension(""));
}

#[test]
fn locale_entry_problems_from_parse_result() {
    assert!(locale_entry_problems(true, Some("ftl"), true).is_empty());
    assert_eq!(locale_entry_problems(true, Some("ftl"), false), vec![LocaleProblem::InvalidLocale]);
    assert_eq!(
        locale_entry_problems(true, Some("po"), false),
        vec![LocaleProblem::NotFluent, LocaleProblem::InvalidLocale]
    );
    assert_eq!(locale_entry_problems(true, None, false), vec![LocaleProblem::NoExtension]);
    assert_eq!(locale_entry_problems(false, Some("ftl"), false), vec![LocaleProblem::NotAFile]);
}
