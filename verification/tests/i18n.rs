use game_systems_web::i18n::{Catalog, Tr, DEFAULT_LOCALE, LOCALE_COOKIE_NAME};

fn english_fallback() -> Catalog {
    Catalog::new(vec![DEFAULT_LOCALE.to_string()])
}

#[test]
fn cookie_override_wins_over_accept_language() {
    // the request's `locale` cookie holds "en"
    assert_eq!(LOCALE_COOKIE_NAME, "locale");
    let tr = Tr::resolve(Some("en"), Some("zz"));
    assert_eq!(tr.locale(), "en");
}

#[test]
fn unsupported_cookie_falls_through_to_accept_language() {
    let tr = Tr::resolve(Some("zz"), Some("en"));
    assert_eq!(tr.locale(), "en");
}

#[test]
fn accept_language_region_tag_matches_base_locale() {
    let tr = Tr::resolve(None, Some("en-GB,en;q=0.9"));
    assert_eq!(tr.locale(), "en");
}

#[test]
fn unsupported_accept_language_and_no_cookie_falls_back_to_english() {
    let tr = Tr::resolve(None, Some("fr-CA,fr;q=0.9"));
    assert_eq!(tr.locale(), DEFAULT_LOCALE);
}

#[test]
fn missing_everything_falls_back_to_english() {
    let tr = Tr::resolve(None, None);
    assert_eq!(tr.locale(), DEFAULT_LOCALE);
}

#[test]
fn english_translator_resolves_a_known_key() {
    let mut catalog = english_fallback();
    catalog.add("en", "browse.title", "Game systems");
    let title = Tr::english().browse_title(&catalog);
    assert!(!title.is_empty());
    assert_eq!(title, "Game systems");
}

#[test]
fn esperanto_cookie_is_kept() {
    assert_eq!(Tr::resolve(Some("eo"), Some("en")).locale(), "eo");
}

#[test]
fn accept_language_entry_is_trimmed_and_parameters_dropped() {
    assert_eq!(Tr::resolve(None, Some("  eo ;q=1, en")).locale(), "eo");
    assert_eq!(Tr::resolve(None, Some("eo-XX")).locale(), "eo");
    assert_eq!(Tr::resolve(Some(""), Some("")).locale(), "en");
}

#[test]
fn added_translation_reads_back() {
    let mut catalog = english_fallback();
    catalog.add("en", "browse.title", "Game systems");
    catalog.add("eo", "browse.title", "Ludsistemoj");
    assert_eq!(Tr::english().browse_title(&catalog), "Game systems");
    assert_eq!(Tr::new("eo").browse_title(&catalog), "Ludsistemoj");
    catalog.add("en", "browse.title", "All game systems");
    assert_eq!(Tr::english().browse_title(&catalog), "All game systems");
}

#[test]
fn untranslated_key_reads_as_itself() {
    let catalog = english_fallback();
    assert_eq!(Tr::new("eo").new_submit(&catalog), "new.submit");
    assert_eq!(Tr::english().get(&catalog, "no.such.key"), "no.such.key");
}

#[test]
fn missing_key_uses_the_fallback_locale() {
    let mut catalog = english_fallback();
    catalog.add("en", "detail.notes", "Notes");
    assert_eq!(Tr::new("eo").detail_notes(&catalog), "Notes");
    let no_fallback = Catalog::new(Vec::new());
    assert_eq!(Tr::new("eo").detail_notes(&no_fallback), "detail.notes");
}

#[test]
fn region_locale_reads_its_base_locale() {
    let mut catalog = Catalog::new(Vec::new());
    catalog.add("zh", "menu.log_in", "登录");
    catalog.add("pt-BR", "menu.log_in", "Entrar");
    assert_eq!(Tr::new("zh-Hant-CN").menu_log_in(&catalog), "登录");
    assert_eq!(Tr::new("zh-x-private").menu_log_in(&catalog), "登录");
    assert_eq!(Tr::new("pt-BR").menu_log_in(&catalog), "Entrar");
    assert_eq!(Tr::new("pt").menu_log_in(&catalog), "menu.log_in");
}

#[test]
fn every_label_reads_its_own_key() {
    let catalog = Catalog::new(Vec::new());
    let tr = Tr::english();
    let labels = [
        (tr.site_title(&catalog), "site.title"),
        (tr.menu_log_in(&catalog), "menu.log_in"),
        (tr.menu_log_out(&catalog), "menu.log_out"),
        (tr.browse_title(&catalog), "browse.title"),
        (tr.browse_search_label(&catalog), "browse.search_label"),
        (tr.browse_search_placeholder(&catalog), "browse.search_placeholder"),
        (tr.browse_search_submit(&catalog), "browse.search_submit"),
        (tr.browse_empty(&catalog), "browse.empty"),
        (tr.browse_prev(&catalog), "browse.prev"),
        (tr.browse_next(&catalog), "browse.next"),
        (tr.browse_add_new(&catalog), "browse.add_new"),
        (tr.detail_edition(&catalog), "detail.edition"),
        (tr.detail_publisher(&catalog), "detail.publisher"),
        (tr.detail_notes(&catalog), "detail.notes"),
        (tr.detail_tags(&catalog), "detail.tags"),
        (tr.detail_version_history(&catalog), "detail.version_history"),
        (tr.new_title(&catalog), "new.title"),
        (tr.new_field_system_id(&catalog), "new.field_system_id"),
        (tr.new_field_name(&catalog), "new.field_name"),
        (tr.new_field_edition(&catalog), "new.field_edition"),
        (tr.new_field_publisher(&catalog), "new.field_publisher"),
        (tr.new_field_notes(&catalog), "new.field_notes"),
        (tr.new_field_tags(&catalog), "new.field_tags"),
        (tr.new_submit(&catalog), "new.submit"),
        (tr.new_not_authorized(&catalog), "new.not_authorized"),
    ];
    for (label, key) in labels {
        assert_eq!(label, key);
    }
}
