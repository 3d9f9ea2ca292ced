use data_cleaner::i18n::{
    automatic_language, language_from_locale, parse_po, replace_text, resolve_language, tr, tr_args,
};
use data_cleaner::settings::AppLanguage;

#[test]
fn locale_detection_accepts_common_linux_formats() {
    assert_eq!(language_from_locale("el_GR.UTF-8"), Some(AppLanguage::Greek));
    assert_eq!(language_from_locale("de-DE"), Some(AppLanguage::German));
    assert_eq!(language_from_locale("fr:en"), Some(AppLanguage::French));
    assert_eq!(language_from_locale("ja_JP.UTF-8"), None);
}

#[test]
fn po_parser_reads_single_and_multiline_values() {
    let catalog = parse_po("msgid \"Hello\"\nmsgstr \"Bonjour\"\n\nmsgid \"Long \"\n\"text\"\nmsgstr \"Texte \"\n\"long\"\n");
    assert_eq!(catalog.get("Hello"), Some("Bonjour"));
    assert_eq!(catalog.get("Long text"), Some("Texte long"));
}

#[test]
fn po_entries_need_both_values_and_later_ones_win() {
    let catalog = parse_po("msgid \"\"\nmsgstr \"header\"\nmsgid \"A\"\nmsgstr \"\"\nmsgid \"B\"\nmsgstr \"one\"\nmsgid \"B\"\nmsgstr \"two\\u00e9\"\n");
    assert_eq!(catalog.get(""), None);
    assert_eq!(catalog.get("A"), None);
    assert_eq!(catalog.get("B"), Some("twoé"));
}

#[test]
fn translation_falls_back_to_the_source() {
    let catalog = parse_po("msgid \"Clean\"\nmsgstr \"Nettoyer\"\nmsgid \"Runs {days} at {time}\"\nmsgstr \"{time}: {days}\"\n");
    assert_eq!(tr(Some(&catalog), "Clean"), "Nettoyer");
    assert_eq!(tr(Some(&catalog), "Close"), "Close");
    assert_eq!(tr(None, "Clean"), "Clean");
    assert_eq!(
        tr_args(Some(&catalog), "Runs {days} at {time}", &[("{days}", "daily"), ("{time}", "03:00")]),
        "03:00: daily"
    );
}

#[test]
fn replacement_matches_str_replace() {
    for (s, from, to) in [("aaa", "aa", "b"), ("abc", "", "-"), ("x{a}y{a}", "{a}", "1"), ("", "", "z")] {
        assert_eq!(replace_text(s, from, to), s.replace(from, to));
    }
}

#[test]
fn automatic_language_takes_the_first_known_locale() {
    let values = vec!["ja_JP.UTF-8".to_string(), "it_IT.UTF-8".to_string(), "de_DE".to_string()];
    assert_eq!(automatic_language(&values), AppLanguage::Italian);
    assert_eq!(automatic_language(&vec![]), AppLanguage::English);
    assert_eq!(language_from_locale("C"), Some(AppLanguage::English));
    assert_eq!(resolve_language(AppLanguage::Spanish, &values), AppLanguage::Spanish);
    assert_eq!(resolve_language(AppLanguage::Automatic, &values), AppLanguage::Italian);
}
