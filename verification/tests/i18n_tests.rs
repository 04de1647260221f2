use saberbb::game::TB;
use saberbb::i18n::I18nManager;

#[test]
fn inning_formats_japanese_half_inning() {
    let manager = I18nManager::new("ja-JP");

    assert_eq!(manager.inning(1, TB::Top), "1回表");
    assert_eq!(manager.inning(9, TB::Bottom), "9回裏");
}

#[test]
fn inning_formats_english_half_inning_with_ordinals() {
    let manager = I18nManager::new("en-US");

    assert_eq!(manager.inning(1, TB::Top), "the top of the 1st");
    assert_eq!(manager.inning(2, TB::Bottom), "the bottom of the 2nd");
    assert_eq!(manager.inning(3, TB::Top), "the top of the 3rd");
    assert_eq!(manager.inning(11, TB::Bottom), "the bottom of the 11th");
}

#[test]
fn homerun_formats_japanese_season_number() {
    let manager = I18nManager::new("ja-JP");

    assert_eq!(manager.homerun(2), "2号");
}

#[test]
fn homerun_formats_english_season_number_with_ordinals() {
    let manager = I18nManager::new("en-US");

    assert_eq!(manager.homerun(1), "1st");
    assert_eq!(manager.homerun(2), "2nd");
    assert_eq!(manager.homerun(3), "3rd");
    assert_eq!(manager.homerun(11), "11th");
    assert_eq!(manager.homerun(22), "22nd");
}

#[test]
fn new_canonicalizes_language_tag_case() {
    let manager = I18nManager::new("ja-jp");
    assert_eq!(manager.lang, "ja-JP");
    assert_eq!(manager.lang_db(), "jp");
}

#[test]
fn new_falls_back_to_american_english_on_bad_tag() {
    let manager = I18nManager::new("not a tag!");
    assert_eq!(manager.lang, "en-US");
    assert_eq!(manager.lang_db(), "us");
}

#[test]
fn full_name_puts_family_name_first_in_japanese() {
    assert_eq!(I18nManager::new("ja-JP").full_name("Shohei", "Ohtani"), "Ohtani Shohei");
    assert_eq!(I18nManager::new("en-US").full_name("Shohei", "Ohtani"), "Shohei Ohtani");
}

#[test]
fn ordinal_handles_teens_and_hundreds() {
    assert_eq!(I18nManager::ordinal(12), "12th");
    assert_eq!(I18nManager::ordinal(13), "13th");
    assert_eq!(I18nManager::ordinal(101), "101st");
    assert_eq!(I18nManager::ordinal(111), "111th");
    assert_eq!(I18nManager::ordinal(0), "0th");
}

#[test]
fn from_canonical_keeps_tag_or_falls_back() {
    assert_eq!(I18nManager::from_canonical(Some("ja-JP".to_string())).lang, "ja-JP");
    assert_eq!(I18nManager::from_canonical(None).lang, "en-US");
}
