use ios_runner_core::bootstrap::locale_for_startup;
use ios_runner_core::global_store::GlobalConfigFile;
use ios_runner_core::locale::Lang;

#[test]
fn parse_lang() {
    assert_eq!(Lang::parse("en"), Lang::En);
    assert_eq!(Lang::parse("EN-US"), Lang::En);
    assert_eq!(Lang::parse("zh-CN"), Lang::ZhCn);
    assert_eq!(Lang::parse("ja"), Lang::ZhCn);
}

#[test]
fn config_language_round_trips() {
    for l in [Lang::En, Lang::ZhCn] {
        assert_eq!(Lang::parse(l.as_config_str()), l);
    }
    assert_eq!(Lang::parse("  en-GB \n"), Lang::En);
    assert_eq!(Lang::parse("english"), Lang::ZhCn);
}

#[test]
fn startup_language() {
    assert_eq!(locale_for_startup(Some("en"), None, None), Some(Lang::En));
    let f = GlobalConfigFile::default();
    assert_eq!(locale_for_startup(None, Some(&f), Some("/w")), Some(Lang::ZhCn));
    assert_eq!(locale_for_startup(None, None, Some("/w")), None);
}
