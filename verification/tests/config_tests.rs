use butai::config::{Config, RawSite};
use butai::site::{ScraperKind, SiteHints};
use url::Url;

fn site(url: &str, scraper: Option<ScraperKind>, stable_count: u32) -> RawSite {
    RawSite {
        url: url.to_string(),
        hints: SiteHints { scraper, stable_count },
    }
}

fn kind_from_name(name: &str) -> ScraperKind {
    match name {
        "ghost" => ScraperKind::Phantom,
        "script" => ScraperKind::Script,
        "scout" => ScraperKind::Scout,
        other => panic!("unknown scraper kind {other}"),
    }
}

fn kind_name(kind: ScraperKind) -> &'static str {
    match kind {
        ScraperKind::Phantom => "ghost",
        ScraperKind::Script => "script",
        ScraperKind::Scout => "scout",
    }
}

fn sites_from_table(table: &toml::Table) -> Vec<RawSite> {
    table["sites"]
        .as_array()
        .unwrap()
        .iter()
        .map(|site| {
            let site = site.as_table().unwrap();
            let hints = site["hints"].as_table().unwrap();
            RawSite {
                url: Url::parse(site["url"].as_str().unwrap()).unwrap().to_string(),
                hints: SiteHints {
                    scraper: hints.get("scraper").map(|k| kind_from_name(k.as_str().unwrap())),
                    stable_count: hints["stable_count"].as_integer().unwrap() as u32,
                },
            }
        })
        .collect()
}

fn table_from_sites(sites: &[RawSite]) -> toml::Table {
    let sites: Vec<toml::Value> = sites
        .iter()
        .map(|site| {
            let mut hints = toml::Table::new();
            if let Some(kind) = site.hints.scraper {
                hints.insert("scraper".to_string(), toml::Value::String(kind_name(kind).to_string()));
            }
            hints.insert("stable_count".to_string(), toml::Value::Integer(site.hints.stable_count.into()));
            let mut entry = toml::Table::new();
            entry.insert("url".to_string(), toml::Value::String(site.url.clone()));
            entry.insert("hints".to_string(), toml::Value::Table(hints));
            toml::Value::Table(entry)
        })
        .collect();
    let mut table = toml::Table::new();
    table.insert("sites".to_string(), toml::Value::Array(sites));
    table
}

#[test]
fn ser_de_config() {
    let url = Url::parse("https://google.com").unwrap().to_string();
    let mut hints = toml::Table::new();
    hints.insert("scraper".to_string(), toml::Value::String("ghost".to_string()));
    hints.insert("stable_count".to_string(), toml::Value::Integer(1));
    let mut site = toml::Table::new();
    site.insert("url".to_string(), toml::Value::String(url));
    site.insert("hints".to_string(), toml::Value::Table(hints));
    let mut table = toml::Table::new();
    table.insert("sites".to_string(), toml::Value::Array(vec![toml::Value::Table(site)]));

    let config = Config::from_sites(sites_from_table(&table));
    assert_eq!(
        table_from_sites(&config.snapshot()),
        table,
        "deserialized config snapshot != toml table"
    );
}

#[test]
fn rebuilding_from_a_snapshot_keeps_sites() {
    let mut config = Config::from_sites(vec![
        site("https://a.example/", None, 0),
        site("https://b.example/", Some(ScraperKind::Scout), 2),
    ]);
    let keys = config.keys();
    config.set_hints(keys[0], SiteHints { scraper: Some(ScraperKind::Script), stable_count: 5 });
    let snapshot = config.snapshot();
    let rebuilt = Config::from_sites(snapshot.clone());
    let again = rebuilt.snapshot();
    assert_eq!(again.len(), snapshot.len());
    for (got, want) in again.iter().zip(snapshot.iter()) {
        assert_eq!(got.url, want.url);
        assert_eq!(got.hints, want.hints);
    }
    assert_eq!(again[0].hints, SiteHints { scraper: Some(ScraperKind::Script), stable_count: 5 });
}

#[test]
fn snapshot_keeps_order_of_many_sites() {
    let listed = vec![
        site("https://a.example/", None, 0),
        site("https://b.example/", Some(ScraperKind::Script), 7),
        site("https://c.example/", Some(ScraperKind::Scout), 0),
        site("https://a.example/", Some(ScraperKind::Phantom), 2),
    ];
    let config = Config::from_sites(listed.clone());
    assert_eq!(config.len(), 4);
    let snapshot = config.snapshot();
    let urls: Vec<&str> = snapshot.iter().map(|s| s.url.as_str()).collect();
    assert_eq!(urls, vec!["https://a.example/", "https://b.example/", "https://c.example/", "https://a.example/"]);
    for (got, want) in snapshot.iter().zip(listed.iter()) {
        assert_eq!(got.hints, want.hints);
    }
}

#[test]
fn empty_config() {
    let config = Config::from_sites(Vec::new());
    assert_eq!(config.len(), 0);
    assert!(config.keys().is_empty());
    assert!(config.snapshot().is_empty());
}

#[test]
fn keys_name_sites_in_order() {
    let config = Config::from_sites(vec![
        site("https://a.example/", None, 0),
        site("https://b.example/", Some(ScraperKind::Script), 3),
    ]);
    let keys = config.keys();
    assert_eq!(keys.len(), 2);
    assert_ne!(keys[0], keys[1]);
    assert!(config.contains_key(keys[0]));
    assert!(config.contains_key(keys[1]));
    assert_eq!(config.url(keys[0]), "https://a.example/");
    assert_eq!(config.url(keys[1]), "https://b.example/");
    assert_eq!(config.hints(keys[0]), SiteHints { scraper: None, stable_count: 0 });
    assert_eq!(config.hints(keys[1]), SiteHints { scraper: Some(ScraperKind::Script), stable_count: 3 });
}

#[test]
fn keys_of_another_config_are_not_found() {
    let small = Config::from_sites(vec![site("https://a.example/", None, 0)]);
    let large = Config::from_sites(vec![
        site("https://a.example/", None, 0),
        site("https://b.example/", None, 0),
    ]);
    let large_keys = large.keys();
    assert!(small.contains_key(large_keys[0]));
    assert!(!small.contains_key(large_keys[1]));
}

#[test]
fn set_hints_then_read_back() {
    let mut config = Config::from_sites(vec![
        site("https://a.example/", None, 0),
        site("https://b.example/", Some(ScraperKind::Script), 3),
    ]);
    let keys = config.keys();
    let new_hints = SiteHints { scraper: Some(ScraperKind::Scout), stable_count: 9 };
    config.set_hints(keys[0], new_hints);
    assert_eq!(config.hints(keys[0]), new_hints);
    assert_eq!(config.hints(keys[1]), SiteHints { scraper: Some(ScraperKind::Script), stable_count: 3 });
    assert_eq!(config.url(keys[0]), "https://a.example/");
    assert_eq!(config.keys(), keys);
    let snapshot = config.snapshot();
    assert_eq!(snapshot[0].hints, new_hints);
    assert_eq!(snapshot[1].hints, SiteHints { scraper: Some(ScraperKind::Script), stable_count: 3 });
}
