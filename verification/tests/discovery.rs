use php_dev_server::binary::PhpBinary;
use php_dev_server::catalog::{
    all, binaries_from_outputs, current, merge_binaries, select_default, RuntimeCatalog,
};
use php_dev_server::matcher::is_candidate_name;
use php_dev_server::paths::{dedup_paths, filter_candidates, glob_from_path, split_search_path};
use php_dev_server::report::{encode_version_output, parse_version_and_mode, ScanError};
use php_dev_server::version::{PhpServerSapi, PhpVersion};

fn v(major: u32, minor: u32, patch: u32) -> PhpVersion {
    PhpVersion { major, minor, patch }
}

fn pairs(list: &[(&str, &str)]) -> Vec<(String, String)> {
    list.iter()
        .map(|(p, o)| (p.to_string(), o.to_string()))
        .collect()
}

#[test]
fn parse_valid_report() {
    let r = parse_version_and_mode("PHP 7.4.10 (fpm-fcgi)").unwrap();
    assert_eq!(r.0, v(7, 4, 10));
    assert!(matches!(r.1, PhpServerSapi::FPM));

    let r = parse_version_and_mode("PHP 8.1.2 (cli) (built: Jan 01 2022)").unwrap();
    assert_eq!(r.0, v(8, 1, 2));
    assert!(matches!(r.1, PhpServerSapi::CLI));

    let r = parse_version_and_mode("PHP 7.0.33 (cgi-fcgi)").unwrap();
    assert_eq!(r.0, v(7, 0, 33));
    assert!(matches!(r.1, PhpServerSapi::CGI));
}

#[test]
fn parse_round_trips_through_encoding() {
    for line in [
        "PHP 7.4.10 (fpm-fcgi)",
        "PHP 8.1.2 (cli) trailing text",
        "PHP 5.6.40 (cgi-fcgi)",
    ] {
        let (ver, sapi) = parse_version_and_mode(line).unwrap();
        let encoded: String = encode_version_output(&ver, &sapi).into_iter().collect();
        let (ver2, sapi2) = parse_version_and_mode(&encoded).unwrap();
        assert_eq!(ver, ver2);
        assert_eq!(sapi, sapi2);
    }
    let encoded: String = encode_version_output(&v(7, 4, 10), &PhpServerSapi::FPM)
        .into_iter()
        .collect();
    assert_eq!(encoded, "PHP 7.4.10 (fpm-fcgi)");
}

#[test]
fn parse_malformed_reports() {
    for bad in [
        "",
        "PHP",
        "PHP ",
        "PHP 7.4.10",
        "PHP 7.4.10 cli",
        "PHP 7.4.10 (cli",
        "PHP 7.4.10 ()",
        "PHP 10.1.2 (cli)",
        "PHP 7..10 (cli)",
        "PHP x.4.10 (cli)",
        "Python 3.1.1 (cli)",
        "PHP 7.4.10 (unknown)",
        "php 7.4.10 (cli)",
        "PHP 7.4.99999999999999 (cli)",
    ] {
        match parse_version_and_mode(bad) {
            Err(ScanError::MalformedVersionOutput) => {}
            Ok(_) => panic!("accepted malformed report: {:?}", bad),
        }
    }
}

#[test]
fn candidate_names_accepted() {
    for name in [
        "php",
        "php7",
        "php7.4",
        "php-fpm",
        "php_fpm",
        "phpfpm",
        "php7.4-fpm",
        "php-fpm7.4",
        "php7.4-fpm7.4",
    ] {
        assert!(is_candidate_name(name), "rejected {:?}", name);
    }
}

#[test]
fn candidate_names_rejected() {
    for name in [
        "",
        "ph",
        "not-php",
        "php-something-unrelated.txt",
        "phpx",
        "php7.",
        "php.4",
        "php--fpm",
        "php-fp",
        "php7.4.1",
        "a/php",
    ] {
        assert!(!is_candidate_name(name), "accepted {:?}", name);
    }
}

#[test]
fn scan_groups_by_version_first_path_wins() {
    let outs = pairs(&[
        ("/usr/bin/php7.4", "PHP 7.4.10 (cli)"),
        ("/usr/bin/php7.4-fpm", "PHP 7.4.10 (fpm-fcgi)"),
        ("/opt/php/cli", "PHP 7.4.10 (cli)"),
        ("/usr/bin/php8.1", "PHP 8.1.2 (cli)"),
        ("/usr/bin/broken", "no version here"),
    ]);
    let cat = binaries_from_outputs(&outs);
    assert_eq!(cat.len(), 2);
    let b = cat.get(&v(7, 4, 10)).unwrap();
    assert_eq!(
        b.path_for(&PhpServerSapi::CLI).unwrap().as_str(),
        "/usr/bin/php7.4"
    );
    assert_eq!(
        b.path_for(&PhpServerSapi::FPM).unwrap().as_str(),
        "/usr/bin/php7.4-fpm"
    );
    assert!(b.path_for(&PhpServerSapi::CGI).is_none());
    assert!(cat.get(&v(8, 1, 2)).is_some());
    assert!(cat.get(&v(5, 6, 40)).is_none());
}

#[test]
fn merge_binaries_adds_missing_modes_only() {
    let mut into = binaries_from_outputs(&pairs(&[("/a/php", "PHP 7.4.10 (cli)")]));
    let from = binaries_from_outputs(&pairs(&[
        ("/b/php", "PHP 7.4.10 (cli)"),
        ("/b/php-fpm", "PHP 7.4.10 (fpm-fcgi)"),
        ("/b/php5", "PHP 5.6.40 (cli)"),
    ]));
    merge_binaries(from, &mut into);
    assert_eq!(into.len(), 2);
    let b = into.get(&v(7, 4, 10)).unwrap();
    // the existing per-mode path is kept; only the missing mode is added
    assert_eq!(b.path_for(&PhpServerSapi::CLI).unwrap().as_str(), "/a/php");
    assert_eq!(b.path_for(&PhpServerSapi::FPM).unwrap().as_str(), "/b/php-fpm");
    assert!(into.get(&v(5, 6, 40)).is_some());
}

#[test]
fn scanning_twice_is_idempotent() {
    let loc1 = pairs(&[
        ("/a/php7.4", "PHP 7.4.10 (fpm-fcgi)"),
        ("/a/php8.1", "PHP 8.1.2 (cli)"),
    ]);
    let loc2 = pairs(&[("/b/php", "PHP 7.4.10 (cli)")]);
    let once = all(&vec![loc1.clone(), loc2.clone()]);
    let twice = all(&vec![loc1.clone(), loc2.clone(), loc1, loc2]);
    assert_eq!(once.len(), twice.len());
    for ver in [v(7, 4, 10), v(8, 1, 2)] {
        let a = once.get(&ver).unwrap();
        let b = twice.get(&ver).unwrap();
        for sapi in [PhpServerSapi::FPM, PhpServerSapi::CGI, PhpServerSapi::CLI] {
            assert_eq!(a.path_for(&sapi), b.path_for(&sapi));
        }
    }
}

#[test]
fn merge_priority_between_locations() {
    // different modes for the same version: both are exposed
    let cat = all(&vec![
        pairs(&[("/a/php-fpm", "PHP 7.4.10 (fpm-fcgi)")]),
        pairs(&[("/b/php", "PHP 7.4.10 (cli)")]),
    ]);
    let b = cat.get(&v(7, 4, 10)).unwrap();
    assert_eq!(b.path_for(&PhpServerSapi::FPM).unwrap().as_str(), "/a/php-fpm");
    assert_eq!(b.path_for(&PhpServerSapi::CLI).unwrap().as_str(), "/b/php");

    // the same mode from two locations: the first location's path wins
    let cat = all(&vec![
        pairs(&[("/a/php", "PHP 7.4.10 (cli)")]),
        pairs(&[("/b/php", "PHP 7.4.10 (cli)")]),
    ]);
    let b = cat.get(&v(7, 4, 10)).unwrap();
    assert_eq!(b.path_for(&PhpServerSapi::CLI).unwrap().as_str(), "/a/php");
}

#[test]
fn catalog_from_path_and_fallback_location() {
    // a search-path location holding php7.4 and the fallback directory
    // holding a plain php that reports the same release
    let cat = all(&vec![
        pairs(&[("/usr/local/bin/php7.4", "PHP 7.4.10 (fpm-fcgi)")]),
        pairs(&[("/usr/bin/php", "PHP 7.4.10 (cli)")]),
    ]);
    assert_eq!(cat.len(), 1);
    let b = cat.get(&v(7, 4, 10)).unwrap();
    assert_eq!(
        b.path_for(&PhpServerSapi::FPM).unwrap().as_str(),
        "/usr/local/bin/php7.4"
    );
    assert_eq!(b.path_for(&PhpServerSapi::CLI).unwrap().as_str(), "/usr/bin/php");
}

#[test]
fn current_prefers_highest_version() {
    let cat = all(&vec![pairs(&[
        ("/a/php7.4", "PHP 7.4.10 (cli)"),
        ("/a/php8.1", "PHP 8.1.2 (cli)"),
        ("/a/php5.6", "PHP 5.6.40 (cli)"),
    ])]);
    assert_eq!(current(&cat), "/a/php8.1");
}

#[test]
fn current_falls_back_to_bare_command() {
    let cat = RuntimeCatalog::new();
    assert_eq!(current(&cat), "php");
}

#[test]
fn binary_records_one_path_per_mode() {
    let mut b = PhpBinary::from_version(v(7, 4, 10));
    assert!(!b.has_sapi(&PhpServerSapi::FPM));
    b.add_sapi(&PhpServerSapi::FPM, "/x/php-fpm");
    assert!(b.has_sapi(&PhpServerSapi::FPM));
    assert_eq!(b.path_for(&PhpServerSapi::FPM).unwrap().as_str(), "/x/php-fpm");
    assert_eq!(b.version(), v(7, 4, 10));
    assert_eq!(b.preferred_path().unwrap().as_str(), "/x/php-fpm");
    b.add_sapi(&PhpServerSapi::CLI, "/x/php");
    assert_eq!(b.preferred_path().unwrap().as_str(), "/x/php");
}

#[test]
fn glob_pattern_for_directory() {
    assert_eq!(glob_from_path("/usr/bin"), "/usr/bin/php*");
    assert_eq!(glob_from_path(""), "/php*");
}

#[test]
fn search_path_splits_on_colons() {
    let dirs = split_search_path("/usr/local/bin:/usr/bin::/opt/bin");
    assert_eq!(dirs, vec!["/usr/local/bin", "/usr/bin", "", "/opt/bin"]);
    assert_eq!(split_search_path(""), vec![""]);
    assert_eq!(split_search_path("/usr/bin"), vec!["/usr/bin"]);
}

#[test]
fn duplicate_canonical_paths_collapse() {
    let paths: Vec<String> = ["/a/php", "/b/php", "/a/php", "/a/php"]
        .iter()
        .map(|s| s.to_string())
        .collect();
    assert_eq!(dedup_paths(&paths), vec!["/a/php", "/b/php"]);
}

#[test]
fn filtering_keeps_only_candidates() {
    let names: Vec<String> = ["php", "not-php", "php7.4-fpm", "phpunit"]
        .iter()
        .map(|s| s.to_string())
        .collect();
    assert_eq!(filter_candidates(&names), vec!["php", "php7.4-fpm"]);
}

#[test]
fn select_default_takes_highest_version() {
    let cat = all(&vec![pairs(&[
        ("/a/php7.4", "PHP 7.4.10 (cli)"),
        ("/a/php8.1", "PHP 8.1.2 (fpm-fcgi)"),
    ])]);
    let b = select_default(&cat).unwrap();
    assert_eq!(b.version(), v(8, 1, 2));
    assert!(select_default(&RuntimeCatalog::new()).is_none());
}
