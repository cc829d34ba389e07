use std::cmp::Ordering;
use std::sync::{Arc, RwLock};

use bldr::archive::{MetaFile, PackageArchive};
use bldr::error::BldrError;
use bldr::hooks::{Hook, HookTable, HookType};
use bldr::lifecycle::{CheckResult, HealthProbe, RunLinkAction, Signal};
use bldr::package::Package;
use bldr::updater::{PackageUpdater, TickAction, UpdaterMessage, UpdaterState, UpdaterStatus, TIMEOUT_MS};
use bldr::version::{split_version, version_sort};

fn pkg(d: &str, n: &str, v: &str, r: &str) -> Package {
    Package::new(d.to_string(), n.to_string(), v.to_string(), r.to_string())
}

#[test]
fn compare_is_reflexive_and_antisymmetric() {
    let vs = ["1.0.0", "1.0", "2.0.1", "1.0.0-alpha1", "1.0.0-beta", "20150521131347"];
    for a in vs.iter() {
        assert_eq!(version_sort(a, a).unwrap(), Ordering::Equal);
        for b in vs.iter() {
            let ab = version_sort(a, b).unwrap();
            let ba = version_sort(b, a).unwrap();
            assert_eq!(ab, ba.reverse());
        }
    }
}

#[test]
fn compare_is_transitive_on_samples() {
    let vs = ["0.9", "1.0.0-alpha", "1.0.0", "1.0.1", "1.1", "10.0"];
    for i in 0..vs.len() {
        for j in i + 1..vs.len() {
            assert_eq!(version_sort(vs[i], vs[j]).unwrap(), Ordering::Less);
        }
    }
}

#[test]
fn compare_pads_missing_components_with_zero() {
    assert_eq!(version_sort("1.0", "1.0.0").unwrap(), Ordering::Equal);
    assert_eq!(version_sort("1", "1.0.1").unwrap(), Ordering::Less);
    assert_eq!(version_sort("1.10", "1.9").unwrap(), Ordering::Greater);
}

#[test]
fn compare_rejects_bad_versions() {
    assert_eq!(version_sort("abc", "1.0"), Err(BldrError::BadVersion));
    assert_eq!(version_sort("1.0", "1..0"), Err(BldrError::BadVersion));
    assert_eq!(version_sort("1.0-", "1.0"), Err(BldrError::BadVersion));
    assert_eq!(version_sort("", "1.0"), Err(BldrError::BadVersion));
    assert_eq!(version_sort("99999999999999999999", "1"), Err(BldrError::BadVersion));
    assert_eq!(split_version("1.x"), Err(BldrError::BadVersion));
}

#[test]
fn split_version_without_extension() {
    let (parts, ext) = split_version("20150521131555").unwrap();
    assert_eq!(parts, vec!["20150521131555"]);
    assert_eq!(ext, None);
    let (parts, ext) = split_version("1.0-rc-2").unwrap();
    assert_eq!(parts, vec!["1", "0"]);
    assert_eq!(ext, Some("rc-2".to_string()));
}

#[test]
fn from_ident_parses_four_fields() {
    let p = Package::from_ident("bldr/bldr/1.0.0/20150521131555").unwrap();
    assert_eq!(p.derivation, "bldr");
    assert_eq!(p.name, "bldr");
    assert_eq!(p.version, "1.0.0");
    assert_eq!(p.release, "20150521131555");
    assert!(p.deps.is_none());
}

#[test]
fn from_ident_trims_fields() {
    let p = Package::from_ident(" acme / web /1.2.3/20230101000000\n").unwrap();
    assert_eq!(p, pkg("acme", "web", "1.2.3", "20230101000000"));
}

#[test]
fn from_ident_rejects_wrong_separator_count() {
    for bad in ["bldr/bldr/1.0.0", "a/b/c/d/e", "", "abc"] {
        match Package::from_ident(bad) {
            Err(BldrError::InvalidPackageIdent(s)) => assert_eq!(s, bad),
            other => panic!("{:?}", other),
        }
    }
}

#[test]
fn ident_round_trips() {
    let p = pkg("acme", "web", "1.2.3", "20230101000000");
    assert_eq!(p.ident(), "acme/web/1.2.3/20230101000000");
    assert_eq!(Package::from_ident(&p.ident()).unwrap(), p);
}

#[test]
fn equality_uses_every_coordinate() {
    let a = pkg("acme", "web", "1.2.3", "1");
    assert_ne!(a, pkg("other", "web", "1.2.3", "1"));
    assert_ne!(a, pkg("acme", "api", "1.2.3", "1"));
    assert_ne!(a, pkg("acme", "web", "1.2.4", "1"));
    assert_ne!(a, pkg("acme", "web", "1.2.3", "2"));
    let mut b = pkg("acme", "web", "1.2.3", "1");
    b.add_dep(pkg("x", "y", "1", "2"));
    assert_eq!(a, b);
}

#[test]
fn ordering_with_bad_version_is_none() {
    let a = pkg("acme", "web", "x", "1");
    let b = pkg("acme", "web", "1.0", "1");
    assert_eq!(a.partial_cmp(&b), None);
    assert!(pkg("acme", "web", "1.3.0", "1") > pkg("z", "web", "1.2.3", "9"));
}

#[test]
fn add_dep_appends() {
    let mut p = pkg("a", "b", "1", "2");
    p.add_dep(pkg("c", "d", "1", "1"));
    p.add_dep(pkg("e", "f", "1", "1"));
    let deps = p.deps.unwrap();
    assert_eq!(deps.len(), 2);
    assert_eq!(deps[1].name, "f");
}

#[test]
fn paths_are_laid_out() {
    let p = pkg("chef", "redis", "3.0.1", "20150521131555");
    assert_eq!(p.path(), "/opt/bldr/pkgs/chef/redis/3.0.1/20150521131555");
    assert_eq!(p.join_path("run"), "/opt/bldr/pkgs/chef/redis/3.0.1/20150521131555/run");
    assert_eq!(p.srvc_path(), "/opt/bldr/srvc/redis");
    assert_eq!(p.srvc_join_path("config"), "/opt/bldr/srvc/redis/config");
    assert_eq!(p.cache_file(), "/opt/bldr/cache/pkgs/chef-redis-3.0.1-20150521131555.bldr");
    assert_eq!(p.hook_template_path(&HookType::HealthCheck),
               "/opt/bldr/pkgs/chef/redis/3.0.1/20150521131555/hooks/health_check");
    assert_eq!(p.hook_path(&HookType::Init), "/opt/bldr/srvc/redis/hooks/init");
}

#[test]
fn from_path_reads_coordinates() {
    let p = Package::from_path("/opt/bldr/pkgs/chef/redis/3.0.1/20150521131555/bin").unwrap();
    assert_eq!(p, pkg("chef", "redis", "3.0.1", "20150521131555"));
    match Package::from_path("/usr/local/chef/redis/3.0.1/1") {
        Err(BldrError::PackageLoad(s)) => assert_eq!(s, "/usr/local/chef/redis/3.0.1/1"),
        other => panic!("{:?}", other),
    }
    assert!(Package::from_path("/opt/bldr/pkgs/chef/redis").is_err());
}

#[test]
fn latest_picks_newest_candidate() {
    let list = vec![
        pkg("chef", "redis", "3.0.1", "20150521131555"),
        pkg("chef", "redis", "3.0.10", "20150521131555"),
        pkg("chef", "redis", "3.0.10", "20150601000000"),
        pkg("chef", "nginx", "9.0.0", "1"),
        pkg("other", "redis", "9.0.0", "1"),
    ];
    let p = Package::latest("chef", "redis", None, &list).unwrap();
    assert_eq!(p, pkg("chef", "redis", "3.0.10", "20150601000000"));
    let p = Package::latest("chef", "redis", Some("3.0.1"), &list).unwrap();
    assert_eq!(p, pkg("chef", "redis", "3.0.1", "20150521131555"));
    match Package::latest("chef", "redis", Some("4.0"), &list) {
        Err(BldrError::PackageNotFound(d, n, v)) => {
            assert_eq!((d.as_str(), n.as_str(), v), ("chef", "redis", Some("4.0".to_string())));
        }
        other => panic!("{:?}", other),
    }
}

#[test]
fn latest_keeps_winner_when_incomparable() {
    let list = vec![pkg("chef", "redis", "1.0", "1"), pkg("chef", "redis", "bad", "2")];
    let p = Package::latest("chef", "redis", None, &list).unwrap();
    assert_eq!(p.version, "1.0");
}

#[test]
fn exposes_splits_on_spaces() {
    let v = Package::exposes(Some("80 443\n"));
    assert_eq!(v, vec!["80", "443"]);
    assert!(Package::exposes(None).is_empty());
}

#[test]
fn metadata_reads() {
    let ok = PackageArchive::read_metadata(MetaFile::Ident, true, "a/b/c/d".to_string(), String::new());
    assert_eq!(ok, Ok("a/b/c/d".to_string()));
    let missing = PackageArchive::read_metadata(MetaFile::Deps, false, String::new(),
        "tar: DEPS: Not found in archive\n".to_string());
    assert_eq!(missing, Err(BldrError::MetaFileNotFound(MetaFile::Deps)));
    let broken = PackageArchive::read_metadata(MetaFile::Deps, false, String::new(),
        "gpg: decryption failed".to_string());
    assert_eq!(broken, Err(BldrError::ArchiveReadFailed("gpg: decryption failed".to_string())));
    assert_eq!(MetaFile::LdRunPath.name(), "LD_RUN_PATH");
}

#[test]
fn deps_skip_malformed_lines() {
    let d = PackageArchive::deps(Ok("a/b/1/2\nnot an ident\nc/d/3/4\n".to_string())).unwrap().unwrap();
    assert_eq!(d, vec![pkg("a", "b", "1", "2"), pkg("c", "d", "3", "4")]);
    assert_eq!(PackageArchive::deps(Err(BldrError::MetaFileNotFound(MetaFile::Deps))), Ok(None));
    assert_eq!(PackageArchive::deps(Err(BldrError::UnpackFailed)), Err(BldrError::UnpackFailed));
}

#[test]
fn archive_package_without_deps() {
    let p = PackageArchive::package(Ok("acme/web/1.2.3/20230101000000".to_string()),
                                    Err(BldrError::MetaFileNotFound(MetaFile::Deps))).unwrap();
    assert_eq!(p, pkg("acme", "web", "1.2.3", "20230101000000"));
    assert!(p.deps.is_none());
}

#[test]
fn archive_package_with_deps() {
    let p = PackageArchive::package(Ok("acme/web/1.2.3/1".to_string()),
                                    Ok("core/glibc/2.22/5\n".to_string())).unwrap();
    assert_eq!(p.deps.unwrap(), vec![pkg("core", "glibc", "2.22", "5")]);
    let e = PackageArchive::package(Ok("garbage".to_string()), Ok(String::new()));
    assert_eq!(e, Err(BldrError::InvalidPackageIdent("garbage".to_string())));
    let e = PackageArchive::unpack(false, Ok("a/b/c/d".to_string()), Ok(String::new()));
    assert_eq!(e, Err(BldrError::UnpackFailed));
}

#[test]
fn archive_file_name() {
    let a = PackageArchive::new("/opt/bldr/cache/pkgs/chef-redis-3.0.1-1.bldr".to_string());
    assert_eq!(a.file_name(), Some("chef-redis-3.0.1-1.bldr".to_string()));
    assert_eq!(PackageArchive::new("/".to_string()).file_name(), None);
    assert_eq!(PackageArchive::new("a/b/..".to_string()).file_name(), None);
    assert_eq!(PackageArchive::new("a/b//./".to_string()).file_name(), Some("b".to_string()));
    assert_eq!(PackageArchive::new("x.bldr".to_string()).file_name(), Some("x.bldr".to_string()));
}

#[test]
fn hook_exit_codes() {
    let h = Hook::new(HookType::HealthCheck, "t".to_string(), "/x/hooks/health_check".to_string());
    assert_eq!(h.finish(Some(0), "out".to_string()), Ok("out".to_string()));
    assert_eq!(h.finish(Some(2), "o".to_string()),
               Err(BldrError::HookFailed(HookType::HealthCheck, 2, "o".to_string())));
    assert_eq!(h.finish(None, "o".to_string()),
               Err(BldrError::HookFailed(HookType::HealthCheck, -1, "o".to_string())));
    assert_eq!(h.launch_failed(), BldrError::HookFailed(HookType::HealthCheck, -1,
               "couldn't run hook: /x/hooks/health_check".to_string()));
    assert_eq!(Hook::format_output("a", "b"), "a\nb");
}

#[test]
fn health_check_maps_codes() {
    let p = pkg("a", "b", "1", "2");
    let h = Hook::new(HookType::HealthCheck, String::new(), String::new());
    let expect = [
        Ok(CheckResult::Okay("o".to_string())),
        Ok(CheckResult::Warning("o".to_string())),
        Ok(CheckResult::Critical("o".to_string())),
        Ok(CheckResult::Unknown("o".to_string())),
        Err(BldrError::HealthCheck(4, "o".to_string())),
    ];
    for (code, want) in expect.iter().enumerate() {
        let got = p.health_check(HealthProbe::Hook(h.finish(Some(code as i32), "o".to_string())));
        assert_eq!(&got, want);
    }
    let d = p.health_check(HealthProbe::NoHook(Ok("run: up".to_string()), Ok("port = 80".to_string())));
    assert_eq!(d, Ok(CheckResult::Okay("run: up\nport = 80".to_string())));
    let d = p.default_health_check(Err(BldrError::SupervisorSignalFailed), Ok(String::new()));
    assert_eq!(d, Err(BldrError::SupervisorSignalFailed));
}

#[test]
fn hook_table_loads_present_templates() {
    let p = pkg("chef", "redis", "1", "2");
    let t = p.hooks(true, &vec![HookType::Init, HookType::Run]);
    assert!(t.init_hook.is_some());
    assert!(t.health_check_hook.is_none());
    assert!(t.reconfigure_hook.is_none());
    let run = t.run_hook.unwrap();
    assert_eq!(run.path, "/opt/bldr/srvc/redis/hooks/run");
    assert_eq!(run.template, "/opt/bldr/pkgs/chef/redis/1/2/hooks/run");
    let t = p.hooks(false, &vec![HookType::Init]);
    assert!(t.init_hook.is_none());
    let mut t = HookTable::new(&p);
    t.load_hooks(true, &vec![HookType::Reconfigure]);
    assert!(t.reconfigure_hook.is_some());
}

#[test]
fn copy_run_rewrites_only_when_needed() {
    let p = pkg("chef", "redis", "1", "2");
    let target = p.run_target(true);
    assert_eq!(target, "/opt/bldr/srvc/redis/hooks/run");
    assert_eq!(p.run_target(false), "/opt/bldr/pkgs/chef/redis/1/2/run");
    assert_eq!(Package::copy_run_action(&target, None), RunLinkAction::Create);
    assert_eq!(Package::copy_run_action(&target, Some("/elsewhere")), RunLinkAction::Replace);
    assert_eq!(Package::copy_run_action(&target, Some(&target)), RunLinkAction::Keep);
}

#[test]
fn signals_and_supervisor() {
    assert_eq!(Signal::ForceShutdown.arg(), "force-shutdown");
    assert_eq!(Signal::One.arg(), "1");
    assert_eq!(Signal::TryRestart.arg(), "try-restart");
    assert_eq!(Package::signal_result(Signal::Status, true, "up".to_string()), Ok("up".to_string()));
    assert_eq!(Package::signal_result(Signal::ForceShutdown, false, "x".to_string()), Ok("x".to_string()));
    assert_eq!(Package::signal_result(Signal::Stop, false, "x".to_string()),
               Err(BldrError::SupervisorSignalFailed));
    let p = pkg("a", "b", "1", "2");
    assert!(p.supervisor_running(&Ok(String::new())));
    assert!(!p.supervisor_running(&Err(BldrError::SupervisorSignalFailed)));
    assert_eq!(p.reconfigure_fallback(Ok(String::new())), Ok(()));
    assert_eq!(p.reconfigure_fallback(Err(BldrError::SupervisorSignalFailed)),
               Err(BldrError::HookFailed(HookType::Reconfigure, -1,
                   "failed to run default hook: Failed to send a signal to the process supervisor"
                       .to_string())));
}

#[test]
fn updater_promotes_newer_release() {
    let current = pkg("acme", "web", "1.2.3", "20230101000000");
    let shared = Arc::new(RwLock::new(pkg("acme", "web", "1.2.3", "20230101000000")));
    let mut state = UpdaterState::new("http://repo".to_string(), shared);
    assert_eq!(state.status, UpdaterStatus::Stopped);
    assert_eq!(PackageUpdater::init(&mut state), Some(TIMEOUT_MS));
    assert_eq!(state.status, UpdaterStatus::Running);
    let latest = pkg("acme", "web", "1.3.0", "20230201000000");
    let fetch = match PackageUpdater::on_latest(&current, Some(latest)) {
        TickAction::Fetch(p) => p,
        TickAction::Reschedule => panic!("newer package not fetched"),
    };
    assert_eq!(fetch.version, "1.3.0");
    let step = PackageUpdater::on_installed(&mut state, fetch, true);
    assert_eq!(state.status, UpdaterStatus::Stopped);
    assert_eq!(step.timer, None);
    match step.message {
        Some(UpdaterMessage::Update(p)) => assert_eq!(p, pkg("acme", "web", "1.3.0", "20230201000000")),
        other => panic!("{:?}", other),
    }
    assert_eq!(PackageUpdater::handle_cast(&UpdaterMessage::Stop, &state), None);
    assert_eq!(PackageUpdater::handle_cast(&UpdaterMessage::Run, &state), Some(TIMEOUT_MS));
}

#[test]
fn updater_keeps_polling_without_newer() {
    let current = pkg("acme", "web", "1.2.3", "2");
    let same = pkg("acme", "web", "1.2.3", "2");
    assert!(matches!(PackageUpdater::on_latest(&current, Some(same)), TickAction::Reschedule));
    assert!(matches!(PackageUpdater::on_latest(&current, None), TickAction::Reschedule));
    let mut state = UpdaterState::new(String::new(), Arc::new(RwLock::new(pkg("a", "b", "1", "2"))));
    PackageUpdater::init(&mut state);
    let step = PackageUpdater::on_installed(&mut state, pkg("acme", "web", "1.3.0", "3"), false);
    assert_eq!(state.status, UpdaterStatus::Running);
    assert_eq!(step.timer, Some(TIMEOUT_MS));
    assert!(step.message.is_none());
    assert_eq!(PackageUpdater::handle_cast(&UpdaterMessage::Okay, &state), Some(TIMEOUT_MS));
}

#[test]
fn single_node_topology_has_a_leader() {
    assert_eq!(Package::topology_leader(), Ok(()));
}

#[test]
fn errors_describe_themselves() {
    assert_eq!(BldrError::HookFailed(HookType::Init, -12, "boom".to_string()).describe(),
               "Hook failed to run: init, code -12, output: boom");
    assert_eq!(BldrError::HealthCheck(4, "x".to_string()).describe(),
               "Health check failed: code 4, output: x");
    assert_eq!(BldrError::HealthCheck(i32::MIN, String::new()).describe(),
               "Health check failed: code -2147483648, output: ");
    assert_eq!(BldrError::PackageNotFound("chef".to_string(), "runit".to_string(), None).describe(),
               "Cannot find package: chef/runit");
    assert_eq!(BldrError::MetaFileNotFound(MetaFile::Deps).describe(),
               "Failed to read an archive metafile: DEPS");
    assert_eq!(BldrError::BadVersion.describe(), "Bad version number");
}

#[test]
fn reconfigure_fallback_keeps_signal_error() {
    let p = pkg("a", "b", "1", "2");
    let e = BldrError::PackageNotFound("chef".to_string(), "runit".to_string(), Some("1.0".to_string()));
    assert_eq!(p.reconfigure_fallback(Err(e)),
               Err(BldrError::HookFailed(HookType::Reconfigure, -1,
                   "failed to run default hook: Cannot find package: chef/runit/1.0".to_string())));
}

#[test]
fn trim_drops_unicode_whitespace() {
    let p = Package::from_ident("\u{3000}acme\t/web\u{a0}/1.2.3/\u{2028}7").unwrap();
    assert_eq!(p, pkg("acme", "web", "1.2.3", "7"));
}
