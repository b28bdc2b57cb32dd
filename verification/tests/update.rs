use lindiction::update::{
    basename_from_url, build_update_info, build_update_info_for, check, decide_update,
    detect_install_method, detect_install_method_for, download_args, download_dir, install,
    pick_suffix, release_query_args, staging_path, user_agent, GithubAsset, GithubRelease,
    InstallMethod, InstallStep, UpdateError, UpdateInfo,
};
use lindiction::version::Version;

const HOME: Option<&str> = Some("/home/alice");

fn text(v: &serde_json::Value, key: &str) -> String {
    v[key].as_str().unwrap().to_string()
}

fn release(json: &str) -> GithubRelease {
    let v: serde_json::Value = serde_json::from_str(json).unwrap();
    GithubRelease {
        tag_name: text(&v, "tag_name"),
        html_url: text(&v, "html_url"),
        assets: v["assets"]
            .as_array()
            .unwrap()
            .iter()
            .map(|a| GithubAsset {
                name: text(a, "name"),
                browser_download_url: text(a, "browser_download_url"),
            })
            .collect(),
    }
}

#[test]
fn detect_tarball_from_user_paths() {
    let Some(home) = dirs::home_dir() else {
        return;
    };
    for sub in [".cargo/bin", ".local/bin", "bin"] {
        let p = home.join(sub).join("lindiction");
        assert_eq!(
            detect_install_method_for(p.to_str().unwrap(), home.to_str()),
            InstallMethod::Tarball,
            "expected Tarball for {}",
            p.display()
        );
    }
}

#[test]
fn detect_deb_from_system_paths() {
    assert_eq!(
        detect_install_method_for("/usr/bin/lindiction", HOME),
        InstallMethod::Deb
    );
    assert_eq!(
        detect_install_method_for("/usr/local/bin/lindiction", HOME),
        InstallMethod::Deb
    );
    assert_eq!(
        detect_install_method_for("/opt/lindiction/lindiction", HOME),
        InstallMethod::Deb
    );
}

#[test]
fn detect_devbuild_from_target_release() {
    assert_eq!(
        detect_install_method_for("/home/alice/proj/target/release/lindiction", HOME),
        InstallMethod::DevBuild
    );
    assert_eq!(
        detect_install_method_for("/tmp/random/lindiction", HOME),
        InstallMethod::DevBuild
    );
}

#[test]
fn parses_github_release_json_with_all_four_assets() {
    let json = r#"{
        "tag_name": "v0.6.0",
        "html_url": "https://github.com/cortexuvula/lindiction/releases/tag/v0.6.0",
        "assets": [
            {"name": "lindiction-v0.6.0-x86_64-linux.tar.gz",        "browser_download_url": "https://example.test/tarball"},
            {"name": "lindiction-v0.6.0-x86_64-linux.tar.gz.sha256", "browser_download_url": "https://example.test/tarball.sha256"},
            {"name": "lindiction-v0.6.0-amd64.deb",                  "browser_download_url": "https://example.test/deb"},
            {"name": "lindiction-v0.6.0-amd64.deb.sha256",           "browser_download_url": "https://example.test/deb.sha256"}
        ]
    }"#;
    let parsed = release(json);
    let info = build_update_info(Version::parse("0.5.0").unwrap(), parsed)
        .unwrap()
        .expect("0.5.0 should see 0.6.0 as newer");
    assert_eq!(info.latest, Version::parse("0.6.0").unwrap());
    assert_eq!(info.tag_name, "v0.6.0");
    assert_eq!(info.deb_url, "https://example.test/deb");
    assert_eq!(
        info.deb_sha256_url.as_deref(),
        Some("https://example.test/deb.sha256")
    );
    assert_eq!(info.tarball_url, "https://example.test/tarball");
    assert_eq!(
        info.tarball_sha256_url,
        "https://example.test/tarball.sha256"
    );
}

#[test]
fn parses_legacy_release_without_deb_sha256() {
    let json = r#"{
        "tag_name": "v0.5.0",
        "html_url": "https://github.com/x/y/releases/tag/v0.5.0",
        "assets": [
            {"name": "lindiction-v0.5.0-x86_64-linux.tar.gz",        "browser_download_url": "https://example.test/tarball"},
            {"name": "lindiction-v0.5.0-x86_64-linux.tar.gz.sha256", "browser_download_url": "https://example.test/tarball.sha256"},
            {"name": "lindiction-v0.5.0-amd64.deb",                  "browser_download_url": "https://example.test/deb"}
        ]
    }"#;
    let parsed = release(json);
    let info = build_update_info(Version::parse("0.4.0").unwrap(), parsed)
        .unwrap()
        .expect("0.4.0 should see 0.5.0 as newer");
    assert_eq!(info.deb_sha256_url, None);
}

#[test]
fn same_version_returns_no_update() {
    let json = r#"{
        "tag_name": "v0.5.0",
        "html_url": "https://x",
        "assets": [
            {"name": "lindiction-v0.5.0-x86_64-linux.tar.gz",        "browser_download_url": "u"},
            {"name": "lindiction-v0.5.0-x86_64-linux.tar.gz.sha256", "browser_download_url": "u"},
            {"name": "lindiction-v0.5.0-amd64.deb",                  "browser_download_url": "u"}
        ]
    }"#;
    let parsed = release(json);
    let res = build_update_info(Version::parse("0.5.0").unwrap(), parsed).unwrap();
    assert!(res.is_none());
}

#[test]
fn newer_local_version_returns_no_update() {
    let json = r#"{
        "tag_name": "v0.5.0",
        "html_url": "https://x",
        "assets": [
            {"name": "lindiction-v0.5.0-x86_64-linux.tar.gz",        "browser_download_url": "u"},
            {"name": "lindiction-v0.5.0-x86_64-linux.tar.gz.sha256", "browser_download_url": "u"},
            {"name": "lindiction-v0.5.0-amd64.deb",                  "browser_download_url": "u"}
        ]
    }"#;
    let parsed = release(json);
    let res = build_update_info(Version::parse("0.6.0").unwrap(), parsed).unwrap();
    assert!(res.is_none());
}

#[test]
fn missing_primary_asset_errors() {
    let json = r#"{
        "tag_name": "v0.9.9",
        "html_url": "https://x",
        "assets": [
            {"name": "lindiction-v0.9.9-x86_64-linux.tar.gz",        "browser_download_url": "u"},
            {"name": "lindiction-v0.9.9-x86_64-linux.tar.gz.sha256", "browser_download_url": "u"}
        ]
    }"#;
    let parsed = release(json);
    let err = build_update_info(Version::parse("0.1.0").unwrap(), parsed).unwrap_err();
    assert!(
        err.message().contains(".deb"),
        "error should mention the missing asset type"
    );
}

#[test]
fn tag_name_v_prefix_is_stripped() {
    let json = r#"{
        "tag_name": "v1.2.3",
        "html_url": "https://x",
        "assets": [
            {"name": "lindiction-v1.2.3-x86_64-linux.tar.gz",        "browser_download_url": "u"},
            {"name": "lindiction-v1.2.3-x86_64-linux.tar.gz.sha256", "browser_download_url": "u"},
            {"name": "lindiction-v1.2.3-amd64.deb",                  "browser_download_url": "u"}
        ]
    }"#;
    let parsed = release(json);
    let info = build_update_info(Version::parse("0.5.0").unwrap(), parsed)
        .unwrap()
        .unwrap();
    assert_eq!(info.latest, Version::parse("1.2.3").unwrap());
    assert_eq!(info.tag_name, "v1.2.3");
}

#[test]
fn unparseable_tag_errors_gracefully() {
    let json = r#"{
        "tag_name": "not-a-version",
        "html_url": "https://x",
        "assets": []
    }"#;
    let parsed = release(json);
    let err = build_update_info(Version::parse("0.5.0").unwrap(), parsed).unwrap_err();
    assert!(err.message().contains("not-a-version"));
}

#[test]
fn pick_suffix_cpu_backend_returns_unchanged() {
    assert_eq!(pick_suffix("-amd64.deb", "cpu"), "-amd64.deb");
    assert_eq!(
        pick_suffix("-x86_64-linux.tar.gz", "cpu"),
        "-x86_64-linux.tar.gz"
    );
}

#[test]
fn pick_suffix_inserts_backend_before_simple_extension() {
    assert_eq!(pick_suffix("-amd64.deb", "cuda"), "-amd64-cuda.deb");
    assert_eq!(pick_suffix("-amd64.deb", "vulkan"), "-amd64-vulkan.deb");
    assert_eq!(pick_suffix("-amd64.deb", "hipblas"), "-amd64-hipblas.deb");
}

#[test]
fn pick_suffix_inserts_backend_before_compound_extension() {
    assert_eq!(
        pick_suffix("-x86_64-linux.tar.gz", "cuda"),
        "-x86_64-linux-cuda.tar.gz"
    );
    assert_eq!(
        pick_suffix("-x86_64-linux.tar.gz", "vulkan"),
        "-x86_64-linux-vulkan.tar.gz"
    );
}

#[test]
fn pick_suffix_unknown_backend_passes_through() {
    assert_eq!(pick_suffix("-amd64.deb", "future"), "-amd64-future.deb");
}

#[test]
fn basename_from_url_extracts_cpu_filename() {
    let url = "https://github.com/cortexuvula/lindiction/releases/download/v0.9.0/lindiction-v0.9.0-amd64.deb";
    assert_eq!(
        basename_from_url(url).unwrap(),
        "lindiction-v0.9.0-amd64.deb"
    );
}

#[test]
fn basename_from_url_extracts_cuda_filename() {
    let url = "https://github.com/cortexuvula/lindiction/releases/download/v0.9.0/lindiction-v0.9.0-amd64-cuda.deb";
    assert_eq!(
        basename_from_url(url).unwrap(),
        "lindiction-v0.9.0-amd64-cuda.deb"
    );
}

#[test]
fn basename_from_url_extracts_tarball_compound_extension() {
    let url = "https://example.test/path/lindiction-v0.9.0-x86_64-linux-vulkan.tar.gz";
    assert_eq!(
        basename_from_url(url).unwrap(),
        "lindiction-v0.9.0-x86_64-linux-vulkan.tar.gz"
    );
}

#[test]
fn basename_from_url_strips_query_string() {
    let url = "https://example.test/lindiction-v0.9.0-amd64-cuda.deb?token=abc&t=123";
    assert_eq!(
        basename_from_url(url).unwrap(),
        "lindiction-v0.9.0-amd64-cuda.deb"
    );
}

#[test]
fn basename_from_url_rejects_trailing_slash() {
    assert!(basename_from_url("https://example.test/").is_err());
}

#[test]
fn build_update_info_finds_cuda_assets_when_present() {
    let json = r#"{
        "tag_name": "v0.8.1",
        "html_url": "https://x",
        "assets": [
            {"name": "lindiction-v0.8.1-x86_64-linux.tar.gz",            "browser_download_url": "u_cpu_tar"},
            {"name": "lindiction-v0.8.1-x86_64-linux.tar.gz.sha256",     "browser_download_url": "u_cpu_tar_sha"},
            {"name": "lindiction-v0.8.1-amd64.deb",                       "browser_download_url": "u_cpu_deb"},
            {"name": "lindiction-v0.8.1-amd64.deb.sha256",                "browser_download_url": "u_cpu_deb_sha"},
            {"name": "lindiction-v0.8.1-x86_64-linux-cuda.tar.gz",        "browser_download_url": "u_cuda_tar"},
            {"name": "lindiction-v0.8.1-x86_64-linux-cuda.tar.gz.sha256", "browser_download_url": "u_cuda_tar_sha"},
            {"name": "lindiction-v0.8.1-amd64-cuda.deb",                  "browser_download_url": "u_cuda_deb"},
            {"name": "lindiction-v0.8.1-amd64-cuda.deb.sha256",           "browser_download_url": "u_cuda_deb_sha"}
        ]
    }"#;
    let parsed = release(json);
    let info = build_update_info(Version::parse("0.7.0").unwrap(), parsed)
        .unwrap()
        .expect("0.7.0 should see 0.8.1 as newer");
    assert_eq!(info.deb_url, "u_cpu_deb");
    assert_eq!(info.tarball_url, "u_cpu_tar");
    assert_eq!(info.deb_sha256_url.as_deref(), Some("u_cpu_deb_sha"));
    assert_eq!(info.tarball_sha256_url, "u_cpu_tar_sha");
}

#[test]
fn build_update_info_legacy_release_still_works_for_cpu() {
    let json = r#"{
        "tag_name": "v0.8.1",
        "html_url": "https://x",
        "assets": [
            {"name": "lindiction-v0.8.1-x86_64-linux.tar.gz",        "browser_download_url": "u_tar"},
            {"name": "lindiction-v0.8.1-x86_64-linux.tar.gz.sha256", "browser_download_url": "u_tar_sha"},
            {"name": "lindiction-v0.8.1-amd64.deb",                  "browser_download_url": "u_deb"},
            {"name": "lindiction-v0.8.1-amd64.deb.sha256",           "browser_download_url": "u_deb_sha"}
        ]
    }"#;
    let parsed = release(json);
    let info = build_update_info(Version::parse("0.7.0").unwrap(), parsed)
        .unwrap()
        .expect("0.7.0 should see 0.8.1 as newer");
    assert_eq!(info.deb_url, "u_deb");
    assert_eq!(info.tarball_url, "u_tar");
}


#[test]
fn the_install_method_needs_a_whole_directory_name() {
    let method = |exe: &str| detect_install_method_for(exe, HOME);
    assert_eq!(method("/home/alice/bin/lindiction"), InstallMethod::Tarball);
    assert_eq!(method("/home/alice/binary/lindiction"), InstallMethod::DevBuild);
    assert_eq!(method("/usrlocal/lindiction"), InstallMethod::DevBuild);
    assert_eq!(
        detect_install_method_for("/home/alice/bin/lindiction", None),
        InstallMethod::DevBuild
    );
    assert_eq!(detect_install_method(None, HOME), InstallMethod::DevBuild);
    assert_eq!(
        detect_install_method(Some("/opt/x"), None),
        InstallMethod::Deb
    );
}

fn four_assets(backend: &str) -> GithubRelease {
    let asset = |name: String| GithubAsset {
        browser_download_url: format!("https://x/{name}"),
        name,
    };
    let tail = if backend == "cpu" {
        String::new()
    } else {
        format!("-{backend}")
    };
    GithubRelease {
        tag_name: "v1.0.0".to_string(),
        html_url: "https://x".to_string(),
        assets: vec![
            asset(format!("l-v1.0.0-amd64{tail}.deb.sha256")),
            asset(format!("l-v1.0.0-amd64{tail}.deb")),
            asset(format!("l-v1.0.0-x86_64-linux{tail}.tar.gz.sha256")),
            asset(format!("l-v1.0.0-x86_64-linux{tail}.tar.gz")),
        ],
    }
}

fn version(text: &str) -> Version {
    Version::parse(text).unwrap()
}

#[test]
fn each_backend_finds_its_own_assets_only() {
    for backend in ["cpu", "cuda", "vulkan", "hipblas"] {
        let info = build_update_info_for(version("0.9.0"), four_assets(backend), backend)
            .unwrap()
            .unwrap();
        assert!(info.deb_url.ends_with(&pick_suffix("-amd64.deb", backend)));
        for other in ["cpu", "cuda", "vulkan", "hipblas"] {
            if other != backend {
                let err = build_update_info_for(version("0.9.0"), four_assets(backend), other)
                    .unwrap_err();
                assert!(matches!(err, UpdateError::MissingDeb { .. }));
            }
        }
    }
}

#[test]
fn missing_assets_are_named() {
    let without = |needle: &str| {
        let mut r = four_assets("cuda");
        r.assets.retain(|a| !a.name.ends_with(needle));
        build_update_info_for(version("0.9.0"), r, "cuda")
    };
    assert_eq!(
        without("-cuda.deb").unwrap_err().message(),
        "release v1.0.0 is missing a .deb asset for backend `cuda` \
         (looked for suffix `-amd64-cuda.deb`)"
    );
    assert_eq!(
        without("-cuda.tar.gz").unwrap_err().message(),
        "release v1.0.0 is missing a tarball asset for backend `cuda` \
         (looked for suffix `-x86_64-linux-cuda.tar.gz`)"
    );
    assert_eq!(
        without(".tar.gz.sha256").unwrap_err().message(),
        "release v1.0.0 is missing a tarball SHA256 sidecar for backend `cuda`"
    );
    let info = without(".deb.sha256").unwrap().unwrap();
    assert_eq!(info.deb_sha256_url, None);
}

#[test]
fn versions_are_compared_as_versions() {
    let offered = |current: &str, tag: &str| {
        let mut r = four_assets("cpu");
        r.tag_name = tag.to_string();
        check(current, r).unwrap().is_some()
    };
    assert!(offered("0.9.0", "v0.10.0"));
    assert!(!offered("0.10.0", "v0.9.9"));
    assert!(offered("1.0.0-rc.1", "v1.0.0"));
    assert!(!offered("1.0.0", "v1.0.0-rc.1"));
    assert!(offered("1.0.0-rc.2", "1.0.0-rc.10"));
    assert!(offered("1.0.0", "vv1.0.1"));
    assert!(!offered("1.0.0", "v1.0.0"));
}

#[test]
fn bad_versions_are_reported() {
    let err = check("nonsense", four_assets("cpu")).unwrap_err();
    assert!(matches!(err, UpdateError::BadCurrent { .. }));
    assert!(err.message().starts_with("parsing current package version: "));
    let mut r = four_assets("cpu");
    r.tag_name = "v01.0.0".to_string();
    let err = check("0.1.0", r).unwrap_err();
    assert_eq!(
        err.message(),
        "parsing latest tag `v01.0.0`: invalid leading zero in major version number"
    );
}

#[test]
fn an_outcome_of_the_comparison_settles_the_answer() {
    let none = decide_update(version("1.0.0"), version("1.0.0"), true, four_assets("cpu"), "cpu");
    assert!(none.unwrap().is_none());
    let some = decide_update(version("1.0.0"), version("1.0.1"), false, four_assets("cpu"), "cpu")
        .unwrap()
        .unwrap();
    assert_eq!(some.current, version("1.0.0"));
    assert_eq!(some.latest, version("1.0.1"));
    assert_eq!(some.clone().tag_name, "v1.0.0");
}

#[test]
fn versions_read_back_as_they_are_written() {
    for text in ["0.0.0", "1.2.3", "1.2.3-rc.1", "1.2.3+build.5", "1.2.3-a.b+c"] {
        assert_eq!(version(text).to_text(), text);
        assert_eq!(version(text).clone(), version(text));
    }
    assert!(Version::parse("1.2").is_err());
    assert_eq!(
        Version::parse("").unwrap_err(),
        "empty string, expected a semver version"
    );
    assert!(version("1.2.3").at_most(&version("1.2.3")));
    assert!(version("1.2.3").at_most(&version("1.10.0")));
    assert!(!version("2.0.0").at_most(&version("1.10.0")));
}

#[test]
fn suffixes_are_split_before_the_extension() {
    assert_eq!(pick_suffix("-amd64", "cuda"), "-amd64");
    assert_eq!(
        pick_suffix("-x86_64-linux.tar.zst", "cuda"),
        "-x86_64-linux-cuda.tar.zst"
    );
    assert_eq!(pick_suffix("-linux.tar.zst", "vulkan"), "-linux-vulkan.tar.zst");
    assert_eq!(pick_suffix("-star.gz", "cuda"), "-star-cuda.gz");
    assert_eq!(pick_suffix("-linux.tar", "cuda"), "-linux-cuda.tar");
    assert_eq!(pick_suffix(".tar.gz", "cuda"), "-cuda.tar.gz");
}

#[test]
fn urls_without_a_name_are_reported() {
    assert_eq!(basename_from_url("https://x/a#frag/ment").unwrap(), "a");
    assert_eq!(basename_from_url("plain").unwrap(), "plain");
    assert_eq!(
        basename_from_url("https://x/?q=/a").unwrap_err().message(),
        "url has no filename component: https://x/?q=/a"
    );
}

fn info() -> UpdateInfo {
    build_update_info(version("0.9.0"), four_assets("cpu"))
        .unwrap()
        .unwrap()
}

/// A step in words.
fn told(step: &InstallStep) -> String {
    match step {
        InstallStep::Fetch { url, dest } => format!("fetch {url} to {dest}"),
        InstallStep::Verify { sums } => format!("verify {sums}"),
        InstallStep::Escalate { args } => format!("pkexec {}", args.join(" ")),
        InstallStep::Unpack { args } => format!("tar {}", args.join(" ")),
        InstallStep::Replace { binary } => format!("replace by {binary}"),
    }
}

fn told_all(steps: Vec<InstallStep>) -> Vec<String> {
    steps.iter().map(told).collect()
}

#[test]
fn deb_installs_keep_the_asset_name() {
    assert_eq!(
        told_all(install(&info(), InstallMethod::Deb, "/tmp/d").unwrap()),
        vec![
            "fetch https://x/l-v1.0.0-amd64.deb to /tmp/d/l-v1.0.0-amd64.deb",
            "fetch https://x/l-v1.0.0-amd64.deb.sha256 to /tmp/d/l-v1.0.0-amd64.deb.sha256",
            "verify l-v1.0.0-amd64.deb.sha256",
            "pkexec apt install -y /tmp/d/l-v1.0.0-amd64.deb",
        ]
    );
    let mut old = info();
    old.deb_sha256_url = None;
    assert_eq!(
        told_all(install(&old, InstallMethod::Deb, "/tmp/d").unwrap()),
        vec![
            "fetch https://x/l-v1.0.0-amd64.deb to /tmp/d/l-v1.0.0-amd64.deb",
            "pkexec apt install -y /tmp/d/l-v1.0.0-amd64.deb",
        ]
    );
}

#[test]
fn tarball_installs_keep_the_asset_name() {
    let name = "l-v1.0.0-x86_64-linux.tar.gz";
    assert_eq!(
        told_all(install(&info(), InstallMethod::Tarball, "/tmp/d/").unwrap()),
        vec![
            format!("fetch https://x/{name} to /tmp/d/{name}"),
            format!("fetch https://x/{name}.sha256 to /tmp/d/{name}.sha256"),
            format!("verify {name}.sha256"),
            format!("tar -xzf /tmp/d/{name} -C /tmp/d/"),
            "replace by /tmp/d/lindiction".to_string(),
        ]
    );
}

#[test]
fn failed_steps_say_why() {
    let deb = install(&info(), InstallMethod::Deb, "/t").unwrap();
    let tarball = install(&info(), InstallMethod::Tarball, "/t").unwrap();
    let why = |step: &InstallStep| step.finish(false, "exit status: 1").unwrap_err().message();
    assert!(deb.iter().all(|step| step.finish(true, "exit status: 0").is_ok()));
    assert_eq!(
        why(&deb[0]),
        "curl failed downloading https://x/l-v1.0.0-amd64.deb: exit exit status: 1"
    );
    assert_eq!(
        why(&deb[2]),
        "SHA256 mismatch on l-v1.0.0-amd64.deb.sha256; refusing to install"
    );
    assert_eq!(
        why(&deb[3]),
        "pkexec apt install exited with exit status: 1 — dialog denied, \
         apt lock held, or dependency conflict"
    );
    assert_eq!(why(&tarball[3]), "tar exited with exit status: 1");
    assert_eq!(
        why(&tarball[4]),
        "tarball did not contain a top-level `lindiction` binary"
    );
}

#[test]
fn refused_installs_say_why() {
    let err = install(&info(), InstallMethod::DevBuild, "/tmp/d").unwrap_err();
    assert_eq!(
        err.message(),
        "running a development build; auto-update is refused. \
         Rebuild from git, or install from the .deb on the release page."
    );
    let mut nameless = info();
    nameless.deb_url = "https://x/".to_string();
    nameless.tarball_url = "https://y/".to_string();
    assert_eq!(
        install(&nameless, InstallMethod::Deb, "/tmp/d")
            .unwrap_err()
            .message(),
        "could not derive .deb filename from deb_url: url has no filename component: https://x/"
    );
    assert_eq!(
        install(&nameless, InstallMethod::Tarball, "/tmp/d")
            .unwrap_err()
            .message(),
        "could not derive tarball filename from tarball_url: \
         url has no filename component: https://y/"
    );
}

#[test]
fn commands_carry_the_user_agent() {
    assert_eq!(user_agent("0.9.0"), "lindiction/0.9.0");
    assert_eq!(
        release_query_args("0.9.0"),
        vec![
            "--silent",
            "--show-error",
            "--fail",
            "--location",
            "--max-time",
            "15",
            "-H",
            "User-Agent: lindiction/0.9.0",
            "-H",
            "Accept: application/vnd.github+json",
            "https://api.github.com/repos/cortexuvula/lindiction/releases/latest",
        ]
    );
    assert_eq!(
        download_args("0.9.0", "https://x/a", "/tmp/a"),
        vec![
            "-L",
            "--fail",
            "--silent",
            "--show-error",
            "--max-time",
            "300",
            "-H",
            "User-Agent: lindiction/0.9.0",
            "-o",
            "/tmp/a",
            "https://x/a",
        ]
    );
    assert_eq!(download_dir("/tmp", 42), "/tmp/lindiction-update-42");
    assert_eq!(
        staging_path("/home/a/bin", 7),
        "/home/a/bin/.lindiction-update-7.tmp"
    );
}

#[test]
fn no_asset_name_fits_two_backends() {
    let backends = ["cpu", "cuda", "vulkan", "hipblas"];
    for one in backends {
        for other in backends {
            for base in ["-amd64.deb", "-x86_64-linux.tar.gz"] {
                let name = format!("lindiction-v1.0.0{}", pick_suffix(base, one));
                assert_eq!(name.ends_with(&pick_suffix(base, other)), one == other);
            }
        }
    }
}
