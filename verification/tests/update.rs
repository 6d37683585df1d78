use simx::server;
use simx::update::{
    build_manifest, delete_file, list_files, note_lines, parse_version_from_filename, safe_name,
    upload, version_cmp, FileInfo, NoteSet, Refusal,
};
use std::cmp::Ordering;

#[test]
fn parse_version_normal() {
    assert_eq!(
        parse_version_from_filename("SimuXchange_1.1.0_x64-setup.exe"),
        Some("1.1.0".to_string())
    );
    assert_eq!(
        parse_version_from_filename("SimuXchange_1.10.0_x64-setup.exe"),
        Some("1.10.0".to_string())
    );
}

#[test]
fn parse_version_bad_name() {
    assert_eq!(parse_version_from_filename("readme.txt"), None);
    assert_eq!(parse_version_from_filename("SimuXchange_x64-setup.exe"), None);
    assert_eq!(parse_version_from_filename("SimuXchange_abc_x64-setup.exe"), None);
    assert_eq!(parse_version_from_filename("SimuXchange_1.1_x64-setup.exe"), None);
    assert_eq!(parse_version_from_filename("MyApp_1.1.0_x64-setup.exe"), None);
}

#[test]
fn version_compare() {
    assert!(version_cmp("1.10.0", "1.9.0") > 0);
    assert!(version_cmp("1.1.0", "1.1.0") == 0);
    assert!(version_cmp("1.1.0", "1.1.1") < 0);
    assert!(version_cmp("1.1.0", "1.2.0") < 0);
    assert!(version_cmp("2.0.0", "1.99.99") > 0);
}

#[test]
fn safe_name_strips_paths() {
    assert_eq!(
        safe_name("SimuXchange_1.1.0_x64-setup.exe").as_deref(),
        Some("SimuXchange_1.1.0_x64-setup.exe")
    );
    assert_eq!(safe_name("..\\..\\evil.exe").as_deref(), Some("evil.exe"));
    assert_eq!(safe_name("C:/x/y/a.exe").as_deref(), Some("a.exe"));
    assert_eq!(safe_name(""), None);
}

fn names(list: &[&str]) -> Vec<String> {
    list.iter().map(|s| s.to_string()).collect()
}

#[test]
fn build_manifest_picks_newest_and_merges_notes() {
    let files = names(&[
        "SimuXchange_1.0.0_x64-setup.exe",
        "SimuXchange_1.2.0_x64-setup.exe",
        "simx-server",
        "notes.json",
    ]);
    let sets = vec![
        NoteSet { version: "1.0.0".into(), notes: names(&["\"旧版说明\""]) },
        NoteSet {
            version: "1.2.0".into(),
            notes: names(&["\"新版说明A\"", "\"新版说明B\""]),
        },
    ];
    let manifest = build_manifest(&files, true, &sets).unwrap();
    assert_eq!(manifest.version, "1.2.0");
    assert_eq!(manifest.win_installer, "SimuXchange_1.2.0_x64-setup.exe");
    assert_eq!(manifest.linux_server.as_deref(), Some("simx-server"));
    assert_eq!(manifest.notes.len(), 2);
}

#[test]
fn build_manifest_empty_dir() {
    assert!(build_manifest(&names(&["readme.txt"]), false, &vec![]).is_none());
}

#[test]
fn the_first_of_equal_installers_counts() {
    let files = names(&[
        "SimuXchange_1.2.0_x64-setup.exe",
        "SimuXchange_1.02.0_x64-setup.exe",
        "SimuXchange_1.1.9_x64-setup.exe",
    ]);
    let manifest = build_manifest(&files, false, &vec![]).unwrap();
    assert_eq!(manifest.win_installer, "SimuXchange_1.2.0_x64-setup.exe");
    assert!(manifest.notes.is_empty());
    assert!(manifest.linux_server.is_none());
}

#[test]
fn longer_versions_are_newer() {
    assert_eq!(version_cmp("1.2", "1.2.0"), -1);
    assert_eq!(version_cmp("1.2.0", "1.2"), 1);
    assert_eq!(version_cmp("x.1", "0.1"), 0);
    assert_eq!(version_cmp("18446744073709551615", "1"), 1);
    assert_eq!(version_cmp("18446744073709551616", "1"), -1);
    assert_eq!(server::version_cmp("1.2", "1.2.0"), Ordering::Equal);
    assert_eq!(server::version_cmp("1.10", "1.9.9"), Ordering::Greater);
    assert_eq!(server::version_cmp("4294967296", "1"), Ordering::Less);
}

#[test]
fn names_that_lead_elsewhere_are_refused() {
    assert_eq!(safe_name("a/.."), None);
    assert_eq!(safe_name("/"), None);
    assert_eq!(safe_name("."), None);
    assert_eq!(safe_name("a/"), Some("a".to_string()));
    assert_eq!(safe_name("a\\."), Some("a".to_string()));
}

#[test]
fn uploads_are_checked() {
    assert!(matches!(upload(None, ""), Err(Refusal::NoFile)));
    assert!(matches!(upload(Some(".."), ""), Err(Refusal::BadUploadName)));
    let p = upload(Some("x/SimuXchange_1.3.0_x64-setup.exe"), " 新增甲 \r\n\n修复乙\n").unwrap();
    assert_eq!(p.file_name, "SimuXchange_1.3.0_x64-setup.exe");
    assert_eq!(p.version.as_deref(), Some("1.3.0"));
    assert_eq!(p.notes, names(&["新增甲", "修复乙"]));
    assert!(p.keeps_notes());
    let q = upload(Some("readme.txt"), "说明").unwrap();
    assert_eq!(q.version, None);
    assert!(!q.keeps_notes());
    assert_eq!(Refusal::NoFile.status(), 400);
    assert_eq!(Refusal::NoFile.message(), "缺少安装包文件（字段名 file）");
    assert!(note_lines("\n \n").is_empty());
}

#[test]
fn the_servers_own_files_are_kept() {
    assert_eq!(delete_file("a.exe").unwrap(), "a.exe");
    let e = delete_file("x/notes.json").unwrap_err();
    assert_eq!((e.status(), e.message()), (403, "系统文件不允许删除"));
    assert_eq!(delete_file("version.json").unwrap_err(), Refusal::SystemFile);
    assert_eq!(delete_file("").unwrap_err().status(), 400);
    assert_eq!(Refusal::NotFound.status(), 404);
}

#[test]
fn files_are_listed_newest_first() {
    let file = |name: &str, modified: u64| FileInfo { name: name.into(), size: 1, modified };
    let list = list_files(vec![file("a", 5), file("b", 9), file("c", 5), file("d", 7)]);
    let order: Vec<&str> = list.iter().map(|f| f.name.as_str()).collect();
    assert_eq!(order, vec!["b", "d", "a", "c"]);
}

#[test]
fn the_server_tells_of_updates() {
    assert_eq!(
        server::update_notice("1.2.0", "1.1.0"),
        "  发现新版本 1.2.0（当前 1.1.0），请到更新服务器下载部署"
    );
    assert_eq!(server::update_notice("1.1.0", "1.1.0"), "  已是最新版本 1.1.0");
    assert_eq!(
        server::update_notice("", "1.1.0"),
        "  检查更新：服务器上的 version.json 格式无效"
    );
    assert_eq!(server::manifest_url("http://h:1//"), "http://h:1/version.json");
    assert_eq!(server::download_name("http://h/files/a.exe"), "a.exe");
    assert_eq!(server::download_name("http://h/files/"), "simuxchange-setup.exe");
}
