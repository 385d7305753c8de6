use yaobow_shared::pal5_script::ScriptIndex;

#[test]
fn parse_sections_and_paths() {
    let ini = "[.]\n1=NewGame\n2=prelogue\n\n[mainline]\n7001=m001_1\n9601=macro\n";
    let idx = ScriptIndex::parse(ini);
    assert_eq!(idx.entry(1).unwrap().vfs_path, "/script/NewGame.lua");
    assert_eq!(idx.entry(1).unwrap().name, "NewGame");
    assert_eq!(
        idx.entry(7001).unwrap().vfs_path,
        "/script/mainline/m001_1.lua"
    );
    assert_eq!(idx.entry(9601).unwrap().name, "macro");
}

#[test]
fn comments_blank_lines_and_bad_entries_are_skipped() {
    let ini = "; header\r\n// note\r\n[ sub ]\r\n10 = first ; trailing\r\nx=bad\r\n11=\r\n12 no equals\r\n+13=plus\r\n-14=minus\r\n4294967296=big\r\n10=second";
    let idx = ScriptIndex::parse(ini);
    assert_eq!(idx.entry(10).unwrap().name, "second");
    assert_eq!(idx.entry(10).unwrap().vfs_path, "/script/sub/second.lua");
    assert!(idx.entry(11).is_none());
    assert_eq!(idx.entry(13).unwrap().vfs_path, "/script/sub/plus.lua");
    assert!(idx.entry(14).is_none());
    assert!(idx.entry(0).is_none());
}

#[test]
fn gbk_bytes_are_decoded_before_parsing() {
    // "[.]\n1=" followed by the GBK bytes of a two-character name.
    let mut raw = b"[.]\n1=".to_vec();
    raw.extend_from_slice(&[0xD6, 0xD0, 0xCE, 0xC4]);
    let idx = ScriptIndex::from_scriptlist(&raw);
    assert_eq!(idx.entry(1).unwrap().name, "中文");
    assert_eq!(idx.entry(1).unwrap().vfs_path, "/script/中文.lua");
}
