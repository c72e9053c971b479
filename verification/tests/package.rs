use std::io::Write;

use background_studio::package::{unpack, unpack_enclosed};

fn archive(entries: &[(&str, &[u8])]) -> Vec<u8> {
    let mut writer = zip::ZipWriter::new(std::io::Cursor::new(Vec::new()));
    let options = zip::write::SimpleFileOptions::default();
    for (name, content) in entries {
        if name.ends_with('/') {
            writer.add_directory(name.to_string(), options).unwrap();
        } else {
            writer.start_file(name.to_string(), options).unwrap();
            writer.write_all(content).unwrap();
        }
    }
    writer.finish().unwrap().into_inner()
}

#[test]
fn archive_is_unpacked() {
    let bytes = archive(&[
        ("plugin.json", b"{}"),
        ("bin/", b""),
        ("bin/worker.exe", b"MZ..."),
    ]);
    let entries = unpack(&bytes).ok().unwrap();
    assert_eq!(entries.len(), 3);
    assert_eq!(entries[0].path, "plugin.json");
    assert_eq!(entries[0].content.as_deref(), Some(&b"{}"[..]));
    assert_eq!(entries[1].content, None);
    assert_eq!(entries[2].path, "bin/worker.exe");
    assert_eq!(entries[2].content.as_deref(), Some(&b"MZ..."[..]));
}

#[test]
fn archive_errors_are_named() {
    assert!(unpack(&b"no archive".to_vec()).is_err());
    let outside = archive(&[("../evil.exe", b"x")]);
    assert_eq!(unpack(&outside).err().unwrap(), "插件包包含非法路径。");
    let names: Vec<String> = (0..129).map(|i| format!("f{i}")).collect();
    let many: Vec<(&str, &[u8])> = names.iter().map(|name| (name.as_str(), &b""[..])).collect();
    assert_eq!(
        unpack(&archive(&many)).err().unwrap(),
        "插件包文件数超过 128 项上限。"
    );
    let one = archive(&[("a", b"x")]);
    assert_eq!(
        unpack_enclosed(&one, &vec![false]).err().unwrap(),
        "插件包包含非法路径。"
    );
    assert_eq!(unpack_enclosed(&one, &vec![true]).ok().unwrap().len(), 1);
}

#[test]
fn paths_are_followed_part_by_part() {
    for path in ["a/../../x", "..", "a/./../../x", "/x"] {
        let bytes = archive(&[(path, b"x")]);
        assert_eq!(unpack(&bytes).err().unwrap(), "插件包包含非法路径。");
    }
    for path in ["a/../x", "./x", "a//b", "..x/y"] {
        let bytes = archive(&[(path, b"x")]);
        assert_eq!(unpack(&bytes).ok().unwrap()[0].path, path);
    }
}
