use installer::archive::{
    plan_entry, plan_target, plan_zip_extraction, ArchiveEntry, EntryTarget, ExtractFailure,
    ExtractStep, ZipPlan,
};
use installer::entry_path::resolve_entry_name;
use installer::orchestrator::InstallEvent;
use installer::text::{join_path, Separator};
use std::io::Write;
use zip::write::SimpleFileOptions;

fn archive_of(entries: &[(&str, Option<&[u8]>)]) -> Vec<u8> {
    let mut writer = zip::ZipWriter::new(std::io::Cursor::new(Vec::new()));
    for (name, contents) in entries {
        match contents {
            Some(bytes) => {
                writer.start_file(*name, SimpleFileOptions::default()).unwrap();
                writer.write_all(bytes).unwrap();
            }
            None => {
                writer.add_directory(*name, SimpleFileOptions::default()).unwrap();
            }
        }
    }
    writer.finish().unwrap().into_inner()
}

fn entry(name: &str, is_dir: bool, contents: &[u8]) -> ArchiveEntry {
    ArchiveEntry { name: name.to_string(), is_dir, contents: contents.to_vec() }
}

#[test]
fn plans_files_and_directories_in_archive_order() {
    let bytes = archive_of(&[
        ("bin/", None),
        ("bin/Mangyomi.exe", Some(b"MZ\x90\x00")),
        ("version.txt", Some(b"1.2.3\n")),
    ]);
    let plan = plan_zip_extraction(bytes, "C:\\Out", Separator::Backslash).unwrap();
    assert_eq!(
        plan,
        vec![
            ExtractStep::CreateDirectory { path: "C:\\Out\\bin".to_string() },
            ExtractStep::WriteFile {
                parent: "C:\\Out\\bin".to_string(),
                path: "C:\\Out\\bin\\Mangyomi.exe".to_string(),
                contents: b"MZ\x90\x00".to_vec(),
            },
            ExtractStep::WriteFile {
                parent: "C:\\Out".to_string(),
                path: "C:\\Out\\version.txt".to_string(),
                contents: b"1.2.3\n".to_vec(),
            },
        ]
    );
}

#[test]
fn empty_archive_gives_empty_plan() {
    let bytes = archive_of(&[]);
    assert_eq!(plan_zip_extraction(bytes, "C:\\Out", Separator::Backslash), Ok(vec![]));
}

#[test]
fn bytes_that_are_no_archive_are_unreadable() {
    let plan = plan_zip_extraction(b"this is not a zip archive".to_vec(), "C:\\Out", Separator::Backslash);
    assert!(matches!(plan, Err(ExtractFailure::Unreadable { .. })));
}

#[test]
fn parent_segments_abort_the_whole_plan() {
    let bytes = archive_of(&[("ok.txt", Some(b"fine")), ("../evil.txt", Some(b"bad"))]);
    assert_eq!(
        plan_zip_extraction(bytes, "C:\\Out", Separator::Backslash),
        Err(ExtractFailure::UnsafeName { name: "../evil.txt".to_string() })
    );
}

#[test]
fn absolute_names_are_refused() {
    assert_eq!(
        plan_entry("C:\\Out", entry("/etc/shadow", false, b"x"), Separator::Backslash),
        Err(ExtractFailure::UnsafeName { name: "/etc/shadow".to_string() })
    );
    assert_eq!(
        plan_entry("C:\\Out", entry("\\Windows\\win.ini", false, b"x"), Separator::Backslash),
        Err(ExtractFailure::UnsafeName { name: "\\Windows\\win.ini".to_string() })
    );
    assert_eq!(
        plan_entry("C:\\Out", entry("D:\\x.txt", false, b"x"), Separator::Backslash),
        Err(ExtractFailure::UnsafeName { name: "D:\\x.txt".to_string() })
    );
}

#[test]
fn parent_segments_inside_the_destination_are_resolved() {
    assert_eq!(
        plan_entry("C:\\Out", entry("a/../b/./c.txt", false, b"x"), Separator::Backslash),
        Ok(ExtractStep::WriteFile {
            parent: "C:\\Out\\b".to_string(),
            path: "C:\\Out\\b\\c.txt".to_string(),
            contents: b"x".to_vec(),
        })
    );
    assert_eq!(
        plan_entry("C:\\Out", entry("a/../../b.txt", false, b"x"), Separator::Backslash),
        Err(ExtractFailure::UnsafeName { name: "a/../../b.txt".to_string() })
    );
}

#[test]
fn unsafe_name_message_quotes_the_name() {
    let failure = ExtractFailure::UnsafeName { name: "..\\evil \"x\"".to_string() };
    assert_eq!(
        failure.message(),
        "entry name leaves the destination: \"..\\\\evil \\\"x\\\"\""
    );
}

#[test]
fn entry_names_resolve_to_plain_components() {
    let list = |parts: &[&str]| Some(parts.iter().map(|p| p.to_string()).collect::<Vec<String>>());
    assert_eq!(resolve_entry_name("a/b/c.txt", Separator::Backslash), list(&["a", "b", "c.txt"]));
    assert_eq!(resolve_entry_name("a\\b\\c.txt", Separator::Backslash), list(&["a", "b", "c.txt"]));
    assert_eq!(resolve_entry_name("a//b/./c/", Separator::Backslash), list(&["a", "b", "c"]));
    assert_eq!(resolve_entry_name("a/b/../c", Separator::Backslash), list(&["a", "c"]));
    assert_eq!(resolve_entry_name("a/..", Separator::Backslash), list(&[]));
    assert_eq!(resolve_entry_name("", Separator::Backslash), list(&[]));
    assert_eq!(resolve_entry_name("...", Separator::Backslash), list(&["..."]));
    assert_eq!(resolve_entry_name(".hidden/..x", Separator::Backslash), list(&[".hidden", "..x"]));
}

#[test]
fn escaping_entry_names_are_refused() {
    for name in [
        "..",
        "../x",
        "a/../../x",
        "a/b/../../../x",
        "..\\..\\Windows\\system32\\x.dll",
        "/etc/passwd",
        "\\\\server\\share\\x",
        "a\0b",
        "x/../..",
    ] {
        assert_eq!(resolve_entry_name(name, Separator::Backslash), None, "{:?}", name);
        assert_eq!(resolve_entry_name(name, Separator::Slash), None, "{:?}", name);
    }
}

#[test]
fn colon_is_refused_only_where_backslash_separates() {
    let list = |parts: &[&str]| Some(parts.iter().map(|p| p.to_string()).collect::<Vec<String>>());
    for name in ["C:\\Windows\\x", "C:x", "a/b:stream", "12:30.txt", ":"] {
        assert_eq!(resolve_entry_name(name, Separator::Backslash), None, "{:?}", name);
    }
    assert_eq!(resolve_entry_name("12:30.txt", Separator::Slash), list(&["12:30.txt"]));
    assert_eq!(resolve_entry_name("C:x", Separator::Slash), list(&["C:x"]));
    assert_eq!(resolve_entry_name("a/b:stream", Separator::Slash), list(&["a", "b:stream"]));
    assert_eq!(resolve_entry_name(":", Separator::Slash), list(&[":"]));
    assert_eq!(
        plan_target("/tmp/out", "12:30.txt".to_string(), false, Separator::Slash),
        Ok(EntryTarget::File {
            parent: "/tmp/out".to_string(),
            path: "/tmp/out/12:30.txt".to_string(),
        })
    );
    assert_eq!(
        plan_target("C:\\Out", "12:30.txt".to_string(), false, Separator::Backslash),
        Err(ExtractFailure::UnsafeName { name: "12:30.txt".to_string() })
    );
    assert_eq!(
        plan_zip_extraction(
            archive_of(&[("logs/", None), ("logs/12:30.txt", Some(b"noon"))]),
            "/tmp/out",
            Separator::Slash
        ),
        Ok(vec![
            ExtractStep::CreateDirectory { path: "/tmp/out/logs".to_string() },
            ExtractStep::WriteFile {
                parent: "/tmp/out/logs".to_string(),
                path: "/tmp/out/logs/12:30.txt".to_string(),
                contents: b"noon".to_vec(),
            },
        ])
    );
    // NUL is refused on every host.
    assert_eq!(resolve_entry_name("a\0b", Separator::Slash), None);
}

#[test]
fn hostile_names_never_leave_the_destination() {
    let names = [
        "ok.txt",
        "../evil.txt",
        "a/../../evil.txt",
        "/abs.txt",
        "\\abs.txt",
        "C:\\abs.txt",
        "a/b/../c.txt",
        "./a/./b.txt",
        "..\\..\\evil.txt",
        "dir/",
        "dir/../",
        "a/../b/",
    ];
    for name in names {
        for is_dir in [false, true] {
            match plan_entry("C:\\Out", entry(name, is_dir, b"x"), Separator::Backslash) {
                Err(_) => {}
                Ok(ExtractStep::CreateDirectory { path }) => {
                    assert!(path == "C:\\Out" || path.starts_with("C:\\Out\\"), "{:?}", path);
                    assert!(!path.contains(".."), "{:?}", path);
                }
                Ok(ExtractStep::WriteFile { parent, path, .. }) => {
                    assert!(path.starts_with("C:\\Out\\"), "{:?}", path);
                    assert!(parent == "C:\\Out" || parent.starts_with("C:\\Out\\"), "{:?}", parent);
                    assert!(!path.contains(".."), "{:?}", path);
                }
            }
        }
    }
}

#[test]
fn directory_entries_are_known_by_flag_or_trailing_slash() {
    assert_eq!(
        plan_entry("C:\\Out", entry("docs/", false, b""), Separator::Backslash),
        Ok(ExtractStep::CreateDirectory { path: "C:\\Out\\docs".to_string() })
    );
    assert_eq!(
        plan_entry("C:\\Out", entry("docs", true, b""), Separator::Backslash),
        Ok(ExtractStep::CreateDirectory { path: "C:\\Out\\docs".to_string() })
    );
    assert_eq!(
        plan_entry("C:\\Out", entry("docs", false, b""), Separator::Backslash),
        Ok(ExtractStep::WriteFile {
            parent: "C:\\Out".to_string(),
            path: "C:\\Out\\docs".to_string(),
            contents: vec![],
        })
    );
    assert_eq!(
        plan_entry("C:\\Out", entry("./", true, b""), Separator::Backslash),
        Ok(ExtractStep::CreateDirectory { path: "C:\\Out".to_string() })
    );
}

#[test]
fn file_entry_without_a_name_is_refused() {
    assert_eq!(
        plan_entry("C:\\Out", entry("", false, b"x"), Separator::Backslash),
        Err(ExtractFailure::MissingFileName { name: "".to_string() })
    );
    assert_eq!(
        plan_entry("C:\\Out", entry("a/..", false, b"x"), Separator::Backslash),
        Err(ExtractFailure::MissingFileName { name: "a/..".to_string() })
    );
    assert_eq!(
        ExtractFailure::MissingFileName { name: "a/..".to_string() }.message(),
        "entry has no file name: \"a/..\""
    );
}

#[test]
fn destination_is_joined_with_one_separator() {
    assert_eq!(join_path("C:\\Out", "a", Separator::Backslash), "C:\\Out\\a");
    assert_eq!(join_path("C:\\Out\\", "a", Separator::Backslash), "C:\\Out\\a");
    assert_eq!(join_path("C:/Out/", "a", Separator::Backslash), "C:/Out/a");
    assert_eq!(join_path("", "a", Separator::Backslash), "a");
    assert_eq!(
        plan_entry("C:\\", entry("a/b.txt", false, b"x"), Separator::Backslash),
        Ok(ExtractStep::WriteFile {
            parent: "C:\\a".to_string(),
            path: "C:\\a\\b.txt".to_string(),
            contents: b"x".to_vec(),
        })
    );
    assert_eq!(
        plan_entry("", entry("a/b.txt", false, b"x"), Separator::Backslash),
        Ok(ExtractStep::WriteFile {
            parent: "a".to_string(),
            path: "a\\b.txt".to_string(),
            contents: b"x".to_vec(),
        })
    );
}

#[test]
fn contents_are_kept_byte_for_byte() {
    let mut contents = Vec::new();
    for i in 0..=255u8 {
        contents.push(i);
    }
    for _ in 0..2000 {
        contents.extend_from_slice(b"the same line again and again\r\n");
    }
    let bytes = archive_of(&[("bin/data.bin", Some(&contents))]);
    let plan = plan_zip_extraction(bytes, "C:\\Out", Separator::Backslash).unwrap();
    assert_eq!(
        plan,
        vec![ExtractStep::WriteFile {
            parent: "C:\\Out\\bin".to_string(),
            path: "C:\\Out\\bin\\data.bin".to_string(),
            contents,
        }]
    );
}

#[test]
fn damaged_entry_aborts_the_plan_with_its_index() {
    let payload = b"0123456789 payload that is stored as it is 0123456789";
    let mut writer = zip::ZipWriter::new(std::io::Cursor::new(Vec::new()));
    let stored = SimpleFileOptions::default().compression_method(zip::CompressionMethod::Stored);
    writer.start_file("first.txt", stored).unwrap();
    writer.write_all(b"fine").unwrap();
    writer.start_file("second.txt", stored).unwrap();
    writer.write_all(payload).unwrap();
    let mut bytes = writer.finish().unwrap().into_inner();
    let at = bytes.windows(payload.len()).position(|w| w == payload).unwrap();
    bytes[at] ^= 0xFF;
    match plan_zip_extraction(bytes, "C:\\Out", Separator::Backslash) {
        Err(ExtractFailure::EntryUnreadable { index, cause }) => {
            assert_eq!(index, 1);
            assert!(!cause.is_empty());
        }
        other => panic!("unexpected plan: {:?}", other),
    }
}

#[test]
fn unreadable_archive_message_is_the_cause() {
    match plan_zip_extraction(vec![], "C:\\Out", Separator::Backslash) {
        Err(failure) => {
            let ExtractFailure::Unreadable { cause } = &failure else {
                panic!("unexpected failure: {:?}", failure);
            };
            assert_eq!(&failure.message(), cause);
            assert_eq!(
                InstallEvent::from_plan_failure(&failure),
                InstallEvent::ExtractionFailed { cause: cause.clone() }
            );
        }
        Ok(plan) => panic!("unexpected plan: {:?}", plan),
    }
}

#[test]
fn long_names_are_resolved_in_one_pass() {
    let mut name = String::new();
    for _ in 0..30000 {
        name.push_str("d/");
    }
    name.push_str("file.bin");
    let components = resolve_entry_name(&name, Separator::Backslash).unwrap();
    assert_eq!(components.len(), 30001);
    assert_eq!(components[30000], "file.bin");
    match plan_entry("C:\\Out", entry(&name, false, b"x"), Separator::Backslash) {
        Ok(ExtractStep::WriteFile { parent, path, .. }) => {
            assert_eq!(parent.len(), "C:\\Out".len() + 2 * 30000);
            assert_eq!(path, format!("{}\\file.bin", parent));
        }
        other => panic!("unexpected step: {:?}", other),
    }
    let mut climbing = String::new();
    for _ in 0..20000 {
        climbing.push_str("d/../");
    }
    assert_eq!(resolve_entry_name(&climbing, Separator::Backslash), Some(vec![]));
    climbing.push_str("../x");
    assert_eq!(resolve_entry_name(&climbing, Separator::Backslash), None);
}

#[test]
fn stepwise_plan_gives_the_steps_one_by_one() {
    let entries: [(&str, Option<&[u8]>); 3] =
        [("bin/", None), ("bin/a.txt", Some(b"alpha")), ("b.txt", Some(b"beta"))];
    let whole = plan_zip_extraction(archive_of(&entries), "C:\\Out", Separator::Backslash).unwrap();
    let mut plan = ZipPlan::open(archive_of(&entries), "C:\\Out", Separator::Backslash).unwrap();
    assert_eq!(plan.remaining(), 3);
    let mut steps = Vec::new();
    while let Some(step) = plan.next_step() {
        steps.push(step.unwrap());
        assert_eq!(plan.remaining(), 3 - steps.len());
    }
    assert_eq!(steps, whole);
    assert_eq!(plan.next_step(), None);
    assert_eq!(plan.remaining(), 0);
}

#[test]
fn stepwise_plan_ends_at_the_first_failure() {
    let bytes = archive_of(&[
        ("ok.txt", Some(b"fine")),
        ("../evil.txt", Some(b"bad")),
        ("late.txt", Some(b"never")),
    ]);
    let mut plan = ZipPlan::open(bytes, "C:\\Out", Separator::Backslash).unwrap();
    assert_eq!(
        plan.next_step(),
        Some(Ok(ExtractStep::WriteFile {
            parent: "C:\\Out".to_string(),
            path: "C:\\Out\\ok.txt".to_string(),
            contents: b"fine".to_vec(),
        }))
    );
    assert_eq!(
        plan.next_step(),
        Some(Err(ExtractFailure::UnsafeName { name: "../evil.txt".to_string() }))
    );
    assert_eq!(plan.remaining(), 0);
    assert_eq!(plan.next_step(), None);
}

#[test]
fn stepwise_plan_does_not_open_what_is_no_archive() {
    assert!(matches!(
        ZipPlan::open(b"PK but not really".to_vec(), "C:\\Out", Separator::Backslash),
        Err(ExtractFailure::Unreadable { .. })
    ));
}

#[test]
fn targets_take_the_separator_of_the_host() {
    let slash = Separator::Slash;
    assert_eq!(
        plan_zip_extraction(archive_of(&[("a/b/c.txt", Some(b"hi"))]), "/tmp/out", slash),
        Ok(vec![ExtractStep::WriteFile {
            parent: "/tmp/out/a/b".to_string(),
            path: "/tmp/out/a/b/c.txt".to_string(),
            contents: b"hi".to_vec(),
        }])
    );
    assert_eq!(
        plan_zip_extraction(archive_of(&[("a.txt", Some(b"new"))]), "/tmp/out", slash),
        Ok(vec![ExtractStep::WriteFile {
            parent: "/tmp/out".to_string(),
            path: "/tmp/out/a.txt".to_string(),
            contents: b"new".to_vec(),
        }])
    );
    assert_eq!(
        plan_zip_extraction(archive_of(&[("d/e/", None)]), "/tmp/out", slash),
        Ok(vec![ExtractStep::CreateDirectory { path: "/tmp/out/d/e".to_string() }])
    );
    assert_eq!(
        plan_entry("/tmp/out/", entry("a\\b.txt", false, b"x"), slash),
        Ok(ExtractStep::WriteFile {
            parent: "/tmp/out/a".to_string(),
            path: "/tmp/out/a/b.txt".to_string(),
            contents: b"x".to_vec(),
        })
    );
}

#[test]
fn joining_goes_by_the_separators_of_the_host() {
    assert_eq!(Separator::from_char('\\'), Separator::Backslash);
    assert_eq!(Separator::from_char('/'), Separator::Slash);
    assert_eq!(Separator::from_char(std::path::MAIN_SEPARATOR), Separator::Slash);
    assert_eq!(Separator::Backslash.as_char(), '\\');
    assert_eq!(Separator::Slash.as_char(), '/');
    assert_eq!(join_path("/tmp/out", "a", Separator::Slash), "/tmp/out/a");
    assert_eq!(join_path("/tmp/out/", "a", Separator::Slash), "/tmp/out/a");
    // Where `/` separates, a backslash is a character like any other.
    assert_eq!(join_path("/tmp/out\\", "a", Separator::Slash), "/tmp/out\\/a");
    assert_eq!(join_path("", "a", Separator::Slash), "a");
}

#[test]
fn joining_agrees_with_the_path_join_of_the_host() {
    let separator = Separator::from_char(std::path::MAIN_SEPARATOR);
    for base in ["/tmp/out", "/tmp/out/", "rel", "", "/"] {
        for name in ["a", "a.txt", "Mangyomi.exe"] {
            let joined = std::path::Path::new(base).join(name);
            assert_eq!(join_path(base, name, separator), joined.to_string_lossy());
        }
    }
}

#[test]
fn joining_only_puts_one_text_after_the_other() {
    // A separator goes after a bare drive, where the join of a host with
    // drives keeps the drive's current directory.
    assert_eq!(join_path("C:", "name", Separator::Backslash), "C:\\name");
    // A name that is absolute does not replace what it is placed under.
    assert_eq!(join_path("C:\\Out", "\\Windows", Separator::Backslash), "C:\\Out\\\\Windows");
    assert_eq!(join_path("C:\\Out", "D:\\x", Separator::Backslash), "C:\\Out\\D:\\x");
    assert_eq!(join_path("/tmp/out", "/etc", Separator::Slash), "/tmp/out//etc");
    assert_eq!(join_path("C:/Out", "a", Separator::Backslash), "C:/Out\\a");
}

#[test]
fn plan_target_plans_without_contents() {
    assert_eq!(
        plan_target("/srv", "bin/tool".to_string(), false, Separator::Slash),
        Ok(EntryTarget::File { parent: "/srv/bin".to_string(), path: "/srv/bin/tool".to_string() })
    );
    assert_eq!(
        plan_target("C:\\Out", "bin/".to_string(), false, Separator::Backslash),
        Ok(EntryTarget::Directory { path: "C:\\Out\\bin".to_string() })
    );
    assert_eq!(
        plan_target("/srv", "../x".to_string(), false, Separator::Slash),
        Err(ExtractFailure::UnsafeName { name: "../x".to_string() })
    );
}

#[test]
fn directory_entries_are_planned_unread() {
    let payload = b"data that a directory entry should not carry, damaged below";
    let mut writer = zip::ZipWriter::new(std::io::Cursor::new(Vec::new()));
    let stored = SimpleFileOptions::default().compression_method(zip::CompressionMethod::Stored);
    writer.start_file("odd/", stored).unwrap();
    writer.write_all(payload).unwrap();
    writer.start_file("odd/file.txt", stored).unwrap();
    writer.write_all(b"fine").unwrap();
    let mut bytes = writer.finish().unwrap().into_inner();
    let at = bytes.windows(payload.len()).position(|w| w == payload).unwrap();
    bytes[at] ^= 0xFF;
    assert_eq!(
        plan_zip_extraction(bytes, "C:\\Out", Separator::Backslash),
        Ok(vec![
            ExtractStep::CreateDirectory { path: "C:\\Out\\odd".to_string() },
            ExtractStep::WriteFile {
                parent: "C:\\Out\\odd".to_string(),
                path: "C:\\Out\\odd\\file.txt".to_string(),
                contents: b"fine".to_vec(),
            },
        ])
    );
}
