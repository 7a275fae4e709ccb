use earth_files::thumbnailer::{command_args, decimal_string, mime_types, thumbnailer_table, Thumbnailer};

fn words(v: &[&str]) -> Vec<String> {
    v.iter().map(|s| s.to_string()).collect()
}

#[test]
fn exec_codes_are_replaced_by_the_input_output_and_size() {
    let t = Thumbnailer { exec_line: String::from("gdk-pixbuf-thumbnailer -s %s %u '%o'") };
    assert_eq!(
        t.command("file:///tmp/a b.png", "/tmp/out.png", 256),
        Some(words(&["gdk-pixbuf-thumbnailer", "-s", "256", "file:///tmp/a b.png", "/tmp/out.png"]))
    );
    let t = Thumbnailer { exec_line: String::from("thumb %i %o") };
    assert_eq!(t.command("/in", "/out", 128), Some(words(&["thumb", "/in", "/out"])));
}

#[test]
fn an_unknown_code_or_a_bad_template_gives_no_command() {
    let t = Thumbnailer { exec_line: String::from("thumb %x %o") };
    assert_eq!(t.command("/in", "/out", 128), None);
    let t = Thumbnailer { exec_line: String::from("thumb 'unterminated") };
    assert_eq!(t.command("/in", "/out", 128), None);
    let t = Thumbnailer { exec_line: String::new() };
    assert_eq!(t.command("/in", "/out", 128), None);
}

#[test]
fn the_program_is_never_expanded() {
    assert_eq!(
        command_args(&words(&["%i", "%i"]), "/in", "/out", 1),
        Some(words(&["%i", "/in"]))
    );
    // A word that merely contains a percent sign is kept as it is.
    assert_eq!(
        command_args(&words(&["p", "50%"]), "/in", "/out", 1),
        Some(words(&["p", "50%"]))
    );
}

#[test]
fn sizes_are_written_in_decimal() {
    for n in [0u32, 7, 10, 128, 4096, 1000000, u32::MAX] {
        assert_eq!(decimal_string(n), format!("{n}"));
    }
}

#[test]
fn mime_type_lists_split_as_split_terminator_does() {
    assert_eq!(mime_types("image/png;image/jpeg;"), vec!["image/png", "image/jpeg"]);
    assert_eq!(mime_types("a;;b"), vec!["a", "", "b"]);
    assert!(mime_types("").is_empty());
    assert_eq!(mime_types(";"), vec![""]);
    for s in ["x;y;z", "x;", ";x", "", ";;", "abc"] {
        let expected: Vec<&str> = s.split_terminator(';').collect();
        assert_eq!(mime_types(s), expected, "{s:?}");
    }
}

fn thumbnailer_file(name: &str, text: &str) -> (String, String) {
    (name.to_string(), text.to_string())
}

fn table_of(files: &[(String, String)], installed: &[&str]) -> Vec<(String, Vec<String>)> {
    thumbnailer_table(files, |program| installed.contains(&program))
        .into_iter()
        .map(|(mime, list)| (mime, list.into_iter().map(|t| t.exec_line).collect()))
        .collect()
}

#[test]
fn each_mime_type_collects_the_exec_lines_in_file_order() {
    let files = [
        thumbnailer_file("a.thumbnailer", "[Thumbnailer Entry]\nExec=a %i %o\nMimeType=image/png;image/jpeg;\n"),
        thumbnailer_file("b.thumbnailer", "[Thumbnailer Entry]\nExec=b %i %o\nMimeType=image/jpeg;\n"),
    ];
    assert_eq!(
        table_of(&files, &[]),
        vec![
            (String::from("image/png"), words(&["a %i %o"])),
            (String::from("image/jpeg"), words(&["a %i %o", "b %i %o"])),
        ]
    );
}

#[test]
fn the_first_file_of_a_name_shadows_later_ones() {
    let files = [
        thumbnailer_file("x.thumbnailer", "[Thumbnailer Entry]\nExec=user %i\nMimeType=text/plain;\n"),
        thumbnailer_file("x.thumbnailer", "[Thumbnailer Entry]\nExec=system %i\nMimeType=text/plain;\n"),
    ];
    assert_eq!(table_of(&files, &[]), vec![(String::from("text/plain"), words(&["user %i"]))]);
}

#[test]
fn entries_without_a_group_exec_types_or_program_are_skipped() {
    let files = [
        thumbnailer_file("nogroup.thumbnailer", "[Other]\nExec=x\nMimeType=text/plain;\n"),
        thumbnailer_file("noexec.thumbnailer", "[Thumbnailer Entry]\nMimeType=text/plain;\n"),
        thumbnailer_file("notypes.thumbnailer", "[Thumbnailer Entry]\nExec=y\n"),
        thumbnailer_file("missing.thumbnailer", "[Thumbnailer Entry]\nTryExec=gone\nExec=z\nMimeType=text/plain;\n"),
        thumbnailer_file("present.thumbnailer", "[Thumbnailer Entry]\nTryExec=here\nExec=w\nMimeType=text/plain;not a type;\n"),
    ];
    assert_eq!(table_of(&files, &["here"]), vec![(String::from("text/plain"), words(&["w"]))]);
}
