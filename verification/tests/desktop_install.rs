use gitara::desktop_install::{desktop_entry, exec_quote, exec_value, install_steps};

#[test]
fn plain_path_is_quoted() {
    assert_eq!(exec_quote("/usr/bin/gitara").unwrap(), "\"/usr/bin/gitara\"");
}

#[test]
fn path_with_spaces_is_quoted() {
    assert_eq!(
        exec_quote("/home/user/my apps/gitara").unwrap(),
        "\"/home/user/my apps/gitara\""
    );
}

#[test]
fn backslash_is_escaped() {
    assert_eq!(exec_quote("C:\\gitara").unwrap(), "\"C:\\\\gitara\"");
}

#[test]
fn double_quote_is_escaped() {
    assert_eq!(
        exec_quote("/path/\"bad\"/gitara").unwrap(),
        "\"/path/\\\"bad\\\"/gitara\""
    );
}

#[test]
fn control_chars_return_none() {
    assert!(exec_quote("/path/with\nnewline").is_none());
    assert!(exec_quote("/path/with\x00nul").is_none());
}

/// How a Desktop Entry reader takes a quoted value back.
fn read_back(q: &str) -> String {
    let inner = &q[1..q.len() - 1];
    let mut out = String::new();
    let mut chars = inner.chars();
    while let Some(c) = chars.next() {
        if c == '\\' {
            if let Some(n) = chars.next() {
                out.push(n);
                continue;
            }
        }
        out.push(c);
    }
    out
}

#[test]
fn quoted_value_reads_back_as_the_path() {
    for p in ["/usr/bin/gitara", "C:\\a\\\"b\"", "/odd \"dir\"/\\x", "/ü/ñ", ""] {
        let q = exec_quote(p).unwrap();
        assert!(q.starts_with('"') && q.ends_with('"'));
        assert_eq!(read_back(&q), p);
    }
}

#[test]
fn delete_char_is_a_control_char() {
    assert!(exec_quote("/a\x7fb").is_none());
    assert!(exec_quote("/a\tb").is_none());
    assert_eq!(exec_quote("/a~b").unwrap(), "\"/a~b\"");
}

#[test]
fn exec_value_falls_back_to_the_name() {
    assert_eq!(exec_value(None), "gitara");
    assert_eq!(exec_value(Some("/bad\npath")), "gitara");
    assert_eq!(exec_value(Some("/opt/gitara")), "\"/opt/gitara\"");
}

#[test]
fn desktop_entry_names_the_exec_value() {
    let e = desktop_entry("\"/opt/gitara\"");
    assert!(e.starts_with("[Desktop Entry]\n"));
    assert!(e.contains("\nExec=\"/opt/gitara\" %F\n"));
    assert!(e.contains("\nIcon=gitara\n"));
    assert!(e.contains("\nStartupWMClass=gitara\n"));
    assert!(e.ends_with("StartupWMClass=gitara\n"));
}

#[test]
fn a_system_entry_takes_precedence() {
    let s = install_steps(true, true, false);
    assert!(!s.write_icons && !s.write_entry && !s.refresh_caches);
    let s = install_steps(false, false, false);
    assert!(!s.write_icons && !s.write_entry);
}

#[test]
fn icons_are_always_rendered_and_the_entry_written_once() {
    let s = install_steps(false, true, false);
    assert!(s.write_icons && s.write_entry && s.refresh_caches);
    let s = install_steps(false, true, true);
    assert!(s.write_icons && !s.write_entry && s.refresh_caches);
}
