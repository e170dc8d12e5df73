use meadows::str::StrExt;

#[test]
fn test_str_ext_bt() {
    assert_eq!("a".bt(), "`a`");
    assert_eq!("äöü".to_owned().bt(), "`äöü`");
}

#[test]
fn test_str_ext_capitalize() {
    assert_eq!("".capitalize(), "");
    assert_eq!("abc".capitalize(), "Abc");
    assert_eq!("äöü".capitalize(), "Äöü");
    assert_eq!("€".capitalize(), "€");
}

#[test]
fn test_str_ext_uncapitalize() {
    assert_eq!("".uncapitalize(), "");
    assert_eq!("Abc".uncapitalize(), "abc");
    assert_eq!("Äöü".uncapitalize(), "äöü");
    assert_eq!("€".uncapitalize(), "€");
}

#[test]
fn capitalize_expands_a_character() {
    assert_eq!("ßx".capitalize(), "SSx");
    assert_eq!("übermut".capitalize(), "Übermut");
    assert_eq!("Übermut".uncapitalize(), "übermut");
}

#[test]
fn fence_wraps_lines() {
    assert_eq!("1st line\n2nd line".fence('*', 8), "*******\n*\n* 1st line\n* 2nd line\n*\n*******");
}

#[test]
fn fence_of_empty_text_and_narrow_width() {
    assert_eq!("".fence('#', 1), "\n#\n#\n");
    assert_eq!("a\r\nb".fence('-', 3), "--\n-\n- a\n- b\n-\n--");
}

#[test]
fn fence_line_endings() {
    assert_eq!("x\n\ny\n".fence('-', 2), "-\n-\n- x\n- \n- y\n-\n-");
    assert_eq!("a\r".fence('-', 2), "-\n-\n- a\r\n-\n-");
    assert_eq!("\n".fence('-', 2), "-\n-\n- \n-\n-");
}
