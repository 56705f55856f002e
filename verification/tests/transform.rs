use binheap::transform::{append_bar, transformer, trim, Command};

#[test]
fn it_works() {
    let output = transformer(vec![
        ("hello".into(), Command::Uppercase),
        (" all roads lead to rome! ".into(), Command::Trim),
        ("foo".into(), Command::Append(1)),
        ("bar".into(), Command::Append(5)),
    ]);
    assert_eq!(output[0], "HELLO");
    assert_eq!(output[1], "all roads lead to rome!");
    assert_eq!(output[2], "foobar");
    assert_eq!(output[3], "barbarbarbarbarbar");
}

#[test]
fn transformer_of_nothing_gives_nothing() {
    assert_eq!(transformer(vec![]).len(), 0);
}

#[test]
fn transformer_keeps_order_and_length() {
    let output = transformer(vec![
        ("b".into(), Command::Append(0)),
        ("stra\u{df}e".into(), Command::Uppercase),
        ("\t\n".into(), Command::Trim),
    ]);
    assert_eq!(output, vec!["b", "STRASSE", ""]);
}

#[test]
fn trim_leaves_inner_space_alone() {
    assert_eq!(trim("\u{a0} a  b \u{3000}\r\n"), "a  b");
    assert_eq!(trim("ab"), "ab");
    assert_eq!(trim(""), "");
}

#[test]
fn append_bar_counts() {
    assert_eq!(append_bar("", 0), "");
    assert_eq!(append_bar("x", 3), "xbarbarbar");
}
