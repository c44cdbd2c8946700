use convco::strip::{strip_message, Strip};

#[test]
fn test_name() {
    let s = "#


1
2  
3 


4
# 5

";
    assert_eq!("1\n2\n3\n\n4", s.strip());
}

#[test]
fn strip_of_owned_text_and_of_nothing() {
    assert_eq!(String::from(" a \r\n\r\n\r\nb\t").strip(), "a\n\nb");
    assert_eq!(strip_message(""), "");
    assert_eq!(strip_message("# only a comment"), "");
    assert_eq!(strip_message(" # indented is no comment"), "# indented is no comment");
}
