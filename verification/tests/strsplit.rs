use panama::strsplit::{until_char, StrSplit};

fn collect_pieces<'a, D>(mut split: StrSplit<'a, D>) -> Vec<&'a str>
where
    D: panama::strsplit::Delimiter,
{
    let mut pieces = Vec::new();
    while let Some(piece) = split.next() {
        pieces.push(piece);
    }
    pieces
}

#[test]
fn until_char_test() {
    assert_eq!(until_char("hello world", 'o'), "hell");
}

#[test]
fn lib_it_works() {
    let haystack = "a b c d e";
    let letters = collect_pieces(StrSplit::new(haystack, " "));
    assert_eq!(letters, vec!["a", "b", "c", "d", "e"]);
}

#[test]
fn tail() {
    let haystack = "a b c d ";
    let letters = collect_pieces(StrSplit::new(haystack, " "));
    assert_eq!(letters, vec!["a", "b", "c", "d", ""]);
}

#[test]
fn char_delimiter_splits_too() {
    let haystack = "a b c d ";
    let letters = collect_pieces(StrSplit::new(haystack, ' '));
    assert_eq!(letters, vec!["a", "b", "c", "d", ""]);
}

#[test]
fn multi_char_delimiter() {
    let haystack = "one::two::three";
    let letters = collect_pieces(StrSplit::new(haystack, "::"));
    assert_eq!(letters, vec!["one", "two", "three"]);
}

#[test]
fn no_delimiter_yields_whole_string() {
    let letters = collect_pieces(StrSplit::new("abc", 'x'));
    assert_eq!(letters, vec!["abc"]);
}

#[test]
fn until_char_missing_gives_all() {
    assert_eq!(until_char("abc", 'z'), "abc");
}

#[test]
fn until_char_at_start_gives_empty() {
    assert_eq!(until_char("abc", 'a'), "");
}
