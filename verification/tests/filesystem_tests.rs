use rshrink::filesystem::filter_files;

const DEFAULT_REGEX: &str = r".*.(jpg|png|jpeg|JPG|PNG|JPEG)$";

#[test]
fn filter_keeps_matching_extensions() {
    let files = vec![
        "a.jpg".to_string(),
        "b.txt".to_string(),
        "c.PNG".to_string(),
        "d.jpeg".to_string(),
        "e.gif".to_string(),
    ];
    let kept = filter_files(files, DEFAULT_REGEX);
    assert_eq!(
        kept,
        vec!["a.jpg".to_string(), "c.PNG".to_string(), "d.jpeg".to_string()]
    );
}

#[test]
fn filter_keeps_order_and_duplicates() {
    let files = vec![
        "z.png".to_string(),
        "a.jpg".to_string(),
        "z.png".to_string(),
    ];
    let kept = filter_files(files, DEFAULT_REGEX);
    assert_eq!(
        kept,
        vec!["z.png".to_string(), "a.jpg".to_string(), "z.png".to_string()]
    );
}

#[test]
fn invalid_pattern_matches_nothing() {
    let files = vec!["a.jpg".to_string()];
    let kept = filter_files(files, "(");
    assert!(kept.is_empty());
}

#[test]
fn custom_pattern_is_honoured() {
    let files = vec!["report.pdf".to_string(), "photo.jpg".to_string()];
    let kept = filter_files(files, r".*\.pdf$");
    assert_eq!(kept, vec!["report.pdf".to_string()]);
}
