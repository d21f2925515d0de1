use icnx::filename::{determine_filename, split_name_ext, unique_name_candidate};
use icnx::model::DownloadItem;
use icnx::progress::{eta_secs, format_size, progress_permille, speed_bps};
use icnx::strutil::python_dict_to_json;
use icnx::transfer::resolve_item_filename;

#[test]
fn test_format_size() {
    assert_eq!(format_size(0), "0 B");
    assert_eq!(format_size(1), "1.00 B");
    assert!(format_size(1024).starts_with("1.00"));
    assert!(format_size(1024 * 1024).contains("MB"));
}

#[test]
fn test_split_name_ext() {
    let (a, b) = split_name_ext("file.txt");
    assert_eq!(a, "file");
    assert_eq!(b.unwrap(), "txt");

    let (a2, b2) = split_name_ext("noext");
    assert_eq!(a2, "noext");
    assert!(b2.is_none());

    let (a3, b3) = split_name_ext("weird.name.tar.gz");
    assert_eq!(a3, "weird.name.tar");
    assert_eq!(b3.unwrap(), "gz");
}

#[test]
fn test_determine_filename_from_url_and_content_type() {
    let url = "https://example.com/path/image";
    let fname = determine_filename(url, "image/png");
    assert!(fname.ends_with("png"));

    let url2 = "https://example.com/file.jpg?query=1";
    let fname2 = determine_filename(url2, "");
    assert!(fname2.ends_with("jpg"));

    let url3 = "https://example.com/";
    let fname3 = determine_filename(url3, "application/pdf");
    assert!(fname3.ends_with("pdf"));
}

#[test]
fn test_determine_filename_exact_values() {
    assert_eq!(determine_filename("https://example.com/path/image", "image/png"), "image.png");
    assert_eq!(determine_filename("https://example.com/file.jpg?query=1", ""), "file.jpg");
    assert_eq!(determine_filename("https://example.com/notes", "text/plain"), "notes.txt");
    assert_eq!(determine_filename("https://example.com/blob", "application/unknown"), "blob.bin");
    assert_eq!(determine_filename("https://example.com/archive.", "application/zip"), "archive.zip");
}

#[test]
fn test_resolve_item_filename_prefers_explicit_name() {
    let item = DownloadItem {
        url: "https://example.com/a/b".to_string(),
        filename: Some("given.bin".to_string()),
        title: None,
        type_tag: None,
        headers: Vec::new(),
    };
    assert_eq!(resolve_item_filename(&item, "image/png"), "given.bin");
}

#[test]
fn test_resolve_item_filename_guesses_from_type_tag() {
    // No usable segment and no known content-type word: the extension comes
    // from the declared type tag through the media-type guesser.
    let item = DownloadItem {
        url: "https://example.com/media/item".to_string(),
        filename: None,
        title: None,
        type_tag: Some("png".to_string()),
        headers: Vec::new(),
    };
    let name = resolve_item_filename(&item, "application/unknown");
    assert_eq!(name, "item.png");
}

#[test]
fn test_resolve_item_filename_content_type_wins() {
    let item = DownloadItem {
        url: "https://example.com/media/item".to_string(),
        filename: None,
        title: None,
        type_tag: Some("png".to_string()),
        headers: Vec::new(),
    };
    let name = resolve_item_filename(&item, "video/mp4");
    assert_eq!(name, "item.mp4");
}

#[test]
fn test_unique_name_candidate() {
    let ext = "txt".to_string();
    assert_eq!(unique_name_candidate("file", Some(&ext), 1), "file (1) .txt");
    assert_eq!(unique_name_candidate("file", None, 2), "file (2)");
}

#[test]
fn test_progress_metrics() {
    assert_eq!(progress_permille(512, Some(1024)), 500);
    assert_eq!(progress_permille(512, Some(0)), 0);
    assert_eq!(progress_permille(512, None), 0);
    assert_eq!(speed_bps(1000, 2000), 500);
    assert_eq!(speed_bps(1000, 0), 0);
    assert_eq!(eta_secs(Some(1024), 512, 512), Some(1));
    assert_eq!(eta_secs(Some(1024), 1024, 512), None);
    assert_eq!(eta_secs(Some(1024), 512, 0), None);
    assert_eq!(eta_secs(None, 512, 512), None);
}

#[test]
fn test_format_size_units() {
    assert_eq!(format_size(1023), "1023.00 B");
    assert_eq!(format_size(1024), "1.00 KB");
    assert_eq!(format_size(1536), "1.50 KB");
    assert_eq!(format_size(1073741824), "1.00 GB");
    assert_eq!(format_size(1099511627776), "1.00 TB");
}

#[test]
fn test_python_dict_to_json() {
    let out = python_dict_to_json("{'a': True, 'b': False, 'c': None}").unwrap();
    assert_eq!(out, "{'a': true, 'b': false, 'c': null}");
}
