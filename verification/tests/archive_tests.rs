use rag_pipeline::RagError;
use rag_pipeline::archive::Archive;

#[test]
fn stored_document_is_retrievable() {
    let mut archive = Archive::new();
    let doc = archive
        .store("notes.txt".to_string(), "hello world".to_string(), 1700000000)
        .unwrap();
    assert_eq!(doc.filename, "notes.txt");
    assert_eq!(doc.bytes, 11);
    assert_eq!(doc.created_at, 1700000000);
    assert!(doc.id.starts_with("file_"));
    let text = archive.load(&doc.id, &doc.filename).unwrap();
    assert_eq!(text, "hello world");
}

#[test]
fn concurrent_uploads_of_same_filename_do_not_collide() {
    let mut archive = Archive::new();
    let d1 = archive.store("same.txt".to_string(), "first".to_string(), 1).unwrap();
    let d2 = archive.store("same.txt".to_string(), "second".to_string(), 2).unwrap();
    assert_ne!(d1.id, d2.id);
    assert_eq!(archive.load(&d1.id, &"same.txt".to_string()).unwrap(), "first");
    assert_eq!(archive.load(&d2.id, &"same.txt".to_string()).unwrap(), "second");
}

#[test]
fn disallowed_extension_is_rejected() {
    let mut archive = Archive::new();
    let r = archive.store("report.pdf".to_string(), "binary".to_string(), 0);
    assert!(matches!(r, Err(RagError::UnsupportedFormat)));
    assert_eq!(archive.len(), 0);
}

#[test]
fn extension_check_ignores_ascii_case() {
    let mut archive = Archive::new();
    assert!(archive.store("NOTES.TXT".to_string(), "caps".to_string(), 0).is_ok());
    assert!(archive.store("Readme.Md".to_string(), "mixed".to_string(), 0).is_ok());
}

#[test]
fn unknown_id_is_not_found() {
    let mut archive = Archive::new();
    let doc = archive.store("a.txt".to_string(), "text".to_string(), 0).unwrap();
    let missing = archive.load(&"file_nothing".to_string(), &"a.txt".to_string());
    assert_eq!(missing, Err(RagError::NotFound));
    let wrong_name = archive.load(&doc.id, &"b.txt".to_string());
    assert_eq!(wrong_name, Err(RagError::NotFound));
}
