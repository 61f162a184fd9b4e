use website_pictures_server::codec::{decode, encode};
use website_pictures_server::errors::StoreError;
use website_pictures_server::gallery::{
    choose_highlight, gallery_entry, is_metadata_file, list_galleries, resolve_gallery,
    resolve_image,
};
use website_pictures_server::{Gallery, Image};

fn strings(names: &[&str]) -> Vec<String> {
    names.iter().map(|n| n.to_string()).collect()
}

#[test]
fn summer_gallery_listing() {
    let scan = vec![("Summer 2023".to_string(), strings(&["a.jpg", "b.jpg", "thumbs.db"]))];
    let entries = list_galleries(&scan);
    assert_eq!(entries.len(), 1);
    assert_eq!(entries[0].name, "Summer 2023");
    assert_eq!(entries[0].images, strings(&["a.jpg", "b.jpg"]));
    assert_eq!(decode(&entries[0].external_id).unwrap(), "Summer 2023");
}

#[test]
fn listing_keeps_scan_order() {
    let scan = vec![
        ("B".to_string(), strings(&["2.jpg"])),
        ("A".to_string(), strings(&["1.jpg"])),
    ];
    let entries = list_galleries(&scan);
    assert_eq!(entries.len(), 2);
    assert_eq!(entries[0].name, "B");
    assert_eq!(entries[1].name, "A");
}

#[test]
fn metadata_suffix_detection() {
    assert!(is_metadata_file("thumbs.db"));
    assert!(is_metadata_file(".db"));
    assert!(!is_metadata_file("db"));
    assert!(!is_metadata_file("photo.jpg"));
    assert!(!is_metadata_file("archive.dbx"));
}

#[test]
fn entry_hides_only_metadata_files() {
    let files = strings(&["thumbs.db", "x.jpg", "notes.db", "y.png", ".db"]);
    let entry = gallery_entry("Trips", &files);
    assert_eq!(entry.images, strings(&["x.jpg", "y.png"]));
    assert_eq!(entry.external_id, "Trips");
}

#[test]
fn resolve_image_accepts_safe_names() {
    let id = encode("Summer 2023");
    let r = resolve_image(&id, "a.jpg").unwrap();
    assert_eq!(r.gallery, "Summer 2023");
    assert_eq!(r.image, "a.jpg");
}

#[test]
fn resolve_image_rejects_dot_dot_image() {
    let id = encode("Summer 2023");
    assert_eq!(resolve_image(&id, "..").unwrap_err(), StoreError::PathViolation);
    assert_eq!(resolve_image(&id, "../secret.jpg").unwrap_err(), StoreError::PathViolation);
}

#[test]
fn resolve_image_rejects_separators_and_absolute_paths() {
    let id = encode("Summer 2023");
    assert_eq!(resolve_image(&id, "a/b.jpg").unwrap_err(), StoreError::PathViolation);
    assert_eq!(resolve_image(&id, "/etc/passwd").unwrap_err(), StoreError::PathViolation);
    assert_eq!(resolve_image(&id, "a\\b.jpg").unwrap_err(), StoreError::PathViolation);
    assert_eq!(resolve_image(&id, "").unwrap_err(), StoreError::PathViolation);
}

#[test]
fn resolve_image_rejects_escaping_gallery_ids() {
    assert_eq!(resolve_image("..", "a.jpg").unwrap_err(), StoreError::PathViolation);
    assert_eq!(resolve_image(&encode(".."), "a.jpg").unwrap_err(), StoreError::PathViolation);
    assert_eq!(
        resolve_image(&encode("../../root"), "a.jpg").unwrap_err(),
        StoreError::PathViolation
    );
    assert_eq!(resolve_image(&encode(""), "a.jpg").unwrap_err(), StoreError::PathViolation);
}

#[test]
fn resolve_image_rejects_malformed_ids() {
    assert_eq!(resolve_image("%12", "a.jpg").unwrap_err(), StoreError::InvalidInput);
    assert_eq!(resolve_image("%GGGGGG", "a.jpg").unwrap_err(), StoreError::InvalidInput);
}

#[test]
fn resolve_gallery_decodes_and_guards() {
    assert_eq!(resolve_gallery(&encode("Summer 2023")).unwrap(), "Summer 2023");
    assert_eq!(resolve_gallery(&encode("a/b")).unwrap_err(), StoreError::PathViolation);
    assert_eq!(resolve_gallery("%").unwrap_err(), StoreError::InvalidInput);
}

#[test]
fn highlight_of_empty_gallery_is_not_found() {
    let files: Vec<String> = Vec::new();
    assert_eq!(choose_highlight(&files).unwrap_err(), StoreError::NotFound);
}

#[test]
fn highlight_is_first_scanned_file() {
    let files = strings(&["first.jpg", "second.jpg"]);
    assert_eq!(choose_highlight(&files).unwrap(), "first.jpg");
    assert!(files.contains(choose_highlight(&files).unwrap()));
}

#[test]
fn hand_built_gallery_tracks_images_and_highlight() {
    let mut g = Gallery::new();
    assert!(g.get_highlight().is_none());
    g.add_image(Image { name: "a.jpg".to_string(), path: "root/a.jpg".to_string() });
    g.add_image(Image { name: "b.jpg".to_string(), path: "root/b.jpg".to_string() });
    assert_eq!(g.images.len(), 2);
    assert_eq!(g.images[0].name, "a.jpg");
    g.set_highlight(Image { name: "b.jpg".to_string(), path: "root/b.jpg".to_string() });
    let h = g.get_highlight().unwrap();
    assert_eq!(h.name, "b.jpg");
    assert_eq!(h.path, "root/b.jpg");
    assert_eq!(g.images.len(), 2);
}

#[test]
fn empty_scan_lists_no_galleries() {
    let scan: Vec<(String, Vec<String>)> = Vec::new();
    assert!(list_galleries(&scan).is_empty());
}

#[test]
fn gallery_of_only_metadata_files_lists_empty_images() {
    let scan = vec![("Archive".to_string(), strings(&["thumbs.db", "cache.db"]))];
    let entries = list_galleries(&scan);
    assert_eq!(entries.len(), 1);
    assert!(entries[0].images.is_empty());
}
